//! What an override does to the code it takes the place of: a `super` call that was
//! written in an ancestor still reaches the version that the ancestor saw.
use crate::ast::{
    arms_v, body_v, clone_opt_text, copy_captures, exprs_v, methods_v, opt_expr_v, segs_v, ArmV,
    Expr, ExprV, FStringSegment, FnDecl, FnV, MatchArm, SegV, Spanned, SpannedV, Statement, StmtV,
};
use crate::semantic::super_name;
use crate::text::{begins, chars_of, has_text, same, slice_text, starts_with, texts};
use vstd::prelude::*;

verus! {

broadcast use crate::ast::group_views;

/// Whether a method is a version that an override of one of `names` moves one further
/// back. Only a version that inheritance itself has made, one of `made`, is.
pub open spec fn version_of(name: Seq<char>, names: Seq<Seq<char>>, made: Seq<Seq<char>>) -> bool
    decreases name.len(),
{
    made.contains(name) && begins(name, "super_"@) && "super_"@.len() > 0 && {
        let inner = name.subrange("super_"@.len() as int, name.len() as int);
        names.contains(inner) || version_of(inner, names, made)
    }
}

fn is_version(name: &str, names: &Vec<String>, made: &Vec<String>) -> (r: bool)
    ensures
        r == version_of(name@, texts(names@), texts(made@)),
    decreases name@.len(),
{
    if !has_text(made, name) || !starts_with(name, "super_") {
        return false;
    }
    proof {
        reveal_strlit("super_");
    }
    let v = chars_of(name);
    let inner = slice_text(&v, 6, v.len());
    has_text(names, inner.as_str()) || is_version(inner.as_str(), names, made)
}

/// Those of the first `n` made versions that move where the methods `names` are
/// overridden. One that is overridden itself does not.
pub open spec fn moved_spec(names: Seq<Seq<char>>, made: Seq<Seq<char>>, n: nat) -> Seq<Seq<char>>
    decreases n,
{
    if n == 0 || n > made.len() {
        Seq::empty()
    } else {
        let out = moved_spec(names, made, (n - 1) as nat);
        let name = made[n - 1];
        if version_of(name, names, made) && !names.contains(name) {
            out.push(name)
        } else {
            out
        }
    }
}

pub(crate) fn moved_names(names: &Vec<String>, made: &Vec<String>) -> (r: Vec<String>)
    ensures
        texts(r@) == moved_spec(texts(names@), texts(made@), made@.len()),
{
    let mut out: Vec<String> = Vec::new();
    let mut i: usize = 0;
    assert(texts(out@) =~= Seq::<Seq<char>>::empty());
    while i < made.len()
        invariant
            i <= made@.len(),
            texts(out@) == moved_spec(texts(names@), texts(made@), i as nat),
        decreases made@.len() - i,
    {
        let name = made[i].as_str();
        let ghost before = texts(out@);
        assert(texts(made@)[i as int] == name@);
        if is_version(name, names, made) && !has_text(names, name) {
            out.push(made[i].clone());
            assert(texts(out@) =~= before.push(name@));
        }
        i += 1;
    }
    out
}

/// The name that a method has once the versions `moved` have moved.
pub open spec fn next_version(name: Seq<char>, moved: Seq<Seq<char>>) -> Seq<char> {
    if moved.contains(name) {
        "super_"@ + name
    } else {
        name
    }
}

pub(crate) fn next_name(name: &str, moved: &Vec<String>) -> (r: String)
    ensures
        r@ == next_version(name@, texts(moved@)),
{
    if has_text(moved, name) {
        super_name(name)
    } else {
        String::from_str(name)
    }
}

/// What a call names, so that it reaches the version that it reached before.
pub open spec fn lift_call(base: ExprV, method: Seq<char>, moved: Seq<Seq<char>>) -> Seq<char> {
    if base == ExprV::Identifier("super"@) && moved.contains("super_"@ + method) {
        "super_"@ + method
    } else {
        method
    }
}

/// An expression whose `super` calls reach what they reached before.
pub open spec fn lift_expr(e: ExprV, moved: Seq<Seq<char>>) -> ExprV
    decreases e,
{
    match e {
        ExprV::FnCall { name, args } => ExprV::FnCall { name, args: lift_exprs(args, moved) },
        ExprV::Instantiation { type_def, args } => ExprV::Instantiation {
            type_def,
            args: lift_exprs(args, moved),
        },
        ExprV::StaticCall { type_def, method, args } => ExprV::StaticCall {
            type_def,
            method,
            args: lift_exprs(args, moved),
        },
        ExprV::PropertyAccess { base, property } => ExprV::PropertyAccess {
            base: Box::new(lift_expr(*base, moved)),
            property,
        },
        ExprV::MethodCall { base, method, args } => ExprV::MethodCall {
            base: Box::new(lift_expr(*base, moved)),
            method: lift_call(*base, method, moved),
            args: lift_exprs(args, moved),
        },
        ExprV::IndexAccess { base, index } => ExprV::IndexAccess {
            base: Box::new(lift_expr(*base, moved)),
            index: Box::new(lift_expr(*index, moved)),
        },
        ExprV::BinaryOp { left, operator, right } => ExprV::BinaryOp {
            left: Box::new(lift_expr(*left, moved)),
            operator,
            right: Box::new(lift_expr(*right, moved)),
        },
        ExprV::FString(segs) => ExprV::FString(lift_segs(segs, moved)),
        ExprV::Neg(x) => ExprV::Neg(Box::new(lift_expr(*x, moved))),
        ExprV::Not(x) => ExprV::Not(Box::new(lift_expr(*x, moved))),
        ExprV::ArrayLiteral(xs) => ExprV::ArrayLiteral(lift_exprs(xs, moved)),
        _ => e,
    }
}

pub open spec fn lift_exprs(s: Seq<ExprV>, moved: Seq<Seq<char>>) -> Seq<ExprV>
    decreases s,
{
    Seq::new(
        s.len(),
        |i: int|
            if 0 <= i < s.len() {
                lift_expr(s[i], moved)
            } else {
                arbitrary()
            },
    )
}

pub open spec fn lift_segs(s: Seq<SegV>, moved: Seq<Seq<char>>) -> Seq<SegV>
    decreases s,
{
    Seq::new(
        s.len(),
        |i: int|
            if 0 <= i < s.len() {
                match s[i] {
                    SegV::Literal(t) => SegV::Literal(t),
                    SegV::Interp(e) => SegV::Interp(lift_expr(e, moved)),
                }
            } else {
                arbitrary()
            },
    )
}

pub open spec fn lift_opt(e: Option<ExprV>, moved: Seq<Seq<char>>) -> Option<ExprV> {
    match e {
        Some(e) => Some(lift_expr(e, moved)),
        None => None,
    }
}

/// A statement whose `super` calls reach what they reached before.
pub open spec fn lift_stmt(s: StmtV, moved: Seq<Seq<char>>) -> StmtV
    decreases s,
{
    match s {
        StmtV::VarDecl { is_mut, is_const, type_def, name, value } => StmtV::VarDecl {
            is_mut,
            is_const,
            type_def,
            name,
            value: lift_opt(value, moved),
        },
        StmtV::Assignment { target, value } => StmtV::Assignment {
            target: lift_expr(target, moved),
            value: lift_expr(value, moved),
        },
        StmtV::BitwiseFlip { name, index, value } => StmtV::BitwiseFlip {
            name,
            index: lift_expr(index, moved),
            value: lift_expr(value, moved),
        },
        StmtV::Assert { condition, message } => StmtV::Assert {
            condition: lift_expr(condition, moved),
            message: lift_opt(message, moved),
        },
        StmtV::Revert { error } => StmtV::Revert { error: lift_expr(error, moved) },
        StmtV::Delete { target } => StmtV::Delete { target: lift_expr(target, moved) },
        StmtV::Return { value } => StmtV::Return { value: lift_opt(value, moved) },
        StmtV::IfElse { condition, if_body, else_body } => StmtV::IfElse {
            condition: lift_expr(condition, moved),
            if_body: lift_body(if_body, moved),
            else_body: match else_body {
                Some(b) => Some(lift_body(b, moved)),
                None => None,
            },
        },
        StmtV::ForLoop { iterator, iterable, body } => StmtV::ForLoop {
            iterator,
            iterable: lift_expr(iterable, moved),
            body: lift_body(body, moved),
        },
        StmtV::WhileLoop { condition, body } => StmtV::WhileLoop {
            condition: lift_expr(condition, moved),
            body: lift_body(body, moved),
        },
        StmtV::TryCatch { try_body, catch_body } => StmtV::TryCatch {
            try_body: lift_body(try_body, moved),
            catch_body: lift_body(catch_body, moved),
        },
        StmtV::ScopedTryCall { thunk, args, propagate_return, writeback, catch_body } =>
            StmtV::ScopedTryCall {
            thunk,
            args,
            propagate_return,
            writeback,
            catch_body: lift_body(catch_body, moved),
        },
        StmtV::Match { expr, arms } => StmtV::Match {
            expr: lift_expr(expr, moved),
            arms: lift_arms(arms, moved),
        },
        StmtV::Expression(e) => StmtV::Expression(lift_expr(e, moved)),
        StmtV::Call { target, args } => StmtV::Call { target, args: lift_exprs(args, moved) },
        _ => s,
    }
}

pub open spec fn lift_body(s: Seq<SpannedV>, moved: Seq<Seq<char>>) -> Seq<SpannedV>
    decreases s,
{
    Seq::new(
        s.len(),
        |i: int|
            if 0 <= i < s.len() {
                SpannedV { node: lift_stmt(s[i].node, moved), ..s[i] }
            } else {
                arbitrary()
            },
    )
}

pub open spec fn lift_arms(s: Seq<ArmV>, moved: Seq<Seq<char>>) -> Seq<ArmV>
    decreases s,
{
    Seq::new(
        s.len(),
        |i: int|
            if 0 <= i < s.len() {
                ArmV { body: lift_body(s[i].body, moved), ..s[i] }
            } else {
                arbitrary()
            },
    )
}

/// An inherited method as it stands once the versions `moved` have moved.
pub open spec fn lift_method(f: FnV, moved: Seq<Seq<char>>) -> FnV {
    FnV { name: next_version(f.name, moved), body: lift_body(f.body, moved), ..f }
}

pub open spec fn lift_methods(fs: Seq<FnV>, moved: Seq<Seq<char>>) -> Seq<FnV> {
    fs.map_values(|f: FnV| lift_method(f, moved))
}

fn lifted_exprs(v: &Vec<Expr>, moved: &Vec<String>) -> (r: Vec<Expr>)
    ensures
        exprs_v(r@) == lift_exprs(exprs_v(v@), texts(moved@)),
    decreases v,
{
    let mut out: Vec<Expr> = Vec::new();
    let mut i: usize = 0;
    while i < v.len()
        invariant
            i <= v.len(),
            out@.len() == i,
            forall|k: int|
                0 <= k < i ==> (#[trigger] out@[k])@ == lift_expr(v@[k]@, texts(moved@)),
        decreases v.len() - i,
    {
        let c = lifted_expr(&v[i], moved);
        out.push(c);
        i += 1;
    }
    assert(exprs_v(out@) =~= lift_exprs(exprs_v(v@), texts(moved@)));
    out
}

fn lifted_segs(v: &Vec<FStringSegment>, moved: &Vec<String>) -> (r: Vec<FStringSegment>)
    ensures
        segs_v(r@) == lift_segs(segs_v(v@), texts(moved@)),
    decreases v,
{
    let mut out: Vec<FStringSegment> = Vec::new();
    let mut i: usize = 0;
    while i < v.len()
        invariant
            i <= v.len(),
            out@.len() == i,
            forall|k: int|
                0 <= k < i ==> (#[trigger] out@[k])@ == lift_segs(segs_v(v@), texts(moved@))[k],
        decreases v.len() - i,
    {
        let seg: &FStringSegment = &v[i];
        assert(segs_v(v@)[i as int] == seg@);
        let c = match seg {
            FStringSegment::Literal(t) => FStringSegment::Literal(t.clone()),
            FStringSegment::Interp(e) => FStringSegment::Interp(lifted_expr(e, moved)),
        };
        out.push(c);
        i += 1;
    }
    assert(segs_v(out@) =~= lift_segs(segs_v(v@), texts(moved@)));
    out
}

fn lifted_call(base: &Expr, method: &str, moved: &Vec<String>) -> (r: String)
    ensures
        r@ == lift_call(base@, method@, texts(moved@)),
{
    match base {
        Expr::Identifier(n) => {
            let before = super_name(method);
            if same(n.as_str(), "super") && has_text(moved, before.as_str()) {
                before
            } else {
                String::from_str(method)
            }
        },
        _ => String::from_str(method),
    }
}

fn lifted_expr(e: &Expr, moved: &Vec<String>) -> (r: Expr)
    ensures
        r@ == lift_expr(e@, texts(moved@)),
    decreases e,
{
    match e {
        Expr::Number(n) => Expr::Number(n.clone()),
        Expr::StringLiteral(s) => Expr::StringLiteral(s.clone()),
        Expr::Identifier(n) => Expr::Identifier(n.clone()),
        Expr::FnCall { name, args } => Expr::FnCall {
            name: name.clone(),
            args: lifted_exprs(args, moved),
        },
        Expr::Instantiation { type_def, args } => Expr::Instantiation {
            type_def: type_def.clone(),
            args: lifted_exprs(args, moved),
        },
        Expr::StaticCall { type_def, method, args } => Expr::StaticCall {
            type_def: type_def.clone(),
            method: method.clone(),
            args: lifted_exprs(args, moved),
        },
        Expr::PropertyAccess { base, property } => Expr::PropertyAccess {
            base: Box::new(lifted_expr(base, moved)),
            property: property.clone(),
        },
        Expr::MethodCall { base, method, args } => Expr::MethodCall {
            base: Box::new(lifted_expr(base, moved)),
            method: lifted_call(base, method.as_str(), moved),
            args: lifted_exprs(args, moved),
        },
        Expr::IndexAccess { base, index } => Expr::IndexAccess {
            base: Box::new(lifted_expr(base, moved)),
            index: Box::new(lifted_expr(index, moved)),
        },
        Expr::BinaryOp { left, operator, right } => Expr::BinaryOp {
            left: Box::new(lifted_expr(left, moved)),
            operator: operator.clone(),
            right: Box::new(lifted_expr(right, moved)),
        },
        Expr::FString(segs) => Expr::FString(lifted_segs(segs, moved)),
        Expr::Neg(x) => Expr::Neg(Box::new(lifted_expr(x, moved))),
        Expr::Not(x) => Expr::Not(Box::new(lifted_expr(x, moved))),
        Expr::ArrayLiteral(xs) => Expr::ArrayLiteral(lifted_exprs(xs, moved)),
    }
}

fn lifted_opt(e: &Option<Expr>, moved: &Vec<String>) -> (r: Option<Expr>)
    ensures
        opt_expr_v(r) == lift_opt(opt_expr_v(*e), texts(moved@)),
{
    match e {
        Some(e) => Some(lifted_expr(e, moved)),
        None => None,
    }
}

fn lifted_body(v: &Vec<Spanned<Statement>>, moved: &Vec<String>) -> (r: Vec<Spanned<Statement>>)
    ensures
        body_v(r@) == lift_body(body_v(v@), texts(moved@)),
    decreases v,
{
    let mut out: Vec<Spanned<Statement>> = Vec::new();
    let mut i: usize = 0;
    while i < v.len()
        invariant
            i <= v.len(),
            out@.len() == i,
            forall|k: int|
                0 <= k < i ==> (#[trigger] out@[k])@ == lift_body(body_v(v@), texts(moved@))[k],
        decreases v.len() - i,
    {
        let s: &Spanned<Statement> = &v[i];
        assert(decreases_to!(*v => *s));
        assert(body_v(v@)[i as int] == s@);
        let node = lifted_stmt(&s.node, moved);
        out.push(Spanned { node, line: s.line, col: s.col });
        i += 1;
    }
    assert(body_v(out@) =~= lift_body(body_v(v@), texts(moved@)));
    out
}

fn lifted_arms(v: &Vec<MatchArm>, moved: &Vec<String>) -> (r: Vec<MatchArm>)
    ensures
        arms_v(r@) == lift_arms(arms_v(v@), texts(moved@)),
    decreases v,
{
    let mut out: Vec<MatchArm> = Vec::new();
    let mut i: usize = 0;
    while i < v.len()
        invariant
            i <= v.len(),
            out@.len() == i,
            forall|k: int|
                0 <= k < i ==> (#[trigger] out@[k])@ == lift_arms(arms_v(v@), texts(moved@))[k],
        decreases v.len() - i,
    {
        let a: &MatchArm = &v[i];
        assert(decreases_to!(*v => *a));
        assert(arms_v(v@)[i as int] == a@);
        let body = lifted_body(&a.body, moved);
        out.push(
            MatchArm {
                variant: a.variant.clone(),
                payload_var: clone_opt_text(&a.payload_var),
                body,
            },
        );
        i += 1;
    }
    assert(arms_v(out@) =~= lift_arms(arms_v(v@), texts(moved@)));
    out
}

fn lifted_stmt(s: &Statement, moved: &Vec<String>) -> (r: Statement)
    ensures
        r@ == lift_stmt(s@, texts(moved@)),
    decreases s,
{
    match s {
        Statement::VarDecl { is_mut, is_const, type_def, name, value } => Statement::VarDecl {
            is_mut: *is_mut,
            is_const: *is_const,
            type_def: type_def.clone(),
            name: name.clone(),
            value: lifted_opt(value, moved),
        },
        Statement::Assignment { target, value } => Statement::Assignment {
            target: lifted_expr(target, moved),
            value: lifted_expr(value, moved),
        },
        Statement::BitwiseFlip { name, index, value } => Statement::BitwiseFlip {
            name: name.clone(),
            index: lifted_expr(index, moved),
            value: lifted_expr(value, moved),
        },
        Statement::Assert { condition, message } => Statement::Assert {
            condition: lifted_expr(condition, moved),
            message: lifted_opt(message, moved),
        },
        Statement::Revert { error } => Statement::Revert { error: lifted_expr(error, moved) },
        Statement::Delete { target } => Statement::Delete { target: lifted_expr(target, moved) },
        Statement::Return { value } => Statement::Return { value: lifted_opt(value, moved) },
        Statement::IfElse { condition, if_body, else_body } => {
            let eb = match else_body {
                Some(b) => Some(lifted_body(b, moved)),
                None => None,
            };
            Statement::IfElse {
                condition: lifted_expr(condition, moved),
                if_body: lifted_body(if_body, moved),
                else_body: eb,
            }
        },
        Statement::ForLoop { iterator, iterable, body } => Statement::ForLoop {
            iterator: iterator.clone(),
            iterable: lifted_expr(iterable, moved),
            body: lifted_body(body, moved),
        },
        Statement::WhileLoop { condition, body } => Statement::WhileLoop {
            condition: lifted_expr(condition, moved),
            body: lifted_body(body, moved),
        },
        Statement::TryCatch { try_body, catch_body } => Statement::TryCatch {
            try_body: lifted_body(try_body, moved),
            catch_body: lifted_body(catch_body, moved),
        },
        Statement::ScopedTryCall { thunk, args, propagate_return, writeback, catch_body } =>
            Statement::ScopedTryCall {
            thunk: thunk.clone(),
            args: copy_captures(args),
            propagate_return: *propagate_return,
            writeback: copy_captures(writeback),
            catch_body: lifted_body(catch_body, moved),
        },
        Statement::ReturnCaptures(fields) => Statement::ReturnCaptures(copy_captures(fields)),
        Statement::Match { expr, arms } => Statement::Match {
            expr: lifted_expr(expr, moved),
            arms: lifted_arms(arms, moved),
        },
        Statement::Expression(e) => Statement::Expression(lifted_expr(e, moved)),
        Statement::Call { target, args } => Statement::Call {
            target: target.clone(),
            args: lifted_exprs(args, moved),
        },
        Statement::UnsafeBlock(code) => Statement::UnsafeBlock(code.clone()),
    }
}

pub(crate) fn lifted_methods(v: &Vec<FnDecl>, moved: &Vec<String>) -> (r: Vec<FnDecl>)
    ensures
        methods_v(r@) == lift_methods(methods_v(v@), texts(moved@)),
{
    let mut out: Vec<FnDecl> = Vec::new();
    let mut i: usize = 0;
    while i < v.len()
        invariant
            i <= v@.len(),
            out@.len() == i,
            forall|k: int|
                0 <= k < i ==> (#[trigger] out@[k])@ == lift_method(v@[k]@, texts(moved@)),
        decreases v@.len() - i,
    {
        let f = &v[i];
        let mut c = f.clone();
        c.name = next_name(f.name.as_str(), moved);
        c.body = lifted_body(&f.body, moved);
        out.push(c);
        i += 1;
    }
    assert(methods_v(out@) =~= lift_methods(methods_v(v@), texts(moved@)));
    out
}

proof fn lemma_still_exprs(s: Seq<ExprV>)
    ensures
        lift_exprs(s, Seq::empty()) == s,
    decreases s,
{
    let out = lift_exprs(s, Seq::empty());
    assert forall|i: int| 0 <= i < s.len() implies #[trigger] out[i] == s[i] by {
        lemma_still_expr(s[i]);
    }
    assert(out =~= s);
}

proof fn lemma_still_segs(s: Seq<SegV>)
    ensures
        lift_segs(s, Seq::empty()) == s,
    decreases s,
{
    let out = lift_segs(s, Seq::empty());
    assert forall|i: int| 0 <= i < s.len() implies #[trigger] out[i] == s[i] by {
        match s[i] {
            SegV::Literal(_) => {},
            SegV::Interp(e) => lemma_still_expr(e),
        }
    }
    assert(out =~= s);
}

proof fn lemma_still_expr(e: ExprV)
    ensures
        lift_expr(e, Seq::empty()) == e,
    decreases e,
{
    match e {
        ExprV::FnCall { args, .. } => lemma_still_exprs(args),
        ExprV::Instantiation { args, .. } => lemma_still_exprs(args),
        ExprV::StaticCall { args, .. } => lemma_still_exprs(args),
        ExprV::PropertyAccess { base, .. } => lemma_still_expr(*base),
        ExprV::MethodCall { base, args, .. } => {
            lemma_still_expr(*base);
            lemma_still_exprs(args);
        },
        ExprV::IndexAccess { base, index } => {
            lemma_still_expr(*base);
            lemma_still_expr(*index);
        },
        ExprV::BinaryOp { left, right, .. } => {
            lemma_still_expr(*left);
            lemma_still_expr(*right);
        },
        ExprV::FString(segs) => lemma_still_segs(segs),
        ExprV::Neg(x) => lemma_still_expr(*x),
        ExprV::Not(x) => lemma_still_expr(*x),
        ExprV::ArrayLiteral(xs) => lemma_still_exprs(xs),
        _ => {},
    }
}

proof fn lemma_still_opt(e: Option<ExprV>)
    ensures
        lift_opt(e, Seq::empty()) == e,
{
    match e {
        Some(e) => lemma_still_expr(e),
        None => {},
    }
}

proof fn lemma_still_stmt(s: StmtV)
    ensures
        lift_stmt(s, Seq::empty()) == s,
    decreases s,
{
    match s {
        StmtV::VarDecl { value, .. } => lemma_still_opt(value),
        StmtV::Assignment { target, value } => {
            lemma_still_expr(target);
            lemma_still_expr(value);
        },
        StmtV::BitwiseFlip { index, value, .. } => {
            lemma_still_expr(index);
            lemma_still_expr(value);
        },
        StmtV::Assert { condition, message } => {
            lemma_still_expr(condition);
            lemma_still_opt(message);
        },
        StmtV::Revert { error } => lemma_still_expr(error),
        StmtV::Delete { target } => lemma_still_expr(target),
        StmtV::Return { value } => lemma_still_opt(value),
        StmtV::IfElse { condition, if_body, else_body } => {
            lemma_still_expr(condition);
            lemma_still_body(if_body);
            match else_body {
                Some(b) => lemma_still_body(b),
                None => {},
            }
        },
        StmtV::ForLoop { iterable, body, .. } => {
            lemma_still_expr(iterable);
            lemma_still_body(body);
        },
        StmtV::WhileLoop { condition, body } => {
            lemma_still_expr(condition);
            lemma_still_body(body);
        },
        StmtV::TryCatch { try_body, catch_body } => {
            lemma_still_body(try_body);
            lemma_still_body(catch_body);
        },
        StmtV::ScopedTryCall { catch_body, .. } => lemma_still_body(catch_body),
        StmtV::Match { expr, arms } => {
            lemma_still_expr(expr);
            lemma_still_arms(arms);
        },
        StmtV::Expression(e) => lemma_still_expr(e),
        StmtV::Call { args, .. } => lemma_still_exprs(args),
        _ => {},
    }
}

proof fn lemma_still_body(s: Seq<SpannedV>)
    ensures
        lift_body(s, Seq::empty()) == s,
    decreases s,
{
    let out = lift_body(s, Seq::empty());
    assert forall|i: int| 0 <= i < s.len() implies #[trigger] out[i] == s[i] by {
        lemma_still_stmt(s[i].node);
    }
    assert(out =~= s);
}

proof fn lemma_still_arms(s: Seq<ArmV>)
    ensures
        lift_arms(s, Seq::empty()) == s,
    decreases s,
{
    let out = lift_arms(s, Seq::empty());
    assert forall|i: int| 0 <= i < s.len() implies #[trigger] out[i] == s[i] by {
        lemma_still_body(s[i].body);
    }
    assert(out =~= s);
}

/// Where no version moves, every inherited method stays as it is.
pub proof fn law_nothing_moves(fs: Seq<FnV>)
    ensures
        lift_methods(fs, Seq::empty()) == fs,
{
    let out = lift_methods(fs, Seq::empty());
    assert forall|i: int| 0 <= i < fs.len() implies #[trigger] out[i] == fs[i] by {
        lemma_still_body(fs[i].body);
    }
    assert(out =~= fs);
}

proof fn lemma_moved_are_made(names: Seq<Seq<char>>, made: Seq<Seq<char>>, n: nat, x: Seq<char>)
    requires
        moved_spec(names, made, n).contains(x),
    ensures
        made.contains(x),
    decreases n,
{
    if n > 0 && n <= made.len() {
        let out = moved_spec(names, made, (n - 1) as nat);
        if out.contains(x) {
            lemma_moved_are_made(names, made, (n - 1) as nat, x);
        } else {
            let all = moved_spec(names, made, n);
            let i = choose|i: int| 0 <= i < all.len() && all[i] == x;
            if i < out.len() {
                assert(out[i] == x);
            }
            assert(made[n - 1] == x);
        }
    }
}

/// A method that was written, and not made by inheritance, keeps its name whatever is
/// overridden: one called `super_m` stays so beside an override of `m`.
pub proof fn law_written_names_stay(f: FnV, names: Seq<Seq<char>>, made: Seq<Seq<char>>)
    requires
        !made.contains(f.name),
    ensures
        lift_method(f, moved_spec(names, made, made.len())).name == f.name,
{
    if moved_spec(names, made, made.len()).contains(f.name) {
        lemma_moved_are_made(names, made, made.len(), f.name);
    }
}

} // verus!
