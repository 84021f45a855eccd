//! What a function can do to the chain: whether it writes, reads or does
//! neither, and whether it can hand control to another contract.
//!
//! Both analyses are whitelists. What they cannot see through counts as the
//! worst case.
use crate::ast::{
    arms_v, body_v, exprs_v, segs_v, ArmV, ClassDecl, ClassV, Expr, ExprV, FStringSegment, FnDecl,
    FnV, MatchArm, SegV, Spanned, SpannedV, Statement, StmtV, Type, TypeV,
};
use crate::names::NameMap;
use crate::semantic::{TypeChecker, WorldV};
use crate::text::{cat2, has_text, same};
use vstd::prelude::*;

verus! {

broadcast use crate::ast::group_views;

/// What a function does to the chain's state, from the mildest up.
#[derive(Clone, Copy, PartialEq, Eq, Structural, PartialOrd, Ord, Debug)]
pub enum Mut {
    Pure,
    View,
    NonPayable,
}

/// How severe an effect is.
pub open spec fn rank(m: Mut) -> nat {
    match m {
        Mut::Pure => 0,
        Mut::View => 1,
        Mut::NonPayable => 2,
    }
}

/// The more severe of two effects.
pub open spec fn worse(a: Mut, b: Mut) -> Mut {
    if rank(a) >= rank(b) {
        a
    } else {
        b
    }
}

fn rank_of(m: Mut) -> (r: u8)
    ensures
        r == rank(m),
{
    match m {
        Mut::Pure => 0,
        Mut::View => 1,
        Mut::NonPayable => 2,
    }
}

pub fn worse_of(a: Mut, b: Mut) -> (r: Mut)
    ensures
        r == worse(a, b),
{
    if rank_of(a) >= rank_of(b) {
        a
    } else {
        b
    }
}

/// Whether `n` names a contract.
pub open spec fn contract_name(w: WorldV, n: Seq<char>) -> bool {
    w.classes.contains_key(n) && w.classes[n].is_global
}

pub fn is_contract_name(tc: &TypeChecker, n: &str) -> (r: bool)
    ensures
        r == contract_name(tc.world(), n@),
{
    match tc.loaded_classes.get(n) {
        Some(c) => {
            assert(tc.world().classes[n@] == c@);
            c.is_global
        },
        None => false,
    }
}

/// Whether a type is a contract.
pub open spec fn contract_type(w: WorldV, t: TypeV) -> bool {
    match t {
        TypeV::Primitive(n) => contract_name(w, n),
        _ => false,
    }
}

fn is_contract_type(tc: &TypeChecker, t: &Type) -> (r: bool)
    ensures
        r == contract_type(tc.world(), t@),
{
    match t {
        Type::Primitive(n) => is_contract_name(tc, n.as_str()),
        _ => false,
    }
}

/// Whether an expression starts at a contract's storage.
pub open spec fn storage_root_spec(w: WorldV, c: ClassV, e: ExprV) -> bool
    decreases e,
{
    match e {
        ExprV::Identifier(n) => if n == "self"@ {
            c.is_global
        } else {
            contract_name(w, n)
        },
        ExprV::PropertyAccess { base, .. } => storage_root_spec(w, c, *base),
        ExprV::IndexAccess { base, .. } => storage_root_spec(w, c, *base),
        ExprV::MethodCall { base, .. } => storage_root_spec(w, c, *base),
        _ => false,
    }
}

fn storage_root(tc: &TypeChecker, class: &ClassDecl, e: &Expr) -> (r: bool)
    ensures
        r == storage_root_spec(tc.world(), class@, e@),
    decreases e,
{
    match e {
        Expr::Identifier(n) => if same(n.as_str(), "self") {
            class.is_global
        } else {
            is_contract_name(tc, n.as_str())
        },
        Expr::PropertyAccess { base, .. } => storage_root(tc, class, base),
        Expr::IndexAccess { base, .. } => storage_root(tc, class, base),
        Expr::MethodCall { base, .. } => storage_root(tc, class, base),
        _ => false,
    }
}

/// The effect known for a function; an unknown one may do anything.
pub open spec fn known_effect(map: Map<Seq<char>, Mut>, n: Seq<char>) -> Mut {
    if map.contains_key(n) {
        map[n]
    } else {
        Mut::NonPayable
    }
}

fn effect_of(map: &NameMap<Mut>, n: &str) -> (r: Mut)
    ensures
        r == known_effect(map@, n@),
{
    match map.get(n) {
        Some(m) => *m,
        None => Mut::NonPayable,
    }
}

/// The effect of reading through `base`.
pub open spec fn read_effect(w: WorldV, c: ClassV, base: ExprV) -> Mut {
    if storage_root_spec(w, c, base) {
        Mut::View
    } else {
        Mut::Pure
    }
}

/// The effect of calling a function by its bare name.
pub open spec fn call_effect(map: Map<Seq<char>, Mut>, name: Seq<char>) -> Mut {
    if name == "log"@ {
        Mut::NonPayable
    } else if name == "keccak256"@ || name == "ecrecover"@ || name == "assert"@ {
        Mut::Pure
    } else {
        known_effect(map, name)
    }
}

/// The effect of a method that is called on a value.
pub open spec fn method_effect(map: Map<Seq<char>, Mut>, method: Seq<char>) -> Mut {
    if method == "balance"@ || method == "delegated_to"@ || method == "is_delegated"@ || method
        == "verify_p256"@ {
        Mut::View
    } else if method == "saturate"@ || method == "as_bytes"@ || method == "as_bits"@ || method
        == "serialize"@ || method == "concat"@ || method == "slice"@ {
        Mut::Pure
    } else {
        known_effect(map, method)
    }
}

/// The effect of a method that is called on a field in storage.
pub open spec fn storage_effect(method: Seq<char>) -> Mut {
    if method == "length"@ || method == "len"@ || method == "get"@ {
        Mut::View
    } else {
        Mut::NonPayable
    }
}

/// Whether a call goes to a function of the class itself: it is made on `self`, on
/// `super` or on the name of the class.
pub open spec fn own_call(c: ClassV, base: ExprV) -> bool {
    base matches ExprV::Identifier(n) && (n == "self"@ || n == "super"@ || n == c.name)
}

/// The function that such a call names.
pub open spec fn called_name(base: ExprV, method: Seq<char>) -> Seq<char> {
    if base == ExprV::Identifier("super"@) {
        "super_"@ + method
    } else {
        method
    }
}

fn is_own_call(class: &ClassDecl, base: &Expr) -> (r: bool)
    ensures
        r == own_call(class@, base@),
{
    match base {
        Expr::Identifier(n) => same(n.as_str(), "self") || same(n.as_str(), "super")
            || same(n.as_str(), class.name.as_str()),
        _ => false,
    }
}

fn called(base: &Expr, method: &str) -> (r: String)
    ensures
        r@ == called_name(base@, method@),
{
    match base {
        Expr::Identifier(n) => if same(n.as_str(), "super") {
            cat2("super_", method)
        } else {
            String::from_str(method)
        },
        _ => String::from_str(method),
    }
}

/// Whether a call goes through an interface.
pub open spec fn interface_call(w: WorldV, base: ExprV) -> bool {
    base matches ExprV::FnCall { name, .. } && w.interfaces.contains(name)
}

/// Whether a call asks for the message or the block.
pub open spec fn context_call(base: ExprV) -> bool {
    base matches ExprV::Identifier(n) && (n == "Message"@ || n == "Block"@)
}

fn is_interface_call(tc: &TypeChecker, base: &Expr) -> (r: bool)
    ensures
        r == interface_call(tc.world(), base@),
{
    match base {
        Expr::FnCall { name, .. } => tc.loaded_interfaces.contains(name.as_str()),
        _ => false,
    }
}

fn is_context_call(base: &Expr) -> (r: bool)
    ensures
        r == context_call(base@),
{
    match base {
        Expr::Identifier(n) => same(n.as_str(), "Message") || same(n.as_str(), "Block"),
        _ => false,
    }
}

/// The effect of evaluating an expression.
pub open spec fn expr_effect_spec(w: WorldV, c: ClassV, e: ExprV, map: Map<Seq<char>, Mut>) -> Mut
    decreases e, 0nat,
{
    match e {
        ExprV::Number(_) => Mut::Pure,
        ExprV::StringLiteral(_) => Mut::Pure,
        ExprV::Identifier(_) => Mut::Pure,
        ExprV::Neg(x) => expr_effect_spec(w, c, *x, map),
        ExprV::Not(x) => expr_effect_spec(w, c, *x, map),
        ExprV::BinaryOp { left, right, .. } => worse(
            expr_effect_spec(w, c, *left, map),
            expr_effect_spec(w, c, *right, map),
        ),
        ExprV::ArrayLiteral(xs) => exprs_effect(w, c, xs, map, xs.len()),
        ExprV::FString(segs) => segs_effect(w, c, segs, map, segs.len()),
        ExprV::PropertyAccess { base, .. } => worse(
            read_effect(w, c, *base),
            expr_effect_spec(w, c, *base, map),
        ),
        ExprV::IndexAccess { base, index } => worse(
            worse(read_effect(w, c, *base), expr_effect_spec(w, c, *base, map)),
            expr_effect_spec(w, c, *index, map),
        ),
        ExprV::StaticCall { args, .. } => exprs_effect(w, c, args, map, args.len()),
        ExprV::Instantiation { type_def, args } => worse(
            if contract_type(w, type_def) {
                Mut::NonPayable
            } else {
                Mut::Pure
            },
            exprs_effect(w, c, args, map, args.len()),
        ),
        ExprV::FnCall { name, args } => worse(
            call_effect(map, name),
            exprs_effect(w, c, args, map, args.len()),
        ),
        ExprV::MethodCall { base, method, args } => {
            let a = exprs_effect(w, c, args, map, args.len());
            if interface_call(w, *base) {
                Mut::NonPayable
            } else if context_call(*base) {
                worse(Mut::View, a)
            } else if own_call(c, *base) {
                worse(known_effect(map, called_name(*base, method)), a)
            } else if storage_root_spec(w, c, *base) {
                worse(worse(storage_effect(method), a), expr_effect_spec(w, c, *base, map))
            } else {
                worse(worse(method_effect(map, method), a), expr_effect_spec(w, c, *base, map))
            }
        },
    }
}

pub open spec fn exprs_effect(
    w: WorldV,
    c: ClassV,
    es: Seq<ExprV>,
    map: Map<Seq<char>, Mut>,
    n: nat,
) -> Mut
    decreases es, n,
{
    if n == 0 || n > es.len() {
        Mut::Pure
    } else {
        worse(exprs_effect(w, c, es, map, (n - 1) as nat), expr_effect_spec(w, c, es[n - 1], map))
    }
}

pub open spec fn segs_effect(
    w: WorldV,
    c: ClassV,
    segs: Seq<SegV>,
    map: Map<Seq<char>, Mut>,
    n: nat,
) -> Mut
    decreases segs, n,
{
    if n == 0 || n > segs.len() {
        Mut::Pure
    } else {
        worse(
            segs_effect(w, c, segs, map, (n - 1) as nat),
            match segs[n - 1] {
                SegV::Interp(x) => expr_effect_spec(w, c, x, map),
                SegV::Literal(_) => Mut::Pure,
            },
        )
    }
}

fn call_effect_of(map: &NameMap<Mut>, name: &str) -> (r: Mut)
    ensures
        r == call_effect(map@, name@),
{
    if same(name, "log") {
        Mut::NonPayable
    } else if same(name, "keccak256") || same(name, "ecrecover") || same(name, "assert") {
        Mut::Pure
    } else {
        effect_of(map, name)
    }
}

fn method_effect_of(map: &NameMap<Mut>, method: &str) -> (r: Mut)
    ensures
        r == method_effect(map@, method@),
{
    if same(method, "balance") || same(method, "delegated_to") || same(method, "is_delegated")
        || same(method, "verify_p256") {
        Mut::View
    } else if same(method, "saturate") || same(method, "as_bytes") || same(method, "as_bits")
        || same(method, "serialize") || same(method, "concat") || same(method, "slice") {
        Mut::Pure
    } else {
        effect_of(map, method)
    }
}

fn expr_effect(tc: &TypeChecker, class: &ClassDecl, e: &Expr, map: &NameMap<Mut>) -> (r: Mut)
    ensures
        r == expr_effect_spec(tc.world(), class@, e@, map@),
    decreases e, 0nat,
{
    match e {
        Expr::Number(_) => Mut::Pure,
        Expr::StringLiteral(_) => Mut::Pure,
        Expr::Identifier(_) => Mut::Pure,
        Expr::Neg(x) => expr_effect(tc, class, x, map),
        Expr::Not(x) => expr_effect(tc, class, x, map),
        Expr::BinaryOp { left, right, .. } => worse_of(
            expr_effect(tc, class, left, map),
            expr_effect(tc, class, right, map),
        ),
        Expr::ArrayLiteral(xs) => list_effect(tc, class, xs, map),
        Expr::FString(segs) => {
            let mut m = Mut::Pure;
            let mut i: usize = 0;
            while i < segs.len()
                invariant
                    i <= segs@.len(),
                    e matches Expr::FString(s) && *segs == s,
                    m == segs_effect(tc.world(), class@, segs_v(segs@), map@, i as nat),
                decreases segs@.len() - i,
            {
                let s: &FStringSegment = &segs[i];
                assert(decreases_to!(*e => *s));
                assert(segs_v(segs@)[i as int] == s@);
                let own = match s {
                    FStringSegment::Interp(x) => expr_effect(tc, class, x, map),
                    FStringSegment::Literal(_) => Mut::Pure,
                };
                m = worse_of(m, own);
                i += 1;
            }
            m
        },
        Expr::PropertyAccess { base, .. } => {
            let own = if storage_root(tc, class, base) {
                Mut::View
            } else {
                Mut::Pure
            };
            worse_of(own, expr_effect(tc, class, base, map))
        },
        Expr::IndexAccess { base, index } => {
            let own = if storage_root(tc, class, base) {
                Mut::View
            } else {
                Mut::Pure
            };
            worse_of(
                worse_of(own, expr_effect(tc, class, base, map)),
                expr_effect(tc, class, index, map),
            )
        },
        Expr::StaticCall { args, .. } => list_effect(tc, class, args, map),
        Expr::Instantiation { type_def, args } => {
            let own = if is_contract_type(tc, type_def) {
                Mut::NonPayable
            } else {
                Mut::Pure
            };
            worse_of(own, list_effect(tc, class, args, map))
        },
        Expr::FnCall { name, args } => worse_of(
            call_effect_of(map, name.as_str()),
            list_effect(tc, class, args, map),
        ),
        Expr::MethodCall { base, method, args } => {
            let a = list_effect(tc, class, args, map);
            if is_interface_call(tc, base) {
                Mut::NonPayable
            } else if is_context_call(base) {
                worse_of(Mut::View, a)
            } else if is_own_call(class, base) {
                worse_of(effect_of(map, called(base, method.as_str()).as_str()), a)
            } else if storage_root(tc, class, base) {
                let m = method.as_str();
                let own = if same(m, "length") || same(m, "len") || same(m, "get") {
                    Mut::View
                } else {
                    Mut::NonPayable
                };
                worse_of(worse_of(own, a), expr_effect(tc, class, base, map))
            } else {
                worse_of(
                    worse_of(method_effect_of(map, method.as_str()), a),
                    expr_effect(tc, class, base, map),
                )
            }
        },
    }
}

fn list_effect(tc: &TypeChecker, class: &ClassDecl, es: &Vec<Expr>, map: &NameMap<Mut>) -> (r: Mut)
    ensures
        r == exprs_effect(tc.world(), class@, exprs_v(es@), map@, es@.len()),
    decreases es, 1nat,
{
    let mut m = Mut::Pure;
    let mut i: usize = 0;
    while i < es.len()
        invariant
            i <= es@.len(),
            m == exprs_effect(tc.world(), class@, exprs_v(es@), map@, i as nat),
        decreases es@.len() - i,
    {
        let x: &Expr = &es[i];
        assert(decreases_to!(*es => *x));
        assert(exprs_v(es@)[i as int] == x@);
        m = worse_of(m, expr_effect(tc, class, x, map));
        i += 1;
    }
    m
}

pub open spec fn opt_effect(w: WorldV, c: ClassV, e: Option<ExprV>, map: Map<Seq<char>, Mut>) -> Mut {
    match e {
        Some(x) => expr_effect_spec(w, c, x, map),
        None => Mut::Pure,
    }
}

/// The effect of writing to a target.
pub open spec fn write_effect(w: WorldV, c: ClassV, e: ExprV, map: Map<Seq<char>, Mut>) -> Mut {
    if storage_root_spec(w, c, e) {
        Mut::NonPayable
    } else {
        expr_effect_spec(w, c, e, map)
    }
}

/// The effect of a statement.
pub open spec fn stmt_effect_spec(w: WorldV, c: ClassV, s: StmtV, map: Map<Seq<char>, Mut>) -> Mut
    decreases s, 0nat,
{
    match s {
        StmtV::VarDecl { value, .. } => opt_effect(w, c, value, map),
        StmtV::Assignment { target, value } => worse(
            write_effect(w, c, target, map),
            expr_effect_spec(w, c, value, map),
        ),
        StmtV::BitwiseFlip { index, value, .. } => worse(
            expr_effect_spec(w, c, index, map),
            expr_effect_spec(w, c, value, map),
        ),
        StmtV::Assert { condition, message } => worse(
            expr_effect_spec(w, c, condition, map),
            opt_effect(w, c, message, map),
        ),
        StmtV::Revert { error } => expr_effect_spec(w, c, error, map),
        StmtV::Delete { target } => write_effect(w, c, target, map),
        StmtV::Return { value } => opt_effect(w, c, value, map),
        StmtV::IfElse { condition, if_body, else_body } => worse(
            worse(
                expr_effect_spec(w, c, condition, map),
                body_effect(w, c, if_body, map, if_body.len()),
            ),
            match else_body {
                Some(b) => body_effect(w, c, b, map, b.len()),
                None => Mut::Pure,
            },
        ),
        StmtV::ForLoop { iterable, body, .. } => worse(
            expr_effect_spec(w, c, iterable, map),
            body_effect(w, c, body, map, body.len()),
        ),
        StmtV::WhileLoop { condition, body } => worse(
            expr_effect_spec(w, c, condition, map),
            body_effect(w, c, body, map, body.len()),
        ),
        StmtV::Match { expr, arms } => worse(
            expr_effect_spec(w, c, expr, map),
            arms_effect(w, c, arms, map, arms.len()),
        ),
        StmtV::TryCatch { try_body, catch_body } => worse(
            body_effect(w, c, try_body, map, try_body.len()),
            body_effect(w, c, catch_body, map, catch_body.len()),
        ),
        StmtV::ScopedTryCall { catch_body, .. } => worse(
            Mut::NonPayable,
            body_effect(w, c, catch_body, map, catch_body.len()),
        ),
        StmtV::ReturnCaptures(_) => Mut::NonPayable,
        StmtV::Expression(e) => expr_effect_spec(w, c, e, map),
        StmtV::Call { .. } => Mut::NonPayable,
        StmtV::UnsafeBlock(_) => Mut::NonPayable,
    }
}

/// The effect of the first `n` statements of a body.
pub open spec fn body_effect(
    w: WorldV,
    c: ClassV,
    b: Seq<SpannedV>,
    map: Map<Seq<char>, Mut>,
    n: nat,
) -> Mut
    decreases b, n,
{
    if n == 0 || n > b.len() {
        Mut::Pure
    } else {
        worse(body_effect(w, c, b, map, (n - 1) as nat), stmt_effect_spec(w, c, b[n - 1].node, map))
    }
}

pub open spec fn arms_effect(
    w: WorldV,
    c: ClassV,
    arms: Seq<ArmV>,
    map: Map<Seq<char>, Mut>,
    n: nat,
) -> Mut
    decreases arms, n,
{
    if n == 0 || n > arms.len() {
        Mut::Pure
    } else {
        worse(
            arms_effect(w, c, arms, map, (n - 1) as nat),
            body_effect(w, c, arms[n - 1].body, map, arms[n - 1].body.len()),
        )
    }
}

fn maybe_effect(tc: &TypeChecker, class: &ClassDecl, e: &Option<Expr>, map: &NameMap<Mut>) -> (r: Mut)
    ensures
        r == opt_effect(tc.world(), class@, crate::ast::opt_expr_v(*e), map@),
{
    match e {
        Some(x) => expr_effect(tc, class, x, map),
        None => Mut::Pure,
    }
}

fn target_effect(tc: &TypeChecker, class: &ClassDecl, e: &Expr, map: &NameMap<Mut>) -> (r: Mut)
    ensures
        r == write_effect(tc.world(), class@, e@, map@),
{
    if storage_root(tc, class, e) {
        Mut::NonPayable
    } else {
        expr_effect(tc, class, e, map)
    }
}

fn stmt_effect(tc: &TypeChecker, class: &ClassDecl, s: &Statement, map: &NameMap<Mut>) -> (r: Mut)
    ensures
        r == stmt_effect_spec(tc.world(), class@, s@, map@),
    decreases s, 0nat,
{
    match s {
        Statement::VarDecl { value, .. } => maybe_effect(tc, class, value, map),
        Statement::Assignment { target, value } => worse_of(
            target_effect(tc, class, target, map),
            expr_effect(tc, class, value, map),
        ),
        Statement::BitwiseFlip { index, value, .. } => worse_of(
            expr_effect(tc, class, index, map),
            expr_effect(tc, class, value, map),
        ),
        Statement::Assert { condition, message } => worse_of(
            expr_effect(tc, class, condition, map),
            maybe_effect(tc, class, message, map),
        ),
        Statement::Revert { error } => expr_effect(tc, class, error, map),
        Statement::Delete { target } => target_effect(tc, class, target, map),
        Statement::Return { value } => maybe_effect(tc, class, value, map),
        Statement::IfElse { condition, if_body, else_body } => {
            let a = worse_of(
                expr_effect(tc, class, condition, map),
                stmts_effect(tc, class, if_body, map),
            );
            let b = match else_body {
                Some(b) => stmts_effect(tc, class, b, map),
                None => Mut::Pure,
            };
            worse_of(a, b)
        },
        Statement::ForLoop { iterable, body, .. } => worse_of(
            expr_effect(tc, class, iterable, map),
            stmts_effect(tc, class, body, map),
        ),
        Statement::WhileLoop { condition, body } => worse_of(
            expr_effect(tc, class, condition, map),
            stmts_effect(tc, class, body, map),
        ),
        Statement::Match { expr, arms } => {
            let mut m = Mut::Pure;
            let mut i: usize = 0;
            while i < arms.len()
                invariant
                    i <= arms@.len(),
                    s matches Statement::Match { expr: _, arms: a } && *arms == a,
                    m == arms_effect(tc.world(), class@, arms_v(arms@), map@, i as nat),
                decreases arms@.len() - i,
            {
                let arm: &MatchArm = &arms[i];
                assert(decreases_to!(*s => *arm));
                assert(arms_v(arms@)[i as int] == arm@);
                m = worse_of(m, stmts_effect(tc, class, &arm.body, map));
                i += 1;
            }
            worse_of(expr_effect(tc, class, expr, map), m)
        },
        Statement::TryCatch { try_body, catch_body } => worse_of(
            stmts_effect(tc, class, try_body, map),
            stmts_effect(tc, class, catch_body, map),
        ),
        Statement::ScopedTryCall { catch_body, .. } => worse_of(
            Mut::NonPayable,
            stmts_effect(tc, class, catch_body, map),
        ),
        Statement::ReturnCaptures(_) => Mut::NonPayable,
        Statement::Expression(e) => expr_effect(tc, class, e, map),
        Statement::Call { .. } => Mut::NonPayable,
        Statement::UnsafeBlock(_) => Mut::NonPayable,
    }
}

fn stmts_effect(
    tc: &TypeChecker,
    class: &ClassDecl,
    b: &Vec<Spanned<Statement>>,
    map: &NameMap<Mut>,
) -> (r: Mut)
    ensures
        r == body_effect(tc.world(), class@, body_v(b@), map@, b@.len()),
    decreases b, 1nat,
{
    let mut m = Mut::Pure;
    let mut i: usize = 0;
    while i < b.len()
        invariant
            i <= b@.len(),
            m == body_effect(tc.world(), class@, body_v(b@), map@, i as nat),
        decreases b@.len() - i,
    {
        let s: &Spanned<Statement> = &b[i];
        assert(decreases_to!(*b => *s));
        assert(body_v(b@)[i as int] == s@);
        m = worse_of(m, stmt_effect(tc, class, &s.node, map));
        i += 1;
    }
    m
}

/// What the analysis begins with: every method does nothing.
pub open spec fn all_pure(ms: Seq<FnV>, n: nat) -> Map<Seq<char>, Mut>
    decreases n,
{
    if n == 0 {
        Map::empty()
    } else {
        all_pure(ms, (n - 1) as nat).insert(ms[n - 1].name, Mut::Pure)
    }
}

/// One round over the first `n` methods: each effect is raised to what the
/// body does, given what is known so far.
pub open spec fn round(w: WorldV, c: ClassV, map: Map<Seq<char>, Mut>, n: nat) -> Map<Seq<char>, Mut>
    decreases n,
{
    if n == 0 {
        map
    } else {
        let m = round(w, c, map, (n - 1) as nat);
        let f = c.methods[n - 1];
        let e = body_effect(w, c, f.body, m, f.body.len());
        if rank(e) > rank(known_effect(m, f.name)) {
            m.insert(f.name, e)
        } else {
            m
        }
    }
}

pub open spec fn rounds(w: WorldV, c: ClassV, map: Map<Seq<char>, Mut>, k: nat) -> Map<Seq<char>, Mut>
    decreases k,
{
    if k == 0 {
        map
    } else {
        round(w, c, rounds(w, c, map, (k - 1) as nat), c.methods.len())
    }
}

/// The effects of the methods of a class: what is left after as many rounds as
/// there are methods, and two more.
pub open spec fn effects(w: WorldV, c: ClassV) -> Map<Seq<char>, Mut> {
    rounds(w, c, all_pure(c.methods, c.methods.len()), c.methods.len() + 2)
}

proof fn lemma_rounds_fixed(w: WorldV, c: ClassV, map: Map<Seq<char>, Mut>, i: nat, k: nat)
    requires
        i <= k,
        round(w, c, rounds(w, c, map, i), c.methods.len()) == rounds(w, c, map, i),
    ensures
        rounds(w, c, map, k) == rounds(w, c, map, i),
    decreases k,
{
    if i < k {
        lemma_rounds_fixed(w, c, map, i, (k - 1) as nat);
    }
}

/// What each method of a class does to the chain's state.
pub fn analyze_class(tc: &TypeChecker, class: &ClassDecl) -> (r: NameMap<Mut>)
    ensures
        r@ == effects(tc.world(), class@),
{
    let ghost w = tc.world();
    let ghost c = class@;
    let ms = &class.methods;
    let mut map: NameMap<Mut> = NameMap::new();
    let mut i: usize = 0;
    while i < ms.len()
        invariant
            i <= ms@.len(),
            *ms == class.methods,
            c == class@,
            map@ == all_pure(c.methods, i as nat),
        decreases ms@.len() - i,
    {
        map.insert(ms[i].name.clone(), Mut::Pure);
        i += 1;
    }
    let ghost start = map@;
    let mut k: usize = 0;
    while k < ms.len()
        invariant
            k <= ms@.len(),
            *ms == class.methods,
            c == class@,
            w == tc.world(),
            start == all_pure(c.methods, c.methods.len()),
            map@ == rounds(w, c, start, k as nat),
        decreases ms@.len() - k,
    {
        if !raise_effects(tc, class, &mut map) {
            proof {
                lemma_rounds_fixed(w, c, start, k as nat, ms@.len() + 2);
            }
            return map;
        }
        k += 1;
    }
    let _ = raise_effects(tc, class, &mut map);
    let _ = raise_effects(tc, class, &mut map);
    proof {
        assert(rounds(w, c, start, ms@.len() + 1) == round(
            w,
            c,
            rounds(w, c, start, ms@.len()),
            ms@.len(),
        ));
    }
    map
}

/// One round; whether it raised anything.
fn raise_effects(tc: &TypeChecker, class: &ClassDecl, map: &mut NameMap<Mut>) -> (r: bool)
    ensures
        final(map)@ == round(tc.world(), class@, old(map)@, class@.methods.len()),
        !r ==> final(map)@ == old(map)@,
{
    let ghost c = class@;
    let ghost w = tc.world();
    let mut changed = false;
    let mut i: usize = 0;
    while i < class.methods.len()
        invariant
            i <= class.methods@.len(),
            c == class@,
            w == tc.world(),
            map@ == round(w, c, old(map)@, i as nat),
            !changed ==> map@ == old(map)@,
        decreases class.methods@.len() - i,
    {
        let f = &class.methods[i];
        assert(c.methods[i as int] == f@);
        let e = stmts_effect(tc, class, &f.body, map);
        if rank_of(e) > rank_of(effect_of(map, f.name.as_str())) {
            map.insert(f.name.clone(), e);
            changed = true;
        }
        i += 1;
    }
    changed
}

/// How the ABI calls what a function does.
pub open spec fn mutability_spec(f: FnV, map: Map<Seq<char>, Mut>) -> Seq<char> {
    if f.modifiers.contains("payable"@) {
        "payable"@
    } else if f.modifiers.contains("once"@) {
        "nonpayable"@
    } else {
        match known_effect(map, f.name) {
            Mut::Pure => "pure"@,
            Mut::View => "view"@,
            Mut::NonPayable => "nonpayable"@,
        }
    }
}

pub fn state_mutability(f: &FnDecl, map: &NameMap<Mut>) -> (r: &'static str)
    ensures
        r@ == mutability_spec(f@, map@),
{
    if has_text(&f.modifiers, "payable") {
        return "payable";
    }
    if has_text(&f.modifiers, "once") {
        return "nonpayable";
    }
    match effect_of(map, f.name.as_str()) {
        Mut::Pure => "pure",
        Mut::View => "view",
        Mut::NonPayable => "nonpayable",
    }
}

/// Whether a function writes nothing.
pub open spec fn read_only(f: FnV, map: Map<Seq<char>, Mut>) -> bool {
    !f.modifiers.contains("payable"@) && !f.modifiers.contains("once"@) && known_effect(map, f.name)
        != Mut::NonPayable
}

pub fn is_read_only(f: &FnDecl, map: &NameMap<Mut>) -> (r: bool)
    ensures
        r == read_only(f@, map@),
{
    !has_text(&f.modifiers, "payable") && !has_text(&f.modifiers, "once") && rank_of(
        effect_of(map, f.name.as_str()),
    ) < 2
}

/// Whether a function may hand control away; an unknown one may.
pub open spec fn known_call(map: Map<Seq<char>, bool>, n: Seq<char>) -> bool {
    if map.contains_key(n) {
        map[n]
    } else {
        true
    }
}

fn call_of(map: &NameMap<bool>, n: &str) -> (r: bool)
    ensures
        r == known_call(map@, n@),
{
    match map.get(n) {
        Some(b) => *b,
        None => true,
    }
}

/// Whether calling a function by its bare name hands control away.
pub open spec fn fn_calls_out(map: Map<Seq<char>, bool>, name: Seq<char>) -> bool {
    name != "log"@ && name != "indexed"@ && name != "keccak256"@ && name != "ecrecover"@ && name
        != "assert"@ && known_call(map, name)
}

/// Whether a method called on a value hands control away.
pub open spec fn method_calls_out(map: Map<Seq<char>, bool>, method: Seq<char>) -> bool {
    if method == "transfer"@ || method == "pay"@ || method == "create"@ || method == "create2"@ {
        true
    } else if method == "balance"@ || method == "delegated_to"@ || method == "is_delegated"@ || method
        == "verify_p256"@ || method == "saturate"@ || method == "as_bytes"@ || method == "as_bits"@
        || method == "serialize"@ || method == "concat"@ || method == "slice"@ {
        false
    } else {
        known_call(map, method)
    }
}

/// Whether a method called on a field in storage hands control away.
pub open spec fn storage_calls_out(map: Map<Seq<char>, bool>, method: Seq<char>) -> bool {
    method != "length"@ && method != "len"@ && method != "get"@ && method != "push"@ && method
        != "pop"@ && known_call(map, method)
}

fn does_fn_call_out(map: &NameMap<bool>, name: &str) -> (r: bool)
    ensures
        r == fn_calls_out(map@, name@),
{
    !same(name, "log") && !same(name, "indexed") && !same(name, "keccak256") && !same(
        name,
        "ecrecover",
    ) && !same(name, "assert") && call_of(map, name)
}

fn does_method_call_out(map: &NameMap<bool>, method: &str) -> (r: bool)
    ensures
        r == method_calls_out(map@, method@),
{
    if same(method, "transfer") || same(method, "pay") || same(method, "create") || same(
        method,
        "create2",
    ) {
        true
    } else if same(method, "balance") || same(method, "delegated_to") || same(method, "is_delegated")
        || same(method, "verify_p256") || same(method, "saturate") || same(method, "as_bytes")
        || same(method, "as_bits") || same(method, "serialize") || same(method, "concat") || same(
        method,
        "slice",
    ) {
        false
    } else {
        call_of(map, method)
    }
}

fn does_storage_call_out(map: &NameMap<bool>, method: &str) -> (r: bool)
    ensures
        r == storage_calls_out(map@, method@),
{
    !same(method, "length") && !same(method, "len") && !same(method, "get") && !same(method, "push")
        && !same(method, "pop") && call_of(map, method)
}

/// Whether evaluating an expression can hand control to another contract.
pub open spec fn expr_calls_spec(w: WorldV, c: ClassV, e: ExprV, map: Map<Seq<char>, bool>) -> bool
    decreases e, 0nat,
{
    match e {
        ExprV::Number(_) => false,
        ExprV::StringLiteral(_) => false,
        ExprV::Identifier(_) => false,
        ExprV::Neg(x) => expr_calls_spec(w, c, *x, map),
        ExprV::Not(x) => expr_calls_spec(w, c, *x, map),
        ExprV::BinaryOp { left, right, .. } => expr_calls_spec(w, c, *left, map) || expr_calls_spec(
            w,
            c,
            *right,
            map,
        ),
        ExprV::ArrayLiteral(xs) => exprs_call(w, c, xs, map, xs.len()),
        ExprV::FString(segs) => segs_call(w, c, segs, map, segs.len()),
        ExprV::PropertyAccess { base, .. } => expr_calls_spec(w, c, *base, map),
        ExprV::IndexAccess { base, index } => expr_calls_spec(w, c, *base, map) || expr_calls_spec(
            w,
            c,
            *index,
            map,
        ),
        ExprV::StaticCall { args, .. } => exprs_call(w, c, args, map, args.len()),
        ExprV::Instantiation { type_def, args } => contract_type(w, type_def) || exprs_call(
            w,
            c,
            args,
            map,
            args.len(),
        ),
        ExprV::FnCall { name, args } => fn_calls_out(map, name) || exprs_call(
            w,
            c,
            args,
            map,
            args.len(),
        ),
        ExprV::MethodCall { base, method, args } => {
            let a = exprs_call(w, c, args, map, args.len());
            if interface_call(w, *base) {
                true
            } else if context_call(*base) {
                a
            } else if own_call(c, *base) {
                known_call(map, called_name(*base, method)) || a
            } else if storage_root_spec(w, c, *base) {
                storage_calls_out(map, method) || a || expr_calls_spec(w, c, *base, map)
            } else {
                method_calls_out(map, method) || a || expr_calls_spec(w, c, *base, map)
            }
        },
    }
}

pub open spec fn exprs_call(
    w: WorldV,
    c: ClassV,
    es: Seq<ExprV>,
    map: Map<Seq<char>, bool>,
    n: nat,
) -> bool
    decreases es, n,
{
    if n == 0 || n > es.len() {
        false
    } else {
        exprs_call(w, c, es, map, (n - 1) as nat) || expr_calls_spec(w, c, es[n - 1], map)
    }
}

pub open spec fn segs_call(
    w: WorldV,
    c: ClassV,
    segs: Seq<SegV>,
    map: Map<Seq<char>, bool>,
    n: nat,
) -> bool
    decreases segs, n,
{
    if n == 0 || n > segs.len() {
        false
    } else {
        segs_call(w, c, segs, map, (n - 1) as nat) || match segs[n - 1] {
            SegV::Interp(x) => expr_calls_spec(w, c, x, map),
            SegV::Literal(_) => false,
        }
    }
}

fn expr_calls_out(tc: &TypeChecker, class: &ClassDecl, e: &Expr, map: &NameMap<bool>) -> (r: bool)
    ensures
        r == expr_calls_spec(tc.world(), class@, e@, map@),
    decreases e, 0nat,
{
    match e {
        Expr::Number(_) => false,
        Expr::StringLiteral(_) => false,
        Expr::Identifier(_) => false,
        Expr::Neg(x) => expr_calls_out(tc, class, x, map),
        Expr::Not(x) => expr_calls_out(tc, class, x, map),
        Expr::BinaryOp { left, right, .. } => expr_calls_out(tc, class, left, map)
            || expr_calls_out(tc, class, right, map),
        Expr::ArrayLiteral(xs) => list_calls_out(tc, class, xs, map),
        Expr::FString(segs) => {
            let mut b = false;
            let mut i: usize = 0;
            while i < segs.len()
                invariant
                    i <= segs@.len(),
                    e matches Expr::FString(s) && *segs == s,
                    b == segs_call(tc.world(), class@, segs_v(segs@), map@, i as nat),
                decreases segs@.len() - i,
            {
                let s: &FStringSegment = &segs[i];
                assert(decreases_to!(*e => *s));
                assert(segs_v(segs@)[i as int] == s@);
                let own = match s {
                    FStringSegment::Interp(x) => expr_calls_out(tc, class, x, map),
                    FStringSegment::Literal(_) => false,
                };
                b = b || own;
                i += 1;
            }
            b
        },
        Expr::PropertyAccess { base, .. } => expr_calls_out(tc, class, base, map),
        Expr::IndexAccess { base, index } => expr_calls_out(tc, class, base, map) || expr_calls_out(
            tc,
            class,
            index,
            map,
        ),
        Expr::StaticCall { args, .. } => list_calls_out(tc, class, args, map),
        Expr::Instantiation { type_def, args } => is_contract_type(tc, type_def) || list_calls_out(
            tc,
            class,
            args,
            map,
        ),
        Expr::FnCall { name, args } => does_fn_call_out(map, name.as_str()) || list_calls_out(
            tc,
            class,
            args,
            map,
        ),
        Expr::MethodCall { base, method, args } => {
            let a = list_calls_out(tc, class, args, map);
            if is_interface_call(tc, base) {
                true
            } else if is_context_call(base) {
                a
            } else if is_own_call(class, base) {
                call_of(map, called(base, method.as_str()).as_str()) || a
            } else if storage_root(tc, class, base) {
                does_storage_call_out(map, method.as_str()) || a || expr_calls_out(
                    tc,
                    class,
                    base,
                    map,
                )
            } else {
                does_method_call_out(map, method.as_str()) || a || expr_calls_out(
                    tc,
                    class,
                    base,
                    map,
                )
            }
        },
    }
}

fn list_calls_out(tc: &TypeChecker, class: &ClassDecl, es: &Vec<Expr>, map: &NameMap<bool>) -> (r: bool)
    ensures
        r == exprs_call(tc.world(), class@, exprs_v(es@), map@, es@.len()),
    decreases es, 1nat,
{
    let mut b = false;
    let mut i: usize = 0;
    while i < es.len()
        invariant
            i <= es@.len(),
            b == exprs_call(tc.world(), class@, exprs_v(es@), map@, i as nat),
        decreases es@.len() - i,
    {
        let x: &Expr = &es[i];
        assert(decreases_to!(*es => *x));
        assert(exprs_v(es@)[i as int] == x@);
        b = b || expr_calls_out(tc, class, x, map);
        i += 1;
    }
    b
}

pub open spec fn opt_calls(w: WorldV, c: ClassV, e: Option<ExprV>, map: Map<Seq<char>, bool>) -> bool {
    match e {
        Some(x) => expr_calls_spec(w, c, x, map),
        None => false,
    }
}

/// Whether a statement can hand control to another contract.
pub open spec fn stmt_calls_spec(w: WorldV, c: ClassV, s: StmtV, map: Map<Seq<char>, bool>) -> bool
    decreases s, 0nat,
{
    match s {
        StmtV::VarDecl { value, .. } => opt_calls(w, c, value, map),
        StmtV::Assignment { target, value } => expr_calls_spec(w, c, target, map)
            || expr_calls_spec(w, c, value, map),
        StmtV::BitwiseFlip { index, value, .. } => expr_calls_spec(w, c, index, map)
            || expr_calls_spec(w, c, value, map),
        StmtV::Assert { condition, message } => expr_calls_spec(w, c, condition, map) || opt_calls(
            w,
            c,
            message,
            map,
        ),
        StmtV::Revert { error } => expr_calls_spec(w, c, error, map),
        StmtV::Delete { target } => expr_calls_spec(w, c, target, map),
        StmtV::Return { value } => opt_calls(w, c, value, map),
        StmtV::IfElse { condition, if_body, else_body } => expr_calls_spec(w, c, condition, map)
            || body_calls(w, c, if_body, map, if_body.len()) || match else_body {
            Some(b) => body_calls(w, c, b, map, b.len()),
            None => false,
        },
        StmtV::ForLoop { iterable, body, .. } => expr_calls_spec(w, c, iterable, map) || body_calls(
            w,
            c,
            body,
            map,
            body.len(),
        ),
        StmtV::WhileLoop { condition, body } => expr_calls_spec(w, c, condition, map) || body_calls(
            w,
            c,
            body,
            map,
            body.len(),
        ),
        StmtV::Match { expr, arms } => expr_calls_spec(w, c, expr, map) || arms_call(
            w,
            c,
            arms,
            map,
            arms.len(),
        ),
        StmtV::TryCatch { try_body, catch_body } => body_calls(w, c, try_body, map, try_body.len())
            || body_calls(w, c, catch_body, map, catch_body.len()),
        StmtV::ScopedTryCall { .. } => true,
        StmtV::ReturnCaptures(_) => false,
        StmtV::Expression(e) => expr_calls_spec(w, c, e, map),
        StmtV::Call { .. } => true,
        StmtV::UnsafeBlock(_) => true,
    }
}

/// Whether the first `n` statements of a body can hand control away.
pub open spec fn body_calls(
    w: WorldV,
    c: ClassV,
    b: Seq<SpannedV>,
    map: Map<Seq<char>, bool>,
    n: nat,
) -> bool
    decreases b, n,
{
    if n == 0 || n > b.len() {
        false
    } else {
        body_calls(w, c, b, map, (n - 1) as nat) || stmt_calls_spec(w, c, b[n - 1].node, map)
    }
}

pub open spec fn arms_call(
    w: WorldV,
    c: ClassV,
    arms: Seq<ArmV>,
    map: Map<Seq<char>, bool>,
    n: nat,
) -> bool
    decreases arms, n,
{
    if n == 0 || n > arms.len() {
        false
    } else {
        arms_call(w, c, arms, map, (n - 1) as nat) || body_calls(
            w,
            c,
            arms[n - 1].body,
            map,
            arms[n - 1].body.len(),
        )
    }
}

fn maybe_calls_out(tc: &TypeChecker, class: &ClassDecl, e: &Option<Expr>, map: &NameMap<bool>) -> (r:
    bool)
    ensures
        r == opt_calls(tc.world(), class@, crate::ast::opt_expr_v(*e), map@),
{
    match e {
        Some(x) => expr_calls_out(tc, class, x, map),
        None => false,
    }
}

fn stmt_calls_out(tc: &TypeChecker, class: &ClassDecl, s: &Statement, map: &NameMap<bool>) -> (r: bool)
    ensures
        r == stmt_calls_spec(tc.world(), class@, s@, map@),
    decreases s, 0nat,
{
    match s {
        Statement::VarDecl { value, .. } => maybe_calls_out(tc, class, value, map),
        Statement::Assignment { target, value } => expr_calls_out(tc, class, target, map)
            || expr_calls_out(tc, class, value, map),
        Statement::BitwiseFlip { index, value, .. } => expr_calls_out(tc, class, index, map)
            || expr_calls_out(tc, class, value, map),
        Statement::Assert { condition, message } => expr_calls_out(tc, class, condition, map)
            || maybe_calls_out(tc, class, message, map),
        Statement::Revert { error } => expr_calls_out(tc, class, error, map),
        Statement::Delete { target } => expr_calls_out(tc, class, target, map),
        Statement::Return { value } => maybe_calls_out(tc, class, value, map),
        Statement::IfElse { condition, if_body, else_body } => {
            expr_calls_out(tc, class, condition, map) || stmts_call_out(tc, class, if_body, map) || (
            match else_body {
                Some(b) => stmts_call_out(tc, class, b, map),
                None => false,
            })
        },
        Statement::ForLoop { iterable, body, .. } => expr_calls_out(tc, class, iterable, map)
            || stmts_call_out(tc, class, body, map),
        Statement::WhileLoop { condition, body } => expr_calls_out(tc, class, condition, map)
            || stmts_call_out(tc, class, body, map),
        Statement::Match { expr, arms } => {
            let mut b = false;
            let mut i: usize = 0;
            while i < arms.len()
                invariant
                    i <= arms@.len(),
                    s matches Statement::Match { expr: _, arms: a } && *arms == a,
                    b == arms_call(tc.world(), class@, arms_v(arms@), map@, i as nat),
                decreases arms@.len() - i,
            {
                let arm: &MatchArm = &arms[i];
                assert(decreases_to!(*s => *arm));
                assert(arms_v(arms@)[i as int] == arm@);
                b = b || stmts_call_out(tc, class, &arm.body, map);
                i += 1;
            }
            expr_calls_out(tc, class, expr, map) || b
        },
        Statement::TryCatch { try_body, catch_body } => stmts_call_out(tc, class, try_body, map)
            || stmts_call_out(tc, class, catch_body, map),
        Statement::ScopedTryCall { .. } => true,
        Statement::ReturnCaptures(_) => false,
        Statement::Expression(e) => expr_calls_out(tc, class, e, map),
        Statement::Call { .. } => true,
        Statement::UnsafeBlock(_) => true,
    }
}

fn stmts_call_out(
    tc: &TypeChecker,
    class: &ClassDecl,
    b: &Vec<Spanned<Statement>>,
    map: &NameMap<bool>,
) -> (r: bool)
    ensures
        r == body_calls(tc.world(), class@, body_v(b@), map@, b@.len()),
    decreases b, 1nat,
{
    let mut out = false;
    let mut i: usize = 0;
    while i < b.len()
        invariant
            i <= b@.len(),
            out == body_calls(tc.world(), class@, body_v(b@), map@, i as nat),
        decreases b@.len() - i,
    {
        let s: &Spanned<Statement> = &b[i];
        assert(decreases_to!(*b => *s));
        assert(body_v(b@)[i as int] == s@);
        out = out || stmt_calls_out(tc, class, &s.node, map);
        i += 1;
    }
    out
}

/// What the analysis begins with: no method hands control away.
pub open spec fn none_call(ms: Seq<FnV>, n: nat) -> Map<Seq<char>, bool>
    decreases n,
{
    if n == 0 {
        Map::empty()
    } else {
        none_call(ms, (n - 1) as nat).insert(ms[n - 1].name, false)
    }
}

/// One round over the first `n` methods.
pub open spec fn call_round(w: WorldV, c: ClassV, map: Map<Seq<char>, bool>, n: nat) -> Map<
    Seq<char>,
    bool,
>
    decreases n,
{
    if n == 0 {
        map
    } else {
        let m = call_round(w, c, map, (n - 1) as nat);
        let f = c.methods[n - 1];
        if !known_call(m, f.name) && body_calls(w, c, f.body, m, f.body.len()) {
            m.insert(f.name, true)
        } else {
            m
        }
    }
}

pub open spec fn call_rounds(w: WorldV, c: ClassV, map: Map<Seq<char>, bool>, k: nat) -> Map<
    Seq<char>,
    bool,
>
    decreases k,
{
    if k == 0 {
        map
    } else {
        call_round(w, c, call_rounds(w, c, map, (k - 1) as nat), c.methods.len())
    }
}

/// Which methods of a class can hand control to another contract.
pub open spec fn external_calls(w: WorldV, c: ClassV) -> Map<Seq<char>, bool> {
    call_rounds(w, c, none_call(c.methods, c.methods.len()), c.methods.len() + 2)
}

proof fn lemma_call_rounds_fixed(w: WorldV, c: ClassV, map: Map<Seq<char>, bool>, i: nat, k: nat)
    requires
        i <= k,
        call_round(w, c, call_rounds(w, c, map, i), c.methods.len()) == call_rounds(w, c, map, i),
    ensures
        call_rounds(w, c, map, k) == call_rounds(w, c, map, i),
    decreases k,
{
    if i < k {
        lemma_call_rounds_fixed(w, c, map, i, (k - 1) as nat);
    }
}

/// Which methods of a class can hand control to another contract.
pub fn analyze_external_calls(tc: &TypeChecker, class: &ClassDecl) -> (r: NameMap<bool>)
    ensures
        r@ == external_calls(tc.world(), class@),
{
    let ghost w = tc.world();
    let ghost c = class@;
    let ms = &class.methods;
    let mut map: NameMap<bool> = NameMap::new();
    let mut i: usize = 0;
    while i < ms.len()
        invariant
            i <= ms@.len(),
            *ms == class.methods,
            c == class@,
            map@ == none_call(c.methods, i as nat),
        decreases ms@.len() - i,
    {
        map.insert(ms[i].name.clone(), false);
        i += 1;
    }
    let ghost start = map@;
    let mut k: usize = 0;
    while k < ms.len()
        invariant
            k <= ms@.len(),
            *ms == class.methods,
            c == class@,
            w == tc.world(),
            start == none_call(c.methods, c.methods.len()),
            map@ == call_rounds(w, c, start, k as nat),
        decreases ms@.len() - k,
    {
        if !raise_calls(tc, class, &mut map) {
            proof {
                lemma_call_rounds_fixed(w, c, start, k as nat, ms@.len() + 2);
            }
            return map;
        }
        k += 1;
    }
    let _ = raise_calls(tc, class, &mut map);
    let _ = raise_calls(tc, class, &mut map);
    proof {
        assert(call_rounds(w, c, start, ms@.len() + 1) == call_round(
            w,
            c,
            call_rounds(w, c, start, ms@.len()),
            ms@.len(),
        ));
    }
    map
}

/// One round; whether it marked anything.
fn raise_calls(tc: &TypeChecker, class: &ClassDecl, map: &mut NameMap<bool>) -> (r: bool)
    ensures
        final(map)@ == call_round(tc.world(), class@, old(map)@, class@.methods.len()),
        !r ==> final(map)@ == old(map)@,
{
    let ghost c = class@;
    let ghost w = tc.world();
    let mut changed = false;
    let mut i: usize = 0;
    while i < class.methods.len()
        invariant
            i <= class.methods@.len(),
            c == class@,
            w == tc.world(),
            map@ == call_round(w, c, old(map)@, i as nat),
            !changed ==> map@ == old(map)@,
        decreases class.methods@.len() - i,
    {
        let f = &class.methods[i];
        assert(c.methods[i as int] == f@);
        if !call_of(map, f.name.as_str()) && stmts_call_out(tc, class, &f.body, map) {
            map.insert(f.name.clone(), true);
            changed = true;
        }
        i += 1;
    }
    changed
}

pub fn makes_external_call(f: &FnDecl, map: &NameMap<bool>) -> (r: bool)
    ensures
        r == known_call(map@, f.name@),
{
    call_of(map, f.name.as_str())
}

} // verus!
