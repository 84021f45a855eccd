//! What the paths through a body do: which fields they read and assign, and
//! whether they come out at the end.
use crate::ast::{
    arms_v, body_v, exprs_v, segs_v, ArmV, Expr, ExprV, FStringSegment, MatchArm, SegV, Spanned,
    SpannedV, Statement, StmtV,
};
use crate::text::same;
use vstd::prelude::*;

verus! {

broadcast use crate::ast::group_views;

/// Whether an expression names `Class.field`, or `self.field` inside a method.
pub open spec fn targets(e: ExprV, class: Seq<char>, field: Seq<char>) -> bool {
    match e {
        ExprV::PropertyAccess { base, property } => property == field && (*base
            == ExprV::Identifier(class) || *base == ExprV::Identifier("self"@)),
        _ => false,
    }
}

pub fn targets_field(e: &Expr, class: &str, field: &str) -> (r: bool)
    ensures
        r == targets(e@, class@, field@),
{
    proof {
        reveal_with_fuel(Expr::view, 2);
    }
    match e {
        Expr::PropertyAccess { base, property } => {
            let named = match &**base {
                Expr::Identifier(b) => same(b.as_str(), class) || same(b.as_str(), "self"),
                _ => false,
            };
            same(property.as_str(), field) && named
        },
        _ => false,
    }
}

/// Whether a statement assigns the field anywhere, reachable or not.
pub open spec fn stmt_assigns(s: StmtV, class: Seq<char>, field: Seq<char>) -> bool
    decreases s,
{
    match s {
        StmtV::Assignment { target, value } => targets(target, class, field),
        StmtV::IfElse { condition, if_body, else_body } => assigns(if_body, class, field) || (
        match else_body {
            Some(b) => assigns(b, class, field),
            None => false,
        }),
        StmtV::WhileLoop { condition, body } => assigns(body, class, field),
        StmtV::ForLoop { iterator, iterable, body } => assigns(body, class, field),
        StmtV::TryCatch { try_body, catch_body } => assigns(try_body, class, field) || assigns(
            catch_body,
            class,
            field,
        ),
        StmtV::ScopedTryCall { catch_body, .. } => assigns(catch_body, class, field),
        StmtV::Match { expr, arms } => arms_assign(arms, class, field),
        _ => false,
    }
}

pub open spec fn arms_assign(arms: Seq<ArmV>, class: Seq<char>, field: Seq<char>) -> bool
    decreases arms,
{
    exists|i: int| 0 <= i < arms.len() && assigns((#[trigger] arms[i]).body, class, field)
}

/// Whether a body assigns the field anywhere, reachable or not.
pub open spec fn assigns(body: Seq<SpannedV>, class: Seq<char>, field: Seq<char>) -> bool
    decreases body,
{
    exists|i: int| 0 <= i < body.len() && stmt_assigns((#[trigger] body[i]).node, class, field)
}

fn stmt_assigns_field(s: &Statement, class: &str, field: &str) -> (r: bool)
    ensures
        r == stmt_assigns(s@, class@, field@),
    decreases s,
{
    match s {
        Statement::Assignment { target, .. } => targets_field(target, class, field),
        Statement::IfElse { if_body, else_body, .. } => assigns_field(if_body, class, field) || (
        match else_body {
            Some(b) => assigns_field(b, class, field),
            None => false,
        }),
        Statement::WhileLoop { body, .. } => assigns_field(body, class, field),
        Statement::ForLoop { body, .. } => assigns_field(body, class, field),
        Statement::TryCatch { try_body, catch_body } => assigns_field(try_body, class, field)
            || assigns_field(catch_body, class, field),
        Statement::ScopedTryCall { catch_body, .. } => assigns_field(catch_body, class, field),
        Statement::Match { arms, .. } => {
            let mut i: usize = 0;
            while i < arms.len()
                invariant
                    i <= arms@.len(),
                    s matches Statement::Match { expr, arms: a } && *arms == a,
                    forall|k: int|
                        0 <= k < i ==> !assigns((#[trigger] arms_v(arms@)[k]).body, class@, field@),
                decreases arms@.len() - i,
            {
                let arm: &MatchArm = &arms[i];
                assert(decreases_to!(*s => *arm));
                if assigns_field(&arm.body, class, field) {
                    assert(assigns(arms_v(arms@)[i as int].body, class@, field@));
                    return true;
                }
                i += 1;
            }
            false
        },
        _ => false,
    }
}

pub fn assigns_field(body: &Vec<Spanned<Statement>>, class: &str, field: &str) -> (r: bool)
    ensures
        r == assigns(body_v(body@), class@, field@),
    decreases body,
{
    let mut i: usize = 0;
    while i < body.len()
        invariant
            i <= body@.len(),
            forall|k: int|
                0 <= k < i ==> !stmt_assigns((#[trigger] body_v(body@)[k]).node, class@, field@),
        decreases body@.len() - i,
    {
        let s: &Spanned<Statement> = &body[i];
        assert(decreases_to!(*body => *s));
        if stmt_assigns_field(&s.node, class, field) {
            assert(stmt_assigns(body_v(body@)[i as int].node, class@, field@));
            return true;
        }
        i += 1;
    }
    false
}


/// Whether an expression reads the field anywhere inside it.
pub open spec fn expr_reads(e: ExprV, class: Seq<char>, field: Seq<char>) -> bool
    decreases e,
{
    targets(e, class, field) || match e {
        ExprV::PropertyAccess { base, property } => expr_reads(*base, class, field),
        ExprV::FnCall { name, args } => exprs_read(args, class, field),
        ExprV::Instantiation { type_def, args } => exprs_read(args, class, field),
        ExprV::StaticCall { type_def, method, args } => exprs_read(args, class, field),
        ExprV::ArrayLiteral(args) => exprs_read(args, class, field),
        ExprV::MethodCall { base, method, args } => expr_reads(*base, class, field) || exprs_read(
            args,
            class,
            field,
        ),
        ExprV::IndexAccess { base, index } => expr_reads(*base, class, field) || expr_reads(
            *index,
            class,
            field,
        ),
        ExprV::BinaryOp { left, operator, right } => expr_reads(*left, class, field) || expr_reads(
            *right,
            class,
            field,
        ),
        ExprV::Neg(x) => expr_reads(*x, class, field),
        ExprV::Not(x) => expr_reads(*x, class, field),
        ExprV::FString(segs) => segs_read(segs, class, field),
        _ => false,
    }
}

pub open spec fn exprs_read(es: Seq<ExprV>, class: Seq<char>, field: Seq<char>) -> bool
    decreases es,
{
    exists|i: int| 0 <= i < es.len() && expr_reads(#[trigger] es[i], class, field)
}

pub open spec fn segs_read(segs: Seq<SegV>, class: Seq<char>, field: Seq<char>) -> bool
    decreases segs,
{
    exists|i: int|
        0 <= i < segs.len() && match #[trigger] segs[i] {
            SegV::Interp(x) => expr_reads(x, class, field),
            SegV::Literal(_) => false,
        }
}

pub fn exprs_read_field(es: &Vec<Expr>, class: &str, field: &str) -> (r: bool)
    ensures
        r == exprs_read(exprs_v(es@), class@, field@),
    decreases es,
{
    let mut i: usize = 0;
    while i < es.len()
        invariant
            i <= es@.len(),
            forall|k: int| 0 <= k < i ==> !expr_reads(#[trigger] exprs_v(es@)[k], class@, field@),
        decreases es@.len() - i,
    {
        if expr_reads_field(&es[i], class, field) {
            assert(expr_reads(exprs_v(es@)[i as int], class@, field@));
            return true;
        }
        i += 1;
    }
    false
}

fn segs_read_field(segs: &Vec<FStringSegment>, class: &str, field: &str) -> (r: bool)
    ensures
        r == segs_read(segs_v(segs@), class@, field@),
    decreases segs,
{
    let mut i: usize = 0;
    while i < segs.len()
        invariant
            i <= segs@.len(),
            forall|k: int|
                0 <= k < i ==> match #[trigger] segs_v(segs@)[k] {
                    SegV::Interp(x) => !expr_reads(x, class@, field@),
                    SegV::Literal(_) => true,
                },
        decreases segs@.len() - i,
    {
        let seg: &FStringSegment = &segs[i];
        assert(decreases_to!(*segs => *seg));
        match seg {
            FStringSegment::Interp(x) => {
                if expr_reads_field(x, class, field) {
                    assert(segs_v(segs@)[i as int] == SegV::Interp(x@));
                    return true;
                }
            },
            FStringSegment::Literal(_) => {},
        }
        i += 1;
    }
    false
}

pub fn expr_reads_field(e: &Expr, class: &str, field: &str) -> (r: bool)
    ensures
        r == expr_reads(e@, class@, field@),
    decreases e,
{
    if targets_field(e, class, field) {
        return true;
    }
    match e {
        Expr::PropertyAccess { base, property } => {
            assert(e@ == (ExprV::PropertyAccess { base: Box::new(base@), property: property@ }));
            expr_reads_field(base, class, field)
        },
        Expr::FnCall { args, .. } => exprs_read_field(args, class, field),
        Expr::Instantiation { args, .. } => exprs_read_field(args, class, field),
        Expr::StaticCall { args, .. } => exprs_read_field(args, class, field),
        Expr::ArrayLiteral(args) => exprs_read_field(args, class, field),
        Expr::MethodCall { base, args, .. } => expr_reads_field(base, class, field)
            || exprs_read_field(args, class, field),
        Expr::IndexAccess { base, index } => expr_reads_field(base, class, field)
            || expr_reads_field(index, class, field),
        Expr::BinaryOp { left, right, .. } => expr_reads_field(left, class, field)
            || expr_reads_field(right, class, field),
        Expr::Neg(x) => expr_reads_field(x, class, field),
        Expr::Not(x) => expr_reads_field(x, class, field),
        Expr::FString(segs) => segs_read_field(segs, class, field),
        _ => false,
    }
}

pub open spec fn opt_reads(e: Option<ExprV>, class: Seq<char>, field: Seq<char>) -> bool {
    match e {
        Some(e) => expr_reads(e, class, field),
        None => false,
    }
}

/// Whether a statement reads the field, as opposed to assigning it.
pub open spec fn stmt_reads(s: StmtV, class: Seq<char>, field: Seq<char>) -> bool
    decreases s,
{
    match s {
        StmtV::Assignment { target, value } => expr_reads(value, class, field),
        StmtV::VarDecl { value, .. } => opt_reads(value, class, field),
        StmtV::Assert { condition, message } => expr_reads(condition, class, field) || opt_reads(
            message,
            class,
            field,
        ),
        StmtV::Revert { error } => expr_reads(error, class, field),
        StmtV::Call { target, args } => exprs_read(args, class, field),
        StmtV::Return { value } => opt_reads(value, class, field),
        StmtV::Expression(e) => expr_reads(e, class, field),
        StmtV::Delete { target } => expr_reads(target, class, field),
        StmtV::BitwiseFlip { name, index, value } => expr_reads(index, class, field) || expr_reads(
            value,
            class,
            field,
        ),
        StmtV::IfElse { condition, if_body, else_body } => expr_reads(condition, class, field)
            || reads(if_body, class, field) || (match else_body {
            Some(b) => reads(b, class, field),
            None => false,
        }),
        StmtV::WhileLoop { condition, body } => expr_reads(condition, class, field) || reads(
            body,
            class,
            field,
        ),
        StmtV::ForLoop { iterator, iterable, body } => expr_reads(iterable, class, field) || reads(
            body,
            class,
            field,
        ),
        StmtV::TryCatch { try_body, catch_body } => reads(try_body, class, field) || reads(
            catch_body,
            class,
            field,
        ),
        StmtV::ScopedTryCall { catch_body, .. } => reads(catch_body, class, field),
        StmtV::Match { expr, arms } => expr_reads(expr, class, field) || arms_read(
            arms,
            class,
            field,
        ),
        StmtV::ReturnCaptures(_) => false,
        StmtV::UnsafeBlock(_) => false,
    }
}

pub open spec fn arms_read(arms: Seq<ArmV>, class: Seq<char>, field: Seq<char>) -> bool
    decreases arms,
{
    exists|i: int| 0 <= i < arms.len() && reads((#[trigger] arms[i]).body, class, field)
}

/// Whether a body reads the field anywhere.
pub open spec fn reads(body: Seq<SpannedV>, class: Seq<char>, field: Seq<char>) -> bool
    decreases body,
{
    exists|i: int| 0 <= i < body.len() && stmt_reads((#[trigger] body[i]).node, class, field)
}

fn opt_reads_field(e: &Option<Expr>, class: &str, field: &str) -> (r: bool)
    ensures
        r == opt_reads(crate::ast::opt_expr_v(*e), class@, field@),
{
    match e {
        Some(e) => expr_reads_field(e, class, field),
        None => false,
    }
}

fn stmt_reads_field(s: &Statement, class: &str, field: &str) -> (r: bool)
    ensures
        r == stmt_reads(s@, class@, field@),
    decreases s,
{
    match s {
        Statement::Assignment { value, .. } => expr_reads_field(value, class, field),
        Statement::VarDecl { value, .. } => opt_reads_field(value, class, field),
        Statement::Assert { condition, message } => expr_reads_field(condition, class, field)
            || opt_reads_field(message, class, field),
        Statement::Revert { error } => expr_reads_field(error, class, field),
        Statement::Call { args, .. } => exprs_read_field(args, class, field),
        Statement::Return { value } => opt_reads_field(value, class, field),
        Statement::Expression(e) => expr_reads_field(e, class, field),
        Statement::Delete { target } => expr_reads_field(target, class, field),
        Statement::BitwiseFlip { index, value, .. } => expr_reads_field(index, class, field)
            || expr_reads_field(value, class, field),
        Statement::IfElse { condition, if_body, else_body } => expr_reads_field(
            condition,
            class,
            field,
        ) || reads_field(if_body, class, field) || (match else_body {
            Some(b) => reads_field(b, class, field),
            None => false,
        }),
        Statement::WhileLoop { condition, body } => expr_reads_field(condition, class, field)
            || reads_field(body, class, field),
        Statement::ForLoop { iterable, body, .. } => expr_reads_field(iterable, class, field)
            || reads_field(body, class, field),
        Statement::TryCatch { try_body, catch_body } => reads_field(try_body, class, field)
            || reads_field(catch_body, class, field),
        Statement::ScopedTryCall { catch_body, .. } => reads_field(catch_body, class, field),
        Statement::Match { expr, arms } => {
            if expr_reads_field(expr, class, field) {
                return true;
            }
            let mut i: usize = 0;
            while i < arms.len()
                invariant
                    i <= arms@.len(),
                    s matches Statement::Match { expr: e0, arms: a } && *arms == a,
                    forall|k: int|
                        0 <= k < i ==> !reads((#[trigger] arms_v(arms@)[k]).body, class@, field@),
                decreases arms@.len() - i,
            {
                let arm: &MatchArm = &arms[i];
                assert(decreases_to!(*s => *arm));
                if reads_field(&arm.body, class, field) {
                    assert(reads(arms_v(arms@)[i as int].body, class@, field@));
                    return true;
                }
                i += 1;
            }
            false
        },
        Statement::ReturnCaptures(_) => false,
        Statement::UnsafeBlock(_) => false,
    }
}

pub fn reads_field(body: &Vec<Spanned<Statement>>, class: &str, field: &str) -> (r: bool)
    ensures
        r == reads(body_v(body@), class@, field@),
    decreases body,
{
    let mut i: usize = 0;
    while i < body.len()
        invariant
            i <= body@.len(),
            forall|k: int|
                0 <= k < i ==> !stmt_reads((#[trigger] body_v(body@)[k]).node, class@, field@),
        decreases body@.len() - i,
    {
        let s: &Spanned<Statement> = &body[i];
        assert(decreases_to!(*body => *s));
        if stmt_reads_field(&s.node, class, field) {
            assert(stmt_reads(body_v(body@)[i as int].node, class@, field@));
            return true;
        }
        i += 1;
    }
    false
}

/// Whether a statement cannot complete normally: every path through it ends in
/// a return or a revert.
pub open spec fn stmt_diverges(s: StmtV) -> bool
    decreases s,
{
    match s {
        StmtV::Return { value } => true,
        StmtV::Revert { error } => true,
        StmtV::IfElse { condition, if_body, else_body } => diverges_spec(if_body) && (match else_body {
            Some(b) => diverges_spec(b),
            None => false,
        }),
        StmtV::Match { expr, arms } => arms_diverge(arms),
        _ => false,
    }
}

pub open spec fn arms_diverge(arms: Seq<ArmV>) -> bool
    decreases arms,
{
    forall|i: int| 0 <= i < arms.len() ==> diverges_spec((#[trigger] arms[i]).body)
}

/// Whether a body cannot complete normally.
pub open spec fn diverges_spec(body: Seq<SpannedV>) -> bool
    decreases body,
{
    exists|i: int| 0 <= i < body.len() && stmt_diverges((#[trigger] body[i]).node)
}

fn stmt_diverging(s: &Statement) -> (r: bool)
    ensures
        r == stmt_diverges(s@),
    decreases s,
{
    match s {
        Statement::Return { .. } => true,
        Statement::Revert { .. } => true,
        Statement::IfElse { if_body, else_body, .. } => diverges(if_body) && (match else_body {
            Some(b) => diverges(b),
            None => false,
        }),
        Statement::Match { arms, .. } => {
            let mut i: usize = 0;
            while i < arms.len()
                invariant
                    i <= arms@.len(),
                    s matches Statement::Match { expr, arms: a } && *arms == a,
                    forall|k: int| 0 <= k < i ==> diverges_spec((#[trigger] arms_v(arms@)[k]).body),
                decreases arms@.len() - i,
            {
                let arm: &MatchArm = &arms[i];
                assert(decreases_to!(*s => *arm));
                if !diverges(&arm.body) {
                    assert(!diverges_spec(arms_v(arms@)[i as int].body));
                    return false;
                }
                i += 1;
            }
            true
        },
        _ => false,
    }
}

pub fn diverges(body: &Vec<Spanned<Statement>>) -> (r: bool)
    ensures
        r == diverges_spec(body_v(body@)),
    decreases body,
{
    let mut i: usize = 0;
    while i < body.len()
        invariant
            i <= body@.len(),
            forall|k: int| 0 <= k < i ==> !stmt_diverges((#[trigger] body_v(body@)[k]).node),
        decreases body@.len() - i,
    {
        let s: &Spanned<Statement> = &body[i];
        assert(decreases_to!(*body => *s));
        if stmt_diverging(&s.node) {
            assert(stmt_diverges(body_v(body@)[i as int].node));
            return true;
        }
        i += 1;
    }
    false
}

/// Whether every path through a statement that completes normally has
/// assigned the field.
pub open spec fn stmt_definite(s: StmtV, class: Seq<char>, field: Seq<char>) -> bool
    decreases s,
{
    match s {
        StmtV::Assignment { target, value } => targets(target, class, field),
        StmtV::IfElse { condition, if_body, else_body } => (definite(if_body, class, field)
            || diverges_spec(if_body)) && (match else_body {
            Some(b) => definite(b, class, field) || diverges_spec(b),
            None => false,
        }),
        StmtV::Match { expr, arms } => arms_definite(arms, class, field),
        _ => false,
    }
}

pub open spec fn arms_definite(arms: Seq<ArmV>, class: Seq<char>, field: Seq<char>) -> bool
    decreases arms,
{
    forall|i: int|
        0 <= i < arms.len() ==> definite((#[trigger] arms[i]).body, class, field) || diverges_spec(
            arms[i].body,
        )
}

/// Whether every path through a body that completes normally has assigned the
/// field.
pub open spec fn definite(body: Seq<SpannedV>, class: Seq<char>, field: Seq<char>) -> bool
    decreases body,
{
    exists|i: int| 0 <= i < body.len() && stmt_definite((#[trigger] body[i]).node, class, field)
}

fn covered(body: &Vec<Spanned<Statement>>, class: &str, field: &str) -> (r: bool)
    ensures
        r == (definite(body_v(body@), class@, field@) || diverges_spec(body_v(body@))),
    decreases body, 1nat,
{
    definitely_assigns(body, class, field) || diverges(body)
}

fn stmt_definitely(s: &Statement, class: &str, field: &str) -> (r: bool)
    ensures
        r == stmt_definite(s@, class@, field@),
    decreases s, 0nat,
{
    match s {
        Statement::Assignment { target, .. } => targets_field(target, class, field),
        Statement::IfElse { if_body, else_body, .. } => covered(if_body, class, field) && (
        match else_body {
            Some(b) => covered(b, class, field),
            None => false,
        }),
        Statement::Match { arms, .. } => {
            let mut i: usize = 0;
            while i < arms.len()
                invariant
                    i <= arms@.len(),
                    s matches Statement::Match { expr, arms: a } && *arms == a,
                    forall|k: int|
                        0 <= k < i ==> definite(
                            (#[trigger] arms_v(arms@)[k]).body,
                            class@,
                            field@,
                        ) || diverges_spec(arms_v(arms@)[k].body),
                decreases arms@.len() - i,
            {
                let arm: &MatchArm = &arms[i];
                assert(decreases_to!(*s => *arm));
                if !covered(&arm.body, class, field) {
                    assert(!diverges_spec(arms_v(arms@)[i as int].body));
                    return false;
                }
                i += 1;
            }
            true
        },
        _ => false,
    }
}

pub fn definitely_assigns(body: &Vec<Spanned<Statement>>, class: &str, field: &str) -> (r: bool)
    ensures
        r == definite(body_v(body@), class@, field@),
    decreases body, 0nat,
{
    let mut i: usize = 0;
    while i < body.len()
        invariant
            i <= body@.len(),
            forall|k: int|
                0 <= k < i ==> !stmt_definite((#[trigger] body_v(body@)[k]).node, class@, field@),
        decreases body@.len() - i,
    {
        let s: &Spanned<Statement> = &body[i];
        assert(decreases_to!(*body => *s));
        if stmt_definitely(&s.node, class, field) {
            assert(stmt_definite(body_v(body@)[i as int].node, class@, field@));
            return true;
        }
        i += 1;
    }
    false
}

/// Whether some path through a statement completes normally without having
/// assigned the field. A branch takes either side, a match one of its arms, a
/// loop may run zero times.
pub open spec fn stmt_slips(s: StmtV, class: Seq<char>, field: Seq<char>) -> bool
    decreases s,
{
    match s {
        StmtV::Assignment { target, value } => !targets(target, class, field),
        StmtV::Return { value } => false,
        StmtV::Revert { error } => false,
        StmtV::IfElse { condition, if_body, else_body } => slips(if_body, class, field) || (
        match else_body {
            Some(b) => slips(b, class, field),
            None => true,
        }),
        StmtV::Match { expr, arms } => arms_slip(arms, class, field),
        _ => true,
    }
}

pub open spec fn arms_slip(arms: Seq<ArmV>, class: Seq<char>, field: Seq<char>) -> bool
    decreases arms,
{
    exists|i: int| 0 <= i < arms.len() && slips((#[trigger] arms[i]).body, class, field)
}

/// Whether some path through a body completes normally without having
/// assigned the field: one through each of its statements does.
pub open spec fn slips(body: Seq<SpannedV>, class: Seq<char>, field: Seq<char>) -> bool
    decreases body,
{
    forall|i: int| 0 <= i < body.len() ==> stmt_slips((#[trigger] body[i]).node, class, field)
}

/// Definite assignment is exact: a body definitely assigns a field or never
/// completes if and only if no path through it completes normally without
/// having assigned the field.
pub proof fn law_definite_exact(body: Seq<SpannedV>, class: Seq<char>, field: Seq<char>)
    ensures
        (definite(body, class, field) || diverges_spec(body)) <==> !slips(body, class, field),
    decreases body,
{
    assert forall|i: int| 0 <= i < body.len() implies stmt_slips(
        (#[trigger] body[i]).node,
        class,
        field,
    ) == !(stmt_definite(body[i].node, class, field) || stmt_diverges(body[i].node)) by {
        lemma_stmt_exact(body[i].node, class, field);
    }
    if !slips(body, class, field) {
        let i = choose|i: int|
            0 <= i < body.len() && !stmt_slips((#[trigger] body[i]).node, class, field);
        assert(stmt_definite(body[i].node, class, field) || stmt_diverges(body[i].node));
    }
}

proof fn lemma_stmt_exact(s: StmtV, class: Seq<char>, field: Seq<char>)
    ensures
        stmt_slips(s, class, field) == !(stmt_definite(s, class, field) || stmt_diverges(s)),
    decreases s,
{
    match s {
        StmtV::IfElse { condition, if_body, else_body } => {
            law_definite_exact(if_body, class, field);
            match else_body {
                Some(b) => {
                    law_definite_exact(b, class, field);
                },
                None => {},
            }
        },
        StmtV::Match { expr, arms } => {
            assert forall|i: int| 0 <= i < arms.len() implies slips(
                (#[trigger] arms[i]).body,
                class,
                field,
            ) == !(definite(arms[i].body, class, field) || diverges_spec(arms[i].body)) by {
                assert(decreases_to!(arms => arms[i]));
                law_definite_exact(arms[i].body, class, field);
            }
        },
        _ => {},
    }
}

/// A body that definitely assigns a field assigns it somewhere, unless it
/// never completes.
pub proof fn law_definite_assigns(body: Seq<SpannedV>, class: Seq<char>, field: Seq<char>)
    requires
        definite(body, class, field),
    ensures
        assigns(body, class, field) || diverges_spec(body),
    decreases body,
{
    let i = choose|i: int|
        0 <= i < body.len() && stmt_definite((#[trigger] body[i]).node, class, field);
    lemma_stmt_assigns(body[i].node, class, field);
    if stmt_assigns(body[i].node, class, field) {
        assert(assigns(body, class, field));
    }
}

proof fn lemma_stmt_assigns(s: StmtV, class: Seq<char>, field: Seq<char>)
    requires
        stmt_definite(s, class, field),
    ensures
        stmt_assigns(s, class, field) || stmt_diverges(s),
    decreases s,
{
    match s {
        StmtV::IfElse { condition, if_body, else_body } => {
            if definite(if_body, class, field) {
                law_definite_assigns(if_body, class, field);
            }
            match else_body {
                Some(b) => {
                    if definite(b, class, field) {
                        law_definite_assigns(b, class, field);
                    }
                },
                None => {},
            }
        },
        StmtV::Match { expr, arms } => {
            if !arms_assign(arms, class, field) {
                assert forall|i: int| 0 <= i < arms.len() implies diverges_spec(
                    (#[trigger] arms[i]).body,
                ) by {
                    assert(decreases_to!(arms => arms[i]));
                    assert(!assigns(arms[i].body, class, field));
                    if definite(arms[i].body, class, field) {
                        law_definite_assigns(arms[i].body, class, field);
                    }
                }
            }
        },
        _ => {},
    }
}

} // verus!
