//! Which contracts a contract deploys with `new X(..)`: the creation code of each
//! is embedded in that of the deployer.
use crate::ast::{
    arms_v, body_v, exprs_v, methods_v, opt_expr_v, segs_v, ArmV, Expr, ExprV, FStringSegment,
    FnDecl, FnV, MatchArm, SegV, Spanned, SpannedV, Statement, StmtV, Type, TypeV,
};
use crate::codegen::mutability::{contract_name, is_contract_name};
use crate::semantic::{TypeChecker, WorldV};
use crate::text::{has_text, texts};
use vstd::prelude::*;

verus! {

broadcast use crate::ast::group_views;

/// The contracts found so far, with those that an expression deploys; each stands
/// once, in the order in which they are first seen.
pub open spec fn expr_deploys(w: WorldV, found: Seq<Seq<char>>, e: ExprV) -> Seq<Seq<char>>
    decreases e, 0nat,
{
    match e {
        ExprV::Instantiation { type_def, args } => exprs_deploy(
            w,
            (match type_def {
                TypeV::Primitive(n) => if contract_name(w, n) && !found.contains(n) {
                    found.push(n)
                } else {
                    found
                },
                _ => found,
            }),
            args,
            args.len(),
        ),
        ExprV::FnCall { name: _, args } => exprs_deploy(w, found, args, args.len()),
        ExprV::StaticCall { type_def: _, method: _, args } => exprs_deploy(
            w,
            found,
            args,
            args.len(),
        ),
        ExprV::MethodCall { base, method: _, args } => exprs_deploy(
            w,
            expr_deploys(w, found, *base),
            args,
            args.len(),
        ),
        ExprV::PropertyAccess { base, property: _ } => expr_deploys(w, found, *base),
        ExprV::IndexAccess { base, index } => expr_deploys(
            w,
            expr_deploys(w, found, *base),
            *index,
        ),
        ExprV::BinaryOp { left, operator: _, right } => expr_deploys(
            w,
            expr_deploys(w, found, *left),
            *right,
        ),
        ExprV::Neg(x) => expr_deploys(w, found, *x),
        ExprV::Not(x) => expr_deploys(w, found, *x),
        ExprV::ArrayLiteral(xs) => exprs_deploy(w, found, xs, xs.len()),
        ExprV::FString(segs) => segs_deploy(w, found, segs, segs.len()),
        _ => found,
    }
}

pub open spec fn exprs_deploy(
    w: WorldV,
    found: Seq<Seq<char>>,
    xs: Seq<ExprV>,
    n: nat,
) -> Seq<Seq<char>>
    decreases xs, n,
{
    if n == 0 || n > xs.len() {
        found
    } else {
        expr_deploys(w, exprs_deploy(w, found, xs, (n - 1) as nat), xs[n - 1])
    }
}

pub open spec fn segs_deploy(
    w: WorldV,
    found: Seq<Seq<char>>,
    segs: Seq<SegV>,
    n: nat,
) -> Seq<Seq<char>>
    decreases segs, n,
{
    if n == 0 || n > segs.len() {
        found
    } else {
        let found = segs_deploy(w, found, segs, (n - 1) as nat);
        match segs[n - 1] {
            SegV::Interp(x) => expr_deploys(w, found, x),
            SegV::Literal(_) => found,
        }
    }
}

pub open spec fn opt_deploys(w: WorldV, found: Seq<Seq<char>>, e: Option<ExprV>) -> Seq<Seq<char>> {
    match e {
        Some(x) => expr_deploys(w, found, x),
        None => found,
    }
}

/// The contracts that a statement deploys.
pub open spec fn stmt_deploys(w: WorldV, found: Seq<Seq<char>>, s: StmtV) -> Seq<Seq<char>>
    decreases s, 0nat,
{
    match s {
        StmtV::VarDecl { value, .. } => opt_deploys(w, found, value),
        StmtV::Assignment { target, value } => expr_deploys(
            w,
            expr_deploys(w, found, target),
            value,
        ),
        StmtV::Delete { target } => expr_deploys(w, found, target),
        StmtV::Assert { condition, message } => opt_deploys(
            w,
            expr_deploys(w, found, condition),
            message,
        ),
        StmtV::Revert { error } => expr_deploys(w, found, error),
        StmtV::Return { value } => opt_deploys(w, found, value),
        StmtV::IfElse { condition, if_body, else_body } => {
            let found = expr_deploys(w, found, condition);
            let found = body_deploys(w, found, if_body, if_body.len());
            match else_body {
                Some(b) => body_deploys(w, found, b, b.len()),
                None => found,
            }
        },
        StmtV::ForLoop { iterator: _, iterable, body } => body_deploys(
            w,
            expr_deploys(w, found, iterable),
            body,
            body.len(),
        ),
        StmtV::WhileLoop { condition, body } => body_deploys(
            w,
            expr_deploys(w, found, condition),
            body,
            body.len(),
        ),
        StmtV::Match { expr, arms } => arms_deploy(
            w,
            expr_deploys(w, found, expr),
            arms,
            arms.len(),
        ),
        StmtV::Expression(e) => expr_deploys(w, found, e),
        StmtV::Call { target: _, args } => exprs_deploy(w, found, args, args.len()),
        StmtV::BitwiseFlip { name: _, index, value } => expr_deploys(
            w,
            expr_deploys(w, found, index),
            value,
        ),
        StmtV::TryCatch { try_body, catch_body } => body_deploys(
            w,
            body_deploys(w, found, try_body, try_body.len()),
            catch_body,
            catch_body.len(),
        ),
        StmtV::ScopedTryCall { catch_body, .. } => body_deploys(
            w,
            found,
            catch_body,
            catch_body.len(),
        ),
        _ => found,
    }
}

pub open spec fn body_deploys(
    w: WorldV,
    found: Seq<Seq<char>>,
    body: Seq<SpannedV>,
    n: nat,
) -> Seq<Seq<char>>
    decreases body, n,
{
    if n == 0 || n > body.len() {
        found
    } else {
        stmt_deploys(w, body_deploys(w, found, body, (n - 1) as nat), body[n - 1].node)
    }
}

pub open spec fn arms_deploy(
    w: WorldV,
    found: Seq<Seq<char>>,
    arms: Seq<ArmV>,
    n: nat,
) -> Seq<Seq<char>>
    decreases arms, n,
{
    if n == 0 || n > arms.len() {
        found
    } else {
        body_deploys(
            w,
            arms_deploy(w, found, arms, (n - 1) as nat),
            arms[n - 1].body,
            arms[n - 1].body.len(),
        )
    }
}

pub open spec fn methods_deploy(w: WorldV, ms: Seq<FnV>, n: nat) -> Seq<Seq<char>>
    decreases n,
{
    if n == 0 {
        Seq::empty()
    } else {
        let body = ms[n - 1].body;
        body_deploys(w, methods_deploy(w, ms, (n - 1) as nat), body, body.len())
    }
}

fn scan_expr(tc: &TypeChecker, found: &mut Vec<String>, e: &Expr)
    ensures
        texts(final(found)@) == expr_deploys(tc.world(), texts(old(found)@), e@),
    decreases e, 1nat,
{
    proof {
        reveal_with_fuel(Expr::view, 2);
    }
    match e {
        Expr::Instantiation { type_def, args } => {
            match type_def {
                Type::Primitive(n) => {
                    let ghost before = texts(found@);
                    if is_contract_name(tc, n.as_str()) && !has_text(found, n.as_str()) {
                        found.push(n.clone());
                        assert(texts(found@) =~= before.push(n@));
                    }
                },
                _ => {},
            }
            scan_exprs(tc, found, args);
        },
        Expr::FnCall { name: _, args } => scan_exprs(tc, found, args),
        Expr::StaticCall { type_def: _, method: _, args } => scan_exprs(tc, found, args),
        Expr::MethodCall { base, method: _, args } => {
            scan_expr(tc, found, base);
            scan_exprs(tc, found, args);
        },
        Expr::PropertyAccess { base, property: _ } => scan_expr(tc, found, base),
        Expr::IndexAccess { base, index } => {
            scan_expr(tc, found, base);
            scan_expr(tc, found, index);
        },
        Expr::BinaryOp { left, operator: _, right } => {
            scan_expr(tc, found, left);
            scan_expr(tc, found, right);
        },
        Expr::Neg(x) => scan_expr(tc, found, x),
        Expr::Not(x) => scan_expr(tc, found, x),
        Expr::ArrayLiteral(xs) => scan_exprs(tc, found, xs),
        Expr::FString(segs) => scan_segs(tc, found, segs),
        _ => {},
    }
}

fn scan_exprs(tc: &TypeChecker, found: &mut Vec<String>, xs: &Vec<Expr>)
    ensures
        texts(final(found)@) == exprs_deploy(
            tc.world(),
            texts(old(found)@),
            exprs_v(xs@),
            xs@.len(),
        ),
    decreases xs, 0nat,
{
    let ghost f0 = texts(found@);
    let mut i: usize = 0;
    while i < xs.len()
        invariant
            i <= xs@.len(),
            texts(found@) == exprs_deploy(tc.world(), f0, exprs_v(xs@), i as nat),
        decreases xs@.len() - i,
    {
        let x: &Expr = &xs[i];
        assert(decreases_to!(*xs => *x));
        assert(exprs_v(xs@)[i as int] == x@);
        scan_expr(tc, found, x);
        i += 1;
    }
}

fn scan_segs(tc: &TypeChecker, found: &mut Vec<String>, segs: &Vec<FStringSegment>)
    ensures
        texts(final(found)@) == segs_deploy(
            tc.world(),
            texts(old(found)@),
            segs_v(segs@),
            segs@.len(),
        ),
    decreases segs, 0nat,
{
    let ghost f0 = texts(found@);
    let mut i: usize = 0;
    while i < segs.len()
        invariant
            i <= segs@.len(),
            texts(found@) == segs_deploy(tc.world(), f0, segs_v(segs@), i as nat),
        decreases segs@.len() - i,
    {
        let s: &FStringSegment = &segs[i];
        assert(decreases_to!(*segs => *s));
        assert(segs_v(segs@)[i as int] == s@);
        match s {
            FStringSegment::Interp(x) => scan_expr(tc, found, x),
            FStringSegment::Literal(_) => {},
        }
        i += 1;
    }
}

fn scan_opt(tc: &TypeChecker, found: &mut Vec<String>, e: &Option<Expr>)
    ensures
        texts(final(found)@) == opt_deploys(tc.world(), texts(old(found)@), opt_expr_v(*e)),
{
    match e {
        Some(x) => scan_expr(tc, found, x),
        None => {},
    }
}

fn scan_stmt(tc: &TypeChecker, found: &mut Vec<String>, s: &Statement)
    ensures
        texts(final(found)@) == stmt_deploys(tc.world(), texts(old(found)@), s@),
    decreases s, 1nat,
{
    proof {
        reveal_with_fuel(Statement::view, 2);
    }
    match s {
        Statement::VarDecl { value, .. } => scan_opt(tc, found, value),
        Statement::Assignment { target, value } => {
            scan_expr(tc, found, target);
            scan_expr(tc, found, value);
        },
        Statement::Delete { target } => scan_expr(tc, found, target),
        Statement::Assert { condition, message } => {
            scan_expr(tc, found, condition);
            scan_opt(tc, found, message);
        },
        Statement::Revert { error } => scan_expr(tc, found, error),
        Statement::Return { value } => scan_opt(tc, found, value),
        Statement::IfElse { condition, if_body, else_body } => {
            scan_expr(tc, found, condition);
            scan_body(tc, found, if_body);
            match else_body {
                Some(b) => scan_body(tc, found, b),
                None => {},
            }
        },
        Statement::ForLoop { iterator: _, iterable, body } => {
            scan_expr(tc, found, iterable);
            scan_body(tc, found, body);
        },
        Statement::WhileLoop { condition, body } => {
            scan_expr(tc, found, condition);
            scan_body(tc, found, body);
        },
        Statement::Match { expr, arms } => {
            scan_expr(tc, found, expr);
            scan_arms(tc, found, arms);
        },
        Statement::Expression(e) => scan_expr(tc, found, e),
        Statement::Call { target: _, args } => scan_exprs(tc, found, args),
        Statement::BitwiseFlip { name: _, index, value } => {
            scan_expr(tc, found, index);
            scan_expr(tc, found, value);
        },
        Statement::TryCatch { try_body, catch_body } => {
            scan_body(tc, found, try_body);
            scan_body(tc, found, catch_body);
        },
        Statement::ScopedTryCall { catch_body, .. } => scan_body(tc, found, catch_body),
        _ => {},
    }
}

fn scan_body(tc: &TypeChecker, found: &mut Vec<String>, body: &Vec<Spanned<Statement>>)
    ensures
        texts(final(found)@) == body_deploys(
            tc.world(),
            texts(old(found)@),
            body_v(body@),
            body@.len(),
        ),
    decreases body, 0nat,
{
    let ghost f0 = texts(found@);
    let mut i: usize = 0;
    while i < body.len()
        invariant
            i <= body@.len(),
            texts(found@) == body_deploys(tc.world(), f0, body_v(body@), i as nat),
        decreases body@.len() - i,
    {
        let s: &Spanned<Statement> = &body[i];
        assert(decreases_to!(*body => *s));
        assert(decreases_to!(*body => s.node));
        assert(body_v(body@)[i as int] == s@);
        scan_stmt(tc, found, &s.node);
        i += 1;
    }
}

fn scan_arms(tc: &TypeChecker, found: &mut Vec<String>, arms: &Vec<MatchArm>)
    ensures
        texts(final(found)@) == arms_deploy(
            tc.world(),
            texts(old(found)@),
            arms_v(arms@),
            arms@.len(),
        ),
    decreases arms, 0nat,
{
    let ghost f0 = texts(found@);
    let mut i: usize = 0;
    while i < arms.len()
        invariant
            i <= arms@.len(),
            texts(found@) == arms_deploy(tc.world(), f0, arms_v(arms@), i as nat),
        decreases arms@.len() - i,
    {
        let arm: &MatchArm = &arms[i];
        assert(decreases_to!(*arms => *arm));
        assert(decreases_to!(*arms => arm.body));
        assert(arms_v(arms@)[i as int] == arm@);
        assert(body_v(arm.body@).len() == arm.body@.len());
        scan_body(tc, found, &arm.body);
        i += 1;
    }
}

/// The contracts that these methods deploy, in the order in which they are first
/// seen.
pub fn collect_deployed_contracts(methods: &Vec<FnDecl>, tc: &TypeChecker) -> (r: Vec<String>)
    ensures
        texts(r@) == methods_deploy(tc.world(), methods_v(methods@), methods@.len()),
{
    let mut found: Vec<String> = Vec::new();
    let mut i: usize = 0;
    assert(texts(found@) =~= Seq::<Seq<char>>::empty());
    while i < methods.len()
        invariant
            i <= methods@.len(),
            texts(found@) == methods_deploy(tc.world(), methods_v(methods@), i as nat),
        decreases methods@.len() - i,
    {
        assert(methods_v(methods@)[i as int] == methods@[i as int]@);
        scan_body(tc, &mut found, &methods[i].body);
        i += 1;
    }
    found
}

} // verus!
