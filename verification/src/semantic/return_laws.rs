//! What it takes for a body to keep the promise of a value.
use crate::ast::{ArmV, ExprV, FnV, SpannedV, StmtV, TypeV};
use crate::semantic::assign::is_assignable_spec;
use crate::semantic::check::{entry_scopes, fn_run, path_error, RunV};
use crate::semantic::eval::type_of_spec;
use crate::semantic::paths::{arm_symbol, arms_return, body_returns, stmt_returns, with_scope};
use crate::semantic::verify::{body_check, sem_of, FnEnvV};
use crate::semantic::{SemV, WorldV};
use vstd::prelude::*;

verus! {

/// Whether no path goes on behind a statement, by its shape alone.
pub open spec fn ends_stmt(s: SpannedV) -> bool
    decreases s, 0nat,
{
    match s.node {
        StmtV::Return { .. } => true,
        StmtV::Revert { .. } => true,
        StmtV::IfElse { condition: _, if_body, else_body } => match else_body {
            Some(b) => ends_body(if_body, 0) && ends_body(b, 0),
            None => false,
        },
        StmtV::TryCatch { try_body, catch_body } => ends_body(try_body, 0) && ends_body(
            catch_body,
            0,
        ),
        StmtV::Match { expr: _, arms } => arms.len() > 0 && ends_arms(arms, 0),
        _ => false,
    }
}

/// Whether one of the statements from `i` on ends every path.
pub open spec fn ends_body(body: Seq<SpannedV>, i: nat) -> bool
    decreases body, body.len() - i,
{
    i < body.len() && (ends_stmt(body[i as int]) || ends_body(body, i + 1))
}

/// Whether every arm from `i` on ends every path.
pub open spec fn ends_arms(arms: Seq<ArmV>, i: nat) -> bool
    decreases arms, arms.len() - i,
{
    i >= arms.len() || (ends_body(arms[i as int].body, 0) && ends_arms(arms, i + 1))
}

/// Whether `return v` stands, in the scopes `h`, on a path through a statement.
pub open spec fn reached_stmt(g: SemV, s: SpannedV, h: SemV, v: Option<ExprV>) -> bool
    decreases s, 0nat,
{
    match s.node {
        StmtV::Return { value } => h == g && v == value,
        StmtV::IfElse { condition: _, if_body, else_body } => reached(g, if_body, 0, h, v) || (
        match else_body {
            Some(b) => reached(g, b, 0, h, v),
            None => false,
        }),
        StmtV::TryCatch { try_body, catch_body } => reached(g, try_body, 0, h, v) || reached(
            g,
            catch_body,
            0,
            h,
            v,
        ),
        StmtV::Match { expr, arms } => reached_arms(g, type_of_spec(g, expr), arms, 0, h, v),
        _ => false,
    }
}

/// Whether `return v` stands, in the scopes `h`, on a path from statement `i` on.
pub open spec fn reached(g: SemV, body: Seq<SpannedV>, i: nat, h: SemV, v: Option<ExprV>) -> bool
    decreases body, body.len() - i,
{
    i < body.len() && (reached_stmt(g, body[i as int], h, v) || (!ends_stmt(body[i as int])
        && reached(g, body, i + 1, h, v)))
}

/// Whether `return v` stands, in the scopes `h`, on a path through an arm from `i` on; the
/// arms behind one that lets a path through need not be looked at.
pub open spec fn reached_arms(
    g: SemV,
    t: Result<TypeV, Seq<char>>,
    arms: Seq<ArmV>,
    i: nat,
    h: SemV,
    v: Option<ExprV>,
) -> bool
    decreases arms, arms.len() - i,
{
    i < arms.len() && (reached(
        with_scope(g, arm_symbol(g, t, arms[i as int])),
        arms[i as int].body,
        0,
        h,
        v,
    ) || (ends_body(arms[i as int].body, 0) && reached_arms(g, t, arms, i + 1, h, v)))
}

/// Whether a returned value may stand where the type is expected.
pub open spec fn returnable(h: SemV, v: Option<ExprV>, expected: TypeV) -> bool {
    v matches Some(e) && type_of_spec(h, e) matches Ok(t) && is_assignable_spec(h, expected, t)
}

proof fn lemma_stmt(g: SemV, s: SpannedV, expected: TypeV)
    ensures
        stmt_returns(g, s, expected) is Ok <==> (forall|h: SemV, v: Option<ExprV>|
            #[trigger] reached_stmt(g, s, h, v) ==> returnable(h, v, expected)),
        stmt_returns(g, s, expected) matches Ok(b) ==> b == ends_stmt(s),
    decreases s, 0nat,
{
    let ok = stmt_returns(g, s, expected) is Ok;
    match s.node {
        StmtV::Return { value } => {
            assert(reached_stmt(g, s, g, value));
            if ok {
                assert forall|h: SemV, v: Option<ExprV>| #[trigger]
                    reached_stmt(g, s, h, v) implies returnable(h, v, expected) by {
                    assert(h == g && v == value);
                }
            } else {
                assert(!returnable(g, value, expected));
            }
        },
        StmtV::IfElse { condition: _, if_body, else_body } => {
            lemma_body(g, if_body, expected, 0);
            match else_body {
                Some(b) => {
                    lemma_body(g, b, expected, 0);
                    assert(forall|h: SemV, v: Option<ExprV>| #[trigger]
                        reached_stmt(g, s, h, v) == (reached(g, if_body, 0, h, v) || reached(
                            g,
                            b,
                            0,
                            h,
                            v,
                        )));
                    if !ok {
                        let (h, v) = choose|h: SemV, v: Option<ExprV>| ((reached(g, if_body, 0, h, v) || reached(g, b, 0, h, v))
                               ) && !returnable(h, v, expected);
 assert(reached_stmt(g, s, h, v) && !returnable(h, v, expected));
                    } else {
                        assert(forall|h: SemV, v: Option<ExprV>| #[trigger]
                            reached(g, if_body, 0, h, v) ==> returnable(h, v, expected));
                        assert(forall|h: SemV, v: Option<ExprV>| #[trigger]
                            reached(g, b, 0, h, v) ==> returnable(h, v, expected));
                    }
                },
                None => {
                    assert(forall|h: SemV, v: Option<ExprV>| #[trigger]
                        reached_stmt(g, s, h, v) == reached(g, if_body, 0, h, v));
                    if !ok {
                        let (h, v) = choose|h: SemV, v: Option<ExprV>| (reached(g, if_body, 0, h, v)) && !returnable(h, v, expected);
 assert(reached_stmt(g, s, h, v) && !returnable(h, v, expected));
                    }
                },
            }
        },
        StmtV::TryCatch { try_body, catch_body } => {
            lemma_body(g, try_body, expected, 0);
            lemma_body(g, catch_body, expected, 0);
            assert(forall|h: SemV, v: Option<ExprV>| #[trigger]
                reached_stmt(g, s, h, v) == (reached(g, try_body, 0, h, v) || reached(
                    g,
                    catch_body,
                    0,
                    h,
                    v,
                )));
            if !ok {
                let (h, v) = choose|h: SemV, v: Option<ExprV>| ((reached(g, try_body, 0, h, v) || reached(g, catch_body, 0, h, v))
                       ) && !returnable(h, v, expected);
 assert(reached_stmt(g, s, h, v) && !returnable(h, v, expected));
            }
        },
        StmtV::Match { expr, arms } => {
            let t = type_of_spec(g, expr);
            lemma_arms(g, t, arms, expected, 0);
            assert(forall|h: SemV, v: Option<ExprV>| #[trigger]
                reached_stmt(g, s, h, v) == reached_arms(g, t, arms, 0, h, v));
            if !ok {
                let (h, v) = choose|h: SemV, v: Option<ExprV>| (reached_arms(g, t, arms, 0, h, v)) && !returnable(h, v, expected);
 assert(reached_stmt(g, s, h, v) && !returnable(h, v, expected));
            }
        },
        _ => {},
    }
}

proof fn lemma_body(g: SemV, body: Seq<SpannedV>, expected: TypeV, i: nat)
    ensures
        body_returns(g, body, expected, i) is Ok <==> (forall|h: SemV, v: Option<ExprV>|
            #[trigger] reached(g, body, i, h, v) ==> returnable(h, v, expected)),
        body_returns(g, body, expected, i) matches Ok(b) ==> b == ends_body(body, i),
    decreases body, body.len() - i,
{
    if i < body.len() {
        let s = body[i as int];
        lemma_stmt(g, s, expected);
        lemma_body(g, body, expected, i + 1);
        assert(forall|h: SemV, v: Option<ExprV>| #[trigger]
            reached(g, body, i, h, v) == (reached_stmt(g, s, h, v) || (!ends_stmt(s) && reached(
                g,
                body,
                i + 1,
                h,
                v,
            ))));
        if body_returns(g, body, expected, i) is Err {
            let (h, v) = choose|h: SemV, v: Option<ExprV>| ((reached_stmt(g, s, h, v) || (!ends_stmt(s) && reached(g, body, i + 1, h, v)))
                   ) && !returnable(h, v, expected);
 assert(reached(g, body, i, h, v) && !returnable(h, v, expected));
        }
    }
}

proof fn lemma_arms(
    g: SemV,
    t: Result<TypeV, Seq<char>>,
    arms: Seq<ArmV>,
    expected: TypeV,
    i: nat,
)
    ensures
        arms_return(g, t, arms, expected, i) is Ok <==> (forall|h: SemV, v: Option<ExprV>|
            #[trigger] reached_arms(g, t, arms, i, h, v) ==> returnable(h, v, expected)),
        arms_return(g, t, arms, expected, i) matches Ok(b) ==> b == ends_arms(arms, i),
    decreases arms, arms.len() - i,
{
    if i < arms.len() {
        let arm = arms[i as int];
        let k = with_scope(g, arm_symbol(g, t, arm));
        assert(decreases_to!(arms => arm));
        lemma_body(k, arm.body, expected, 0);
        lemma_arms(g, t, arms, expected, i + 1);
        assert(forall|h: SemV, v: Option<ExprV>| #[trigger]
            reached_arms(g, t, arms, i, h, v) == (reached(k, arm.body, 0, h, v) || (ends_body(
                arm.body,
                0,
            ) && reached_arms(g, t, arms, i + 1, h, v))));
        if arms_return(g, t, arms, expected, i) is Err {
            let (h, v) = choose|h: SemV, v: Option<ExprV>| ((reached(k, arm.body, 0, h, v) || (ends_body(arm.body, 0) && reached_arms(
                    g,
                    t,
                    arms,
                    i + 1,
                    h,
                    v,
                )))) && !returnable(h, v, expected);
 assert(reached_arms(g, t, arms, i, h, v) && !returnable(h, v, expected));
        }
    }
}

/// The check of a body that promises a type passes exactly where every return on a path
/// carries a value of a type that may stand for the promised one. It then tells whether a
/// path is left that reaches the end.
pub proof fn law_returns_are_assignable(g: SemV, body: Seq<SpannedV>, expected: TypeV)
    ensures
        body_returns(g, body, expected, 0) is Ok <==> (forall|h: SemV, v: Option<ExprV>|
            #[trigger] reached(g, body, 0, h, v) ==> (v matches Some(e) && type_of_spec(
                h,
                e,
            ) matches Ok(t) && is_assignable_spec(h, expected, t))),
        body_returns(g, body, expected, 0) matches Ok(b) ==> b == ends_body(body, 0),
{
    lemma_body(g, body, expected, 0);
    if body_returns(g, body, expected, 0) is Ok {
        assert forall|h: SemV, v: Option<ExprV>| #[trigger]
            reached(g, body, 0, h, v) implies (v matches Some(e) && type_of_spec(
            h,
            e,
        ) matches Ok(t) && is_assignable_spec(h, expected, t)) by {
            assert(returnable(h, v, expected));
        }
    } else {
        let (h, v) = choose|h: SemV, v: Option<ExprV>|
            reached(g, body, 0, h, v) && !returnable(h, v, expected);
        assert(reached(g, body, 0, h, v) && !returnable(h, v, expected));
    }
}

/// A return of a value whose type may not stand for the promised one, on a path through the
/// body, makes the check fail; so does one without a value.
pub proof fn law_wrong_return_is_refused(
    g: SemV,
    body: Seq<SpannedV>,
    expected: TypeV,
    h: SemV,
    v: Option<ExprV>,
)
    requires
        reached(g, body, 0, h, v),
        v matches Some(e) ==> (type_of_spec(h, e) matches Ok(t) ==> !is_assignable_spec(
            h,
            expected,
            t,
        )),
    ensures
        body_returns(g, body, expected, 0) is Err,
{
    law_returns_are_assignable(g, body, expected);
    assert(!returnable(h, v, expected));
}

/// A function that promises a value and draws no error keeps its promise: no path reaches
/// the end of its body, and every return on a path carries a value of a type that may stand
/// for the promised one.
pub proof fn law_function_keeps_its_promise(
    w: WorldV,
    run: RunV,
    f: FnV,
    owner: Option<Seq<char>>,
    t: TypeV,
)
    requires
        f.return_type == Some(t),
        fn_run(w, run, f, owner).errors == run.errors,
    ensures
        ends_body(f.body, 0),
        exists|g: SemV|
            g.w == w && forall|h: SemV, v: Option<ExprV>| #[trigger]
                reached(g, f.body, 0, h, v) ==> (v matches Some(e) && type_of_spec(
                    h,
                    e,
                ) matches Ok(p) && is_assignable_spec(h, t, p)),
{
    let env = FnEnvV { w, ret: f.return_type };
    let (out, r) = body_check(env, entry_scopes(run.st, f, owner), f.body, f.body.len());
    let g = sem_of(env, out);
    law_returns_are_assignable(g, f.body, t);
    if r is Err {
        assert(run.errors.push(r->Err_0).len() == run.errors.len() + 1);
        assert(false);
    }
    if path_error(g, f, owner) is Some {
        assert(run.errors.push(path_error(g, f, owner)->Some_0).len() == run.errors.len() + 1);
        assert(false);
    }
    assert(g.w == w);
}

} // verus!
