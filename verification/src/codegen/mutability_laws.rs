//! The analyses come to rest: nothing that a function does, itself or through another,
//! is left out of its effect.
use crate::ast::{ArmV, ClassV, ExprV, FnV, SegV, SpannedV, StmtV};
use crate::codegen::mutability::{
    all_pure, arms_call, arms_effect, body_calls, body_effect, call_round, call_rounds,
    called_name, context_call, contract_type, effects, expr_calls_spec, expr_effect_spec,
    exprs_call, exprs_effect, external_calls, fn_calls_out, interface_call, known_call,
    known_effect, method_calls_out, none_call, opt_calls, opt_effect, own_call, rank, round,
    rounds, segs_call, segs_effect, stmt_calls_spec, stmt_effect_spec, storage_root_spec, Mut,
};
use crate::semantic::WorldV;
use vstd::prelude::*;

verus! {

/// Whether a function is known to have at least an effect.
pub open spec fn reaches_rank(m: Map<Seq<char>, Mut>, t: nat, n: Seq<char>) -> bool {
    rank(known_effect(m, n)) >= t
}

/// Two states of the analysis agree on which functions have at least an effect.
pub open spec fn agree(a: Map<Seq<char>, Mut>, b: Map<Seq<char>, Mut>, t: nat) -> bool {
    forall|n: Seq<char>| #[trigger] reaches_rank(a, t, n) == reaches_rank(b, t, n)
}

proof fn lemma_expr(
    w: WorldV,
    c: ClassV,
    e: ExprV,
    a: Map<Seq<char>, Mut>,
    b: Map<Seq<char>, Mut>,
    t: nat,
)
    requires
        agree(a, b, t),
    ensures
        rank(expr_effect_spec(w, c, e, a)) >= t <==> rank(expr_effect_spec(w, c, e, b)) >= t,
    decreases e, 0nat,
{
    match e {
        ExprV::Number(_) => {},
        ExprV::StringLiteral(_) => {},
        ExprV::Identifier(_) => {},
        ExprV::Neg(x) => lemma_expr(w, c, *x, a, b, t),
        ExprV::Not(x) => lemma_expr(w, c, *x, a, b, t),
        ExprV::BinaryOp { left, right, .. } => {
            lemma_expr(w, c, *left, a, b, t);
            lemma_expr(w, c, *right, a, b, t);
        },
        ExprV::ArrayLiteral(xs) => lemma_exprs(w, c, xs, a, b, t, xs.len()),
        ExprV::FString(segs) => lemma_segs(w, c, segs, a, b, t, segs.len()),
        ExprV::PropertyAccess { base, .. } => lemma_expr(w, c, *base, a, b, t),
        ExprV::IndexAccess { base, index } => {
            lemma_expr(w, c, *base, a, b, t);
            lemma_expr(w, c, *index, a, b, t);
        },
        ExprV::StaticCall { args, .. } => lemma_exprs(w, c, args, a, b, t, args.len()),
        ExprV::Instantiation { args, .. } => lemma_exprs(w, c, args, a, b, t, args.len()),
        ExprV::FnCall { name, args } => {
            lemma_exprs(w, c, args, a, b, t, args.len());
            assert(reaches_rank(a, t, name) == reaches_rank(b, t, name));
        },
        ExprV::MethodCall { base, method, args } => {
            lemma_exprs(w, c, args, a, b, t, args.len());
            lemma_expr(w, c, *base, a, b, t);
            assert(reaches_rank(a, t, method) == reaches_rank(b, t, method));
            let own = called_name(*base, method);
            assert(reaches_rank(a, t, own) == reaches_rank(b, t, own));
        },
    }
}

proof fn lemma_exprs(
    w: WorldV,
    c: ClassV,
    es: Seq<ExprV>,
    a: Map<Seq<char>, Mut>,
    b: Map<Seq<char>, Mut>,
    t: nat,
    n: nat,
)
    requires
        agree(a, b, t),
    ensures
        rank(exprs_effect(w, c, es, a, n)) >= t <==> rank(exprs_effect(w, c, es, b, n)) >= t,
    decreases es, n,
{
    if n > 0 && n <= es.len() {
        lemma_exprs(w, c, es, a, b, t, (n - 1) as nat);
        lemma_expr(w, c, es[n - 1], a, b, t);
    }
}

proof fn lemma_segs(
    w: WorldV,
    c: ClassV,
    segs: Seq<SegV>,
    a: Map<Seq<char>, Mut>,
    b: Map<Seq<char>, Mut>,
    t: nat,
    n: nat,
)
    requires
        agree(a, b, t),
    ensures
        rank(segs_effect(w, c, segs, a, n)) >= t <==> rank(segs_effect(w, c, segs, b, n)) >= t,
    decreases segs, n,
{
    if n > 0 && n <= segs.len() {
        lemma_segs(w, c, segs, a, b, t, (n - 1) as nat);
        match segs[n - 1] {
            SegV::Interp(x) => lemma_expr(w, c, x, a, b, t),
            SegV::Literal(_) => {},
        }
    }
}

proof fn lemma_opt(
    w: WorldV,
    c: ClassV,
    e: Option<ExprV>,
    a: Map<Seq<char>, Mut>,
    b: Map<Seq<char>, Mut>,
    t: nat,
)
    requires
        agree(a, b, t),
    ensures
        rank(opt_effect(w, c, e, a)) >= t <==> rank(opt_effect(w, c, e, b)) >= t,
{
    match e {
        Some(x) => lemma_expr(w, c, x, a, b, t),
        None => {},
    }
}

proof fn lemma_stmt(
    w: WorldV,
    c: ClassV,
    s: StmtV,
    a: Map<Seq<char>, Mut>,
    b: Map<Seq<char>, Mut>,
    t: nat,
)
    requires
        agree(a, b, t),
    ensures
        rank(stmt_effect_spec(w, c, s, a)) >= t <==> rank(stmt_effect_spec(w, c, s, b)) >= t,
    decreases s, 0nat,
{
    match s {
        StmtV::VarDecl { value, .. } => lemma_opt(w, c, value, a, b, t),
        StmtV::Assignment { target, value } => {
            lemma_expr(w, c, target, a, b, t);
            lemma_expr(w, c, value, a, b, t);
        },
        StmtV::BitwiseFlip { index, value, .. } => {
            lemma_expr(w, c, index, a, b, t);
            lemma_expr(w, c, value, a, b, t);
        },
        StmtV::Assert { condition, message } => {
            lemma_expr(w, c, condition, a, b, t);
            lemma_opt(w, c, message, a, b, t);
        },
        StmtV::Revert { error } => lemma_expr(w, c, error, a, b, t),
        StmtV::Delete { target } => lemma_expr(w, c, target, a, b, t),
        StmtV::Return { value } => lemma_opt(w, c, value, a, b, t),
        StmtV::IfElse { condition, if_body, else_body } => {
            lemma_expr(w, c, condition, a, b, t);
            lemma_body(w, c, if_body, a, b, t, if_body.len());
            match else_body {
                Some(x) => lemma_body(w, c, x, a, b, t, x.len()),
                None => {},
            }
        },
        StmtV::ForLoop { iterable, body, .. } => {
            lemma_expr(w, c, iterable, a, b, t);
            lemma_body(w, c, body, a, b, t, body.len());
        },
        StmtV::WhileLoop { condition, body } => {
            lemma_expr(w, c, condition, a, b, t);
            lemma_body(w, c, body, a, b, t, body.len());
        },
        StmtV::Match { expr, arms } => {
            lemma_expr(w, c, expr, a, b, t);
            lemma_arms(w, c, arms, a, b, t, arms.len());
        },
        StmtV::TryCatch { try_body, catch_body } => {
            lemma_body(w, c, try_body, a, b, t, try_body.len());
            lemma_body(w, c, catch_body, a, b, t, catch_body.len());
        },
        StmtV::ScopedTryCall { catch_body, .. } => {
            lemma_body(w, c, catch_body, a, b, t, catch_body.len());
        },
        StmtV::ReturnCaptures(_) => {},
        StmtV::Expression(e) => lemma_expr(w, c, e, a, b, t),
        StmtV::Call { .. } => {},
        StmtV::UnsafeBlock(_) => {},
    }
}

proof fn lemma_body(
    w: WorldV,
    c: ClassV,
    body: Seq<SpannedV>,
    a: Map<Seq<char>, Mut>,
    b: Map<Seq<char>, Mut>,
    t: nat,
    n: nat,
)
    requires
        agree(a, b, t),
    ensures
        rank(body_effect(w, c, body, a, n)) >= t <==> rank(body_effect(w, c, body, b, n)) >= t,
    decreases body, n,
{
    if n > 0 && n <= body.len() {
        lemma_body(w, c, body, a, b, t, (n - 1) as nat);
        lemma_stmt(w, c, body[n - 1].node, a, b, t);
    }
}

proof fn lemma_arms(
    w: WorldV,
    c: ClassV,
    arms: Seq<ArmV>,
    a: Map<Seq<char>, Mut>,
    b: Map<Seq<char>, Mut>,
    t: nat,
    n: nat,
)
    requires
        agree(a, b, t),
    ensures
        rank(arms_effect(w, c, arms, a, n)) >= t <==> rank(arms_effect(w, c, arms, b, n)) >= t,
    decreases arms, n,
{
    if n > 0 && n <= arms.len() {
        lemma_arms(w, c, arms, a, b, t, (n - 1) as nat);
        lemma_body(w, c, arms[n - 1].body, a, b, t, arms[n - 1].body.len());
    }
}

proof fn lemma_round_agrees(
    w: WorldV,
    c: ClassV,
    a: Map<Seq<char>, Mut>,
    b: Map<Seq<char>, Mut>,
    t: nat,
    n: nat,
)
    requires
        agree(a, b, t),
    ensures
        agree(round(w, c, a, n), round(w, c, b, n), t),
    decreases n,
{
    if n > 0 {
        lemma_round_agrees(w, c, a, b, t, (n - 1) as nat);
        let x = round(w, c, a, (n - 1) as nat);
        let y = round(w, c, b, (n - 1) as nat);
        let f = c.methods[n - 1];
        lemma_body(w, c, f.body, x, y, t, f.body.len());
        assert forall|k: Seq<char>| #[trigger]
            reaches_rank(round(w, c, a, n), t, k) == reaches_rank(round(w, c, b, n), t, k) by {
            assert(reaches_rank(x, t, k) == reaches_rank(y, t, k));
        }
    }
}

/// A round raises effects and forgets none, and it keeps the names.
proof fn lemma_round_raises(w: WorldV, c: ClassV, m: Map<Seq<char>, Mut>, n: nat)
    requires
        n <= c.methods.len(),
        forall|i: int| 0 <= i < c.methods.len() ==> m.contains_key((#[trigger] c.methods[i]).name),
    ensures
        round(w, c, m, n).dom() == m.dom(),
        forall|k: Seq<char>|
            rank(#[trigger] known_effect(round(w, c, m, n), k)) >= rank(known_effect(m, k)),
    decreases n,
{
    if n > 0 {
        lemma_round_raises(w, c, m, (n - 1) as nat);
        let x = round(w, c, m, (n - 1) as nat);
        let y = round(w, c, m, n);
        let f = c.methods[n - 1];
        assert(x.contains_key(f.name));
        assert(y.dom() =~= m.dom());
        assert forall|k: Seq<char>| rank(#[trigger] known_effect(y, k)) >= rank(known_effect(m, k)) by {
            assert(rank(known_effect(x, k)) >= rank(known_effect(m, k)));
        }
    }
}

proof fn lemma_all_pure(ms: Seq<FnV>, n: nat)
    requires
        n <= ms.len(),
    ensures
        forall|i: int| 0 <= i < n ==> all_pure(ms, n).contains_key((#[trigger] ms[i]).name),
        forall|k: Seq<char>| #[trigger]
            all_pure(ms, n).contains_key(k) ==> exists|i: int|
                0 <= i < n && (#[trigger] ms[i]).name == k,
    decreases n,
{
    if n > 0 {
        lemma_all_pure(ms, (n - 1) as nat);
        assert forall|k: Seq<char>| #[trigger] all_pure(ms, n).contains_key(k) implies exists|i: int|
            0 <= i < n && (#[trigger] ms[i]).name == k by {
            if k == ms[n - 1].name {
                assert(ms[n - 1].name == k);
            } else {
                assert(all_pure(ms, (n - 1) as nat).contains_key(k));
                let i = choose|i: int| 0 <= i < n - 1 && (#[trigger] ms[i]).name == k;
                assert(ms[i].name == k);
            }
        }
    }
}

spec fn state(w: WorldV, c: ClassV, k: nat) -> Map<Seq<char>, Mut> {
    rounds(w, c, all_pure(c.methods, c.methods.len()), k)
}

proof fn lemma_state(w: WorldV, c: ClassV, k: nat)
    ensures
        state(w, c, k).dom() == all_pure(c.methods, c.methods.len()).dom(),
        forall|i: int|
            0 <= i < c.methods.len() ==> state(w, c, k).contains_key((#[trigger] c.methods[i]).name),
        forall|n: Seq<char>|
            rank(#[trigger] known_effect(state(w, c, k + 1), n)) >= rank(
                known_effect(state(w, c, k), n),
            ),
    decreases k,
{
    lemma_all_pure(c.methods, c.methods.len());
    if k > 0 {
        lemma_state(w, c, (k - 1) as nat);
        lemma_round_raises(w, c, state(w, c, (k - 1) as nat), c.methods.len());
    }
    lemma_round_raises(w, c, state(w, c, k), c.methods.len());
}

/// How many of the first `n` methods have at least an effect.
spec fn count(m: Map<Seq<char>, Mut>, ms: Seq<FnV>, t: nat, n: nat) -> nat
    decreases n,
{
    if n == 0 {
        0
    } else {
        count(m, ms, t, (n - 1) as nat) + (if reaches_rank(m, t, ms[n - 1].name) {
            1nat
        } else {
            0nat
        })
    }
}

proof fn lemma_count_bound(m: Map<Seq<char>, Mut>, ms: Seq<FnV>, t: nat, n: nat)
    ensures
        count(m, ms, t, n) <= n,
    decreases n,
{
    if n > 0 {
        lemma_count_bound(m, ms, t, (n - 1) as nat);
    }
}

proof fn lemma_count_grows(
    a: Map<Seq<char>, Mut>,
    b: Map<Seq<char>, Mut>,
    ms: Seq<FnV>,
    t: nat,
    i: int,
    n: nat,
)
    requires
        n <= ms.len(),
        forall|k: Seq<char>| #[trigger] reaches_rank(a, t, k) ==> reaches_rank(b, t, k),
        0 <= i < ms.len(),
        !reaches_rank(a, t, ms[i].name),
        reaches_rank(b, t, ms[i].name),
    ensures
        count(b, ms, t, n) >= count(a, ms, t, n) + (if i < n {
            1int
        } else {
            0
        }),
    decreases n,
{
    if n > 0 {
        lemma_count_grows(a, b, ms, t, i, (n - 1) as nat);
        if reaches_rank(a, t, ms[n - 1].name) {
            assert(reaches_rank(b, t, ms[n - 1].name));
        }
    }
}

proof fn lemma_progress(w: WorldV, c: ClassV, t: nat, k: nat)
    ensures
        agree(state(w, c, k), state(w, c, k + 1), t) || count(
            state(w, c, k),
            c.methods,
            t,
            c.methods.len(),
        ) >= k,
    decreases k,
{
    if k > 0 {
        let p = (k - 1) as nat;
        lemma_progress(w, c, t, p);
        let a = state(w, c, p);
        let b = state(w, c, k);
        if agree(a, b, t) {
            lemma_round_agrees(w, c, a, b, t, c.methods.len());
        } else {
            lemma_state(w, c, p);
            lemma_all_pure(c.methods, c.methods.len());
            let n = choose|n: Seq<char>| #[trigger] reaches_rank(a, t, n) != reaches_rank(b, t, n);
            assert(rank(known_effect(b, n)) >= rank(known_effect(a, n)));
            lemma_state(w, c, k);
            assert(a.contains_key(n)) by {
                if !a.contains_key(n) {
                    assert(!b.contains_key(n));
                }
            }
            assert(all_pure(c.methods, c.methods.len()).contains_key(n));
            let i = choose|i: int| 0 <= i < c.methods.len() && (#[trigger] c.methods[i]).name == n;
            assert forall|x: Seq<char>| #[trigger] reaches_rank(a, t, x) implies reaches_rank(
                b,
                t,
                x,
            ) by {
                assert(rank(known_effect(b, x)) >= rank(known_effect(a, x)));
            }
            lemma_count_grows(a, b, c.methods, t, i, c.methods.len());
        }
    }
}

proof fn lemma_at_rest(w: WorldV, c: ClassV)
    ensures
        round(w, c, effects(w, c), c.methods.len()) == effects(w, c),
{
    let n = c.methods.len();
    let a = state(w, c, n + 1);
    let b = state(w, c, n + 2);
    lemma_progress(w, c, 1, n + 1);
    lemma_progress(w, c, 2, n + 1);
    lemma_count_bound(a, c.methods, 1, n);
    lemma_count_bound(a, c.methods, 2, n);
    assert(agree(a, b, 1) && agree(a, b, 2));
    lemma_state(w, c, n + 1);
    lemma_state(w, c, n + 2);
    assert forall|k: Seq<char>| #[trigger] a.contains_key(k) implies a[k] == b[k] by {
        assert(reaches_rank(a, 1, k) == reaches_rank(b, 1, k));
        assert(reaches_rank(a, 2, k) == reaches_rank(b, 2, k));
        assert(b.contains_key(k));
    }
    assert(a =~= b);
    assert(effects(w, c) == b);
}

proof fn lemma_prefix_at_rest(w: WorldV, c: ClassV, m: Map<Seq<char>, Mut>, n: nat)
    requires
        n <= c.methods.len(),
        forall|i: int| 0 <= i < c.methods.len() ==> m.contains_key((#[trigger] c.methods[i]).name),
        round(w, c, m, n) == m,
    ensures
        forall|k: nat| k <= n ==> #[trigger] round(w, c, m, k) == m,
    decreases n,
{
    if n > 0 {
        let x = round(w, c, m, (n - 1) as nat);
        let f = c.methods[n - 1];
        lemma_round_raises(w, c, m, (n - 1) as nat);
        let e = body_effect(w, c, f.body, x, f.body.len());
        if rank(e) > rank(known_effect(x, f.name)) {
            assert(m[f.name] == e);
            assert(rank(known_effect(x, f.name)) >= rank(known_effect(m, f.name)));
        }
        assert(x == m);
        lemma_prefix_at_rest(w, c, m, (n - 1) as nat);
    }
}

/// What a method is said to do is at least what its body does, and so at least what
/// every function that it calls is said to do: a function that writes is never taken for
/// one that only reads, and one that reads never for one that does neither.
pub proof fn law_effects_cover_bodies(w: WorldV, c: ClassV, i: int)
    requires
        0 <= i < c.methods.len(),
    ensures
        rank(known_effect(effects(w, c), c.methods[i].name)) >= rank(
            body_effect(w, c, c.methods[i].body, effects(w, c), c.methods[i].body.len()),
        ),
{
    let m = effects(w, c);
    lemma_at_rest(w, c);
    lemma_state(w, c, c.methods.len() + 2);
    lemma_prefix_at_rest(w, c, m, c.methods.len());
    assert(round(w, c, m, i as nat) == m);
    assert(round(w, c, m, (i + 1) as nat) == m);
    let f = c.methods[i];
    let e = body_effect(w, c, f.body, m, f.body.len());
    if rank(e) > rank(known_effect(m, f.name)) {
        assert(m[f.name] == e);
    }
}

// The same for calls of other contracts.

proof fn lemma_call_round_raises(w: WorldV, c: ClassV, m: Map<Seq<char>, bool>, n: nat)
    requires
        n <= c.methods.len(),
        forall|i: int| 0 <= i < c.methods.len() ==> m.contains_key((#[trigger] c.methods[i]).name),
    ensures
        call_round(w, c, m, n).dom() == m.dom(),
        forall|k: Seq<char>| known_call(m, k) ==> #[trigger] known_call(call_round(w, c, m, n), k),
    decreases n,
{
    if n > 0 {
        lemma_call_round_raises(w, c, m, (n - 1) as nat);
        let x = call_round(w, c, m, (n - 1) as nat);
        let y = call_round(w, c, m, n);
        let f = c.methods[n - 1];
        assert(x.contains_key(f.name));
        assert(y.dom() =~= m.dom());
        assert forall|k: Seq<char>| known_call(m, k) implies #[trigger] known_call(y, k) by {
            assert(known_call(x, k));
        }
    }
}

proof fn lemma_none_call(ms: Seq<FnV>, n: nat)
    requires
        n <= ms.len(),
    ensures
        forall|i: int| 0 <= i < n ==> none_call(ms, n).contains_key((#[trigger] ms[i]).name),
        forall|k: Seq<char>| #[trigger]
            none_call(ms, n).contains_key(k) ==> exists|i: int|
                0 <= i < n && (#[trigger] ms[i]).name == k,
    decreases n,
{
    if n > 0 {
        lemma_none_call(ms, (n - 1) as nat);
        assert forall|k: Seq<char>| #[trigger] none_call(ms, n).contains_key(k) implies exists|i: int|
            0 <= i < n && (#[trigger] ms[i]).name == k by {
            if k == ms[n - 1].name {
                assert(ms[n - 1].name == k);
            } else {
                assert(none_call(ms, (n - 1) as nat).contains_key(k));
                let i = choose|i: int| 0 <= i < n - 1 && (#[trigger] ms[i]).name == k;
                assert(ms[i].name == k);
            }
        }
    }
}

spec fn call_state(w: WorldV, c: ClassV, k: nat) -> Map<Seq<char>, bool> {
    call_rounds(w, c, none_call(c.methods, c.methods.len()), k)
}

proof fn lemma_call_state(w: WorldV, c: ClassV, k: nat)
    ensures
        call_state(w, c, k).dom() == none_call(c.methods, c.methods.len()).dom(),
        forall|i: int|
            0 <= i < c.methods.len() ==> call_state(w, c, k).contains_key(
                (#[trigger] c.methods[i]).name,
            ),
        forall|n: Seq<char>|
            known_call(call_state(w, c, k), n) ==> #[trigger] known_call(
                call_state(w, c, k + 1),
                n,
            ),
    decreases k,
{
    lemma_none_call(c.methods, c.methods.len());
    if k > 0 {
        lemma_call_state(w, c, (k - 1) as nat);
        lemma_call_round_raises(w, c, call_state(w, c, (k - 1) as nat), c.methods.len());
    }
    lemma_call_round_raises(w, c, call_state(w, c, k), c.methods.len());
}

spec fn call_count(m: Map<Seq<char>, bool>, ms: Seq<FnV>, n: nat) -> nat
    decreases n,
{
    if n == 0 {
        0
    } else {
        call_count(m, ms, (n - 1) as nat) + (if known_call(m, ms[n - 1].name) {
            1nat
        } else {
            0nat
        })
    }
}

proof fn lemma_call_count_bound(m: Map<Seq<char>, bool>, ms: Seq<FnV>, n: nat)
    ensures
        call_count(m, ms, n) <= n,
    decreases n,
{
    if n > 0 {
        lemma_call_count_bound(m, ms, (n - 1) as nat);
    }
}

proof fn lemma_call_count_grows(
    a: Map<Seq<char>, bool>,
    b: Map<Seq<char>, bool>,
    ms: Seq<FnV>,
    i: int,
    n: nat,
)
    requires
        n <= ms.len(),
        forall|k: Seq<char>| known_call(a, k) ==> #[trigger] known_call(b, k),
        0 <= i < ms.len(),
        !known_call(a, ms[i].name),
        known_call(b, ms[i].name),
    ensures
        call_count(b, ms, n) >= call_count(a, ms, n) + (if i < n {
            1int
        } else {
            0
        }),
    decreases n,
{
    if n > 0 {
        lemma_call_count_grows(a, b, ms, i, (n - 1) as nat);
        if known_call(a, ms[n - 1].name) {
            assert(known_call(b, ms[n - 1].name));
        }
    }
}

proof fn lemma_call_progress(w: WorldV, c: ClassV, k: nat)
    ensures
        call_state(w, c, k) == call_state(w, c, k + 1) || call_count(
            call_state(w, c, k),
            c.methods,
            c.methods.len(),
        ) >= k,
    decreases k,
{
    if k > 0 {
        let p = (k - 1) as nat;
        lemma_call_progress(w, c, p);
        let a = call_state(w, c, p);
        let b = call_state(w, c, k);
        if a != b {
            lemma_call_state(w, c, p);
            lemma_call_state(w, c, k);
            lemma_none_call(c.methods, c.methods.len());
            assert forall|x: Seq<char>| known_call(a, x) implies #[trigger] known_call(b, x) by {
                assert(known_call(call_state(w, c, p + 1), x));
            }
            if forall|n: Seq<char>| #[trigger] a.contains_key(n) ==> a[n] == b[n] {
                assert(a =~= b);
            }
            let n = choose|n: Seq<char>| #[trigger] a.contains_key(n) && a[n] != b[n];
            assert(b.contains_key(n));
            assert(known_call(a, n) ==> known_call(b, n));
            assert(none_call(c.methods, c.methods.len()).contains_key(n));
            let i = choose|i: int| 0 <= i < c.methods.len() && (#[trigger] c.methods[i]).name == n;
            lemma_call_count_grows(a, b, c.methods, i, c.methods.len());
        }
    }
}

proof fn lemma_calls_at_rest(w: WorldV, c: ClassV)
    ensures
        call_round(w, c, external_calls(w, c), c.methods.len()) == external_calls(w, c),
{
    let n = c.methods.len();
    lemma_call_progress(w, c, n + 1);
    lemma_call_count_bound(call_state(w, c, n + 1), c.methods, n);
    assert(external_calls(w, c) == call_state(w, c, n + 2));
}

proof fn lemma_call_prefix(w: WorldV, c: ClassV, m: Map<Seq<char>, bool>, n: nat)
    requires
        n <= c.methods.len(),
        forall|i: int| 0 <= i < c.methods.len() ==> m.contains_key((#[trigger] c.methods[i]).name),
        call_round(w, c, m, n) == m,
    ensures
        forall|k: nat| k <= n ==> #[trigger] call_round(w, c, m, k) == m,
    decreases n,
{
    if n > 0 {
        let x = call_round(w, c, m, (n - 1) as nat);
        let f = c.methods[n - 1];
        lemma_call_round_raises(w, c, m, (n - 1) as nat);
        if !known_call(x, f.name) && body_calls(w, c, f.body, x, f.body.len()) {
            assert(m[f.name]);
            assert(known_call(m, f.name));
            assert(known_call(x, f.name));
        }
        assert(x == m);
        lemma_call_prefix(w, c, m, (n - 1) as nat);
    }
}

/// A method whose body can hand control to another contract, itself or through a method
/// that it calls, is known to do so.
pub proof fn law_calls_cover_bodies(w: WorldV, c: ClassV, i: int)
    requires
        0 <= i < c.methods.len(),
        body_calls(
            w,
            c,
            c.methods[i].body,
            external_calls(w, c),
            c.methods[i].body.len(),
        ),
    ensures
        known_call(external_calls(w, c), c.methods[i].name),
{
    let m = external_calls(w, c);
    lemma_calls_at_rest(w, c);
    lemma_call_state(w, c, c.methods.len() + 2);
    lemma_call_prefix(w, c, m, c.methods.len());
    assert(call_round(w, c, m, i as nat) == m);
    assert(call_round(w, c, m, (i + 1) as nat) == m);
    let f = c.methods[i];
    if !known_call(m, f.name) {
        assert(m[f.name]);
    }
}

/// Every function that is known to hand control away is known to do more than read.
spec fn covers(m: Map<Seq<char>, bool>, e: Map<Seq<char>, Mut>) -> bool {
    forall|n: Seq<char>| #[trigger] known_call(m, n) ==> known_effect(e, n) == Mut::NonPayable
}

/// The methods that send value or deploy are the language's own, not the class's.
pub open spec fn sends_are_built_in(c: ClassV) -> bool {
    forall|i: int|
        0 <= i < c.methods.len() ==> (#[trigger] c.methods[i]).name != "transfer"@
            && c.methods[i].name != "pay"@ && c.methods[i].name != "create"@ && c.methods[i].name
            != "create2"@
}

spec fn unnamed(e: Map<Seq<char>, Mut>) -> bool {
    !e.contains_key("transfer"@) && !e.contains_key("pay"@) && !e.contains_key("create"@)
        && !e.contains_key("create2"@)
}

proof fn lemma_expr_covered(
    w: WorldV,
    c: ClassV,
    x: ExprV,
    m: Map<Seq<char>, bool>,
    e: Map<Seq<char>, Mut>,
)
    requires
        covers(m, e),
        unnamed(e),
        expr_calls_spec(w, c, x, m),
    ensures
        expr_effect_spec(w, c, x, e) == Mut::NonPayable,
    decreases x, 0nat,
{
    match x {
        ExprV::Number(_) => {},
        ExprV::StringLiteral(_) => {},
        ExprV::Identifier(_) => {},
        ExprV::Neg(y) => lemma_expr_covered(w, c, *y, m, e),
        ExprV::Not(y) => lemma_expr_covered(w, c, *y, m, e),
        ExprV::BinaryOp { left, right, .. } => {
            if expr_calls_spec(w, c, *left, m) {
                lemma_expr_covered(w, c, *left, m, e);
            } else {
                lemma_expr_covered(w, c, *right, m, e);
            }
        },
        ExprV::ArrayLiteral(xs) => lemma_exprs_covered(w, c, xs, m, e, xs.len()),
        ExprV::FString(segs) => lemma_segs_covered(w, c, segs, m, e, segs.len()),
        ExprV::PropertyAccess { base, .. } => lemma_expr_covered(w, c, *base, m, e),
        ExprV::IndexAccess { base, index } => {
            if expr_calls_spec(w, c, *base, m) {
                lemma_expr_covered(w, c, *base, m, e);
            } else {
                lemma_expr_covered(w, c, *index, m, e);
            }
        },
        ExprV::StaticCall { args, .. } => lemma_exprs_covered(w, c, args, m, e, args.len()),
        ExprV::Instantiation { type_def, args } => {
            if !contract_type(w, type_def) {
                lemma_exprs_covered(w, c, args, m, e, args.len());
            }
        },
        ExprV::FnCall { name, args } => {
            if fn_calls_out(m, name) {
                assert(known_call(m, name));
            } else {
                lemma_exprs_covered(w, c, args, m, e, args.len());
            }
        },
        ExprV::MethodCall { base, method, args } => {
            if exprs_call(w, c, args, m, args.len()) {
                lemma_exprs_covered(w, c, args, m, e, args.len());
            } else if interface_call(w, *base) || context_call(*base) {
            } else if own_call(c, *base) {
                assert(known_call(m, called_name(*base, method)));
            } else if storage_root_spec(w, c, *base) {
                if expr_calls_spec(w, c, *base, m) {
                    lemma_expr_covered(w, c, *base, m, e);
                }
            } else if method_calls_out(m, method) {
                if known_call(m, method) {
                    assert(known_effect(e, method) == Mut::NonPayable);
                }
                if method == "transfer"@ || method == "pay"@ || method == "create"@ || method
                    == "create2"@ {
                    assert(known_effect(e, method) == Mut::NonPayable);
                    lemma_send_names(method);
                }
            } else {
                lemma_expr_covered(w, c, *base, m, e);
            }
        },
    }
}

/// The names of what sends value or deploys are not among those of what only reads.
proof fn lemma_send_names(method: Seq<char>)
    requires
        method == "transfer"@ || method == "pay"@ || method == "create"@ || method == "create2"@,
    ensures
        method != "balance"@ && method != "delegated_to"@ && method != "is_delegated"@ && method
            != "verify_p256"@ && method != "saturate"@ && method != "as_bytes"@ && method
            != "as_bits"@ && method != "serialize"@ && method != "concat"@ && method != "slice"@,
{
    reveal_strlit("transfer");
    reveal_strlit("pay");
    reveal_strlit("create");
    reveal_strlit("create2");
    reveal_strlit("balance");
    reveal_strlit("delegated_to");
    reveal_strlit("is_delegated");
    reveal_strlit("verify_p256");
    reveal_strlit("saturate");
    reveal_strlit("as_bytes");
    reveal_strlit("as_bits");
    reveal_strlit("serialize");
    reveal_strlit("concat");
    reveal_strlit("slice");
    let first = method[0];
    assert(first == 't' || first == 'p' || first == 'c');
    assert(method[1] == 'r' || method[1] == 'a');
    assert("concat"@[1] == 'o');
}

proof fn lemma_exprs_covered(
    w: WorldV,
    c: ClassV,
    xs: Seq<ExprV>,
    m: Map<Seq<char>, bool>,
    e: Map<Seq<char>, Mut>,
    n: nat,
)
    requires
        covers(m, e),
        unnamed(e),
        exprs_call(w, c, xs, m, n),
    ensures
        exprs_effect(w, c, xs, e, n) == Mut::NonPayable,
    decreases xs, n,
{
    if n > 0 && n <= xs.len() {
        if exprs_call(w, c, xs, m, (n - 1) as nat) {
            lemma_exprs_covered(w, c, xs, m, e, (n - 1) as nat);
        } else {
            lemma_expr_covered(w, c, xs[n - 1], m, e);
        }
    }
}

proof fn lemma_segs_covered(
    w: WorldV,
    c: ClassV,
    segs: Seq<SegV>,
    m: Map<Seq<char>, bool>,
    e: Map<Seq<char>, Mut>,
    n: nat,
)
    requires
        covers(m, e),
        unnamed(e),
        segs_call(w, c, segs, m, n),
    ensures
        segs_effect(w, c, segs, e, n) == Mut::NonPayable,
    decreases segs, n,
{
    if n > 0 && n <= segs.len() {
        if segs_call(w, c, segs, m, (n - 1) as nat) {
            lemma_segs_covered(w, c, segs, m, e, (n - 1) as nat);
        } else {
            match segs[n - 1] {
                SegV::Interp(x) => lemma_expr_covered(w, c, x, m, e),
                SegV::Literal(_) => {},
            }
        }
    }
}

proof fn lemma_opt_covered(
    w: WorldV,
    c: ClassV,
    x: Option<ExprV>,
    m: Map<Seq<char>, bool>,
    e: Map<Seq<char>, Mut>,
)
    requires
        covers(m, e),
        unnamed(e),
        opt_calls(w, c, x, m),
    ensures
        opt_effect(w, c, x, e) == Mut::NonPayable,
{
    match x {
        Some(y) => lemma_expr_covered(w, c, y, m, e),
        None => {},
    }
}

proof fn lemma_two_covered(
    w: WorldV,
    c: ClassV,
    x: ExprV,
    y: ExprV,
    m: Map<Seq<char>, bool>,
    e: Map<Seq<char>, Mut>,
)
    requires
        covers(m, e),
        unnamed(e),
        expr_calls_spec(w, c, x, m) || expr_calls_spec(w, c, y, m),
    ensures
        expr_effect_spec(w, c, x, e) == Mut::NonPayable || expr_effect_spec(w, c, y, e)
            == Mut::NonPayable,
{
    if expr_calls_spec(w, c, x, m) {
        lemma_expr_covered(w, c, x, m, e);
    } else {
        lemma_expr_covered(w, c, y, m, e);
    }
}

proof fn lemma_stmt_covered(
    w: WorldV,
    c: ClassV,
    s: StmtV,
    m: Map<Seq<char>, bool>,
    e: Map<Seq<char>, Mut>,
)
    requires
        covers(m, e),
        unnamed(e),
        stmt_calls_spec(w, c, s, m),
    ensures
        stmt_effect_spec(w, c, s, e) == Mut::NonPayable,
    decreases s, 0nat,
{
    match s {
        StmtV::VarDecl { value, .. } => lemma_opt_covered(w, c, value, m, e),
        StmtV::Assignment { target, value } => lemma_two_covered(w, c, target, value, m, e),
        StmtV::BitwiseFlip { index, value, .. } => lemma_two_covered(w, c, index, value, m, e),
        StmtV::Assert { condition, message } => {
            if expr_calls_spec(w, c, condition, m) {
                lemma_expr_covered(w, c, condition, m, e);
            } else {
                lemma_opt_covered(w, c, message, m, e);
            }
        },
        StmtV::Revert { error } => lemma_expr_covered(w, c, error, m, e),
        StmtV::Delete { target } => lemma_expr_covered(w, c, target, m, e),
        StmtV::Return { value } => lemma_opt_covered(w, c, value, m, e),
        StmtV::IfElse { condition, if_body, else_body } => {
            if expr_calls_spec(w, c, condition, m) {
                lemma_expr_covered(w, c, condition, m, e);
            } else if body_calls(w, c, if_body, m, if_body.len()) {
                lemma_body_covered(w, c, if_body, m, e, if_body.len());
            } else {
                match else_body {
                    Some(b) => lemma_body_covered(w, c, b, m, e, b.len()),
                    None => {},
                }
            }
        },
        StmtV::ForLoop { iterable, body, .. } => {
            if expr_calls_spec(w, c, iterable, m) {
                lemma_expr_covered(w, c, iterable, m, e);
            } else {
                lemma_body_covered(w, c, body, m, e, body.len());
            }
        },
        StmtV::WhileLoop { condition, body } => {
            if expr_calls_spec(w, c, condition, m) {
                lemma_expr_covered(w, c, condition, m, e);
            } else {
                lemma_body_covered(w, c, body, m, e, body.len());
            }
        },
        StmtV::Match { expr, arms } => {
            if expr_calls_spec(w, c, expr, m) {
                lemma_expr_covered(w, c, expr, m, e);
            } else {
                lemma_arms_covered(w, c, arms, m, e, arms.len());
            }
        },
        StmtV::TryCatch { try_body, catch_body } => {
            if body_calls(w, c, try_body, m, try_body.len()) {
                lemma_body_covered(w, c, try_body, m, e, try_body.len());
            } else {
                lemma_body_covered(w, c, catch_body, m, e, catch_body.len());
            }
        },
        StmtV::ScopedTryCall { .. } => {},
        StmtV::ReturnCaptures(_) => {},
        StmtV::Expression(x) => lemma_expr_covered(w, c, x, m, e),
        StmtV::Call { .. } => {},
        StmtV::UnsafeBlock(_) => {},
    }
}

proof fn lemma_body_covered(
    w: WorldV,
    c: ClassV,
    body: Seq<SpannedV>,
    m: Map<Seq<char>, bool>,
    e: Map<Seq<char>, Mut>,
    n: nat,
)
    requires
        covers(m, e),
        unnamed(e),
        body_calls(w, c, body, m, n),
    ensures
        body_effect(w, c, body, e, n) == Mut::NonPayable,
    decreases body, n,
{
    if n > 0 && n <= body.len() {
        if body_calls(w, c, body, m, (n - 1) as nat) {
            lemma_body_covered(w, c, body, m, e, (n - 1) as nat);
        } else {
            lemma_stmt_covered(w, c, body[n - 1].node, m, e);
        }
    }
}

proof fn lemma_arms_covered(
    w: WorldV,
    c: ClassV,
    arms: Seq<ArmV>,
    m: Map<Seq<char>, bool>,
    e: Map<Seq<char>, Mut>,
    n: nat,
)
    requires
        covers(m, e),
        unnamed(e),
        arms_call(w, c, arms, m, n),
    ensures
        arms_effect(w, c, arms, e, n) == Mut::NonPayable,
    decreases arms, n,
{
    if n > 0 && n <= arms.len() {
        if arms_call(w, c, arms, m, (n - 1) as nat) {
            lemma_arms_covered(w, c, arms, m, e, (n - 1) as nat);
        } else {
            lemma_body_covered(w, c, arms[n - 1].body, m, e, arms[n - 1].body.len());
        }
    }
}

proof fn lemma_round_covered(w: WorldV, c: ClassV, m: Map<Seq<char>, bool>, n: nat)
    requires
        n <= c.methods.len(),
        covers(m, effects(w, c)),
        unnamed(effects(w, c)),
    ensures
        covers(call_round(w, c, m, n), effects(w, c)),
    decreases n,
{
    if n > 0 {
        lemma_round_covered(w, c, m, (n - 1) as nat);
        let x = call_round(w, c, m, (n - 1) as nat);
        let y = call_round(w, c, m, n);
        let f = c.methods[n - 1];
        if !known_call(x, f.name) && body_calls(w, c, f.body, x, f.body.len()) {
            lemma_body_covered(w, c, f.body, x, effects(w, c), f.body.len());
            law_effects_cover_bodies(w, c, n - 1);
            assert forall|k: Seq<char>| #[trigger] known_call(y, k) implies known_effect(
                effects(w, c),
                k,
            ) == Mut::NonPayable by {
                if k != f.name {
                    assert(known_call(x, k));
                }
            }
        }
    }
}

proof fn lemma_state_covered(w: WorldV, c: ClassV, k: nat)
    requires
        unnamed(effects(w, c)),
    ensures
        covers(call_state(w, c, k), effects(w, c)),
    decreases k,
{
    if k == 0 {
        lemma_none_call(c.methods, c.methods.len());
        lemma_none_false(c.methods, c.methods.len());
        lemma_state(w, c, c.methods.len() + 2);
        lemma_all_pure(c.methods, c.methods.len());
        let m = none_call(c.methods, c.methods.len());
        assert forall|n: Seq<char>| #[trigger] known_call(m, n) implies known_effect(
            effects(w, c),
            n,
        ) == Mut::NonPayable by {
            if effects(w, c).contains_key(n) {
                assert(all_pure(c.methods, c.methods.len()).contains_key(n));
                let i = choose|i: int|
                    0 <= i < c.methods.len() && (#[trigger] c.methods[i]).name == n;
                assert(m.contains_key(c.methods[i].name));
            }
        }
    } else {
        lemma_state_covered(w, c, (k - 1) as nat);
        lemma_round_covered(w, c, call_state(w, c, (k - 1) as nat), c.methods.len());
    }
}

proof fn lemma_none_false(ms: Seq<FnV>, n: nat)
    ensures
        forall|k: Seq<char>| #[trigger] none_call(ms, n).contains_key(k) ==> !none_call(ms, n)[k],
    decreases n,
{
    if n > 0 {
        lemma_none_false(ms, (n - 1) as nat);
        assert forall|k: Seq<char>| #[trigger] none_call(ms, n).contains_key(k) implies !none_call(
            ms,
            n,
        )[k] by {
            if k != ms[n - 1].name {
                assert(none_call(ms, (n - 1) as nat).contains_key(k));
            }
        }
    }
}

/// A method that is taken to read only hands control to nobody, where the class has no
/// methods of its own by the names of those that send value or deploy. So an entry point
/// that reads only needs no lock.
pub proof fn law_readers_keep_control(w: WorldV, c: ClassV, n: Seq<char>)
    requires
        sends_are_built_in(c),
        known_effect(effects(w, c), n) != Mut::NonPayable,
    ensures
        !known_call(external_calls(w, c), n),
{
    let k = c.methods.len() + 2;
    lemma_state(w, c, k);
    lemma_all_pure(c.methods, c.methods.len());
    let e = effects(w, c);
    assert forall|x: Seq<char>| #[trigger] e.contains_key(x) implies x != "transfer"@ && x
        != "pay"@ && x != "create"@ && x != "create2"@ by {
        assert(all_pure(c.methods, c.methods.len()).contains_key(x));
        let i = choose|i: int| 0 <= i < c.methods.len() && (#[trigger] c.methods[i]).name == x;
        assert(c.methods[i].name == x);
    }
    lemma_state_covered(w, c, k);
    assert(call_state(w, c, k) == external_calls(w, c));
}

} // verus!
