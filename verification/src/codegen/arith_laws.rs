//! What checked arithmetic computes: the exact result where the type holds it, and a panic
//! where it does not.
use crate::codegen::arith_trees::{
    checked_add_fn, checked_div_fn, checked_mod_fn, checked_mul_fn, checked_sadd_fn,
    checked_sdiv_fn, checked_smod_fn, checked_ssub_fn, checked_ssub_n_fn, checked_sub_fn,
    law_panic_reverts, panic_code, panic_data,
};
use crate::codegen::word::{
    is_word, law_bits_of_truths, law_signs_of_bits, quotient, remainder, signed, top, truth, wrap,
    bit_and, bit_xor,
};
use crate::codegen::yul::{PANIC_DIV_ZERO, PANIC_OVERFLOW};
use crate::codegen::yul_num::lemma_numbers;
use crate::codegen::yul_run::{
    apply, called, entry_vars, eval, give, group_steps, lemma_entry, lemma_run_line, lemma_run_tail,
    run, End, Machine, Out,
};
use crate::codegen::yul_tree::{
    line, none, num, op1, op2, own2, tail, var, Code, Op, YulExpr, YulFn, YulStmt,
};
use vstd::prelude::*;

verus! {

/// Whether a program holds a function under its name.
pub open spec fn holds(p: Map<Seq<char>, YulFn>, f: YulFn) -> bool {
    p.contains_key(f.name) && p[f.name] == f
}

/// A result that changes nothing, or a revert.
pub open spec fn gives(o: Out, m: Machine, v: Option<int>, data: Seq<u8>) -> bool {
    match v {
        Some(x) => o == give(m, x),
        None => o.end == End::Revert(data),
    }
}

/// A result, where it lies between two bounds.
pub open spec fn within(v: int, least: int, most: int) -> Option<int> {
    if least <= v <= most {
        Some(v)
    } else {
        None
    }
}

/// A signed result as a word, where it lies between two bounds.
pub open spec fn within_signed(v: int, least: int, most: int) -> Option<int> {
    if least <= v <= most {
        Some(wrap(v))
    } else {
        None
    }
}

proof fn lemma_names()
    ensures
        "a"@ != "b"@,
        "a"@ != "r"@,
        "b"@ != "r"@,
        "max"@ != "a"@,
        "max"@ != "b"@,
        "max"@ != "r"@,
        "minv"@ != "a"@,
        "minv"@ != "b"@,
        "minv"@ != "r"@,
        "maxv"@ != "a"@,
        "maxv"@ != "b"@,
        "maxv"@ != "r"@,
        "minv"@ != "maxv"@,
{
    reveal_strlit("a");
    reveal_strlit("b");
    reveal_strlit("r");
    reveal_strlit("max");
    reveal_strlit("minv");
    reveal_strlit("maxv");
    assert("a"@[0] == 'a' && "b"@[0] == 'b' && "r"@[0] == 'r');
    assert("minv"@[1] == 'i' && "maxv"@[1] == 'a');
}

/// The variables that a function of two, three or four parameters starts with.
proof fn lemma_start(f: YulFn, vs: Seq<int>)
    requires
        f.params == seq!["a"@, "b"@] || f.params == seq!["a"@, "b"@, "max"@] || f.params
            == seq!["a"@, "b"@, "minv"@, "maxv"@],
        f.rets == seq!["r"@],
        vs.len() == f.params.len(),
    ensures
        ({
            let v = entry_vars(f, vs);
            &&& v.contains_key("a"@) && v["a"@] == vs[0]
            &&& v.contains_key("b"@) && v["b"@] == vs[1]
            &&& v.contains_key("r"@) && v["r"@] == 0
            &&& vs.len() == 3 ==> v.contains_key("max"@) && v["max"@] == vs[2]
            &&& vs.len() == 4 ==> v.contains_key("minv"@) && v["minv"@] == vs[2]
            &&& vs.len() == 4 ==> v.contains_key("maxv"@) && v["maxv"@] == vs[3]
        }),
{
    lemma_names();
    assert(f.params.no_duplicates());
    assert(!f.params.contains("r"@));
    lemma_entry(f, vs);
    assert(f.params[0] == "a"@ && f.params[1] == "b"@ && f.rets[0] == "r"@);
    if vs.len() == 3 {
        assert(f.params[2] == "max"@);
    }
    if vs.len() == 4 {
        assert(f.params[2] == "minv"@ && f.params[3] == "maxv"@);
    }
}

/// An `if` that panics lets code go on exactly where its condition is false.
proof fn lemma_guard(
    p: Map<Seq<char>, YulFn>,
    m: Machine,
    c: Code,
    gap: Seq<char>,
    cond: YulExpr,
    bad: bool,
    d: nat,
    rich: bool,
    code: Seq<char>,
    k: Machine,
)
    requires
        run(p, m, c, d) == (k, End::Next),
        eval(p, k, cond, d) == give(k, truth(bad)),
    ensures
        !bad ==> run(p, m, line(c, gap, YulStmt::If(cond, panic_code(rich, code))), d) == (
            k,
            End::Next,
        ),
        bad ==> run(p, m, line(c, gap, YulStmt::If(cond, panic_code(rich, code))), d).1
            == End::Revert(panic_data(rich, code)),
{
    law_panic_reverts(p, k, d, rich, code);
    broadcast use group_steps;

}

/// `checked_add` gives the sum where it is at most the largest value, and panics elsewhere.
pub proof fn law_checked_add(p: Map<Seq<char>, YulFn>, m: Machine, vs: Seq<int>, d: nat, rich: bool)
    requires
        holds(p, checked_add_fn(rich)),
        d > 0,
        vs.len() == 3,
        is_word(vs[0]),
        is_word(vs[1]),
        is_word(vs[2]),
    ensures
        gives(
            called(p, m, "checked_add"@, vs, d),
            m,
            within(vs[0] + vs[1], 0, vs[2]),
            panic_data(rich, PANIC_OVERFLOW@),
        ),
{
    let f = checked_add_fn(rich);
    let (a, b, max) = (vs[0], vs[1], vs[2]);
    let t = (d - 1) as nat;
    lemma_names();
    lemma_start(f, vs);
    let m0 = Machine { vars: entry_vars(f, vs), ..m };
    let r = wrap(a + b);
    let m1 = Machine { vars: m0.vars.insert("r"@, r), ..m0 };
    let gap = "\n    "@;
    let c1 = line(none(), gap, YulStmt::Put("r"@, op2(Op::Add, var("a"@), var("b"@))));
    assert(run(p, m0, c1, t) == (m1, End::Next)) by {
        broadcast use group_steps;

        reveal(apply);
    }
    let cond = op2(
        Op::Or,
        op2(Op::Lt, var("r"@), var("a"@)),
        op2(Op::Gt, var("r"@), var("max"@)),
    );
    assert(eval(p, m1, cond, t) == give(m1, truth(r < a || r > max))) by {
        broadcast use group_steps;

        reveal(apply);
        law_bits_of_truths(r < a, r > max);
    }
    lemma_wrapped(a + b);
    lemma_guard(p, m0, c1, gap, cond, r < a || r > max, t, rich, PANIC_OVERFLOW@, m1);
    let c2 = line(c1, gap, YulStmt::If(cond, panic_code(rich, PANIC_OVERFLOW@)));
    lemma_run_tail(p, m0, c2, "\n"@, t);
}

/// `checked_sub` gives the difference where it is not negative, and panics elsewhere.
pub proof fn law_checked_sub(p: Map<Seq<char>, YulFn>, m: Machine, vs: Seq<int>, d: nat, rich: bool)
    requires
        holds(p, checked_sub_fn(rich)),
        d > 0,
        vs.len() == 2,
        is_word(vs[0]),
        is_word(vs[1]),
    ensures
        gives(
            called(p, m, "checked_sub"@, vs, d),
            m,
            within(vs[0] - vs[1], 0, vs[0]),
            panic_data(rich, PANIC_OVERFLOW@),
        ),
{
    let f = checked_sub_fn(rich);
    let (a, b) = (vs[0], vs[1]);
    let t = (d - 1) as nat;
    lemma_names();
    lemma_start(f, vs);
    let m0 = Machine { vars: entry_vars(f, vs), ..m };
    let gap = "\n    "@;
    let cond = op2(Op::Lt, var("a"@), var("b"@));
    assert(eval(p, m0, cond, t) == give(m0, truth(a < b))) by {
        broadcast use group_steps;

        reveal(apply);
    }
    assert(run(p, m0, none(), t) == (m0, End::Next)) by {
        broadcast use group_steps;

    }
    lemma_guard(p, m0, none(), gap, cond, a < b, t, rich, PANIC_OVERFLOW@, m0);
    assert(a >= b ==> wrap(a - b) == a - b) by {
        lemma_wrapped(a - b);
    }
    broadcast use group_steps;

    reveal(apply);
}

/// Division of words: a divisor of zero panics.
pub proof fn law_checked_div(p: Map<Seq<char>, YulFn>, m: Machine, vs: Seq<int>, d: nat, rich: bool)
    requires
        holds(p, checked_div_fn(rich)),
        holds(p, checked_sdiv_fn(rich)),
        holds(p, checked_mod_fn(rich)),
        holds(p, checked_smod_fn(rich)),
        d > 0,
        vs.len() == 2,
        is_word(vs[0]),
        is_word(vs[1]),
    ensures
        ({
            let data = panic_data(rich, PANIC_DIV_ZERO@);
            let (a, b) = (vs[0], vs[1]);
            let zero = b == 0;
            &&& gives(
                called(p, m, "checked_div"@, vs, d),
                m,
                if zero {
                    None
                } else {
                    Some(a / b)
                },
                data,
            )
            &&& gives(
                called(p, m, "checked_mod"@, vs, d),
                m,
                if zero {
                    None
                } else {
                    Some(a % b)
                },
                data,
            )
            &&& gives(
                called(p, m, "checked_sdiv"@, vs, d),
                m,
                if zero {
                    None
                } else {
                    Some(wrap(quotient(signed(a), signed(b))))
                },
                data,
            )
            &&& gives(
                called(p, m, "checked_smod"@, vs, d),
                m,
                if zero {
                    None
                } else {
                    Some(wrap(remainder(signed(a), signed(b))))
                },
                data,
            )
        }),
{
    lemma_division(p, m, vs, d, rich, checked_div_fn(rich), Op::Div);
    lemma_division(p, m, vs, d, rich, checked_sdiv_fn(rich), Op::Sdiv);
    lemma_division(p, m, vs, d, rich, checked_mod_fn(rich), Op::Mod);
    lemma_division(p, m, vs, d, rich, checked_smod_fn(rich), Op::Smod);
    reveal(apply);
}

proof fn lemma_division(
    p: Map<Seq<char>, YulFn>,
    m: Machine,
    vs: Seq<int>,
    d: nat,
    rich: bool,
    f: YulFn,
    o: Op,
)
    requires
        holds(p, f),
        d > 0,
        vs.len() == 2,
        f.params == seq!["a"@, "b"@],
        f.rets == seq!["r"@],
        o is Div || o is Sdiv || o is Mod || o is Smod,
        f.body == tail(
            line(
                line(
                    none(),
                    "\n    "@,
                    YulStmt::If(op1(Op::Iszero, var("b"@)), panic_code(rich, PANIC_DIV_ZERO@)),
                ),
                "\n    "@,
                YulStmt::Put("r"@, op2(o, var("a"@), var("b"@))),
            ),
            "\n"@,
        ),
    ensures
        gives(
            called(p, m, f.name, vs, d),
            m,
            if vs[1] == 0 {
                None
            } else {
                Some(apply(m, o, seq![vs[0], vs[1]]).v)
            },
            panic_data(rich, PANIC_DIV_ZERO@),
        ),
{
    let t = (d - 1) as nat;
    let (a, b) = (vs[0], vs[1]);
    lemma_names();
    lemma_start(f, vs);
    let m0 = Machine { vars: entry_vars(f, vs), ..m };
    let gap = "\n    "@;
    let cond = op1(Op::Iszero, var("b"@));
    assert(eval(p, m0, cond, t) == give(m0, truth(b == 0))) by {
        broadcast use group_steps;

        reveal(apply);
    }
    assert(run(p, m0, none(), t) == (m0, End::Next)) by {
        broadcast use group_steps;

    }
    lemma_guard(p, m0, none(), gap, cond, b == 0, t, rich, PANIC_DIV_ZERO@, m0);
    let v = apply(m, o, seq![a, b]).v;
    assert(apply(m0, o, seq![a, b]) == give(m0, v)) by {
        reveal(apply);
    }
    broadcast use group_steps;

}

proof fn lemma_product(a: int, b: int)
    requires
        is_word(a),
        is_word(b),
        a > 0,
    ensures
        wrap(a * b) / a == b <==> a * b < top(),
{
    reveal(wrap);
    let r = wrap(a * b);
    let k = a * b / top();
    assert(a * b >= 0) by (nonlinear_arith)
        requires
            a > 0,
            b >= 0,
    ;
    assert(a * b == k * top() + r && 0 <= r < top() && k >= 0) by (nonlinear_arith)
        requires
            r == (a * b) % top(),
            k == (a * b) / top(),
            a * b >= 0,
            top() > 0,
    ;
    if a * b < top() {
        assert(k == 0 && r == a * b) by (nonlinear_arith)
            requires
                a * b == k * top() + r,
                0 <= r,
                k >= 0,
                top() > 0,
                a * b < top(),
        ;
        assert((a * b) / a == b) by (nonlinear_arith)
            requires
                a > 0,
        ;
    } else if r / a == b {
        assert(r >= b * a) by (nonlinear_arith)
            requires
                a > 0,
                r / a == b,
        ;
        assert(a * b == b * a) by (nonlinear_arith);
        assert(false);
    }
}

/// The condition that a product does not fit a word.
proof fn lemma_product_guard(p: Map<Seq<char>, YulFn>, m: Machine, d: nat, a: int, b: int)
    requires
        is_word(a),
        is_word(b),
        m.vars.contains_key("a"@) && m.vars["a"@] == a,
        m.vars.contains_key("b"@) && m.vars["b"@] == b,
        m.vars.contains_key("r"@) && m.vars["r"@] == wrap(a * b),
    ensures
        eval(
            p,
            m,
            op2(
                Op::And,
                op1(Op::Iszero, op1(Op::Iszero, var("a"@))),
                op1(Op::Iszero, op2(Op::Eq, op2(Op::Div, var("r"@), var("a"@)), var("b"@))),
            ),
            d,
        ) == give(m, truth(a * b >= top())),
{
    let r = wrap(a * b);
    let q = if a == 0 {
        0
    } else {
        r / a
    };
    let left = op1(Op::Iszero, op1(Op::Iszero, var("a"@)));
    let right = op1(Op::Iszero, op2(Op::Eq, op2(Op::Div, var("r"@), var("a"@)), var("b"@)));
    assert(eval(p, m, left, d) == give(m, truth(a != 0))) by {
        broadcast use group_steps;

        reveal(apply);
    }
    assert(eval(p, m, right, d) == give(m, truth(q != b))) by {
        broadcast use group_steps;

        reveal(apply);
    }
    if a > 0 {
        lemma_product(a, b);
    } else {
        assert(a * b == 0) by (nonlinear_arith)
            requires
                a == 0,
        ;
    }
    assert(eval(p, m, op2(Op::And, left, right), d) == give(m, bit_and(truth(a != 0), truth(q != b))))
        by {
        broadcast use group_steps;

        reveal(apply);
    }
    law_bits_of_truths(a != 0, q != b);
}

/// `checked_mul` gives the product where it is at most the largest value, and panics
/// elsewhere.
pub proof fn law_checked_mul(p: Map<Seq<char>, YulFn>, m: Machine, vs: Seq<int>, d: nat, rich: bool)
    requires
        holds(p, checked_mul_fn(rich)),
        d > 0,
        vs.len() == 3,
        is_word(vs[0]),
        is_word(vs[1]),
        is_word(vs[2]),
    ensures
        gives(
            called(p, m, "checked_mul"@, vs, d),
            m,
            within(vs[0] * vs[1], 0, vs[2]),
            panic_data(rich, PANIC_OVERFLOW@),
        ),
{
    let f = checked_mul_fn(rich);
    let (a, b, max) = (vs[0], vs[1], vs[2]);
    let t = (d - 1) as nat;
    lemma_names();
    lemma_start(f, vs);
    let m0 = Machine { vars: entry_vars(f, vs), ..m };
    let r = wrap(a * b);
    let m1 = Machine { vars: m0.vars.insert("r"@, r), ..m0 };
    let gap = "\n    "@;
    let c1 = line(none(), gap, YulStmt::Put("r"@, op2(Op::Mul, var("a"@), var("b"@))));
    assert(run(p, m0, c1, t) == (m1, End::Next)) by {
        broadcast use group_steps;

        reveal(apply);
    }
    let cond = op2(
        Op::And,
        op1(Op::Iszero, op1(Op::Iszero, var("a"@))),
        op1(Op::Iszero, op2(Op::Eq, op2(Op::Div, var("r"@), var("a"@)), var("b"@))),
    );
    let bad = a * b >= top();
    lemma_product_guard(p, m1, t, a, b);
    lemma_guard(p, m0, c1, gap, cond, bad, t, rich, PANIC_OVERFLOW@, m1);
    let c2 = line(c1, gap, YulStmt::If(cond, panic_code(rich, PANIC_OVERFLOW@)));
    let over = op2(Op::Gt, var("r"@), var("max"@));
    assert(eval(p, m1, over, t) == give(m1, truth(r > max))) by {
        broadcast use group_steps;

        reveal(apply);
    }
    let c3 = line(c2, gap, YulStmt::If(over, panic_code(rich, PANIC_OVERFLOW@)));
    assert(0 <= a * b) by (nonlinear_arith)
        requires
            0 <= a,
            0 <= b,
    ;
    assert(!bad ==> r == a * b) by {
        reveal(wrap);
    }
    lemma_run_tail(p, m0, c3, "\n"@, t);
    if bad {
        lemma_run_line(
            p,
            m0,
            c2,
            gap,
            YulStmt::If(over, panic_code(rich, PANIC_OVERFLOW@)),
            t,
        );
    } else {
        lemma_guard(p, m0, c2, gap, over, r > max, t, rich, PANIC_OVERFLOW@, m1);
    }
}

/// The condition that a signed result lies outside its type.
proof fn lemma_outside(p: Map<Seq<char>, YulFn>, m: Machine, d: nat, r: int, minv: int, maxv: int)
    requires
        m.vars.contains_key("r"@) && m.vars["r"@] == r,
        m.vars.contains_key("minv"@) && m.vars["minv"@] == minv,
        m.vars.contains_key("maxv"@) && m.vars["maxv"@] == maxv,
    ensures
        eval(
            p,
            m,
            op2(
                Op::Or,
                op2(Op::Slt, var("r"@), var("minv"@)),
                op2(Op::Sgt, var("r"@), var("maxv"@)),
            ),
            d,
        ) == give(m, truth(!(signed(minv) <= signed(r) <= signed(maxv)))),
{
    broadcast use group_steps;

    reveal(apply);
    law_bits_of_truths(signed(r) < signed(minv), signed(r) > signed(maxv));
}

/// Whether the signs of two words differ, and those of two others.
pub open spec fn signs_clash(x: int, y: int, z: int, w: int) -> bool {
    (signed(x) < 0) != (signed(y) < 0) && (signed(z) < 0) != (signed(w) < 0)
}

proof fn lemma_wrapped(x: int)
    requires
        -top() <= x < 2 * top(),
    ensures
        wrap(x) == (if x < 0 {
            x + top()
        } else if x < top() {
            x
        } else {
            x - top()
        }),
{
    reveal(wrap);
}

proof fn lemma_signed_range(x: int)
    requires
        is_word(x),
    ensures
        -(top() / 2) <= signed(x) < top() / 2,
{
    reveal(signed);
}

proof fn lemma_sum_signs(a: int, b: int)
    requires
        is_word(a),
        is_word(b),
    ensures
        ({
            let r = wrap(a + b);
            let sum = signed(a) + signed(b);
            let fits = -(top() / 2) <= sum < top() / 2;
            &&& is_word(r)
            &&& signs_clash(a, r, b, r) == !fits
            &&& fits ==> signed(r) == sum && r == wrap(sum)
        }),
{
    reveal(signed);
    lemma_wrapped(a + b);
    lemma_wrapped(signed(a) + signed(b));
}

proof fn lemma_difference_signs(a: int, b: int)
    requires
        is_word(a),
        is_word(b),
    ensures
        ({
            let r = wrap(a - b);
            let dif = signed(a) - signed(b);
            let fits = -(top() / 2) <= dif < top() / 2;
            &&& is_word(r)
            &&& signs_clash(a, b, a, r) == !fits
            &&& fits ==> signed(r) == dif && r == wrap(dif)
        }),
{
    reveal(signed);
    lemma_wrapped(a - b);
    lemma_wrapped(signed(a) - signed(b));
}

/// The condition that two pairs of words clash.
proof fn lemma_signs(
    p: Map<Seq<char>, YulFn>,
    m: Machine,
    d: nat,
    x: Seq<char>,
    y: Seq<char>,
    z: Seq<char>,
    w: Seq<char>,
)
    requires
        m.vars.contains_key(x) && is_word(m.vars[x]),
        m.vars.contains_key(y) && is_word(m.vars[y]),
        m.vars.contains_key(z) && is_word(m.vars[z]),
        m.vars.contains_key(w) && is_word(m.vars[w]),
    ensures
        eval(
            p,
            m,
            op2(
                Op::Slt,
                op2(Op::And, op2(Op::Xor, var(x), var(y)), op2(Op::Xor, var(z), var(w))),
                num("0"@),
            ),
            d,
        ) == give(m, truth(signs_clash(m.vars[x], m.vars[y], m.vars[z], m.vars[w]))),
{
    let (a, b) = (bit_xor(m.vars[x], m.vars[y]), bit_xor(m.vars[z], m.vars[w]));
    let e = op2(Op::And, op2(Op::Xor, var(x), var(y)), op2(Op::Xor, var(z), var(w)));
    assert(eval(p, m, e, d) == give(m, bit_and(a, b))) by {
        broadcast use group_steps;

        reveal(apply);
    }
    assert(eval(p, m, op2(Op::Slt, e, num("0"@)), d) == give(m, truth(signed(bit_and(a, b)) < 0)))
        by {
        broadcast use group_steps;

        reveal(apply);
        lemma_numbers();
        reveal(signed);
    }
    law_signs_of_bits(m.vars[x], m.vars[y]);
    law_signs_of_bits(m.vars[z], m.vars[w]);
    law_signs_of_bits(a, b);
}

/// `checked_sadd` gives the sum of two signed numbers where it lies between the bounds, and
/// panics elsewhere.
#[verifier::rlimit(40)]
pub proof fn law_checked_sadd(p: Map<Seq<char>, YulFn>, m: Machine, vs: Seq<int>, d: nat, rich: bool)
    requires
        holds(p, checked_sadd_fn(rich)),
        d > 0,
        vs.len() == 4,
        is_word(vs[0]),
        is_word(vs[1]),
        is_word(vs[2]),
        is_word(vs[3]),
    ensures
        gives(
            called(p, m, "checked_sadd"@, vs, d),
            m,
            within_signed(signed(vs[0]) + signed(vs[1]), signed(vs[2]), signed(vs[3])),
            panic_data(rich, PANIC_OVERFLOW@),
        ),
{
    let f = checked_sadd_fn(rich);
    let (a, b, minv, maxv) = (vs[0], vs[1], vs[2], vs[3]);
    let t = (d - 1) as nat;
    lemma_names();
    lemma_start(f, vs);
    let m0 = Machine { vars: entry_vars(f, vs), ..m };
    let r = wrap(a + b);
    let m1 = Machine { vars: m0.vars.insert("r"@, r), ..m0 };
    let gap = "\n    "@;
    let c1 = line(none(), gap, YulStmt::Put("r"@, op2(Op::Add, var("a"@), var("b"@))));
    assert(run(p, m0, c1, t) == (m1, End::Next)) by {
        broadcast use group_steps;

        reveal(apply);
    }
    let cond = op2(
        Op::Slt,
        op2(
            Op::And,
            op2(Op::Xor, var("a"@), var("r"@)),
            op2(Op::Xor, var("b"@), var("r"@)),
        ),
        num("0"@),
    );
    let sum = signed(a) + signed(b);
    let bad = !(-(top() / 2) <= sum < top() / 2);
    lemma_signed_range(minv);
    lemma_signed_range(maxv);
    lemma_sum_signs(a, b);
    lemma_signs(p, m1, t, "a"@, "r"@, "b"@, "r"@);
    lemma_guard(p, m0, c1, gap, cond, bad, t, rich, PANIC_OVERFLOW@, m1);
    let c2 = line(c1, gap, YulStmt::If(cond, panic_code(rich, PANIC_OVERFLOW@)));
    let over = op2(
        Op::Or,
        op2(Op::Slt, var("r"@), var("minv"@)),
        op2(Op::Sgt, var("r"@), var("maxv"@)),
    );
    lemma_outside(p, m1, t, r, minv, maxv);
    let out = !(signed(minv) <= signed(r) <= signed(maxv));
    let c3 = line(c2, gap, YulStmt::If(over, panic_code(rich, PANIC_OVERFLOW@)));
    lemma_run_tail(p, m0, c3, "\n"@, t);
    if bad {
        lemma_run_line(
            p,
            m0,
            c2,
            gap,
            YulStmt::If(over, panic_code(rich, PANIC_OVERFLOW@)),
            t,
        );
    } else {
        lemma_guard(p, m0, c2, gap, over, out, t, rich, PANIC_OVERFLOW@, m1);
    }
}

/// `checked_ssub` gives the difference of two signed numbers where a word holds it, and
/// panics elsewhere.
#[verifier::rlimit(40)]
pub proof fn law_checked_ssub(p: Map<Seq<char>, YulFn>, m: Machine, vs: Seq<int>, d: nat, rich: bool)
    requires
        holds(p, checked_ssub_fn(rich)),
        d > 0,
        vs.len() == 2,
        is_word(vs[0]),
        is_word(vs[1]),
    ensures
        gives(
            called(p, m, "checked_ssub"@, vs, d),
            m,
            within_signed(signed(vs[0]) - signed(vs[1]), -(top() / 2), top() / 2 - 1),
            panic_data(rich, PANIC_OVERFLOW@),
        ),
{
    let f = checked_ssub_fn(rich);
    let (a, b) = (vs[0], vs[1]);
    let t = (d - 1) as nat;
    lemma_names();
    lemma_start(f, vs);
    let m0 = Machine { vars: entry_vars(f, vs), ..m };
    let r = wrap(a - b);
    let m1 = Machine { vars: m0.vars.insert("r"@, r), ..m0 };
    let gap = "\n    "@;
    let c1 = line(none(), gap, YulStmt::Put("r"@, op2(Op::Sub, var("a"@), var("b"@))));
    assert(run(p, m0, c1, t) == (m1, End::Next)) by {
        broadcast use group_steps;

        reveal(apply);
    }
    let cond = op2(
        Op::Slt,
        op2(
            Op::And,
            op2(Op::Xor, var("a"@), var("b"@)),
            op2(Op::Xor, var("a"@), var("r"@)),
        ),
        num("0"@),
    );
    let dif = signed(a) - signed(b);
    let bad = !(-(top() / 2) <= dif < top() / 2);
    lemma_difference_signs(a, b);
    lemma_signs(p, m1, t, "a"@, "b"@, "a"@, "r"@);
    lemma_guard(p, m0, c1, gap, cond, bad, t, rich, PANIC_OVERFLOW@, m1);
    let c2 = line(c1, gap, YulStmt::If(cond, panic_code(rich, PANIC_OVERFLOW@)));
    lemma_run_tail(p, m0, c2, "\n"@, t);
}

/// `checked_ssub_n` gives the difference of two signed numbers where it lies between the
/// bounds, and panics elsewhere.
pub proof fn law_checked_ssub_n(
    p: Map<Seq<char>, YulFn>,
    m: Machine,
    vs: Seq<int>,
    d: nat,
    rich: bool,
)
    requires
        holds(p, checked_ssub_fn(rich)),
        holds(p, checked_ssub_n_fn(rich)),
        d > 1,
        vs.len() == 4,
        is_word(vs[0]),
        is_word(vs[1]),
        is_word(vs[2]),
        is_word(vs[3]),
    ensures
        gives(
            called(p, m, "checked_ssub_n"@, vs, d),
            m,
            within_signed(signed(vs[0]) - signed(vs[1]), signed(vs[2]), signed(vs[3])),
            panic_data(rich, PANIC_OVERFLOW@),
        ),
{
    let f = checked_ssub_n_fn(rich);
    let (a, b, minv, maxv) = (vs[0], vs[1], vs[2], vs[3]);
    let t = (d - 1) as nat;
    lemma_names();
    lemma_start(f, vs);
    let m0 = Machine { vars: entry_vars(f, vs), ..m };
    let dif = signed(a) - signed(b);
    let r = wrap(dif);
    let m1 = Machine { vars: m0.vars.insert("r"@, r), ..m0 };
    let gap = "\n    "@;
    let sub = own2("checked_ssub"@, var("a"@), var("b"@));
    let c1 = line(none(), gap, YulStmt::Put("r"@, sub));
    law_checked_ssub(p, m0, seq![a, b], t, rich);
    let fits = -(top() / 2) <= dif <= top() / 2 - 1;
    lemma_signed_range(minv);
    lemma_signed_range(maxv);
    assert(eval(p, m0, sub, t) == called(p, m0, "checked_ssub"@, seq![a, b], t)) by {
        broadcast use group_steps;

    }
    let over = op2(
        Op::Or,
        op2(Op::Slt, var("r"@), var("minv"@)),
        op2(Op::Sgt, var("r"@), var("maxv"@)),
    );
    let c2 = line(c1, gap, YulStmt::If(over, panic_code(rich, PANIC_OVERFLOW@)));
    lemma_run_tail(p, m0, c2, "\n"@, t);
    if fits {
        assert(run(p, m0, c1, t) == (m1, End::Next)) by {
            broadcast use group_steps;

        }
        lemma_difference_signs(a, b);
        lemma_outside(p, m1, t, r, minv, maxv);
        let out = !(signed(minv) <= signed(r) <= signed(maxv));
        lemma_guard(p, m0, c1, gap, over, out, t, rich, PANIC_OVERFLOW@, m1);
    } else {
        broadcast use group_steps;

    }
}

} // verus!
