//! What the code of `+`, `-`, `*`, `/` and `%` computes: the exact result where the operands'
//! type holds it, and a panic elsewhere.
use crate::codegen::arith_laws::{
    gives, holds, law_checked_add, law_checked_div, law_checked_mul, law_checked_sadd,
    law_checked_ssub, law_checked_ssub_n, law_checked_sub, within,
};
use crate::codegen::arith_trees::{
    checked_add_fn, checked_div_fn, checked_mod_fn, checked_mul_fn, checked_sadd_fn,
    checked_sdiv_fn, checked_smod_fn, checked_ssub_fn, checked_ssub_n_fn, checked_sub_fn,
    panic_data,
};
use crate::codegen::tr_binop::{
    add_op_spec, div_op_spec, max_signed_hex_spec, max_value_hex_spec, min_signed_hex_spec,
    mod_op_spec, mul_op_spec, numeric_bits, sub_op_spec,
};
use crate::codegen::translator::{EnvV, StV};
use crate::codegen::word::{
    is_word, lemma_two_sum, lemma_two_top, number_of, quotient, remainder, signed, top, two, wrap,
};
use crate::codegen::yul::{mask_hex_spec, PANIC_DIV_ZERO, PANIC_OVERFLOW};
use crate::codegen::yul_num::lemma_numbers;
use crate::codegen::yul_run::{
    apply, called, eval, give, group_steps, number, spelled, End, Machine,
};
use crate::codegen::yul_tree::{
    expr_text, group_texts, num, op1, own2, own3, own4, Op, YulExpr, YulFn,
};
use crate::text::rep;
use vstd::prelude::*;

verus! {

/// The least value of a number type.
pub open spec fn least(bits: usize, is_signed: bool) -> int {
    if is_signed {
        -two((bits - 1) as nat)
    } else {
        0
    }
}

/// The greatest value of a number type.
pub open spec fn greatest(bits: usize, is_signed: bool) -> int {
    if is_signed {
        two((bits - 1) as nat) - 1
    } else {
        two(bits as nat) - 1
    }
}

/// Whether a program holds the functions of checked arithmetic.
pub open spec fn checked(p: Map<Seq<char>, YulFn>, rich: bool) -> bool {
    &&& holds(p, checked_add_fn(rich))
    &&& holds(p, checked_sub_fn(rich))
    &&& holds(p, checked_mul_fn(rich))
    &&& holds(p, checked_sadd_fn(rich))
    &&& holds(p, checked_ssub_fn(rich))
    &&& holds(p, checked_ssub_n_fn(rich))
    &&& holds(p, checked_div_fn(rich))
    &&& holds(p, checked_sdiv_fn(rich))
    &&& holds(p, checked_mod_fn(rich))
    &&& holds(p, checked_smod_fn(rich))
}

/// Whether an expression evaluates the second operand and then the first, gives what a
/// function makes of the two words, and reverts with the data where the function is not
/// defined.
pub open spec fn computes_or_reverts(
    e: YulExpr,
    x: YulExpr,
    y: YulExpr,
    f: spec_fn(int, int) -> Option<int>,
    rich: bool,
    data: Seq<u8>,
) -> bool {
    forall|p: Map<Seq<char>, YulFn>, m: Machine, d: nat|
        {
            let b = eval(p, m, y, d);
            let a = eval(p, b.m, x, d);
            checked(p, rich) && d > 1 && b.end == End::Next && a.end == End::Next && is_word(a.v)
                && is_word(b.v) ==> gives(#[trigger] eval(p, m, e, d), a.m, f(a.v, b.v), data)
        }
}

/// The exact result of an operation on two numbers, as a word, where the type holds it.
pub open spec fn exact(v: int, bits: usize, is_signed: bool) -> Option<int> {
    if least(bits, is_signed) <= v <= greatest(bits, is_signed) {
        Some(wrap(v))
    } else {
        None
    }
}

proof fn lemma_spelled_sum(s: Seq<char>, t: Seq<char>)
    ensures
        spelled(s + t, 16) == spelled(s, 16) * two(4 * t.len()) + spelled(t, 16),
    decreases t.len(),
{
    if t.len() == 0 {
        assert(s + t =~= s);
    } else {
        lemma_spelled_sum(s, t.drop_last());
        assert((s + t).drop_last() =~= s + t.drop_last());
        assert((s + t).last() == t.last());
        let k = (4 * (t.len() - 1)) as nat;
        lemma_two_sum(4, k);
        assert(two(4) == 16) by {
            reveal_with_fuel(two, 5);
        }
        let (a, b) = (spelled(s, 16), two(k));
        assert(16 * (a * b) == a * (16 * b)) by (nonlinear_arith);
    }
}

pub proof fn lemma_pairs(n: nat)
    ensures
        rep("ff"@, n).len() == 2 * n,
        rep("00"@, n).len() == 2 * n,
        spelled(rep("ff"@, n), 16) == two(8 * n) - 1,
        spelled(rep("00"@, n), 16) == 0,
    decreases n,
{
    if n > 0 {
        let k = (n - 1) as nat;
        lemma_pairs(k);
        reveal_strlit("ff");
        reveal_strlit("00");
        let (f, z) = ("ff"@, "00"@);
        assert(f.drop_last().drop_last() =~= Seq::<char>::empty());
        assert(z.drop_last().drop_last() =~= Seq::<char>::empty());
        reveal_with_fuel(spelled, 3);
        assert(spelled(f, 16) == 255);
        assert(spelled(z, 16) == 0);
        lemma_spelled_sum(rep("ff"@, k), f);
        lemma_spelled_sum(rep("00"@, k), z);
        lemma_two_sum(8, 8 * k);
        assert(two(8) == 256) by {
            reveal_with_fuel(two, 9);
        }
        assert(4 * f.len() == 8 && 4 * z.len() == 8);
        let v = spelled(rep("ff"@, k), 16);
        assert(v * two(8) == 256 * v) by (nonlinear_arith)
            requires
                two(8) == 256,
        ;
        assert(8 + 8 * k == 8 * n);
        let w = two(8 * k);
        assert(two(8) * w == 256 * w) by (nonlinear_arith)
            requires
                two(8) == 256,
        ;
        assert(two(8 * n) == 256 * w);
        assert(rep("ff"@, n) == rep("ff"@, k) + f);
        assert(rep("00"@, n) == rep("00"@, k) + z);
    }
}

pub proof fn lemma_hex(s: Seq<char>)
    ensures
        number("0x"@ + s) == spelled(s, 16),
{
    reveal_strlit("0x");
    let t = "0x"@ + s;
    assert(t.subrange(0, 2) =~= "0x"@);
    assert(t.subrange(2, t.len() as int) =~= s);
}

/// The literal of the largest unsigned value, as a tree.
pub open spec fn largest(bits: usize) -> YulExpr {
    if bits == 256 {
        op1(Op::Not, num("0"@))
    } else {
        num(mask_hex_spec(bits / 8))
    }
}

proof fn lemma_largest(p: Map<Seq<char>, YulFn>, m: Machine, d: nat, bits: usize)
    requires
        numeric_bits(bits),
    ensures
        expr_text(largest(bits)) == max_value_hex_spec(bits),
        eval(p, m, largest(bits), d) == give(m, greatest(bits, false)),
        is_word(greatest(bits, false)),
{
    lemma_numbers();
    lemma_two_top();
    lemma_two_sum((256 - bits) as nat, bits as nat);
    lemma_two_sum(bits as nat, 0);
    assert(two((256 - bits) as nat) * two(bits as nat) >= two(bits as nat)) by (nonlinear_arith)
        requires
            two((256 - bits) as nat) > 0,
            two(bits as nat) > 0,
    ;
    if bits == 256 {
        assert(expr_text(largest(bits)) =~= "not(0)"@) by {
            broadcast use group_texts;

            reveal_strlit("not(0)");
            reveal_strlit("not");
            reveal_strlit("(");
            reveal_strlit("0");
            reveal_strlit(")");
        }
        broadcast use group_steps;

        reveal(apply);
    } else {
        lemma_pairs((bits / 8) as nat);
        lemma_hex(rep("ff"@, (bits / 8) as nat));
        broadcast use group_steps;

    }
}

proof fn lemma_signed_bounds(bits: usize)
    requires
        numeric_bits(bits),
    ensures
        ({
            let (lo, hi) = (number(min_signed_hex_spec(bits)), number(max_signed_hex_spec(bits)));
            &&& is_word(lo) && signed(lo) == least(bits, true)
            &&& is_word(hi) && signed(hi) == greatest(bits, true)
            &&& bits == 256 ==> two(255) == top() / 2
        }),
{
    let n = bits as int / 8;
    let k = (n - 1) as nat;
    let r = (32 - n) as nat;
    lemma_pairs(r);
    lemma_pairs(k);
    lemma_two_top();
    reveal(signed);
    let (s7, s8) = ("7f"@, "80"@);
    reveal_strlit("7f");
    reveal_strlit("80");
    assert(s7.drop_last().drop_last() =~= Seq::<char>::empty());
    assert(s8.drop_last().drop_last() =~= Seq::<char>::empty());
    assert(spelled(s7, 16) == 127 && spelled(s8, 16) == 128) by {
        reveal_with_fuel(spelled, 3);
    }
    let (zr, fk, fr, zk) = (rep("00"@, r), rep("ff"@, k), rep("ff"@, r), rep("00"@, k));
    lemma_spelled_sum(zr, s7);
    lemma_spelled_sum(zr + s7, fk);
    lemma_spelled_sum(fr, s8);
    lemma_spelled_sum(fr + s8, zk);
    assert("0x"@ + zr + s7 + fk =~= "0x"@ + (zr + s7 + fk));
    assert("0x"@ + fr + s8 + zk =~= "0x"@ + (fr + s8 + zk));
    lemma_hex(zr + s7 + fk);
    lemma_hex(fr + s8 + zk);
    assert(4 * s7.len() == 8 && 4 * s8.len() == 8);
    assert(two(8) == 256 && two(7) == 128) by {
        reveal_with_fuel(two, 9);
    }
    assert(4 * fk.len() == 8 * k && 4 * zk.len() == 8 * k);
    let (q, w) = (two(8 * k), two(8 * r));
    lemma_two_sum(7, 8 * k);
    lemma_two_sum(8, 8 * k);
    lemma_two_sum(8 * r, 8 + 8 * k);
    assert(7 + 8 * k == bits - 1);
    assert(8 * r + (8 + 8 * k) == 256);
    assert(q > 0 && w > 0) by {
        lemma_two_sum(8 * k, 0);
        lemma_two_sum(8 * r, 0);
    }
    let lo = number(min_signed_hex_spec(bits));
    let hi = number(max_signed_hex_spec(bits));
    assert(hi == (0 * 256 + 127) * q + (q - 1));
    assert(lo == ((w - 1) * 256 + 128) * q + 0);
    assert(hi == 128 * q - 1) by (nonlinear_arith)
        requires
            hi == (0 * 256 + 127) * q + (q - 1),
    ;
    assert(lo == w * (256 * q) - 128 * q) by (nonlinear_arith)
        requires
            lo == ((w - 1) * 256 + 128) * q + 0,
    ;
    assert(256 * q <= w * (256 * q)) by (nonlinear_arith)
        requires
            q > 0,
            w > 0,
    ;
}

proof fn lemma_in_range(v: int, bits: usize)
    requires
        numeric_bits(bits),
        0 <= v <= greatest(bits, false),
    ensures
        wrap(v) == v,
{
    let p = Map::<Seq<char>, YulFn>::empty();
    reveal(wrap);
    lemma_two_top();
    lemma_two_sum((256 - bits) as nat, bits as nat);
    lemma_two_sum(bits as nat, 0);
    assert(two((256 - bits) as nat) * two(bits as nat) >= two(bits as nat)) by (nonlinear_arith)
        requires
            two((256 - bits) as nat) > 0,
            two(bits as nat) > 0,
    ;
}

/// `+` on two numbers of a type gives their sum, read as the type reads words, where the type
/// holds it, and panics elsewhere.
pub proof fn law_addition(g: EnvV, st: StV, x: YulExpr, y: YulExpr, bits: usize, is_signed: bool)
    requires
        numeric_bits(bits),
    ensures
        exists|e: YulExpr| #[trigger]
            expr_text(e) == add_op_spec(
                g,
                st,
                expr_text(x),
                expr_text(y),
                Some((bits, is_signed)),
            ).1 && computes_or_reverts(
                e,
                x,
                y,
                |a: int, b: int|
                    exact(number_of(a, is_signed) + number_of(b, is_signed), bits, is_signed),
                g.rich,
                panic_data(g.rich, PANIC_OVERFLOW@),
            ),
{
    reveal(add_op_spec);
    let t = add_op_spec(g, st, expr_text(x), expr_text(y), Some((bits, is_signed))).1;
    let f = |a: int, b: int|
        exact(number_of(a, is_signed) + number_of(b, is_signed), bits, is_signed);
    let data = panic_data(g.rich, PANIC_OVERFLOW@);
    if is_signed {
        let (lo, hi) = (num(min_signed_hex_spec(bits)), num(max_signed_hex_spec(bits)));
        let e = own4("checked_sadd"@, x, y, lo, hi);
        assert(expr_text(e) =~= t) by {
            broadcast use group_texts;

            reveal_strlit("checked_sadd(");
            reveal_strlit("checked_sadd");
            reveal_strlit("(");
            assert("checked_sadd("@ =~= "checked_sadd"@ + "("@);
        }
        lemma_signed_bounds(bits);
        assert forall|p: Map<Seq<char>, YulFn>, m: Machine, d: nat|
            {
                let b = eval(p, m, y, d);
                let a = eval(p, b.m, x, d);
                checked(p, g.rich) && d > 1 && b.end == End::Next && a.end == End::Next && is_word(
                    a.v,
                ) && is_word(b.v) ==> gives(#[trigger] eval(p, m, e, d), a.m, f(a.v, b.v), data)
            } by {
            let b = eval(p, m, y, d);
            let a = eval(p, b.m, x, d);
            if checked(p, g.rich) && d > 1 && b.end == End::Next && a.end == End::Next && is_word(
                a.v,
            ) && is_word(b.v) {
                let vs = seq![
                    a.v,
                    b.v,
                    number(min_signed_hex_spec(bits)),
                    number(max_signed_hex_spec(bits)),
                ];
                assert(eval(p, m, e, d) == called(p, a.m, "checked_sadd"@, vs, d)) by {
                    broadcast use group_steps;

                }
                law_checked_sadd(p, a.m, vs, d, g.rich);
            }
        }
    } else {
        let e = own3("checked_add"@, x, y, largest(bits));
        assert(expr_text(e) =~= t) by {
            broadcast use group_texts;

            lemma_largest(Map::empty(), arbitrary(), 0, bits);
            reveal_strlit("checked_add(");
            reveal_strlit("checked_add");
            reveal_strlit("(");
            assert("checked_add("@ =~= "checked_add"@ + "("@);
        }
        assert forall|p: Map<Seq<char>, YulFn>, m: Machine, d: nat|
            {
                let b = eval(p, m, y, d);
                let a = eval(p, b.m, x, d);
                checked(p, g.rich) && d > 1 && b.end == End::Next && a.end == End::Next && is_word(
                    a.v,
                ) && is_word(b.v) ==> gives(#[trigger] eval(p, m, e, d), a.m, f(a.v, b.v), data)
            } by {
            let b = eval(p, m, y, d);
            let a = eval(p, b.m, x, d);
            if checked(p, g.rich) && d > 1 && b.end == End::Next && a.end == End::Next && is_word(
                a.v,
            ) && is_word(b.v) {
                lemma_largest(p, m, d, bits);
                let vs = seq![a.v, b.v, greatest(bits, false)];
                assert(eval(p, m, e, d) == called(p, a.m, "checked_add"@, vs, d)) by {
                    broadcast use group_steps;

                }
                law_checked_add(p, a.m, vs, d, g.rich);
                if a.v + b.v <= greatest(bits, false) {
                    lemma_in_range(a.v + b.v, bits);
                }
            }
        }
    }
}

/// `-` on two numbers of a type gives their difference where the type holds it, and panics
/// elsewhere.
pub proof fn law_subtraction(g: EnvV, st: StV, x: YulExpr, y: YulExpr, bits: usize, is_signed: bool)
    requires
        numeric_bits(bits),
    ensures
        exists|e: YulExpr| #[trigger]
            expr_text(e) == sub_op_spec(
                g,
                st,
                expr_text(x),
                expr_text(y),
                Some((bits, is_signed)),
            ).1 && computes_or_reverts(
                e,
                x,
                y,
                |a: int, b: int|
                    if is_signed {
                        exact(signed(a) - signed(b), bits, true)
                    } else {
                        within(a - b, 0, a)
                    },
                g.rich,
                panic_data(g.rich, PANIC_OVERFLOW@),
            ),
{
    reveal(sub_op_spec);
    let t = sub_op_spec(g, st, expr_text(x), expr_text(y), Some((bits, is_signed))).1;
    let f = |a: int, b: int|
        if is_signed {
            exact(signed(a) - signed(b), bits, true)
        } else {
            within(a - b, 0, a)
        };
    let data = panic_data(g.rich, PANIC_OVERFLOW@);
    if is_signed && bits == 256 {
        let e = own2("checked_ssub"@, x, y);
        lemma_signed_bounds(bits);
        assert(expr_text(e) =~= t) by {
            broadcast use group_texts;

            reveal_strlit("checked_ssub(");
            reveal_strlit("checked_ssub");
            reveal_strlit("(");
            assert("checked_ssub("@ =~= "checked_ssub"@ + "("@);
        }
        assert forall|p: Map<Seq<char>, YulFn>, m: Machine, d: nat|
            {
                let b = eval(p, m, y, d);
                let a = eval(p, b.m, x, d);
                checked(p, g.rich) && d > 1 && b.end == End::Next && a.end == End::Next && is_word(
                    a.v,
                ) && is_word(b.v) ==> gives(#[trigger] eval(p, m, e, d), a.m, f(a.v, b.v), data)
            } by {
            let b = eval(p, m, y, d);
            let a = eval(p, b.m, x, d);
            if checked(p, g.rich) && d > 1 && b.end == End::Next && a.end == End::Next && is_word(
                a.v,
            ) && is_word(b.v) {
                let vs = seq![a.v, b.v];
                assert(eval(p, m, e, d) == called(p, a.m, "checked_ssub"@, vs, d)) by {
                    broadcast use group_steps;

                }
                law_checked_ssub(p, a.m, vs, d, g.rich);
            }
        }
    } else if is_signed {
        let (lo, hi) = (num(min_signed_hex_spec(bits)), num(max_signed_hex_spec(bits)));
        let e = own4("checked_ssub_n"@, x, y, lo, hi);
        lemma_signed_bounds(bits);
        assert(expr_text(e) =~= t) by {
            broadcast use group_texts;

            reveal_strlit("checked_ssub_n(");
            reveal_strlit("checked_ssub_n");
            reveal_strlit("(");
            assert("checked_ssub_n("@ =~= "checked_ssub_n"@ + "("@);
        }
        assert forall|p: Map<Seq<char>, YulFn>, m: Machine, d: nat|
            {
                let b = eval(p, m, y, d);
                let a = eval(p, b.m, x, d);
                checked(p, g.rich) && d > 1 && b.end == End::Next && a.end == End::Next && is_word(
                    a.v,
                ) && is_word(b.v) ==> gives(#[trigger] eval(p, m, e, d), a.m, f(a.v, b.v), data)
            } by {
            let b = eval(p, m, y, d);
            let a = eval(p, b.m, x, d);
            if checked(p, g.rich) && d > 1 && b.end == End::Next && a.end == End::Next && is_word(
                a.v,
            ) && is_word(b.v) {
                let vs = seq![
                    a.v,
                    b.v,
                    number(min_signed_hex_spec(bits)),
                    number(max_signed_hex_spec(bits)),
                ];
                assert(eval(p, m, e, d) == called(p, a.m, "checked_ssub_n"@, vs, d)) by {
                    broadcast use group_steps;

                }
                law_checked_ssub_n(p, a.m, vs, d, g.rich);
            }
        }
    } else {
        let e = own2("checked_sub"@, x, y);
        assert(expr_text(e) =~= t) by {
            broadcast use group_texts;

            reveal_strlit("checked_sub(");
            reveal_strlit("checked_sub");
            reveal_strlit("(");
            assert("checked_sub("@ =~= "checked_sub"@ + "("@);
        }
        assert forall|p: Map<Seq<char>, YulFn>, m: Machine, d: nat|
            {
                let b = eval(p, m, y, d);
                let a = eval(p, b.m, x, d);
                checked(p, g.rich) && d > 1 && b.end == End::Next && a.end == End::Next && is_word(
                    a.v,
                ) && is_word(b.v) ==> gives(#[trigger] eval(p, m, e, d), a.m, f(a.v, b.v), data)
            } by {
            let b = eval(p, m, y, d);
            let a = eval(p, b.m, x, d);
            if checked(p, g.rich) && d > 1 && b.end == End::Next && a.end == End::Next && is_word(
                a.v,
            ) && is_word(b.v) {
                let vs = seq![a.v, b.v];
                assert(eval(p, m, e, d) == called(p, a.m, "checked_sub"@, vs, d)) by {
                    broadcast use group_steps;

                }
                law_checked_sub(p, a.m, vs, d, g.rich);
            }
        }
    }
}

/// `*` on two unsigned numbers of a type gives their product where the type holds it, and
/// panics elsewhere.
pub proof fn law_multiplication(g: EnvV, st: StV, x: YulExpr, y: YulExpr, bits: usize)
    requires
        numeric_bits(bits),
    ensures
        exists|e: YulExpr| #[trigger]
            expr_text(e) == mul_op_spec(g, st, expr_text(x), expr_text(y), Some((bits, false))).1
                && computes_or_reverts(
                e,
                x,
                y,
                |a: int, b: int| exact(a * b, bits, false),
                g.rich,
                panic_data(g.rich, PANIC_OVERFLOW@),
            ),
{
    reveal(mul_op_spec);
    let t = mul_op_spec(g, st, expr_text(x), expr_text(y), Some((bits, false))).1;
    let f = |a: int, b: int| exact(a * b, bits, false);
    let data = panic_data(g.rich, PANIC_OVERFLOW@);
    let e = own3("checked_mul"@, x, y, largest(bits));
    lemma_largest(Map::empty(), arbitrary(), 0, bits);
    assert(expr_text(e) =~= t) by {
        broadcast use group_texts;

        reveal_strlit("checked_mul(");
        reveal_strlit("checked_mul");
        reveal_strlit("(");
        assert("checked_mul("@ =~= "checked_mul"@ + "("@);
    }
    assert forall|p: Map<Seq<char>, YulFn>, m: Machine, d: nat|
        {
            let b = eval(p, m, y, d);
            let a = eval(p, b.m, x, d);
            checked(p, g.rich) && d > 1 && b.end == End::Next && a.end == End::Next && is_word(
                a.v,
            ) && is_word(b.v) ==> gives(#[trigger] eval(p, m, e, d), a.m, f(a.v, b.v), data)
        } by {
        let b = eval(p, m, y, d);
        let a = eval(p, b.m, x, d);
        if checked(p, g.rich) && d > 1 && b.end == End::Next && a.end == End::Next && is_word(
            a.v,
        ) && is_word(b.v) {
            lemma_largest(p, m, d, bits);
            let vs = seq![a.v, b.v, greatest(bits, false)];
            assert(eval(p, m, e, d) == called(p, a.m, "checked_mul"@, vs, d)) by {
                broadcast use group_steps;

            }
            law_checked_mul(p, a.m, vs, d, g.rich);
            let (u, v) = (a.v, b.v);
            assert(u * v >= 0) by (nonlinear_arith)
                requires
                    u >= 0,
                    v >= 0,
            ;
            if u * v <= greatest(bits, false) {
                lemma_in_range(u * v, bits);
            }
        }
    }
}

/// `/` gives the quotient rounded towards zero, and panics where the divisor is zero.
pub proof fn law_division(g: EnvV, st: StV, x: YulExpr, y: YulExpr, is_signed: bool)
    ensures
        exists|e: YulExpr| #[trigger]
            expr_text(e) == div_op_spec(g, st, expr_text(x), expr_text(y), is_signed).1
                && computes_or_reverts(
                e,
                x,
                y,
                |a: int, b: int|
                    if b == 0 {
                        None
                    } else if is_signed {
                        Some(wrap(quotient(signed(a), signed(b))))
                    } else {
                        Some(a / b)
                    },
                g.rich,
                panic_data(g.rich, PANIC_DIV_ZERO@),
            ),
{
    reveal(div_op_spec);
    let t = div_op_spec(g, st, expr_text(x), expr_text(y), is_signed).1;
    let f = |a: int, b: int|
        if b == 0 {
            None
        } else if is_signed {
            Some(wrap(quotient(signed(a), signed(b))))
        } else {
            Some(a / b)
        };
    let data = panic_data(g.rich, PANIC_DIV_ZERO@);
    if is_signed {
        let e = own2("checked_sdiv"@, x, y);
        assert(expr_text(e) =~= t) by {
            broadcast use group_texts;

            reveal_strlit("checked_sdiv(");
            reveal_strlit("checked_sdiv");
            reveal_strlit("(");
            assert("checked_sdiv("@ =~= "checked_sdiv"@ + "("@);
        }
        assert forall|p: Map<Seq<char>, YulFn>, m: Machine, d: nat|
            {
                let b = eval(p, m, y, d);
                let a = eval(p, b.m, x, d);
                checked(p, g.rich) && d > 1 && b.end == End::Next && a.end == End::Next && is_word(
                    a.v,
                ) && is_word(b.v) ==> gives(#[trigger] eval(p, m, e, d), a.m, f(a.v, b.v), data)
            } by {
            let b = eval(p, m, y, d);
            let a = eval(p, b.m, x, d);
            if checked(p, g.rich) && d > 1 && b.end == End::Next && a.end == End::Next && is_word(
                a.v,
            ) && is_word(b.v) {
                let vs = seq![a.v, b.v];
                assert(eval(p, m, e, d) == called(p, a.m, "checked_sdiv"@, vs, d)) by {
                    broadcast use group_steps;

                }
                law_checked_div(p, a.m, vs, d, g.rich);
            }
        }
    } else {
        let e = own2("checked_div"@, x, y);
        assert(expr_text(e) =~= t) by {
            broadcast use group_texts;

            reveal_strlit("checked_div(");
            reveal_strlit("checked_div");
            reveal_strlit("(");
            assert("checked_div("@ =~= "checked_div"@ + "("@);
        }
        assert forall|p: Map<Seq<char>, YulFn>, m: Machine, d: nat|
            {
                let b = eval(p, m, y, d);
                let a = eval(p, b.m, x, d);
                checked(p, g.rich) && d > 1 && b.end == End::Next && a.end == End::Next && is_word(
                    a.v,
                ) && is_word(b.v) ==> gives(#[trigger] eval(p, m, e, d), a.m, f(a.v, b.v), data)
            } by {
            let b = eval(p, m, y, d);
            let a = eval(p, b.m, x, d);
            if checked(p, g.rich) && d > 1 && b.end == End::Next && a.end == End::Next && is_word(
                a.v,
            ) && is_word(b.v) {
                let vs = seq![a.v, b.v];
                assert(eval(p, m, e, d) == called(p, a.m, "checked_div"@, vs, d)) by {
                    broadcast use group_steps;

                }
                law_checked_div(p, a.m, vs, d, g.rich);
            }
        }
    }
}

/// `%` gives what the division leaves, and panics where the divisor is zero.
pub proof fn law_remainder(g: EnvV, st: StV, x: YulExpr, y: YulExpr, is_signed: bool)
    ensures
        exists|e: YulExpr| #[trigger]
            expr_text(e) == mod_op_spec(g, st, expr_text(x), expr_text(y), is_signed).1
                && computes_or_reverts(
                e,
                x,
                y,
                |a: int, b: int|
                    if b == 0 {
                        None
                    } else if is_signed {
                        Some(wrap(remainder(signed(a), signed(b))))
                    } else {
                        Some(a % b)
                    },
                g.rich,
                panic_data(g.rich, PANIC_DIV_ZERO@),
            ),
{
    reveal(mod_op_spec);
    let t = mod_op_spec(g, st, expr_text(x), expr_text(y), is_signed).1;
    let f = |a: int, b: int|
        if b == 0 {
            None
        } else if is_signed {
            Some(wrap(remainder(signed(a), signed(b))))
        } else {
            Some(a % b)
        };
    let data = panic_data(g.rich, PANIC_DIV_ZERO@);
    if is_signed {
        let e = own2("checked_smod"@, x, y);
        assert(expr_text(e) =~= t) by {
            broadcast use group_texts;

            reveal_strlit("checked_smod(");
            reveal_strlit("checked_smod");
            reveal_strlit("(");
            assert("checked_smod("@ =~= "checked_smod"@ + "("@);
        }
        assert forall|p: Map<Seq<char>, YulFn>, m: Machine, d: nat|
            {
                let b = eval(p, m, y, d);
                let a = eval(p, b.m, x, d);
                checked(p, g.rich) && d > 1 && b.end == End::Next && a.end == End::Next && is_word(
                    a.v,
                ) && is_word(b.v) ==> gives(#[trigger] eval(p, m, e, d), a.m, f(a.v, b.v), data)
            } by {
            let b = eval(p, m, y, d);
            let a = eval(p, b.m, x, d);
            if checked(p, g.rich) && d > 1 && b.end == End::Next && a.end == End::Next && is_word(
                a.v,
            ) && is_word(b.v) {
                let vs = seq![a.v, b.v];
                assert(eval(p, m, e, d) == called(p, a.m, "checked_smod"@, vs, d)) by {
                    broadcast use group_steps;

                }
                law_checked_div(p, a.m, vs, d, g.rich);
            }
        }
    } else {
        let e = own2("checked_mod"@, x, y);
        assert(expr_text(e) =~= t) by {
            broadcast use group_texts;

            reveal_strlit("checked_mod(");
            reveal_strlit("checked_mod");
            reveal_strlit("(");
            assert("checked_mod("@ =~= "checked_mod"@ + "("@);
        }
        assert forall|p: Map<Seq<char>, YulFn>, m: Machine, d: nat|
            {
                let b = eval(p, m, y, d);
                let a = eval(p, b.m, x, d);
                checked(p, g.rich) && d > 1 && b.end == End::Next && a.end == End::Next && is_word(
                    a.v,
                ) && is_word(b.v) ==> gives(#[trigger] eval(p, m, e, d), a.m, f(a.v, b.v), data)
            } by {
            let b = eval(p, m, y, d);
            let a = eval(p, b.m, x, d);
            if checked(p, g.rich) && d > 1 && b.end == End::Next && a.end == End::Next && is_word(
                a.v,
            ) && is_word(b.v) {
                let vs = seq![a.v, b.v];
                assert(eval(p, m, e, d) == called(p, a.m, "checked_mod"@, vs, d)) by {
                    broadcast use group_steps;

                }
                law_checked_div(p, a.m, vs, d, g.rich);
            }
        }
    }
}

} // verus!
