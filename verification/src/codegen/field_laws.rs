//! What the code does that reads and writes a field within a storage word.
use crate::codegen::op_laws::{lemma_hex, lemma_pairs};
use crate::codegen::word::{bitwise, is_word, lemma_two_sum, lemma_two_top, top, two, wrap};
use crate::codegen::yul::{mask_hex_spec, merge_spec, read_slot_spec, write_slot_spec};
use crate::codegen::yul_run::{apply, digit, eval, give, group_steps, number, spelled, End, Machine};
use crate::codegen::yul_text::lemma_assoc;
use crate::codegen::yul_tree::{expr_text, group_texts, num, op1, op2, Op, YulExpr, YulFn};
use crate::text::{begins, dec, digit_char, rep};
use vstd::arithmetic::div_mod::{lemma_div_denominator, lemma_mod_breakdown};
use vstd::prelude::*;

verus! {

/// The field of a word that lies `s` bits from its low end and is `n` bits wide.
pub open spec fn field(w: int, s: nat, n: nat) -> int {
    (w / two(s)) % two(n)
}

/// A word with another value in a field.
pub open spec fn replaced(w: int, s: nat, n: nat, x: int) -> int {
    w - field(w, s, n) * two(s) + x * two(s)
}

proof fn lemma_two_positive(n: nat)
    ensures
        two(n) > 0,
{
    lemma_two_sum(n, 0);
}

proof fn lemma_none(f: spec_fn(bool, bool) -> bool, w: int, n: nat)
    requires
        forall|x: bool, y: bool| #[trigger] f(x, y) == (x && y),
    ensures
        bitwise(f, w, 0, n) == 0,
    decreases n,
{
    if n > 0 {
        lemma_none(f, w / 2, (n - 1) as nat);
    }
}

proof fn lemma_all(f: spec_fn(bool, bool) -> bool, w: int, n: nat)
    requires
        forall|x: bool, y: bool| #[trigger] f(x, y) == (x || y),
        0 <= w < two(n),
    ensures
        bitwise(f, w, 0, n) == w,
    decreases n,
{
    if n > 0 {
        lemma_all(f, w / 2, (n - 1) as nat);
    }
}

/// The lowest bits of a word are what a division leaves.
proof fn lemma_low(f: spec_fn(bool, bool) -> bool, w: int, n: nat, k: nat)
    requires
        forall|x: bool, y: bool| #[trigger] f(x, y) == (x && y),
        n <= k,
        0 <= w,
    ensures
        bitwise(f, w, two(n) - 1, k) == w % two(n),
    decreases n,
{
    if n == 0 {
        lemma_none(f, w, k);
    } else {
        let (i, j) = ((n - 1) as nat, (k - 1) as nat);
        lemma_low(f, w / 2, i, j);
        lemma_two_positive(i);
        lemma_mod_breakdown(w, 2, two(i));
        assert((two(n) - 1) / 2 == two(i) - 1);
        assert((two(n) - 1) % 2 == 1);
    }
}

proof fn lemma_field_step(w: int, s: nat, n: nat)
    requires
        0 <= w,
    ensures
        s > 0 ==> field(w / 2, (s - 1) as nat, n) == field(w, s, n),
        s > 0 ==> field(w, s, n) * two(s) == 2 * (field(w, s, n) * two((s - 1) as nat)),
        n > 0 ==> field(w, 0, n) == 2 * field(w / 2, 0, (n - 1) as nat) + w % 2,
        field(w, 0, 0) == 0,
        field(w, s, n) >= 0,
{
    lemma_two_positive(n);
    if s > 0 {
        let i = (s - 1) as nat;
        lemma_two_positive(i);
        lemma_div_denominator(w, 2, two(i));
        let v = field(w, s, n);
        assert(v * (2 * two(i)) == 2 * (v * two(i))) by (nonlinear_arith);
    }
    if n > 0 {
        let i = (n - 1) as nat;
        lemma_two_positive(i);
        lemma_mod_breakdown(w, 2, two(i));
    }
}

/// Clearing a field keeps the other bits.
proof fn lemma_clear(f: spec_fn(bool, bool) -> bool, w: int, s: nat, n: nat, k: nat)
    requires
        forall|x: bool, y: bool| #[trigger] f(x, y) == (x && y),
        s + n <= k,
        0 <= w < two(k),
    ensures
        bitwise(f, w, two(k) - 1 - (two(n) - 1) * two(s), k) == w - field(w, s, n) * two(s),
    decreases s + n,
{
    lemma_field_step(w, s, n);
    let b = two(k) - 1 - (two(n) - 1) * two(s);
    if s > 0 {
        let (i, j) = ((s - 1) as nat, (k - 1) as nat);
        lemma_clear(f, w / 2, i, n, j);
        let a = two(n) - 1;
        assert(a * (2 * two(i)) == 2 * (a * two(i))) by (nonlinear_arith);
        let h = two(j) - 1 - a * two(i);
        assert(b == 2 * h + 1);
        assert(b / 2 == h && b % 2 == 1);
    } else if n == 0 {
        lemma_low(f, w, k, k);
        assert(b == two(k) - 1);
        assert(w % two(k) == w) by (nonlinear_arith)
            requires
                0 <= w < two(k),
        ;
    } else {
        let (i, j) = ((n - 1) as nat, (k - 1) as nat);
        lemma_clear(f, w / 2, 0, i, j);
        let h = two(j) - 1 - (two(i) - 1) * two(0);
        let (v1, v2) = (field(w, 0, n), field(w / 2, 0, i));
        assert((two(i) - 1) * two(0) == two(i) - 1 && (two(n) - 1) * two(0) == two(n) - 1 && v1
            * two(0) == v1 && v2 * two(0) == v2) by (nonlinear_arith)
            requires
                two(0) == 1,
        ;
        assert(b == 2 * h);
        assert(b / 2 == h && b % 2 == 0);
    }
}

/// Filling a cleared field keeps the other bits.
proof fn lemma_fill(f: spec_fn(bool, bool) -> bool, w: int, s: nat, n: nat, x: int, k: nat)
    requires
        forall|x: bool, y: bool| #[trigger] f(x, y) == (x || y),
        s + n <= k,
        0 <= w < two(k),
        0 <= x < two(n),
    ensures
        bitwise(f, w - field(w, s, n) * two(s), x * two(s), k) == replaced(w, s, n, x),
    decreases s + n,
{
    lemma_field_step(w, s, n);
    let u = w - field(w, s, n) * two(s);
    if s > 0 {
        let (i, j) = ((s - 1) as nat, (k - 1) as nat);
        lemma_fill(f, w / 2, i, n, x, j);
        assert(x * (2 * two(i)) == 2 * (x * two(i))) by (nonlinear_arith);
        assert(u == 2 * (w / 2 - field(w / 2, i, n) * two(i)) + w % 2);
        assert(u / 2 == w / 2 - field(w / 2, i, n) * two(i) && u % 2 == w % 2);
        let v = x * two(s);
        assert(v / 2 == x * two(i) && v % 2 == 0);
    } else if n == 0 {
        assert(x == 0);
        lemma_all(f, w, k);
    } else {
        let (i, j) = ((n - 1) as nat, (k - 1) as nat);
        lemma_fill(f, w / 2, 0, i, x / 2, j);
        let (v1, v2, v3) = (field(w, 0, n), field(w / 2, 0, i), x / 2);
        assert(v1 * two(0) == v1 && v2 * two(0) == v2 && x * two(0) == x && v3 * two(0) == v3)
            by (nonlinear_arith)
            requires
                two(0) == 1,
        ;
        assert(u == 2 * (w / 2 - field(w / 2, 0, i)));
        assert(u / 2 == w / 2 - field(w / 2, 0, i) && u % 2 == 0);
    }
}

/// A field that was written is read back.
pub proof fn law_field_is_read_back(w: int, s: nat, n: nat, x: int)
    requires
        0 <= w,
        0 <= x < two(n),
    ensures
        field(replaced(w, s, n, x), s, n) == x,
{
    lemma_two_positive(s);
    lemma_two_positive(n);
    let (a, b) = (two(s), two(n));
    let v = field(w, s, n);
    let q = w / a;
    let r = replaced(w, s, n, x);
    let lo = w % a;
    let hi = q / b;
    assert(q == hi * b + v) by (nonlinear_arith)
        requires
            hi == q / b,
            v == q % b,
            b > 0,
    ;
    assert(w == q * a + lo && 0 <= lo < a) by (nonlinear_arith)
        requires
            q == w / a,
            lo == w % a,
            a > 0,
    ;
    assert(r == (hi * b + x) * a + lo) by (nonlinear_arith)
        requires
            r == w - v * a + x * a,
            w == q * a + lo,
            q == hi * b + v,
    ;
    let y = hi * b + x;
    assert((y * a + lo) / a == y) by (nonlinear_arith)
        requires
            0 <= lo < a,
    ;
    assert((hi * b + x) % b == x) by (nonlinear_arith)
        requires
            0 <= x < b,
    ;
}

/// Writing a field leaves every field apart from it as it was.
pub proof fn law_other_fields_stay(w: int, s: nat, n: nat, x: int, i: nat, k: nat)
    requires
        0 <= w,
        0 <= x < two(n),
        i >= s + n || i + k <= s,
    ensures
        field(replaced(w, s, n, x), i, k) == field(w, i, k),
{
    lemma_two_positive(s);
    lemma_two_positive(n);
    lemma_two_positive(i);
    lemma_two_positive(k);
    let (a, b) = (two(s), two(n));
    let v = field(w, s, n);
    let q = w / a;
    let r = replaced(w, s, n, x);
    let lo = w % a;
    let hi = q / b;
    assert(q >= 0 && hi >= 0) by (nonlinear_arith)
        requires
            q == w / a,
            hi == q / b,
            w >= 0,
            a > 0,
            b > 0,
    ;
    assert(q == hi * b + v && 0 <= v < b) by (nonlinear_arith)
        requires
            hi == q / b,
            v == q % b,
            b > 0,
    ;
    assert(w == q * a + lo && 0 <= lo < a) by (nonlinear_arith)
        requires
            q == w / a,
            lo == w % a,
            a > 0,
    ;
    assert(r == hi * (a * b) + (x * a + lo) && w == hi * (a * b) + (v * a + lo)) by (nonlinear_arith)
        requires
            r == w - v * a + x * a,
            w == q * a + lo,
            q == hi * b + v,
    ;
    if i >= s + n {
        let c = a * b;
        assert(0 <= x * a + lo < c && 0 <= v * a + lo < c && c > 0) by (nonlinear_arith)
            requires
                0 <= x < b,
                0 <= v < b,
                0 <= lo < a,
                c == a * b,
        ;
        let (y, z) = (x * a + lo, v * a + lo);
        assert((hi * c + y) / c == hi && (hi * c + z) / c == hi) by (nonlinear_arith)
            requires
                0 <= y < c,
                0 <= z < c,
        ;
        assert(r >= 0) by (nonlinear_arith)
            requires
                r == hi * c + y,
                hi >= 0,
                c > 0,
                y >= 0,
        ;
        lemma_two_sum(s, n);
        let rest = (i - s - n) as nat;
        lemma_two_sum(s + n, rest);
        lemma_two_positive(rest);
        lemma_div_denominator(r, c, two(rest));
        lemma_div_denominator(w, c, two(rest));
    } else {
        let (c, e) = (two(i), two(k));
        let rest = (s - i - k) as nat;
        let u = two(rest);
        lemma_two_sum(i, k);
        lemma_two_sum(i + k, rest);
        let ce = c * e;
        assert(ce > 0) by (nonlinear_arith)
            requires
                c > 0,
                e > 0,
                ce == c * e,
        ;
        assert(a == ce * u);
        let dif = x - v;
        assert(r == ce * (u * dif) + w) by (nonlinear_arith)
            requires
                r == w - v * a + x * a,
                a == ce * u,
                dif == x - v,
        ;
        assert(r == c * (e * u * dif) + w) by (nonlinear_arith)
            requires
                r == ce * (u * dif) + w,
                ce == c * e,
        ;
        vstd::arithmetic::div_mod::lemma_mod_multiples_vanish(u * dif, w, ce);
        vstd::arithmetic::div_mod::lemma_mod_multiples_vanish(e * u * dif, w, c);
        assert(r >= 0) by (nonlinear_arith)
            requires
                r == hi * (a * b) + (x * a + lo),
                hi >= 0,
                a > 0,
                b > 0,
                x >= 0,
                lo >= 0,
        ;
        lemma_mod_breakdown(r, c, e);
        lemma_mod_breakdown(w, c, e);
        let (f1, f2) = (field(r, i, k), field(w, i, k));
        assert(f1 == f2) by (nonlinear_arith)
            requires
                c * f1 == c * f2,
                c > 0,
        ;
    }
}

proof fn lemma_dec(n: nat)
    ensures
        spelled(dec(n), 10) == n,
        dec(n).len() > 0,
        forall|i: int| 0 <= i < dec(n).len() ==> '0' <= #[trigger] dec(n)[i] <= '9',
    decreases n,
{
    if n < 10 {
        let d = digit_char(n as int);
        let s = seq![d];
        assert(s.drop_last() =~= Seq::<char>::empty());
        assert(spelled(s.drop_last(), 10) == 0);
        assert(spelled(s, 10) == digit(d));
    } else {
        lemma_dec(n / 10);
        let s = dec(n);
        assert(s.drop_last() =~= dec(n / 10));
    }
}

/// A decimal literal has the value that it was made from.
pub proof fn lemma_decimal(n: nat)
    ensures
        number(dec(n)) == n,
{
    lemma_dec(n);
    reveal_strlit("0x");
    let t = dec(n);
    if begins(t, "0x"@) {
        assert(t.subrange(0, 2)[1] == "0x"@[1]);
        assert(t[1] == 'x');
    }
}

/// The code that reads a field of a word gives the field.
pub proof fn law_field_read(c: YulExpr, offset: usize, size: usize)
    requires
        0 < size,
        offset + size <= 32,
    ensures
        exists|e: YulExpr| #[trigger]
            expr_text(e) == read_slot_spec(expr_text(c), offset, size) && forall|
                p: Map<Seq<char>, YulFn>,
                m: Machine,
                d: nat,
            |
                {
                    let w = eval(p, m, c, d);
                    w.end == End::Next && is_word(w.v) ==> #[trigger] eval(p, m, e, d) == give(
                        w.m,
                        field(w.v, (8 * offset) as nat, (8 * size) as nat),
                    )
                },
{
    let (s, n) = ((8 * offset) as nat, (8 * size) as nat);
    let mask = num(mask_hex_spec(size));
    let inner = op2(Op::Shr, num(dec(s)), c);
    let e = if size == 32 {
        c
    } else if offset == 0 {
        op2(Op::And, c, mask)
    } else {
        op2(Op::And, inner, mask)
    };
    assert(s == offset as nat * 8);
    assert(expr_text(e) =~= read_slot_spec(expr_text(c), offset, size)) by {
        broadcast use group_texts;

        reveal_strlit("and(");
        reveal_strlit("and");
        reveal_strlit("(");
        reveal_strlit("and(shr(");
        reveal_strlit("shr");
        reveal_strlit("), ");
        reveal_strlit(")");
        reveal_strlit(", ");
        assert("and("@ =~= "and"@ + "("@);
        assert("and(shr("@ =~= "and"@ + "("@ + "shr"@ + "("@);
        assert("), "@ =~= ")"@ + ", "@);
    }
    lemma_decimal(s);
    lemma_pairs(size as nat);
    lemma_hex(rep("ff"@, size as nat));
    lemma_two_top();
    lemma_two_positive(s);
    assert forall|p: Map<Seq<char>, YulFn>, m: Machine, d: nat|
        {
            let w = eval(p, m, c, d);
            w.end == End::Next && is_word(w.v) ==> #[trigger] eval(p, m, e, d) == give(
                w.m,
                field(w.v, s, n),
            )
        } by {
        let w = eval(p, m, c, d);
        if w.end == End::Next && is_word(w.v) {
            let v = w.v;
            assert(v / two(0) == v);
            assert(v / two(s) >= 0) by (nonlinear_arith)
                requires
                    v >= 0,
                    two(s) > 0,
            ;
            if size == 32 {
                assert(v % two(256) == v);
            } else if offset == 0 {
                lemma_low(|x: bool, y: bool| x && y, v, n, 256);
                broadcast use group_steps;

                reveal(apply);
            } else {
                lemma_low(|x: bool, y: bool| x && y, v / two(s), n, 256);
                assert(eval(p, m, inner, d) == give(w.m, v / two(s))) by {
                    broadcast use group_steps;

                    reveal(apply);
                }
                broadcast use group_steps;

                reveal(apply);
            }
        }
    }
}

/// The code that writes a field of a word gives the word with the lowest bits of the value
/// in the field.
pub proof fn law_field_write(c: YulExpr, y: YulExpr, offset: usize, size: usize)
    requires
        0 < size,
        offset + size <= 32,
    ensures
        exists|e: YulExpr| #[trigger]
            expr_text(e) == write_slot_spec(expr_text(c), offset, size, expr_text(y)) && forall|
                p: Map<Seq<char>, YulFn>,
                m: Machine,
                d: nat,
            |
                {
                    let v = eval(p, m, y, d);
                    let w = eval(p, v.m, c, d);
                    v.end == End::Next && w.end == End::Next && is_word(v.v) && is_word(w.v)
                        && w.m == v.m ==> #[trigger] eval(p, m, e, d) == give(
                        w.m,
                        replaced(
                            w.v,
                            (8 * offset) as nat,
                            (8 * size) as nat,
                            v.v % two((8 * size) as nat),
                        ),
                    )
                },
{
    let (s, n) = ((8 * offset) as nat, (8 * size) as nat);
    assert(s == offset as nat * 8);
    lemma_two_top();
    if size == 32 {
        assert(two(0) == 1);
        assert(expr_text(y) == write_slot_spec(expr_text(c), offset, size, expr_text(y)));
        assert forall|p: Map<Seq<char>, YulFn>, m: Machine, d: nat|
            {
                let v = eval(p, m, y, d);
                let w = eval(p, v.m, c, d);
                v.end == End::Next && w.end == End::Next && is_word(v.v) && is_word(w.v) && w.m
                    == v.m ==> #[trigger] eval(p, m, y, d) == give(
                    w.m,
                    replaced(w.v, s, n, v.v % two(n)),
                )
            } by {
            let v = eval(p, m, y, d);
            let w = eval(p, v.m, c, d);
            if is_word(v.v) && is_word(w.v) {
                let (a, b) = (v.v, w.v);
                assert(a % two(256) == a && (b / 1) % two(256) == b);
                assert(b * two(0) == b && a * two(0) == a) by (nonlinear_arith)
                    requires
                        two(0) == 1,
                ;
            }
        }
    } else {
        let mask = num(mask_hex_spec(size));
        let sh = num(dec(s));
        let left = op2(Op::And, c, op1(Op::Not, op2(Op::Shl, sh, mask)));
        let right = op2(Op::Shl, sh, op2(Op::And, y, mask));
        let e = op2(Op::Or, left, right);
        lemma_merge_text(c, y, s, size);
        assert(expr_text(e) == write_slot_spec(expr_text(c), offset, size, expr_text(y)));
        assert forall|p: Map<Seq<char>, YulFn>, m: Machine, d: nat|
            {
                let v = eval(p, m, y, d);
                let w = eval(p, v.m, c, d);
                v.end == End::Next && w.end == End::Next && is_word(v.v) && is_word(w.v) && w.m
                    == v.m ==> #[trigger] eval(p, m, e, d) == give(
                    w.m,
                    replaced(w.v, s, n, v.v % two(n)),
                )
            } by {
            let v = eval(p, m, y, d);
            let w = eval(p, v.m, c, d);
            if v.end == End::Next && w.end == End::Next && is_word(v.v) && is_word(w.v) {
                lemma_merge_runs(p, m, d, c, y, s, size);
            }
        }
    }
}

proof fn lemma_merge_text(c: YulExpr, y: YulExpr, s: nat, size: usize)
    ensures
        ({
            let mask = num(mask_hex_spec(size));
            let sh = num(dec(s));
            let left = op2(Op::And, c, op1(Op::Not, op2(Op::Shl, sh, mask)));
            let right = op2(Op::Shl, sh, op2(Op::And, y, mask));
            expr_text(op2(Op::Or, left, right)) == merge_spec(expr_text(c), s, size, expr_text(y))
        }),
{
    let mask = num(mask_hex_spec(size));
    let sh = num(dec(s));
    let cut = op2(Op::Shl, sh, mask);
    let left = op2(Op::And, c, op1(Op::Not, cut));
    let low = op2(Op::And, y, mask);
    let right = op2(Op::Shl, sh, low);
    let (t, k, x, z) = (dec(s), mask_hex_spec(size), expr_text(c), expr_text(y));
    lemma_merge_literals();
    assert(expr_text(cut) == "shl"@ + "("@ + (t + ", "@ + k) + ")"@) by {
        broadcast use group_texts;

    }
    assert(expr_text(left) == "and"@ + "("@ + (x + ", "@ + ("not"@ + "("@ + expr_text(cut) + ")"@))
        + ")"@) by {
        broadcast use group_texts;

    }
    assert(expr_text(low) == "and"@ + "("@ + (z + ", "@ + k) + ")"@) by {
        broadcast use group_texts;

    }
    assert(expr_text(right) == "shl"@ + "("@ + (t + ", "@ + expr_text(low)) + ")"@) by {
        broadcast use group_texts;

    }
    assert(expr_text(op2(Op::Or, left, right)) == "or"@ + "("@ + (expr_text(left) + ", "@
        + expr_text(right)) + ")"@) by {
        broadcast use group_texts;

    }
    lemma_regroup("or"@, "and"@, "not"@, "shl"@, "("@, ")"@, ", "@, x, t, k, z);
}

proof fn lemma_merge_literals()
    ensures
        "or(and("@ == "or"@ + "("@ + "and"@ + "("@,
        ", not(shl("@ == ", "@ + "not"@ + "("@ + "shl"@ + "("@,
        "))), shl("@ == ")"@ + ")"@ + ")"@ + ", "@ + "shl"@ + "("@,
        ", and("@ == ", "@ + "and"@ + "("@,
        ")))"@ == ")"@ + ")"@ + ")"@,
{
    reveal_strlit("(");
    reveal_strlit(")");
    reveal_strlit(", ");
    reveal_strlit("or");
    reveal_strlit("and");
    reveal_strlit("not");
    reveal_strlit("shl");
    assert("or(and("@ =~= "or"@ + "("@ + "and"@ + "("@) by {
        reveal_strlit("or(and(");
    }
    assert(", not(shl("@ =~= ", "@ + "not"@ + "("@ + "shl"@ + "("@) by {
        reveal_strlit(", not(shl(");
    }
    assert("))), shl("@ =~= ")"@ + ")"@ + ")"@ + ", "@ + "shl"@ + "("@) by {
        reveal_strlit("))), shl(");
    }
    assert(", and("@ =~= ", "@ + "and"@ + "("@) by {
        reveal_strlit(", and(");
    }
    assert(")))"@ =~= ")"@ + ")"@ + ")"@) by {
        reveal_strlit(")))");
    }
}

proof fn lemma_regroup(
    o: Seq<char>,
    a: Seq<char>,
    n: Seq<char>,
    h: Seq<char>,
    l: Seq<char>,
    r: Seq<char>,
    c: Seq<char>,
    x: Seq<char>,
    t: Seq<char>,
    k: Seq<char>,
    z: Seq<char>,
)
    ensures
        o + l + ((a + l + (x + c + (n + l + (h + l + (t + c + k) + r) + r)) + r) + c + (h + l + (t + c
            + (a + l + (z + c + k) + r)) + r)) + r == (o + l + a + l) + x + (c + n + l + h + l) + t
            + c + k + (r + r + r + c + h + l) + t + (c + a + l) + z + c + k + (r + r + r),
{
    broadcast use lemma_assoc;

}

proof fn lemma_merge_runs(
    p: Map<Seq<char>, YulFn>,
    m: Machine,
    d: nat,
    c: YulExpr,
    y: YulExpr,
    s: nat,
    size: usize,
)
    requires
        0 < size < 32,
        s < 256,
        s + 8 * size <= 256,
        ({
            let v = eval(p, m, y, d);
            let w = eval(p, v.m, c, d);
            v.end == End::Next && w.end == End::Next && is_word(v.v) && is_word(w.v)
        }),
    ensures
        ({
            let mask = num(mask_hex_spec(size));
            let sh = num(dec(s));
            let left = op2(Op::And, c, op1(Op::Not, op2(Op::Shl, sh, mask)));
            let right = op2(Op::Shl, sh, op2(Op::And, y, mask));
            let v = eval(p, m, y, d);
            let w = eval(p, v.m, c, d);
            let n = (8 * size) as nat;
            eval(p, m, op2(Op::Or, left, right), d) == give(
                w.m,
                replaced(w.v, s, n, v.v % two(n)),
            )
        }),
{
    let n = (8 * size) as nat;
    let mask = num(mask_hex_spec(size));
    let sh = num(dec(s));
    let cut = op2(Op::Shl, sh, mask);
    let left = op2(Op::And, c, op1(Op::Not, cut));
    let low = op2(Op::And, y, mask);
    let right = op2(Op::Shl, sh, low);
    let v = eval(p, m, y, d);
    let w = eval(p, v.m, c, d);
    lemma_decimal(s);
    lemma_pairs(size as nat);
    lemma_hex(rep("ff"@, size as nat));
    lemma_two_top();
    lemma_two_positive(s);
    lemma_two_positive(n);
    let k = two(n) - 1;
    let x = v.v % two(n);
    let gap = (256 - s - n) as nat;
    lemma_two_sum(n, s);
    lemma_two_sum(gap, n + s);
    lemma_two_positive(gap);
    let (a, b, g) = (two(s), two(n), two(gap));
    assert(k * a <= b * a && b * a <= g * (b * a) && x * a <= k * a && k * a >= 0 && x * a >= 0)
        by (nonlinear_arith)
        requires
            a > 0,
            b > 0,
            g > 0,
            k == b - 1,
            0 <= x <= k,
    ;
    assert(k * a < top() && x * a < top()) by (nonlinear_arith)
        requires
            k == b - 1,
            a > 0,
            x * a <= k * a,
            k * a <= b * a,
            b * a <= top(),
    ;
    assert(wrap(k * a) == k * a && wrap(x * a) == x * a) by {
        reveal(wrap);
    }
    assert(eval(p, v.m, cut, d) == give(v.m, k * a)) by {
        broadcast use group_steps;

        reveal(apply);
    }
    assert(eval(p, v.m, op1(Op::Not, cut), d) == give(v.m, top() - 1 - k * a)) by {
        broadcast use group_steps;

        reveal(apply);
    }
    lemma_clear(|x: bool, y: bool| x && y, w.v, s, n, 256);
    assert(eval(p, v.m, left, d) == give(w.m, w.v - field(w.v, s, n) * a)) by {
        broadcast use group_steps;

        reveal(apply);
    }
    lemma_low(|x: bool, y: bool| x && y, v.v, n, 256);
    assert(eval(p, m, low, d) == give(v.m, x)) by {
        broadcast use group_steps;

        reveal(apply);
    }
    assert(eval(p, m, right, d) == give(v.m, x * a)) by {
        broadcast use group_steps;

        reveal(apply);
    }
    lemma_fill(|x: bool, y: bool| x || y, w.v, s, n, x, 256);
    assert(eval(p, m, op2(Op::Or, left, right), d) == give(w.m, replaced(w.v, s, n, x))) by {
        broadcast use group_steps;

        reveal(apply);
    }
}

} // verus!
