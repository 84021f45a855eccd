//! Words of the machine: 256 bits, read as unsigned or as signed numbers, and as 32 bytes.
use vstd::prelude::*;

verus! {

/// How many values a word has.
pub open spec fn top() -> int {
    0x10000000000000000000000000000000000000000000000000000000000000000int
}

pub open spec fn is_word(x: int) -> bool {
    0 <= x < top()
}

/// The word that an integer wraps to.
#[verifier::opaque]
pub open spec fn wrap(x: int) -> int {
    x % top()
}

/// A word as a signed number.
#[verifier::opaque]
pub open spec fn signed(x: int) -> int {
    if 2 * x < top() {
        x
    } else {
        x - top()
    }
}

/// A word as the number that it stands for.
pub open spec fn number_of(x: int, is_signed: bool) -> int {
    if is_signed {
        signed(x)
    } else {
        x
    }
}

pub open spec fn truth(b: bool) -> int {
    if b {
        1
    } else {
        0
    }
}

/// Two to the power of `n`.
pub open spec fn two(n: nat) -> int
    decreases n,
{
    if n == 0 {
        1
    } else {
        2 * two((n - 1) as nat)
    }
}

/// A bitwise operation on the lowest `n` bits.
pub open spec fn bitwise(f: spec_fn(bool, bool) -> bool, a: int, b: int, n: nat) -> int
    decreases n,
{
    if n == 0 {
        0
    } else {
        2 * bitwise(f, a / 2, b / 2, (n - 1) as nat) + truth(f(a % 2 == 1, b % 2 == 1))
    }
}

pub open spec fn bit_and(a: int, b: int) -> int {
    bitwise(|x: bool, y: bool| x && y, a, b, 256)
}

pub open spec fn bit_or(a: int, b: int) -> int {
    bitwise(|x: bool, y: bool| x || y, a, b, 256)
}

pub open spec fn bit_xor(a: int, b: int) -> int {
    bitwise(|x: bool, y: bool| x != y, a, b, 256)
}

/// Division that rounds towards zero.
pub open spec fn quotient(a: int, b: int) -> int {
    if a >= 0 {
        if b >= 0 {
            a / b
        } else {
            -(a / (-b))
        }
    } else {
        if b >= 0 {
            -((-a) / b)
        } else {
            (-a) / (-b)
        }
    }
}

/// What such a division leaves: it has the sign of the dividend.
pub open spec fn remainder(a: int, b: int) -> int {
    let m = if b >= 0 {
        b
    } else {
        -b
    };
    if a >= 0 {
        a % m
    } else {
        -((-a) % m)
    }
}

pub open spec fn power(a: int, n: nat) -> int
    decreases n,
{
    if n == 0 {
        1
    } else {
        a * power(a, (n - 1) as nat)
    }
}

/// The lowest `8 * (k + 1)` bits of a word, with their sign spread.
pub open spec fn spread(k: int, x: int) -> int {
    if k >= 31 {
        x
    } else {
        let n = two((8 * (k + 1)) as nat);
        let low = x % n;
        if 2 * low < n {
            low
        } else {
            low + top() - n
        }
    }
}

/// 256 to the power of `n`.
pub open spec fn bytes_top(n: nat) -> int
    decreases n,
{
    if n == 0 {
        1
    } else {
        256 * bytes_top((n - 1) as nat)
    }
}

/// The lowest `n` bytes of a number, the highest first.
pub open spec fn bytes_of(x: int, n: nat) -> Seq<u8>
    decreases n,
{
    if n == 0 {
        Seq::empty()
    } else {
        bytes_of(x / 256, (n - 1) as nat).push((x % 256) as u8)
    }
}

/// The number that bytes spell, the highest first.
pub open spec fn from_bytes(s: Seq<u8>) -> int
    decreases s.len(),
{
    if s.len() == 0 {
        0
    } else {
        256 * from_bytes(s.drop_last()) + s.last()
    }
}

/// A word as bytes.
pub open spec fn word_bytes(x: int) -> Seq<u8> {
    bytes_of(x, 32)
}

pub broadcast proof fn lemma_bytes_len(x: int, n: nat)
    ensures
        #[trigger] bytes_of(x, n).len() == n,
    decreases n,
{
    if n > 0 {
        lemma_bytes_len(x / 256, (n - 1) as nat);
    }
}

proof fn lemma_from_bytes(x: int, n: nat)
    requires
        0 <= x < bytes_top(n),
    ensures
        from_bytes(bytes_of(x, n)) == x,
    decreases n,
{
    if n > 0 {
        lemma_from_bytes(x / 256, (n - 1) as nat);
        lemma_bytes_len(x / 256, (n - 1) as nat);
        assert(bytes_of(x, n).drop_last() =~= bytes_of(x / 256, (n - 1) as nat));
    }
}

pub proof fn lemma_bytes_top()
    ensures
        bytes_top(32) == top(),
{
    reveal_with_fuel(bytes_top, 33);
}

/// A word is read back from its bytes.
pub proof fn law_word_bytes(x: int)
    requires
        is_word(x),
    ensures
        from_bytes(word_bytes(x)) == x,
        word_bytes(x).len() == 32,
{
    lemma_bytes_top();
    lemma_from_bytes(x, 32);
    lemma_bytes_len(x, 32);
}

/// Different words have different bytes.
pub proof fn law_word_bytes_differ(x: int, y: int)
    requires
        is_word(x),
        is_word(y),
        word_bytes(x) == word_bytes(y),
    ensures
        x == y,
{
    law_word_bytes(x);
    law_word_bytes(y);
}

proof fn lemma_no_bits(f: spec_fn(bool, bool) -> bool, n: nat)
    requires
        !f(false, false),
    ensures
        bitwise(f, 0, 0, n) == 0,
    decreases n,
{
    if n > 0 {
        lemma_no_bits(f, (n - 1) as nat);
    }
}

/// On the words of `true` and `false`, a bitwise operation is the logical one.
pub proof fn law_bits_of_truths(a: bool, b: bool)
    ensures
        bit_and(truth(a), truth(b)) == truth(a && b),
        bit_or(truth(a), truth(b)) == truth(a || b),
        bit_xor(truth(a), truth(b)) == truth(a != b),
{
    lemma_no_bits(|x: bool, y: bool| x && y, 255);
    lemma_no_bits(|x: bool, y: bool| x || y, 255);
    lemma_no_bits(|x: bool, y: bool| x != y, 255);
}

pub proof fn lemma_bitwise_bound(f: spec_fn(bool, bool) -> bool, a: int, b: int, n: nat)
    ensures
        0 <= bitwise(f, a, b, n) < two(n),
    decreases n,
{
    if n > 0 {
        lemma_bitwise_bound(f, a / 2, b / 2, (n - 1) as nat);
    }
}

pub proof fn lemma_two_top()
    ensures
        two(256) == top(),
        two(255) * 2 == top(),
{
    lemma_two_sum(64, 64);
    lemma_two_sum(128, 128);
    assert(two(64) == 0x1_0000_0000_0000_0000) by {
        reveal_with_fuel(two, 65);
    }
    let (a, b) = (two(64), two(128));
    assert(b == 0x1_0000_0000_0000_0000_0000_0000_0000_0000int) by (nonlinear_arith)
        requires
            a == 0x1_0000_0000_0000_0000int,
            b == a * a,
    ;
    assert(b * b == top()) by (nonlinear_arith)
        requires
            b == 0x1_0000_0000_0000_0000_0000_0000_0000_0000int,
            top() == 0x10000000000000000000000000000000000000000000000000000000000000000int,
    ;
    assert(two(256) == 2 * two(255));
}

pub proof fn lemma_two_sum(a: nat, b: nat)
    ensures
        two(a + b) == two(a) * two(b),
        two(a) > 0,
    decreases a,
{
    if a > 0 {
        lemma_two_sum((a - 1) as nat, b);
        assert(2 * (two((a - 1) as nat) * two(b)) == (2 * two((a - 1) as nat)) * two(b))
            by (nonlinear_arith);
    }
}

/// The highest bit of a bitwise result is the operation on the highest bits.
proof fn lemma_high_bit(f: spec_fn(bool, bool) -> bool, a: int, b: int, n: nat)
    requires
        n > 0,
        0 <= a < two(n),
        0 <= b < two(n),
    ensures
        (bitwise(f, a, b, n) >= two((n - 1) as nat)) == f(
            a >= two((n - 1) as nat),
            b >= two((n - 1) as nat),
        ),
    decreases n,
{
    if n == 1 {
        assert(two(1) == 2 * two(0));
        assert(bitwise(f, a / 2, b / 2, 0) == 0);
    } else {
        let m = (n - 1) as nat;
        lemma_high_bit(f, a / 2, b / 2, m);
        lemma_bitwise_bound(f, a / 2, b / 2, m);
        assert(two(m) == 2 * two((m - 1) as nat));
    }
}

/// A bitwise result is negative as a signed number exactly where the operation on the signs
/// says so.
pub proof fn law_signs_of_bits(a: int, b: int)
    requires
        is_word(a),
        is_word(b),
    ensures
        is_word(bit_and(a, b)),
        is_word(bit_or(a, b)),
        is_word(bit_xor(a, b)),
        (signed(bit_and(a, b)) < 0) == (signed(a) < 0 && signed(b) < 0),
        (signed(bit_or(a, b)) < 0) == (signed(a) < 0 || signed(b) < 0),
        (signed(bit_xor(a, b)) < 0) == ((signed(a) < 0) != (signed(b) < 0)),
{
    reveal(signed);
    lemma_two_top();
    lemma_high_bit(|x: bool, y: bool| x && y, a, b, 256);
    lemma_high_bit(|x: bool, y: bool| x || y, a, b, 256);
    lemma_high_bit(|x: bool, y: bool| x != y, a, b, 256);
    lemma_bitwise_bound(|x: bool, y: bool| x && y, a, b, 256);
    lemma_bitwise_bound(|x: bool, y: bool| x || y, a, b, 256);
    lemma_bitwise_bound(|x: bool, y: bool| x != y, a, b, 256);
}

} // verus!
