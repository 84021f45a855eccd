//! Text: building it, splitting it, and writing numbers into it.
//!
//! Every function here is stated over `Seq<char>`, the view of `str` and
//! `String`.
use vstd::prelude::*;

verus! {

/// `String::push` appends one character to the end of the string.
pub assume_specification[ String::push ](s: &mut String, c: char)
    ensures
        final(s)@ == old(s)@.push(c),
;

/// `==` on `str` (`<str as PartialEq>::eq`) holds exactly when both texts have
/// the same characters.
#[verifier::external_body]
pub(crate) fn same(a: &str, b: &str) -> (r: bool)
    ensures
        r == (a@ == b@),
{
    a == b
}

pub fn cat2(a: &str, b: &str) -> (r: String)
    ensures
        r@ == a@ + b@,
{
    let mut o = String::from_str(a);
    o.append(b);
    o
}

pub fn cat3(a: &str, b: &str, c: &str) -> (r: String)
    ensures
        r@ == a@ + b@ + c@,
{
    let mut o = cat2(a, b);
    o.append(c);
    o
}

pub fn cat4(a: &str, b: &str, c: &str, d: &str) -> (r: String)
    ensures
        r@ == a@ + b@ + c@ + d@,
{
    let mut o = cat3(a, b, c);
    o.append(d);
    o
}

pub fn cat5(a: &str, b: &str, c: &str, d: &str, e: &str) -> (r: String)
    ensures
        r@ == a@ + b@ + c@ + d@ + e@,
{
    let mut o = cat4(a, b, c, d);
    o.append(e);
    o
}

pub fn cat6(a: &str, b: &str, c: &str, d: &str, e: &str, f: &str) -> (r: String)
    ensures
        r@ == a@ + b@ + c@ + d@ + e@ + f@,
{
    let mut o = cat5(a, b, c, d, e);
    o.append(f);
    o
}

pub fn cat7(a: &str, b: &str, c: &str, d: &str, e: &str, f: &str, g: &str) -> (r: String)
    ensures
        r@ == a@ + b@ + c@ + d@ + e@ + f@ + g@,
{
    let mut o = cat6(a, b, c, d, e, f);
    o.append(g);
    o
}

pub fn cat8(a: &str, b: &str, c: &str, d: &str, e: &str, f: &str, g: &str, h: &str) -> (r: String)
    ensures
        r@ == a@ + b@ + c@ + d@ + e@ + f@ + g@ + h@,
{
    let mut o = cat7(a, b, c, d, e, f, g);
    o.append(h);
    o
}

pub fn cat9(
    a: &str,
    b: &str,
    c: &str,
    d: &str,
    e: &str,
    f: &str,
    g: &str,
    h: &str,
    i: &str,
) -> (r: String)
    ensures
        r@ == a@ + b@ + c@ + d@ + e@ + f@ + g@ + h@ + i@,
{
    let mut o = cat8(a, b, c, d, e, f, g, h);
    o.append(i);
    o
}

/// The views of a list of texts.
pub open spec fn texts(v: Seq<String>) -> Seq<Seq<char>> {
    Seq::new(v.len(), |i: int| v[i]@)
}

/// A copy of a list of texts.
pub fn clone_texts(v: &Vec<String>) -> (r: Vec<String>)
    ensures
        texts(r@) == texts(v@),
{
    let mut out: Vec<String> = Vec::new();
    let mut i: usize = 0;
    while i < v.len()
        invariant
            i <= v.len(),
            out@.len() == i,
            forall|k: int| 0 <= k < i ==> (#[trigger] out@[k])@ == v@[k]@,
        decreases v.len() - i,
    {
        out.push(v[i].clone());
        i += 1;
    }
    assert(texts(out@) =~= texts(v@));
    out
}

/// Whether `name` is one of the texts.
pub fn has_text(v: &Vec<String>, name: &str) -> (r: bool)
    ensures
        r == texts(v@).contains(name@),
{
    let mut i: usize = 0;
    while i < v.len()
        invariant
            i <= v.len(),
            forall|k: int| 0 <= k < i ==> (#[trigger] v@[k])@ != name@,
        decreases v.len() - i,
    {
        if same(v[i].as_str(), name) {
            assert(texts(v@)[i as int] == name@);
            return true;
        }
        i += 1;
    }
    assert forall|k: int| 0 <= k < texts(v@).len() implies texts(v@)[k] != name@ by {
        assert(v@[k]@ != name@);
    }
    false
}

/// The parts in order, with `sep` between neighbours.
pub open spec fn join_spec(parts: Seq<Seq<char>>, sep: Seq<char>) -> Seq<char>
    decreases parts.len(),
{
    if parts.len() == 0 {
        Seq::empty()
    } else if parts.len() == 1 {
        parts[0]
    } else {
        join_spec(parts.drop_last(), sep) + sep + parts.last()
    }
}

pub fn join(parts: &Vec<String>, sep: &str) -> (r: String)
    ensures
        r@ == join_spec(texts(parts@), sep@),
{
    let mut out = String::new();
    let mut i: usize = 0;
    while i < parts.len()
        invariant
            i <= parts.len(),
            out@ == join_spec(texts(parts@).take(i as int), sep@),
        decreases parts.len() - i,
    {
        let ghost upto = texts(parts@).take(i + 1);
        if i > 0 {
            out.append(sep);
        }
        out.append(parts[i].as_str());
        proof {
            assert(upto.drop_last() =~= texts(parts@).take(i as int));
            assert(upto.last() == parts@[i as int]@);
            if i == 0 {
                assert(out@ =~= upto[0]);
            }
        }
        i += 1;
    }
    assert(texts(parts@).take(parts@.len() as int) =~= texts(parts@));
    out
}

/// The character of one decimal digit.
pub open spec fn digit_char(d: int) -> char {
    (48 + d) as char
}

/// `n` in decimal, without leading zeros.
pub open spec fn dec(n: nat) -> Seq<char>
    decreases n,
{
    if n < 10 {
        seq![digit_char(n as int)]
    } else {
        dec(n / 10).push(digit_char((n % 10) as int))
    }
}

pub fn dec_u128(n: u128) -> (r: String)
    ensures
        r@ == dec(n as nat),
    decreases n,
{
    let d: u8 = (n % 10) as u8;
    let c: char = (48u8 + d) as char;
    if n < 10 {
        let mut s = String::new();
        s.push(c);
        assert(s@ =~= seq![digit_char(n as int)]);
        s
    } else {
        let mut s = dec_u128(n / 10);
        s.push(c);
        s
    }
}

pub fn dec_text(n: usize) -> (r: String)
    ensures
        r@ == dec(n as nat),
{
    dec_u128(n as u128)
}

/// The product of two numbers in decimal.
pub fn dec_mul(a: usize, b: usize) -> (r: String)
    ensures
        r@ == dec(a as nat * b as nat),
{
    assert(a as int * b as int <= u128::MAX) by (nonlinear_arith)
        requires
            0 <= a as int <= 0xffff_ffff_ffff_ffff,
            0 <= b as int <= 0xffff_ffff_ffff_ffff,
    ;
    dec_u128(a as u128 * b as u128)
}

/// The exact sum of two numbers, in decimal.
pub fn dec_sum(a: usize, b: usize) -> (r: String)
    ensures
        r@ == dec(a as nat + b as nat),
{
    dec_u128(a as u128 + b as u128)
}

/// The lowercase character of one hexadecimal digit.
pub open spec fn hex_char(d: int) -> char {
    if d < 10 {
        (48 + d) as char
    } else {
        (87 + d) as char
    }
}

/// One byte as two lowercase hexadecimal digits.
pub open spec fn hex_byte(b: u8) -> Seq<char> {
    seq![hex_char((b / 16) as int), hex_char((b % 16) as int)]
}

/// Bytes as lowercase hexadecimal, two digits each.
pub open spec fn hex_spec(s: Seq<u8>) -> Seq<char>
    decreases s.len(),
{
    if s.len() == 0 {
        Seq::empty()
    } else {
        hex_spec(s.drop_last()) + hex_byte(s.last())
    }
}

fn hex_digit(d: u8) -> (c: char)
    requires
        d < 16,
    ensures
        c == hex_char(d as int),
{
    if d < 10 {
        (48u8 + d) as char
    } else {
        (87u8 + d) as char
    }
}

pub fn hex_text(s: &[u8]) -> (r: String)
    ensures
        r@ == hex_spec(s@),
{
    let mut out = String::new();
    let mut i: usize = 0;
    while i < s.len()
        invariant
            i <= s.len(),
            out@ == hex_spec(s@.take(i as int)),
        decreases s.len() - i,
    {
        let b: u8 = s[i];
        let ghost before = out@;
        out.push(hex_digit(b / 16));
        out.push(hex_digit(b % 16));
        proof {
            let upto = s@.take(i + 1);
            assert(upto.drop_last() =~= s@.take(i as int));
            assert(out@ =~= before + hex_byte(b));
        }
        i += 1;
    }
    assert(s@.take(s@.len() as int) =~= s@);
    out
}

/// `n` copies of `s`.
pub open spec fn rep(s: Seq<char>, n: nat) -> Seq<char>
    decreases n,
{
    if n == 0 {
        Seq::empty()
    } else {
        rep(s, (n - 1) as nat) + s
    }
}

pub fn repeat(s: &str, n: usize) -> (r: String)
    ensures
        r@ == rep(s@, n as nat),
{
    let mut out = String::new();
    let mut i: usize = 0;
    while i < n
        invariant
            i <= n,
            out@ == rep(s@, i as nat),
        decreases n - i,
    {
        out.append(s);
        i += 1;
    }
    out
}

/// The characters of a text.
pub fn chars_of(s: &str) -> (r: Vec<char>)
    ensures
        r@ == s@,
{
    let mut out: Vec<char> = Vec::new();
    for c in it: s.chars()
        invariant
            it.seq() == s@,
            out@ == it.seq().take(it.index()),
    {
        assert(it.seq().take(it.index() + 1) =~= it.seq().take(it.index()).push(c));
        out.push(c);
    }
    assert(s@.take(s@.len() as int) =~= s@);
    out
}

/// The text of `v[from..to]`.
pub fn slice_text(v: &Vec<char>, from: usize, to: usize) -> (r: String)
    requires
        from <= to <= v.len(),
    ensures
        r@ == v@.subrange(from as int, to as int),
{
    let mut out = String::new();
    let mut i: usize = from;
    while i < to
        invariant
            from <= i <= to <= v.len(),
            out@ == v@.subrange(from as int, i as int),
        decreases to - i,
    {
        out.push(v[i]);
        i += 1;
        assert(out@ =~= v@.subrange(from as int, i as int));
    }
    out
}

/// Where the first `c` at or after `i` stands, or the length where there is none.
pub open spec fn next_char(s: Seq<char>, i: int, c: char) -> int
    decreases s.len() - i,
{
    if i >= s.len() {
        s.len() as int
    } else if s[i] == c {
        i
    } else {
        next_char(s, i + 1, c)
    }
}

pub proof fn lemma_next_char(s: Seq<char>, i: int, c: char)
    requires
        0 <= i <= s.len(),
    ensures
        i <= next_char(s, i, c) <= s.len(),
        next_char(s, i, c) < s.len() ==> s[next_char(s, i, c)] == c,
        forall|k: int| i <= k < next_char(s, i, c) ==> s[k] != c,
    decreases s.len() - i,
{
    if i < s.len() && s[i] != c {
        lemma_next_char(s, i + 1, c);
    }
}

/// A line without the `\r` of a `\r\n` ending.
pub open spec fn strip_cr(s: Seq<char>, ended: bool) -> Seq<char> {
    if ended && s.len() > 0 && s.last() == '\r' {
        s.drop_last()
    } else {
        s
    }
}

/// The lines of `s` from position `i` on, without their `\n` or `\r\n`.
pub open spec fn lines_from(s: Seq<char>, i: int) -> Seq<Seq<char>>
    decreases s.len() + 1 - i,
{
    if i < 0 || i >= s.len() {
        Seq::empty()
    } else {
        proof {
            lemma_next_char(s, i, '\n');
        }
        let e = next_char(s, i, '\n');
        seq![strip_cr(s.subrange(i, e), e < s.len())] + lines_from(s, e + 1)
    }
}

/// The lines of a text. A final line ending opens no further line.
pub open spec fn lines_spec(s: Seq<char>) -> Seq<Seq<char>> {
    lines_from(s, 0)
}

pub fn lines(s: &str) -> (r: Vec<String>)
    ensures
        texts(r@) == lines_spec(s@),
{
    let v = chars_of(s);
    let mut out: Vec<String> = Vec::new();
    let mut i: usize = 0;
    assert(texts(out@) + lines_from(s@, 0) =~= lines_spec(s@));
    while i < v.len()
        invariant
            v@ == s@,
            i <= v.len(),
            texts(out@) + lines_from(s@, i as int) == lines_spec(s@),
        decreases v.len() - i,
    {
        let mut e: usize = i;
        while e < v.len() && v[e] != '\n'
            invariant
                v@ == s@,
                i <= e <= v.len(),
                next_char(s@, i as int, '\n') == next_char(s@, e as int, '\n'),
            decreases v.len() - e,
        {
            e += 1;
        }
        let ended = e < v.len();
        let stop: usize = if ended && e > i && v[e - 1] == '\r' {
            e - 1
        } else {
            e
        };
        let line = slice_text(&v, i, stop);
        let ghost before = texts(out@);
        proof {
            let raw = s@.subrange(i as int, e as int);
            assert(line@ =~= strip_cr(raw, ended));
        }
        out.push(line);
        proof {
            assert(texts(out@) =~= before.push(line@));
            assert(texts(out@) + lines_from(s@, e + 1) =~= before + lines_from(s@, i as int));
        }
        if ended {
            i = e + 1;
        } else {
            assert(lines_from(s@, e + 1) =~= lines_from(s@, e as int));
            i = e;
        }
    }
    assert(texts(out@) =~= lines_spec(s@));
    out
}

/// Each line with `prefix` before it and a line ending behind it.
pub open spec fn indented(prefix: Seq<char>, ls: Seq<Seq<char>>) -> Seq<char>
    decreases ls.len(),
{
    if ls.len() == 0 {
        Seq::empty()
    } else {
        indented(prefix, ls.drop_last()) + prefix + ls.last() + "\n"@
    }
}

/// Every line of `body`, indented by `prefix`.
pub open spec fn indent_spec(prefix: Seq<char>, body: Seq<char>) -> Seq<char> {
    indented(prefix, lines_spec(body))
}

pub fn indent(prefix: &str, body: &str) -> (r: String)
    ensures
        r@ == indent_spec(prefix@, body@),
{
    let ls = lines(body);
    let mut out = String::new();
    let mut i: usize = 0;
    while i < ls.len()
        invariant
            i <= ls.len(),
            texts(ls@) == lines_spec(body@),
            out@ == indented(prefix@, texts(ls@).take(i as int)),
        decreases ls.len() - i,
    {
        out.append(prefix);
        out.append(ls[i].as_str());
        out.append("\n");
        proof {
            let upto = texts(ls@).take(i + 1);
            assert(upto.drop_last() =~= texts(ls@).take(i as int));
        }
        i += 1;
    }
    assert(texts(ls@).take(ls@.len() as int) =~= texts(ls@));
    out
}

/// The characters with the Unicode property White_Space.
pub open spec fn is_space(c: char) -> bool {
    ('\u{9}' <= c && c <= '\u{d}') || c == ' ' || c == '\u{85}' || c == '\u{a0}' || c == '\u{1680}' || (
    '\u{2000}' <= c && c <= '\u{200a}') || c == '\u{2028}' || c == '\u{2029}' || c == '\u{202f}' || c
        == '\u{205f}' || c == '\u{3000}'
}

pub fn is_white(c: char) -> (r: bool)
    ensures
        r == is_space(c),
{
    ('\u{9}' <= c && c <= '\u{d}') || c == ' ' || c == '\u{85}' || c == '\u{a0}' || c == '\u{1680}' || (
    '\u{2000}' <= c && c <= '\u{200a}') || c == '\u{2028}' || c == '\u{2029}' || c == '\u{202f}' || c
        == '\u{205f}' || c == '\u{3000}'
}

/// Without the white space it starts with.
pub open spec fn trim_start_spec(s: Seq<char>) -> Seq<char>
    decreases s.len(),
{
    if s.len() > 0 && is_space(s[0]) {
        trim_start_spec(s.drop_first())
    } else {
        s
    }
}

/// Without the white space it ends with.
pub open spec fn trim_end_spec(s: Seq<char>) -> Seq<char>
    decreases s.len(),
{
    if s.len() > 0 && is_space(s.last()) {
        trim_end_spec(s.drop_last())
    } else {
        s
    }
}

pub open spec fn trim_spec(s: Seq<char>) -> Seq<char> {
    trim_end_spec(trim_start_spec(s))
}

pub fn trim_start(s: &str) -> (r: String)
    ensures
        r@ == trim_start_spec(s@),
{
    let v = chars_of(s);
    let mut i: usize = 0;
    assert(s@.skip(0) =~= s@);
    while i < v.len() && is_white(v[i])
        invariant
            v@ == s@,
            i <= v.len(),
            trim_start_spec(s@.skip(i as int)) == trim_start_spec(s@),
        decreases v.len() - i,
    {
        assert(s@.skip(i as int).drop_first() =~= s@.skip(i + 1));
        i += 1;
    }
    assert(s@.skip(i as int) =~= v@.subrange(i as int, v@.len() as int));
    slice_text(&v, i, v.len())
}

pub fn trim_end(s: &str) -> (r: String)
    ensures
        r@ == trim_end_spec(s@),
{
    let v = chars_of(s);
    let mut e: usize = v.len();
    assert(s@.take(s@.len() as int) =~= s@);
    while e > 0 && is_white(v[e - 1])
        invariant
            v@ == s@,
            e <= v.len(),
            trim_end_spec(s@.take(e as int)) == trim_end_spec(s@),
        decreases e,
    {
        assert(s@.take(e as int).drop_last() =~= s@.take(e - 1));
        e -= 1;
    }
    assert(s@.take(e as int) =~= v@.subrange(0, e as int));
    slice_text(&v, 0, e)
}

pub fn trim(s: &str) -> (r: String)
    ensures
        r@ == trim_spec(s@),
{
    let a = trim_start(s);
    trim_end(a.as_str())
}

/// Whether `s` begins with `p`.
pub open spec fn begins(s: Seq<char>, p: Seq<char>) -> bool {
    p.len() <= s.len() && s.subrange(0, p.len() as int) == p
}

/// Whether `s` closes with `p`.
pub open spec fn closes(s: Seq<char>, p: Seq<char>) -> bool {
    p.len() <= s.len() && s.subrange(s.len() - p.len(), s.len() as int) == p
}

pub fn starts_with(s: &str, p: &str) -> (r: bool)
    ensures
        r == begins(s@, p@),
{
    let a = chars_of(s);
    let b = chars_of(p);
    if b.len() > a.len() {
        return false;
    }
    let mut i: usize = 0;
    while i < b.len()
        invariant
            a@ == s@,
            b@ == p@,
            i <= b.len() <= a.len(),
            forall|k: int| 0 <= k < i ==> a@[k] == b@[k],
        decreases b.len() - i,
    {
        if a[i] != b[i] {
            assert(s@.subrange(0, p@.len() as int)[i as int] != p@[i as int]);
            return false;
        }
        i += 1;
    }
    assert(s@.subrange(0, p@.len() as int) =~= p@);
    true
}

/// Whether the first character of `s` is `c`.
pub open spec fn begins_char(s: Seq<char>, c: char) -> bool {
    s.len() > 0 && s[0] == c
}

pub fn starts_with_char(s: &str, c: char) -> (r: bool)
    ensures
        r == begins_char(s@, c),
{
    if s.is_empty() {
        false
    } else {
        s.get_char(0) == c
    }
}

/// Where the first `c` stands.
pub open spec fn find_spec(s: Seq<char>, c: char) -> Option<int> {
    if next_char(s, 0, c) < s.len() {
        Some(next_char(s, 0, c))
    } else {
        None
    }
}

/// Where the last `c` before `i` stands.
pub open spec fn rfind_below(s: Seq<char>, i: int, c: char) -> Option<int>
    decreases i,
{
    if i <= 0 {
        None
    } else if s[i - 1] == c {
        Some(i - 1)
    } else {
        rfind_below(s, i - 1, c)
    }
}

pub open spec fn rfind_spec(s: Seq<char>, c: char) -> Option<int> {
    rfind_below(s, s.len() as int, c)
}

/// What is found stands there.
pub proof fn lemma_rfind(s: Seq<char>, i: int, c: char)
    ensures
        rfind_below(s, i, c) matches Some(k) ==> 0 <= k < i && s[k] == c,
    decreases i,
{
    if i > 0 {
        lemma_rfind(s, i - 1, c);
    }
}

pub open spec fn opt_pos(o: Option<usize>) -> Option<int> {
    match o {
        Some(i) => Some(i as int),
        None => None,
    }
}

pub fn find_char(v: &Vec<char>, c: char) -> (r: Option<usize>)
    ensures
        opt_pos(r) == find_spec(v@, c),
        r matches Some(i) ==> i < v.len(),
{
    let mut i: usize = 0;
    while i < v.len()
        invariant
            i <= v.len(),
            next_char(v@, 0, c) == next_char(v@, i as int, c),
        decreases v.len() - i,
    {
        if v[i] == c {
            return Some(i);
        }
        i += 1;
    }
    None
}

pub fn rfind_char(v: &Vec<char>, c: char) -> (r: Option<usize>)
    ensures
        opt_pos(r) == rfind_spec(v@, c),
        r matches Some(i) ==> i < v.len(),
{
    let mut i: usize = v.len();
    while i > 0
        invariant
            i <= v.len(),
            rfind_below(v@, v@.len() as int, c) == rfind_below(v@, i as int, c),
        decreases i,
    {
        if v[i - 1] == c {
            return Some(i - 1);
        }
        i -= 1;
    }
    None
}

pub open spec fn is_digit(c: char) -> bool {
    '0' <= c && c <= '9'
}

/// The value of a run of decimal digits, `None` where another character occurs.
pub open spec fn digits_value(s: Seq<char>) -> Option<nat>
    decreases s.len(),
{
    if s.len() == 0 {
        Some(0)
    } else {
        match digits_value(s.drop_last()) {
            Some(v) => if is_digit(s.last()) {
                Some((10 * v + (s.last() as int - 48)) as nat)
            } else {
                None
            },
            None => None,
        }
    }
}

/// An unsigned decimal numeral as Rust reads one: at least one digit, an
/// optional plus sign before them, and a value of at most `max`.
pub open spec fn parse_spec(s: Seq<char>, max: nat) -> Option<nat> {
    let body = if s.len() > 1 && s[0] == '+' {
        s.drop_first()
    } else {
        s
    };
    if body.len() == 0 {
        None
    } else {
        match digits_value(body) {
            Some(v) => if v <= max {
                Some(v)
            } else {
                None
            },
            None => None,
        }
    }
}

proof fn lemma_digits_prefix(s: Seq<char>, n: int)
    requires
        0 <= n <= s.len(),
        digits_value(s) is Some,
    ensures
        digits_value(s.take(n)) is Some,
        digits_value(s.take(n))->0 <= digits_value(s)->0,
    decreases s.len() - n,
{
    if n < s.len() {
        lemma_digits_prefix(s, n + 1);
        assert(s.take(n + 1).drop_last() =~= s.take(n));
    } else {
        assert(s.take(n) =~= s);
    }
}

pub fn parse_u128(s: &str) -> (r: Option<u128>)
    ensures
        match r {
            Some(v) => parse_spec(s@, u128::MAX as nat) == Some(v as nat),
            None => parse_spec(s@, u128::MAX as nat) is None,
        },
{
    let v = chars_of(s);
    let start: usize = if v.len() > 1 && v[0] == '+' {
        1
    } else {
        0
    };
    if v.len() == 0 {
        return None;
    }
    let ghost body = if s@.len() > 1 && s@[0] == '+' {
        s@.drop_first()
    } else {
        s@
    };
    assert(body =~= v@.subrange(start as int, v@.len() as int));
    let mut acc: u128 = 0;
    let mut i: usize = start;
    assert(body.take(0) =~= Seq::<char>::empty());
    while i < v.len()
        invariant
            v@ == s@,
            v@.len() > 0,
            start <= i <= v.len(),
            start <= 1,
            start < v@.len(),
            body == v@.subrange(start as int, v@.len() as int),
            body == (if s@.len() > 1 && s@[0] == '+' {
                s@.drop_first()
            } else {
                s@
            }),
            digits_value(body.take(i - start)) == Some(acc as nat),
        decreases v.len() - i,
    {
        let c: char = v[i];
        let ghost upto = body.take(i - start + 1);
        assert(upto.drop_last() =~= body.take(i - start));
        assert(upto.last() == c);
        if !('0' <= c && c <= '9') {
            proof {
                if digits_value(body) is Some {
                    lemma_digits_prefix(body, i - start + 1);
                }
            }
            return None;
        }
        let d: u128 = (c as u32 - 48) as u128;
        let next: u128 = match acc.checked_mul(10) {
            Some(t) => match t.checked_add(d) {
                Some(n) => n,
                None => {
                    proof {
                        if digits_value(body) is Some {
                            lemma_digits_prefix(body, i - start + 1);
                        }
                    }
                    return None;
                },
            },
            None => {
                proof {
                    if digits_value(body) is Some {
                        lemma_digits_prefix(body, i - start + 1);
                    }
                }
                return None;
            },
        };
        acc = next;
        i += 1;
    }
    assert(body.take(body.len() as int) =~= body);
    Some(acc)
}

pub fn parse_usize(s: &str) -> (r: Option<usize>)
    ensures
        match r {
            Some(v) => parse_spec(s@, usize::MAX as nat) == Some(v as nat),
            None => parse_spec(s@, usize::MAX as nat) is None,
        },
{
    match parse_u128(s) {
        Some(v) => if v <= usize::MAX as u128 {
            Some(v as usize)
        } else {
            None
        },
        None => None,
    }
}

/// Without its first character.
pub fn rest(s: &str) -> (r: String)
    requires
        s@.len() > 0,
    ensures
        r@ == s@.drop_first(),
{
    let v = chars_of(s);
    assert(v@.subrange(1, v@.len() as int) =~= s@.drop_first());
    slice_text(&v, 1, v.len())
}

/// An ASCII capital as its small letter; every other character as it is.
pub open spec fn lower_char(c: char) -> char {
    if 'A' <= c && c <= 'Z' {
        (c as int + 32) as char
    } else {
        c
    }
}

pub open spec fn lower_spec(s: Seq<char>) -> Seq<char> {
    Seq::new(s.len(), |i: int| lower_char(s[i]))
}

fn lower_one(c: char) -> (r: char)
    ensures
        r == lower_char(c),
{
    if 'A' <= c && c <= 'Z' {
        (c as u8 + 32) as char
    } else {
        c
    }
}

pub fn lower(s: &str) -> (r: String)
    ensures
        r@ == lower_spec(s@),
{
    let v = chars_of(s);
    let mut out = String::new();
    let mut i: usize = 0;
    while i < v.len()
        invariant
            v@ == s@,
            i <= v.len(),
            out@.len() == i,
            forall|k: int| 0 <= k < i ==> #[trigger] out@[k] == lower_char(s@[k]),
        decreases v.len() - i,
    {
        out.push(lower_one(v[i]));
        i += 1;
    }
    assert(out@ =~= lower_spec(s@));
    out
}

/// The order of texts by their characters, a prefix before what it begins.
pub open spec fn text_less(a: Seq<char>, b: Seq<char>) -> bool
    decreases a.len(),
{
    if b.len() == 0 {
        false
    } else if a.len() == 0 {
        true
    } else if a[0] == b[0] {
        text_less(a.drop_first(), b.drop_first())
    } else {
        a[0] < b[0]
    }
}

pub fn less(a: &str, b: &str) -> (r: bool)
    ensures
        r == text_less(a@, b@),
{
    let x = chars_of(a);
    let y = chars_of(b);
    let mut i: usize = 0;
    assert(a@.skip(0) =~= a@);
    assert(b@.skip(0) =~= b@);
    while i < x.len() && i < y.len()
        invariant
            x@ == a@,
            y@ == b@,
            i <= x.len(),
            i <= y.len(),
            text_less(a@, b@) == text_less(a@.skip(i as int), b@.skip(i as int)),
        decreases x.len() - i,
    {
        if x[i] != y[i] {
            return x[i] < y[i];
        }
        assert(a@.skip(i as int).drop_first() =~= a@.skip(i + 1));
        assert(b@.skip(i as int).drop_first() =~= b@.skip(i + 1));
        i += 1;
    }
    i < y.len()
}

pub proof fn lemma_less_irreflexive(a: Seq<char>)
    ensures
        !text_less(a, a),
    decreases a.len(),
{
    if a.len() > 0 {
        lemma_less_irreflexive(a.drop_first());
    }
}

pub proof fn lemma_less_transitive(a: Seq<char>, b: Seq<char>, c: Seq<char>)
    requires
        text_less(a, b),
        text_less(b, c),
    ensures
        text_less(a, c),
    decreases a.len(),
{
    if a.len() > 0 && a[0] == b[0] && b[0] == c[0] {
        lemma_less_transitive(a.drop_first(), b.drop_first(), c.drop_first());
    }
}

pub proof fn lemma_less_total(a: Seq<char>, b: Seq<char>)
    ensures
        a == b || text_less(a, b) || text_less(b, a),
    decreases a.len(),
{
    if a.len() > 0 && b.len() > 0 {
        if a[0] == b[0] {
            lemma_less_total(a.drop_first(), b.drop_first());
            if a.drop_first() == b.drop_first() {
                assert(a =~= seq![a[0]] + a.drop_first());
                assert(b =~= seq![b[0]] + b.drop_first());
            }
        }
    } else if a.len() == 0 && b.len() == 0 {
        assert(a =~= b);
    }
}

/// The parts of `s` from `i` on, cut at each `cc`, where `start` is where the
/// running part begins.
pub open spec fn cut_from(s: Seq<char>, start: int, i: int, c: char) -> Seq<Seq<char>>
    decreases s.len() - i,
{
    if i + 1 >= s.len() {
        seq![s.subrange(start, s.len() as int)]
    } else if s[i] == c && s[i + 1] == c {
        seq![s.subrange(start, i)] + cut_from(s, i + 2, i + 2, c)
    } else {
        cut_from(s, start, i + 1, c)
    }
}

/// The parts of `s` between the occurrences of the doubled character `cc`,
/// taken from the left and without overlap.
pub open spec fn cut_spec(s: Seq<char>, c: char) -> Seq<Seq<char>> {
    cut_from(s, 0, 0, c)
}

pub fn cut(s: &str, c: char) -> (r: Vec<String>)
    ensures
        texts(r@) == cut_spec(s@, c),
{
    let v = chars_of(s);
    let mut out: Vec<String> = Vec::new();
    let mut start: usize = 0;
    let mut i: usize = 0;
    assert(texts(out@) + cut_from(s@, 0, 0, c) =~= cut_spec(s@, c));
    while i < v.len() && i + 1 < v.len()
        invariant
            v@ == s@,
            start <= i <= v.len(),
            texts(out@) + cut_from(s@, start as int, i as int, c) == cut_spec(s@, c),
        decreases v.len() - i,
    {
        if v[i] == c && v[i + 1] == c {
            let part = slice_text(&v, start, i);
            let ghost before = texts(out@);
            out.push(part);
            proof {
                assert(texts(out@) =~= before.push(part@));
                assert(texts(out@) + cut_from(s@, i + 2, i + 2, c) =~= before + cut_from(
                    s@,
                    start as int,
                    i as int,
                    c,
                ));
            }
            i += 2;
            start = i;
        } else {
            i += 1;
        }
    }
    let part = slice_text(&v, start, v.len());
    let ghost before = texts(out@);
    out.push(part);
    proof {
        assert(texts(out@) =~= before.push(part@));
        assert(texts(out@) =~= before + cut_from(s@, start as int, i as int, c));
    }
    out
}

} // verus!
