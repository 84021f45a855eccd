//! What the command line prints and writes.
use crate::text::{
    begins, cat2, cat4, cat5, chars_of, closes, dec, dec_text, lines, lines_spec, slice_text,
    starts_with, texts, trim, trim_spec,
};
use vstd::prelude::*;

verus! {

/// The first line from `i` on that holds more than white space, trimmed.
pub open spec fn filled_from(ls: Seq<Seq<char>>, i: int) -> Option<Seq<char>>
    decreases ls.len() - i,
{
    if i < 0 || i >= ls.len() {
        None
    } else if trim_spec(ls[i]).len() > 0 {
        Some(trim_spec(ls[i]))
    } else {
        filled_from(ls, i + 1)
    }
}

/// Where the first line from `i` on that announces the bytecode stands.
pub open spec fn announced_from(ls: Seq<Seq<char>>, i: int) -> int
    decreases ls.len() - i,
{
    if i >= ls.len() || begins(ls[i], "Binary representation"@) {
        i
    } else {
        announced_from(ls, i + 1)
    }
}

/// The bytecode in what the assembler printed: the first line with something on it after
/// the line that announces it.
pub open spec fn bytecode_spec(out: Seq<char>) -> Option<Seq<char>> {
    let ls = lines_spec(out);
    filled_from(ls, announced_from(ls, 0) + 1)
}

pub fn bytecode_line(out: &str) -> (r: Option<String>)
    ensures
        match r {
            Some(t) => bytecode_spec(out@) == Some(t@),
            None => bytecode_spec(out@) is None,
        },
{
    let ls = lines(out);
    let ghost v = texts(ls@);
    let mut i: usize = 0;
    while i < ls.len() && !starts_with(ls[i].as_str(), "Binary representation")
        invariant
            v == texts(ls@),
            i <= ls@.len(),
            announced_from(v, 0) == announced_from(v, i as int),
        decreases ls@.len() - i,
    {
        assert(v[i as int] == ls@[i as int]@);
        i += 1;
    }
    if i >= ls.len() {
        return None;
    }
    assert(v[i as int] == ls@[i as int]@);
    i += 1;
    while i < ls.len()
        invariant
            v == texts(ls@),
            v == lines_spec(out@),
            i <= ls@.len(),
            bytecode_spec(out@) == filled_from(v, i as int),
        decreases ls@.len() - i,
    {
        assert(v[i as int] == ls@[i as int]@);
        let t = trim(ls[i].as_str());
        if t.as_str().unicode_len() > 0 {
            return Some(t);
        }
        i += 1;
    }
    None
}

/// Every `.bin` in `s` from `i` on, with `_` and the name of the contract before it.
pub open spec fn named_from(s: Seq<char>, i: int, name: Seq<char>) -> Seq<char>
    decreases s.len() - i,
{
    if i < 0 || i >= s.len() {
        Seq::empty()
    } else if i + 4 <= s.len() && s.subrange(i, i + 4) == seq!['.', 'b', 'i', 'n'] {
        "_"@ + name + ".bin"@ + named_from(s, i + 4, name)
    } else {
        seq![s[i]] + named_from(s, i + 1, name)
    }
}

/// The file that the bytecode of a contract goes to: one for each contract, whatever the
/// name on the command line.
pub open spec fn output_spec(path: Seq<char>, name: Seq<char>) -> Seq<char> {
    if closes(path, seq!['.', 'b', 'i', 'n']) {
        named_from(path, 0, name)
    } else {
        path + "_"@ + name + ".bin"@
    }
}

fn bin_at(v: &Vec<char>, i: usize) -> (r: bool)
    requires
        i <= v@.len(),
    ensures
        r == (i + 4 <= v@.len() && v@.subrange(i as int, i + 4) == seq!['.', 'b', 'i', 'n']),
{
    if v.len() - i < 4 {
        return false;
    }
    let ghost w = v@.subrange(i as int, i + 4);
    assert(w[0] == v@[i as int] && w[1] == v@[i + 1] && w[2] == v@[i + 2] && w[3] == v@[i + 3]);
    let r = v[i] == '.' && v[i + 1] == 'b' && v[i + 2] == 'i' && v[i + 3] == 'n';
    if r {
        assert(w =~= seq!['.', 'b', 'i', 'n']);
    }
    r
}

pub fn output_path(path: &str, name: &str) -> (r: String)
    ensures
        r@ == output_spec(path@, name@),
{
    let v = chars_of(path);
    if v.len() < 4 || !bin_at(&v, v.len() - 4) {
        return cat4(path, "_", name, ".bin");
    }
    let mut out = String::new();
    let mut i: usize = 0;
    assert(out@ + named_from(path@, 0, name@) =~= named_from(path@, 0, name@));
    while i < v.len()
        invariant
            v@ == path@,
            i <= v@.len(),
            out@ + named_from(path@, i as int, name@) == named_from(path@, 0, name@),
        decreases v@.len() - i,
    {
        let ghost before = out@;
        if bin_at(&v, i) {
            out.append("_");
            out.append(name);
            out.append(".bin");
            assert(out@ + named_from(path@, i + 4, name@) =~= before + named_from(
                path@,
                i as int,
                name@,
            ));
            i += 4;
        } else {
            out.push(v[i]);
            assert(out@ + named_from(path@, i + 1, name@) =~= before + named_from(
                path@,
                i as int,
                name@,
            ));
            i += 1;
        }
    }
    assert(out@ =~= named_from(path@, 0, name@));
    out
}

/// The first `n` errors, numbered, one to a line.
pub open spec fn numbered(es: Seq<Seq<char>>, n: nat) -> Seq<char>
    decreases n,
{
    if n == 0 {
        Seq::empty()
    } else {
        numbered(es, (n - 1) as nat) + ("\n  "@ + dec(n) + ". "@ + es[n - 1])
    }
}

/// What is printed of the errors of one kind.
pub open spec fn report_spec(kind: Seq<char>, es: Seq<Seq<char>>) -> Seq<char> {
    "\n"@ + dec(es.len()) + " "@ + kind + (if es.len() == 1 {
        " error found:"@
    } else {
        " errors found:"@
    }) + numbered(es, es.len())
}

pub fn error_report(kind: &str, errors: &Vec<String>) -> (r: String)
    ensures
        r@ == report_spec(kind@, texts(errors@)),
{
    let word = if errors.len() == 1 {
        " error found:"
    } else {
        " errors found:"
    };
    let ghost es = texts(errors@);
    let n = dec_text(errors.len());
    let head = cat5("\n", n.as_str(), " ", kind, word);
    let mut out = String::new();
    let mut i: usize = 0;
    while i < errors.len()
        invariant
            es == texts(errors@),
            i <= errors@.len(),
            out@ == numbered(es, i as nat),
        decreases errors@.len() - i,
    {
        let ghost before = out@;
        let number = dec_text(i + 1);
        assert(es[i as int] == errors@[i as int]@);
        let line = cat4("\n  ", number.as_str(), ". ", errors[i].as_str());
        out.append(line.as_str());
        i += 1;
    }
    cat2(head.as_str(), out.as_str())
}

} // verus!
