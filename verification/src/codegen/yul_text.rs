//! Finding the text of a tree inside a longer text, piece by piece.
use crate::codegen::yul_tree::{
    expr_text, fn_text, line, none, parts_text, stmt_text, Code, YulExpr, YulFn, YulStmt,
};
use crate::text::join_spec;
use vstd::prelude::*;

verus! {

/// Whether a text stands in another from `i` up to `j`.
pub open spec fn at(l: Seq<char>, i: int, j: int, t: Seq<char>) -> bool {
    0 <= i <= j <= l.len() && j - i == t.len() && l.subrange(i, j) == t
}

/// Texts are joined in any grouping.
pub broadcast proof fn lemma_assoc(a: Seq<char>, b: Seq<char>, c: Seq<char>)
    ensures
        #[trigger] (a + (b + c)) == a + b + c,
{
    assert(a + (b + c) =~= a + b + c);
}

pub proof fn lemma_at_add(l: Seq<char>, i: int, j: int, k: int, a: Seq<char>, b: Seq<char>)
    requires
        at(l, i, j, a),
        at(l, j, k, b),
    ensures
        at(l, i, k, a + b),
{
    assert(l.subrange(i, k) =~= a + b);
}

pub proof fn lemma_at_whole(l: Seq<char>, t: Seq<char>)
    requires
        at(l, 0, l.len() as int, t),
    ensures
        l == t,
{
    assert(l.subrange(0, l.len() as int) =~= l);
}

/// What stands in a part of a text stands in the text.
pub proof fn lemma_at_inside(l: Seq<char>, base: int, part: Seq<char>, i: int, j: int, t: Seq<char>)
    requires
        at(l, base, base + part.len(), part),
        at(part, i, j, t),
    ensures
        at(l, base + i, base + j, t),
{
    let q = l.subrange(base, base + part.len());
    assert(q.subrange(i, j) =~= l.subrange(base + i, base + j));
}

pub proof fn lemma_at_nothing(l: Seq<char>, i: int)
    requires
        0 <= i <= l.len(),
    ensures
        at(l, i, i, Seq::empty()),
        at(l, i, i, parts_text(none().parts, none().parts.len())),
{
    assert(l.subrange(i, i) =~= Seq::<char>::empty());
}

pub proof fn lemma_at_line(
    l: Seq<char>,
    i: int,
    j: int,
    k: int,
    n: int,
    c: Code,
    gap: Seq<char>,
    s: YulStmt,
)
    requires
        at(l, i, j, parts_text(c.parts, c.parts.len())),
        at(l, j, k, gap),
        at(l, k, n, stmt_text(s)),
    ensures
        at(l, i, n, parts_text(line(c, gap, s).parts, line(c, gap, s).parts.len())),
{
    crate::codegen::yul_tree::lemma_line_text(c, gap, s);
    lemma_at_add(l, i, j, k, parts_text(c.parts, c.parts.len()), gap);
    lemma_at_add(l, i, k, n, parts_text(c.parts, c.parts.len()) + gap, stmt_text(s));
}

pub proof fn lemma_at_if(
    l: Seq<char>,
    i: int,
    j: int,
    k: int,
    n: int,
    c: YulExpr,
    b: Code,
)
    requires
        at(l, i, j, "if "@ + expr_text(c) + " {"@),
        at(l, j, k, parts_text(b.parts, b.parts.len())),
        at(l, k, n, b.tail),
        at(l, n, n + 1, "}"@),
    ensures
        at(l, i, n + 1, stmt_text(YulStmt::If(c, b))),
{
    let h = "if "@ + expr_text(c) + " {"@;
    let q = parts_text(b.parts, b.parts.len());
    lemma_at_add(l, i, j, k, h, q);
    lemma_at_add(l, i, k, n, h + q, b.tail);
    lemma_at_add(l, i, n, n + 1, h + q + b.tail, "}"@);
}

pub proof fn lemma_at_fn(l: Seq<char>, i: int, j: int, k: int, n: int, f: YulFn)
    requires
        at(l, i, j, fn_head(f)),
        at(l, j, k, parts_text(f.body.parts, f.body.parts.len())),
        at(l, k, n, f.body.tail),
        at(l, n, n + 1, "}"@),
    ensures
        at(l, i, n + 1, fn_text(f)),
{
    let q = parts_text(f.body.parts, f.body.parts.len());
    lemma_at_add(l, j, k, n, q, f.body.tail);
    lemma_at_add(l, i, j, n, fn_head(f), q + f.body.tail);
    lemma_at_add(l, i, n, n + 1, fn_head(f) + (q + f.body.tail), "}"@);
}

/// The text of a function up to its body.
pub open spec fn fn_head(f: YulFn) -> Seq<char> {
    "function "@ + f.name + "("@ + join_spec(f.params, ", "@) + ")"@ + (if f.rets.len() == 0 {
        Seq::empty()
    } else {
        " -> "@ + join_spec(f.rets, ", "@)
    }) + " {"@
}

pub proof fn lemma_joined(a: Seq<char>, b: Seq<char>, c: Seq<char>, d: Seq<char>, e: Seq<char>)
    ensures
        join_spec(Seq::empty(), ", "@) == Seq::<char>::empty(),
        join_spec(seq![a], ", "@) == a,
        join_spec(seq![a, b], ", "@) == a + ", "@ + b,
        join_spec(seq![a, b, c], ", "@) == a + ", "@ + b + ", "@ + c,
        join_spec(seq![a, b, c, d], ", "@) == a + ", "@ + b + ", "@ + c + ", "@ + d,
        join_spec(seq![a, b, c, d, e], ", "@) == a + ", "@ + b + ", "@ + c + ", "@ + d + ", "@ + e,
{
    reveal_with_fuel(join_spec, 7);
    let s1 = seq![a];
    let s2 = seq![a, b];
    let s3 = seq![a, b, c];
    let s4 = seq![a, b, c, d];
    let s5 = seq![a, b, c, d, e];
    assert(s5.drop_last() =~= s4);
    assert(s4.drop_last() =~= s3);
    assert(s3.drop_last() =~= s2);
    assert(s2.drop_last() =~= s1);
    assert(s1.drop_last() =~= Seq::<Seq<char>>::empty());
}

} // verus!
