//! From what the grammar has matched to types and expressions.
use crate::ast::{exprs_v, segs_v, types_v, Expr, ExprV, FStringSegment, SegV, Type, TypeV};
use crate::codegen::yul::opt_text;
use crate::parser::grammar::{parse_rule_spec, GumParser};
use crate::parser::node::{nodes_v, Node, NodeV, Rule};
use crate::text::{chars_of, parse_spec, parse_usize, same, slice_text, texts, trim, trim_spec};
use vstd::prelude::*;

verus! {

broadcast use {crate::ast::group_views, crate::parser::node::group_nodes};

pub open spec fn unknown_type() -> TypeV {
    TypeV::Primitive("unknown"@)
}

pub fn unknown() -> (r: Type)
    ensures
        r@ == unknown_type(),
{
    Type::Primitive(String::from_str("unknown"))
}

/// The type that a node holds.
pub open spec fn type_of_node(n: NodeV) -> TypeV
    decreases n,
{
    if n.kids.len() == 0 {
        unknown_type()
    } else {
        type_in(n.kids[0])
    }
}

/// The type that a name, a generic type or an array type stands for.
pub open spec fn type_in(k: NodeV) -> TypeV
    decreases k,
{
    match k.rule {
        Rule::TypeIdent => TypeV::Primitive(k.text),
        Rule::GenericType => if k.kids.len() == 0 {
            unknown_type()
        } else {
            TypeV::Generic { name: k.kids[0].text, args: types_of_nodes(k.kids, 1) }
        },
        Rule::ArrayType => if k.kids.len() == 0 {
            unknown_type()
        } else if k.kids.len() == 1 {
            TypeV::Array(Box::new(type_of_node(k.kids[0])))
        } else {
            match parse_spec(k.kids[1].text, usize::MAX as nat) {
                Some(size) => TypeV::FixedArray(
                    Box::new(type_of_node(k.kids[0])),
                    size as usize,
                ),
                None => unknown_type(),
            }
        },
        _ => unknown_type(),
    }
}

pub open spec fn types_of_nodes(ks: Seq<NodeV>, i: nat) -> Seq<TypeV>
    decreases ks, ks.len() - i,
{
    if i >= ks.len() {
        Seq::empty()
    } else {
        seq![type_of_node(ks[i as int])] + types_of_nodes(ks, i + 1)
    }
}

pub fn parse_type(n: &Node) -> (r: Type)
    ensures
        r@ == type_of_node(n@),
    decreases n, 1nat,
{
    if n.kids.len() == 0 {
        return unknown();
    }
    let k: &Node = &n.kids[0];
    proof {
        assert(decreases_to!(*n => *k));
        assert(n@.kids[0] == k@);
    }
    parse_type_in(k)
}

fn parse_type_in(k: &Node) -> (r: Type)
    ensures
        r@ == type_in(k@),
    decreases k, 0nat,
{
    proof {
        reveal_with_fuel(Type::view, 2);
    }
    match k.rule {
        Rule::TypeIdent => Type::Primitive(k.text.clone()),
        Rule::GenericType => {
            if k.kids.len() == 0 {
                return unknown();
            }
            assert(k@.kids[0] == k.kids@[0]@);
            let args = parse_types(&k.kids, 1);
            Type::Generic { name: k.kids[0].text.clone(), args }
        },
        Rule::ArrayType => {
            if k.kids.len() == 0 {
                return unknown();
            }
            let first: &Node = &k.kids[0];
            proof {
                assert(decreases_to!(*k => *first));
                assert(k@.kids[0] == first@);
            }
            if k.kids.len() == 1 {
                Type::Array(Box::new(parse_type(first)))
            } else {
                assert(k@.kids[1] == k.kids@[1]@);
                match parse_usize(k.kids[1].text.as_str()) {
                    Some(size) => Type::FixedArray(Box::new(parse_type(first)), size),
                    None => unknown(),
                }
            }
        },
        _ => unknown(),
    }
}

proof fn lemma_types_push(ks: Seq<NodeV>, from: nat, i: nat, out: Seq<TypeV>)
    requires
        from <= i < ks.len(),
        out + types_of_nodes(ks, i) == types_of_nodes(ks, from),
    ensures
        out.push(type_of_node(ks[i as int])) + types_of_nodes(ks, i + 1) == types_of_nodes(ks, from),
{
    let t = type_of_node(ks[i as int]);
    assert(out.push(t) + types_of_nodes(ks, i + 1) =~= out + (seq![t] + types_of_nodes(ks, i + 1)));
}

fn parse_types(ks: &Vec<Node>, from: usize) -> (r: Vec<Type>)
    requires
        from <= ks@.len(),
    ensures
        types_v(r@) == types_of_nodes(nodes_v(ks@), from as nat),
    decreases ks, 0nat,
{
    let ghost kv = nodes_v(ks@);
    let mut out: Vec<Type> = Vec::new();
    let mut i: usize = from;
    assert(types_v(out@) + types_of_nodes(kv, i as nat) =~= types_of_nodes(kv, from as nat));
    while i < ks.len()
        invariant
            from <= i <= ks@.len(),
            kv == nodes_v(ks@),
            types_v(out@) + types_of_nodes(kv, i as nat) == types_of_nodes(kv, from as nat),
        decreases ks@.len() - i,
    {
        let k: &Node = &ks[i];
        proof {
            assert(decreases_to!(*ks => *k));
            assert(kv[i as int] == k@);
        }
        let t = parse_type(k);
        let ghost before = types_v(out@);
        let ghost tv = t@;
        out.push(t);
        proof {
            assert(types_v(out@) =~= before.push(tv));
            lemma_types_push(kv, from as nat, i as nat, before);
        }
        i += 1;
    }
    assert(types_v(out@) + types_of_nodes(kv, i as nat) =~= types_v(out@));
    out
}

/// How tightly an operator binds.
pub open spec fn prec(op: Seq<char>) -> nat {
    if op == "||"@ {
        1
    } else if op == "&&"@ {
        2
    } else if op == "|"@ {
        3
    } else if op == "^"@ {
        4
    } else if op == "&"@ {
        5
    } else if op == "=="@ || op == "!="@ {
        6
    } else if op == "<"@ || op == "<="@ || op == ">"@ || op == ">="@ {
        7
    } else if op == "<<"@ || op == ">>"@ {
        8
    } else if op == "+"@ || op == "-"@ {
        9
    } else if op == "*"@ || op == "/"@ || op == "%"@ {
        10
    } else if op == "**"@ {
        11
    } else {
        0
    }
}

pub fn binop_prec(op: &str) -> (r: u8)
    ensures
        r == prec(op@),
        r <= 11,
{
    if same(op, "||") {
        1
    } else if same(op, "&&") {
        2
    } else if same(op, "|") {
        3
    } else if same(op, "^") {
        4
    } else if same(op, "&") {
        5
    } else if same(op, "==") || same(op, "!=") {
        6
    } else if same(op, "<") || same(op, "<=") || same(op, ">") || same(op, ">=") {
        7
    } else if same(op, "<<") || same(op, ">>") {
        8
    } else if same(op, "+") || same(op, "-") {
        9
    } else if same(op, "*") || same(op, "/") || same(op, "%") {
        10
    } else if same(op, "**") {
        11
    } else {
        0
    }
}

/// Whether a chain of an operator groups from the right.
pub open spec fn right_assoc(op: Seq<char>) -> bool {
    op == "**"@
}

pub fn is_right_assoc(op: &str) -> (r: bool)
    ensures
        r == right_assoc(op@),
{
    same(op, "**")
}

/// The least tightness that the right operand of an operator asks for.
pub open spec fn next_min(op: Seq<char>) -> nat {
    if right_assoc(op) {
        prec(op)
    } else {
        prec(op) + 1
    }
}

/// How operands are grouped: by their positions and those of the operators.
pub enum Grouping {
    Leaf(int),
    Pair(Box<Grouping>, int, Box<Grouping>),
}

/// The grouping of the operands from `c` on, as far as operators bind at least as
/// tightly as `min`; and the operator that comes after.
pub open spec fn climb(ops: Seq<Seq<char>>, c: int, min: nat) -> (Grouping, int)
    decreases ops.len() - c, 1nat,
{
    climb_on(ops, Grouping::Leaf(c), c, min)
}

pub open spec fn climb_on(ops: Seq<Seq<char>>, left: Grouping, c: int, min: nat) -> (Grouping, int)
    decreases ops.len() - c, 0nat,
{
    if 0 <= c < ops.len() && prec(ops[c]) >= min {
        let (right, c2) = climb(ops, c + 1, next_min(ops[c]));
        if c < c2 <= ops.len() {
            climb_on(ops, Grouping::Pair(Box::new(left), c, Box::new(right)), c2, min)
        } else {
            (left, c)
        }
    } else {
        (left, c)
    }
}

/// The expression that a grouping stands for.
pub open spec fn grouped(t: Grouping, terms: Seq<ExprV>, ops: Seq<Seq<char>>) -> ExprV
    decreases t,
{
    match t {
        Grouping::Leaf(i) => terms[i],
        Grouping::Pair(l, i, r) => ExprV::BinaryOp {
            left: Box::new(grouped(*l, terms, ops)),
            operator: ops[i],
            right: Box::new(grouped(*r, terms, ops)),
        },
    }
}

/// The expression that operands and the operators between them stand for.
pub open spec fn climb_expr(terms: Seq<ExprV>, ops: Seq<Seq<char>>) -> ExprV {
    grouped(climb(ops, 0, 0).0, terms, ops)
}

proof fn lemma_climb_ends(ops: Seq<Seq<char>>, c: int, min: nat)
    requires
        0 <= c <= ops.len(),
    ensures
        c <= climb(ops, c, min).1 <= ops.len(),
    decreases ops.len() - c, 1nat,
{
    lemma_climb_on_ends(ops, Grouping::Leaf(c), c, min);
}

proof fn lemma_climb_on_ends(ops: Seq<Seq<char>>, left: Grouping, c: int, min: nat)
    requires
        0 <= c <= ops.len(),
    ensures
        c <= climb_on(ops, left, c, min).1 <= ops.len(),
    decreases ops.len() - c, 0nat,
{
    if c < ops.len() && prec(ops[c]) >= min {
        lemma_climb_ends(ops, c + 1, next_min(ops[c]));
        let (right, c2) = climb(ops, c + 1, next_min(ops[c]));
        lemma_climb_on_ends(ops, Grouping::Pair(Box::new(left), c, Box::new(right)), c2, min);
    }
}

fn climb_prec(terms: &Vec<Expr>, ops: &Vec<String>, cursor: usize, min: u8) -> (r: (Expr, usize))
    requires
        terms@.len() == ops@.len() + 1,
        cursor <= ops@.len(),
        min <= 12,
    ensures
        r.0@ == grouped(
            climb(texts(ops@), cursor as int, min as nat).0,
            exprs_v(terms@),
            texts(ops@),
        ),
        r.1 == climb(texts(ops@), cursor as int, min as nat).1,
        cursor <= r.1 <= ops@.len(),
    decreases ops@.len() - cursor,
{
    let ghost tv = exprs_v(terms@);
    let ghost ov = texts(ops@);
    proof {
        lemma_climb_ends(ov, cursor as int, min as nat);
    }
    let mut left = terms[cursor].clone();
    let ghost mut g = Grouping::Leaf(cursor as int);
    let mut c: usize = cursor;
    while c < ops.len()
        invariant
            cursor <= c <= ops@.len(),
            terms@.len() == ops@.len() + 1,
            min <= 12,
            tv == exprs_v(terms@),
            ov == texts(ops@),
            left@ == grouped(g, tv, ov),
            climb(ov, cursor as int, min as nat) == climb_on(ov, g, c as int, min as nat),
        decreases ops@.len() - c,
    {
        let op = ops[c].clone();
        assert(ov[c as int] == op@);
        let p = binop_prec(op.as_str());
        if p < min {
            return (left, c);
        }
        let next: u8 = if is_right_assoc(op.as_str()) {
            p
        } else {
            p + 1
        };
        let (right, c2) = climb_prec(terms, ops, c + 1, next);
        proof {
            lemma_climb_ends(ov, c + 1, next as nat);
            reveal_with_fuel(Expr::view, 2);
            let rt = climb(ov, c + 1, next as nat).0;
            g = Grouping::Pair(Box::new(g), c as int, Box::new(rt));
        }
        left = Expr::BinaryOp { left: Box::new(left), operator: op, right: Box::new(right) };
        c = c2;
    }
    (left, c)
}

pub open spec fn unknown_term() -> ExprV {
    ExprV::Identifier("unknown_term"@)
}

fn no_term() -> (r: Expr)
    ensures
        r@ == unknown_term(),
{
    Expr::Identifier(String::from_str("unknown_term"))
}

/// The texts of the operators between operands: every other node.
pub open spec fn ops_of(ks: Seq<NodeV>) -> Seq<Seq<char>> {
    Seq::new(((ks.len() - 1) / 2) as nat, |i: int| ks[2 * i + 1].text)
}

/// The operands from the `i`th on.
pub open spec fn terms_from(ks: Seq<NodeV>, i: nat, d: nat) -> Seq<ExprV>
    decreases d, ks, ks.len() - i,
{
    if 2 * i >= ks.len() {
        Seq::empty()
    } else {
        seq![term_of(ks[2 * i as int], d)] + terms_from(ks, i + 1, d)
    }
}

/// The expression that a node holds.
pub open spec fn expr_of(n: NodeV, d: nat) -> ExprV
    decreases d, n, 0nat,
{
    if n.kids.len() == 0 {
        unknown_term()
    } else {
        climb_expr(terms_from(n.kids, 0, d), ops_of(n.kids))
    }
}

pub open spec fn exprs_of(ks: Seq<NodeV>, i: nat, d: nat) -> Seq<ExprV>
    decreases d, ks, ks.len() - i,
{
    if i >= ks.len() {
        Seq::empty()
    } else {
        seq![expr_of(ks[i as int], d)] + exprs_of(ks, i + 1, d)
    }
}

/// What stands before an operand.
pub open spec fn unary_of(ks: Seq<NodeV>) -> Option<Seq<char>> {
    if ks.len() > 0 && ks[0].rule == Rule::UnaryOp {
        Some(ks[0].text)
    } else {
        None
    }
}

pub open spec fn with_unary(op: Option<Seq<char>>, e: ExprV) -> ExprV {
    if op == Some("-"@) {
        ExprV::Neg(Box::new(e))
    } else if op == Some("!"@) {
        ExprV::Not(Box::new(e))
    } else {
        e
    }
}

/// An operand: an atom with what is accessed on it, behind a sign.
pub open spec fn term_of(n: NodeV, d: nat) -> ExprV
    decreases d, n, 0nat,
{
    let a: nat = if unary_of(n.kids) is Some {
        1
    } else {
        0
    };
    if a >= n.kids.len() {
        unknown_term()
    } else {
        with_unary(
            unary_of(n.kids),
            suffixed(atom_of(n.kids[a as int], d), n.kids, a + 1, d),
        )
    }
}

/// What is accessed on an expression, from the `i`th suffix on.
pub open spec fn suffixed(e: ExprV, ks: Seq<NodeV>, i: nat, d: nat) -> ExprV
    decreases d, ks, ks.len() - i,
{
    if i >= ks.len() {
        e
    } else {
        suffixed(suffix_of(e, ks[i as int], d), ks, i + 1, d)
    }
}

pub open spec fn suffix_of(e: ExprV, n: NodeV, d: nat) -> ExprV
    decreases d, n, 0nat,
{
    if n.kids.len() == 0 {
        e
    } else {
        access_of(e, n.kids[0], d)
    }
}

/// A property, an element or a method call.
pub open spec fn access_of(e: ExprV, k: NodeV, d: nat) -> ExprV
    decreases d, k, 0nat,
{
    if k.kids.len() == 0 {
        e
    } else {
        match k.rule {
            Rule::PropertyAccess => ExprV::PropertyAccess {
                base: Box::new(e),
                property: k.kids[0].text,
            },
            Rule::IndexAccess => ExprV::IndexAccess {
                base: Box::new(e),
                index: Box::new(expr_of(k.kids[0], d)),
            },
            Rule::MethodAccess => method_of(e, k.kids[0], d),
            _ => e,
        }
    }
}

pub open spec fn method_of(e: ExprV, call: NodeV, d: nat) -> ExprV
    decreases d, call, 0nat,
{
    ExprV::MethodCall {
        base: Box::new(e),
        method: if call.kids.len() == 0 {
            Seq::empty()
        } else {
            call.kids[0].text
        },
        args: exprs_of(call.kids, 1, d),
    }
}

pub open spec fn atom_of(n: NodeV, d: nat) -> ExprV
    decreases d, n, 0nat,
{
    if n.kids.len() == 0 {
        unknown_term()
    } else {
        atom_in(n.kids[0], d)
    }
}

/// The part of a text between `a` characters at its start and one at its end.
pub open spec fn inside(t: Seq<char>, a: nat) -> Seq<char> {
    if a + 1 <= t.len() {
        t.subrange(a as int, t.len() - 1)
    } else {
        Seq::empty()
    }
}

pub open spec fn atom_in(k: NodeV, d: nat) -> ExprV
    decreases d, k, 0nat,
{
    match k.rule {
        Rule::Number => ExprV::Number(k.text),
        Rule::StringLiteral => ExprV::StringLiteral(inside(k.text, 1)),
        Rule::Ident => ExprV::Identifier(k.text),
        Rule::ParenExpr => if k.kids.len() == 0 {
            unknown_term()
        } else {
            expr_of(k.kids[0], d)
        },
        Rule::ArrayLiteral => ExprV::ArrayLiteral(exprs_of(k.kids, 0, d)),
        Rule::FStringLiteral => ExprV::FString(
            if d == 0 {
                Seq::empty()
            } else {
                segments(inside(k.text, 2), 0, Seq::empty(), (d - 1) as nat)
            },
        ),
        Rule::Instantiation => if k.kids.len() == 0 {
            unknown_term()
        } else {
            ExprV::Instantiation {
                type_def: type_of_node(k.kids[0]),
                args: exprs_of(k.kids, 1, d),
            }
        },
        Rule::FnCall => ExprV::FnCall {
            name: if k.kids.len() == 0 {
                Seq::empty()
            } else {
                k.kids[0].text
            },
            args: exprs_of(k.kids, 1, d),
        },
        _ => unknown_term(),
    }
}

/// Where an interpolation that starts at `i` ends: at the brace that closes it, or at
/// the end of the text.
pub open spec fn interp_end(s: Seq<char>, i: int, depth: nat) -> int
    decreases s.len() - i,
{
    if i < 0 || i >= s.len() {
        s.len() as int
    } else if s[i] == '{' {
        interp_end(s, i + 1, depth + 1)
    } else if s[i] == '}' {
        if depth <= 1 {
            i
        } else {
            interp_end(s, i + 1, (depth - 1) as nat)
        }
    } else {
        interp_end(s, i + 1, depth)
    }
}

proof fn lemma_interp_end(s: Seq<char>, i: int, depth: nat)
    requires
        0 <= i <= s.len(),
    ensures
        i <= interp_end(s, i, depth) <= s.len(),
    decreases s.len() - i,
{
    if i < s.len() {
        lemma_interp_end(s, i + 1, depth + 1);
        if depth > 0 {
            lemma_interp_end(s, i + 1, (depth - 1) as nat);
        }
        lemma_interp_end(s, i + 1, depth);
    }
}

/// The expression in an interpolation; nothing where it is none.
pub open spec fn interp_of(text: Seq<char>, d: nat) -> Seq<SegV>
    decreases d, text, 0nat,
{
    match parse_rule_spec(Rule::Expr, trim_spec(text)).out {
        Some((_, ks)) => if ks.len() > 0 && d > 0 {
            seq![SegV::Interp(expr_of(ks[0], (d - 1) as nat))]
        } else {
            Seq::empty()
        },
        None => Seq::empty(),
    }
}

pub open spec fn literal_seg(t: Seq<char>) -> Seq<SegV> {
    if t.len() > 0 {
        seq![SegV::Literal(t)]
    } else {
        Seq::empty()
    }
}

/// The parts of an f-string from `i` on; `t` is the literal text before it.
pub open spec fn segments(s: Seq<char>, i: int, t: Seq<char>, d: nat) -> Seq<SegV>
    decreases d, s, s.len() + 1 - i,
{
    if i < 0 || i >= s.len() {
        literal_seg(t)
    } else if s[i] != '{' {
        segments(s, i + 1, t.push(s[i]), d)
    } else {
        let e = interp_end(s, i + 1, 1);
        if i < e <= s.len() {
            literal_seg(t) + interp_of(s.subrange(i + 1, e), d) + segments(
                s,
                e + 1,
                Seq::empty(),
                d,
            )
        } else {
            literal_seg(t)
        }
    }
}

/// How deep an expression in an f-string is read: strings in it would end it, so one
/// level is all there is.
pub open spec fn string_depth() -> nat {
    2
}

fn parse_ops(ks: &Vec<Node>) -> (r: Vec<String>)
    requires
        ks@.len() > 0,
    ensures
        texts(r@) == ops_of(nodes_v(ks@)),
{
    let ghost kv = nodes_v(ks@);
    let m = ks.len();
    let n: usize = (m - 1) / 2;
    let mut out: Vec<String> = Vec::new();
    let mut i: usize = 0;
    while i < n
        invariant
            i <= n,
            m == ks@.len() > 0,
            n == (m - 1) / 2,
            kv == nodes_v(ks@),
            out@.len() == i,
            forall|k: int| 0 <= k < i ==> (#[trigger] out@[k])@ == kv[2 * k + 1].text,
        decreases n - i,
    {
        assert(kv[2 * i + 1] == ks@[2 * i + 1]@);
        out.push(ks[2 * i + 1].text.clone());
        i += 1;
    }
    assert(texts(out@) =~= ops_of(kv));
    out
}

proof fn lemma_terms_len(ks: Seq<NodeV>, i: nat, d: nat)
    requires
        ks.len() > 0,
        i <= (ks.len() + 1) / 2,
    ensures
        terms_from(ks, i, d).len() == (ks.len() + 1) / 2 - i,
    decreases (ks.len() + 1) / 2 - i,
{
    if 2 * i < ks.len() {
        lemma_terms_len(ks, i + 1, d);
    }
}

#[verifier::loop_isolation(false)]
fn parse_terms(ks: &Vec<Node>, d: usize) -> (r: Vec<Expr>)
    requires
        ks@.len() > 0,
    ensures
        exprs_v(r@) == terms_from(nodes_v(ks@), 0, d as nat),
    decreases d, ks, 0nat,
{
    let ghost kv = nodes_v(ks@);
    let n: usize = (ks.len() - 1) / 2 + 1;
    let mut out: Vec<Expr> = Vec::new();
    let mut i: usize = 0;
    assert(exprs_v(out@) + terms_from(kv, 0, d as nat) =~= terms_from(kv, 0, d as nat));
    while i < n
        invariant
            i <= n,
            exprs_v(out@) + terms_from(kv, i as nat, d as nat) == terms_from(kv, 0, d as nat),
        decreases n - i,
    {
        let k: &Node = &ks[2 * i];
        proof {
            assert(decreases_to!(*ks => *k));
            assert(kv[2 * i] == k@);
        }
        let e = parse_term(k, d);
        let ghost before = exprs_v(out@);
        let ghost ev = e@;
        out.push(e);
        proof {
            assert(exprs_v(out@) =~= before.push(ev));
            let rest = terms_from(kv, (i + 1) as nat, d as nat);
            assert(before.push(ev) + rest =~= before + (seq![ev] + rest));
        }
        i += 1;
    }
    assert(exprs_v(out@) + terms_from(kv, i as nat, d as nat) =~= exprs_v(out@));
    out
}

pub fn parse_expr_at(n: &Node, d: usize) -> (r: Expr)
    ensures
        r@ == expr_of(n@, d as nat),
    decreases d, n, 0nat,
{
    if n.kids.len() == 0 {
        return no_term();
    }
    let ops = parse_ops(&n.kids);
    let terms = parse_terms(&n.kids, d);
    proof {
        lemma_terms_len(n@.kids, 0, d as nat);
    }
    let (e, _) = climb_prec(&terms, &ops, 0, 0);
    e
}

#[verifier::loop_isolation(false)]
pub(crate) fn parse_exprs(ks: &Vec<Node>, from: usize, d: usize) -> (r: Vec<Expr>)
    ensures
        exprs_v(r@) == exprs_of(nodes_v(ks@), from as nat, d as nat),
    decreases d, ks, 0nat,
{
    let ghost kv = nodes_v(ks@);
    let mut out: Vec<Expr> = Vec::new();
    let mut i: usize = from;
    assert(exprs_v(out@) + exprs_of(kv, i as nat, d as nat) =~= exprs_of(
        kv,
        from as nat,
        d as nat,
    ));
    while i < ks.len()
        invariant
            from <= i,
            exprs_v(out@) + exprs_of(kv, i as nat, d as nat) == exprs_of(
                kv,
                from as nat,
                d as nat,
            ),
        decreases ks@.len() - i,
    {
        let k: &Node = &ks[i];
        proof {
            assert(decreases_to!(*ks => *k));
            assert(kv[i as int] == k@);
        }
        let e = parse_expr_at(k, d);
        let ghost before = exprs_v(out@);
        let ghost ev = e@;
        out.push(e);
        proof {
            assert(exprs_v(out@) =~= before.push(ev));
            let rest = exprs_of(kv, (i + 1) as nat, d as nat);
            assert(before.push(ev) + rest =~= before + (seq![ev] + rest));
        }
        i += 1;
    }
    assert(exprs_v(out@) + exprs_of(kv, i as nat, d as nat) =~= exprs_v(out@));
    out
}

fn signed(op: Option<String>, e: Expr) -> (r: Expr)
    ensures
        r@ == with_unary(opt_text(op), e@),
{
    proof {
        reveal_with_fuel(Expr::view, 2);
    }
    match op {
        Some(t) => {
            if same(t.as_str(), "-") {
                Expr::Neg(Box::new(e))
            } else if same(t.as_str(), "!") {
                Expr::Not(Box::new(e))
            } else {
                e
            }
        },
        None => e,
    }
}

#[verifier::loop_isolation(false)]
pub fn parse_term(n: &Node, d: usize) -> (r: Expr)
    ensures
        r@ == term_of(n@, d as nat),
    decreases d, n, 0nat,
{
    let ks = &n.kids;
    let ghost kv = nodes_v(ks@);
    let has_unary = ks.len() > 0 && match ks[0].rule {
        Rule::UnaryOp => true,
        _ => false,
    };
    assert(ks@.len() > 0 ==> kv[0] == ks@[0]@);
    let unary: Option<String> = if has_unary {
        Some(ks[0].text.clone())
    } else {
        None
    };
    let a: usize = if has_unary {
        1
    } else {
        0
    };
    if a >= ks.len() {
        return no_term();
    }
    let atom: &Node = &ks[a];
    proof {
        assert(decreases_to!(*n => *atom));
        assert(kv[a as int] == atom@);
    }
    let mut base = parse_atom(atom, d);
    let ghost base0 = base@;
    let mut i: usize = a + 1;
    while i < ks.len()
        invariant
            a < i <= ks@.len(),
            suffixed(base0, kv, (a + 1) as nat, d as nat) == suffixed(
                base@,
                kv,
                i as nat,
                d as nat,
            ),
        decreases ks@.len() - i,
    {
        let k: &Node = &ks[i];
        proof {
            assert(decreases_to!(*n => *k));
            assert(kv[i as int] == k@);
        }
        base = parse_suffix(base, k, d);
        i += 1;
    }
    signed(unary, base)
}

fn parse_suffix(e: Expr, n: &Node, d: usize) -> (r: Expr)
    ensures
        r@ == suffix_of(e@, n@, d as nat),
    decreases d, n, 0nat,
{
    if n.kids.len() == 0 {
        return e;
    }
    let k: &Node = &n.kids[0];
    proof {
        assert(decreases_to!(*n => *k));
        assert(n@.kids[0] == k@);
    }
    parse_access(e, k, d)
}

fn parse_access(e: Expr, k: &Node, d: usize) -> (r: Expr)
    ensures
        r@ == access_of(e@, k@, d as nat),
    decreases d, k, 0nat,
{
    if k.kids.len() == 0 {
        return e;
    }
    let x: &Node = &k.kids[0];
    proof {
        assert(decreases_to!(*k => *x));
        assert(k@.kids[0] == x@);
        reveal_with_fuel(Expr::view, 2);
    }
    match k.rule {
        Rule::PropertyAccess => Expr::PropertyAccess {
            base: Box::new(e),
            property: x.text.clone(),
        },
        Rule::IndexAccess => {
            let index = parse_expr_at(x, d);
            Expr::IndexAccess { base: Box::new(e), index: Box::new(index) }
        },
        Rule::MethodAccess => {
            let method = first_text(&x.kids);
            let args = parse_exprs(&x.kids, 1, d);
            Expr::MethodCall { base: Box::new(e), method, args }
        },
        _ => e,
    }
}

fn first_text(ks: &Vec<Node>) -> (r: String)
    ensures
        r@ == (if ks@.len() == 0 {
            Seq::empty()
        } else {
            nodes_v(ks@)[0].text
        }),
{
    if ks.len() == 0 {
        let s = String::new();
        assert(s@ =~= Seq::<char>::empty());
        s
    } else {
        assert(nodes_v(ks@)[0] == ks@[0]@);
        ks[0].text.clone()
    }
}

fn parse_atom(n: &Node, d: usize) -> (r: Expr)
    ensures
        r@ == atom_of(n@, d as nat),
    decreases d, n, 0nat,
{
    if n.kids.len() == 0 {
        return no_term();
    }
    let k: &Node = &n.kids[0];
    proof {
        assert(decreases_to!(*n => *k));
        assert(n@.kids[0] == k@);
    }
    parse_atom_in(k, d)
}

fn inside_text(t: &str, a: usize) -> (r: String)
    requires
        a <= 2,
    ensures
        r@ == inside(t@, a as nat),
{
    let v = chars_of(t);
    if a + 1 <= v.len() {
        slice_text(&v, a, v.len() - 1)
    } else {
        let s = String::new();
        assert(s@ =~= Seq::<char>::empty());
        s
    }
}

fn parse_atom_in(k: &Node, d: usize) -> (r: Expr)
    ensures
        r@ == atom_in(k@, d as nat),
    decreases d, k, 0nat,
{
    proof {
        reveal_with_fuel(Expr::view, 2);
    }
    match k.rule {
        Rule::Number => Expr::Number(k.text.clone()),
        Rule::StringLiteral => Expr::StringLiteral(inside_text(k.text.as_str(), 1)),
        Rule::Ident => Expr::Identifier(k.text.clone()),
        Rule::ParenExpr => {
            if k.kids.len() == 0 {
                return no_term();
            }
            let x: &Node = &k.kids[0];
            proof {
                assert(decreases_to!(*k => *x));
                assert(k@.kids[0] == x@);
            }
            parse_expr_at(x, d)
        },
        Rule::ArrayLiteral => Expr::ArrayLiteral(parse_exprs(&k.kids, 0, d)),
        Rule::FStringLiteral => {
            if d == 0 {
                let v: Vec<FStringSegment> = Vec::new();
                assert(segs_v(v@) =~= Seq::<SegV>::empty());
                Expr::FString(v)
            } else {
                let t = inside_text(k.text.as_str(), 2);
                Expr::FString(parse_fstring_segments(t.as_str(), d - 1))
            }
        },
        Rule::Instantiation => {
            if k.kids.len() == 0 {
                return no_term();
            }
            assert(k@.kids[0] == k.kids@[0]@);
            let type_def = parse_type(&k.kids[0]);
            let args = parse_exprs(&k.kids, 1, d);
            Expr::Instantiation { type_def, args }
        },
        Rule::FnCall => {
            let name = first_text(&k.kids);
            let args = parse_exprs(&k.kids, 1, d);
            Expr::FnCall { name, args }
        },
        _ => no_term(),
    }
}

fn find_interp_end(v: &Vec<char>, from: usize) -> (r: usize)
    requires
        1 <= from <= v@.len(),
    ensures
        r == interp_end(v@, from as int, 1),
        from <= r <= v@.len(),
{
    let mut i: usize = from;
    let mut depth: usize = 1;
    while i < v.len()
        invariant
            1 <= from <= i <= v@.len(),
            1 <= depth <= i - from + 1,
            interp_end(v@, from as int, 1) == interp_end(v@, i as int, depth as nat),
        decreases v@.len() - i,
    {
        let c = v[i];
        if c == '{' {
            depth += 1;
        } else if c == '}' {
            if depth <= 1 {
                return i;
            }
            depth -= 1;
        }
        i += 1;
    }
    i
}

fn push_literal(out: &mut Vec<FStringSegment>, t: String)
    ensures
        segs_v(final(out)@) == segs_v(old(out)@) + literal_seg(t@),
{
    let ghost before = segs_v(out@);
    let ghost tv = t@;
    if !t.as_str().is_empty() {
        out.push(FStringSegment::Literal(t));
        assert(segs_v(out@) =~= before + seq![SegV::Literal(tv)]);
    } else {
        assert(segs_v(out@) =~= before + Seq::<SegV>::empty());
    }
}

fn push_interp(out: &mut Vec<FStringSegment>, text: &str, d: usize)
    ensures
        segs_v(final(out)@) == segs_v(old(out)@) + interp_of(text@, d as nat),
    decreases d, text@, 0nat,
{
    let ghost before = segs_v(out@);
    let t = trim(text);
    let v = chars_of(t.as_str());
    let x = GumParser::parse(Rule::Expr, &v);
    match x.out {
        Some((_, ks)) => {
            if ks.len() > 0 && d > 0 {
                assert(nodes_v(ks@)[0] == ks@[0]@);
                let e = parse_expr_at(&ks[0], d - 1);
                let ghost ev = e@;
                let seg = FStringSegment::Interp(e);
                proof {
                    reveal_with_fuel(FStringSegment::view, 2);
                    assert(seg@ == SegV::Interp(ev));
                }
                out.push(seg);
                assert(segs_v(out@) =~= before + seq![SegV::Interp(ev)]);
            } else {
                assert(segs_v(out@) =~= before + Seq::<SegV>::empty());
            }
        },
        None => {
            assert(segs_v(out@) =~= before + Seq::<SegV>::empty());
        },
    }
}

/// The parts of an f-string: literal texts, and the expressions in braces.
#[verifier::loop_isolation(false)]
fn parse_fstring_segments(s: &str, d: usize) -> (r: Vec<FStringSegment>)
    ensures
        segs_v(r@) == segments(s@, 0, Seq::empty(), d as nat),
    decreases d, s@, 0nat,
{
    let v = chars_of(s);
    let ghost whole = segments(s@, 0, Seq::empty(), d as nat);
    let mut out: Vec<FStringSegment> = Vec::new();
    let mut literal = String::new();
    let mut i: usize = 0;
    proof {
        assert(literal@ =~= Seq::<char>::empty());
        assert(segs_v(out@) + whole =~= whole);
    }
    while i < v.len()
        invariant
            i <= v@.len(),
            v@ == s@,
            whole == segs_v(out@) + segments(s@, i as int, literal@, d as nat),
        decreases v@.len() - i,
    {
        let c = v[i];
        if c != '{' {
            literal.push(c);
            i += 1;
        } else {
            let ghost before = segs_v(out@);
            let ghost lit = literal@;
            proof {
                lemma_interp_end(s@, i + 1, 1);
            }
            let e = find_interp_end(&v, i + 1);
            push_literal(&mut out, literal);
            literal = String::new();
            assert(literal@ =~= Seq::<char>::empty());
            let text = slice_text(&v, i + 1, e);
            assert(decreases_to!(s@ => s@.subrange(i + 1, e as int)));
            push_interp(&mut out, text.as_str(), d);
            proof {
                let mid = interp_of(text@, d as nat);
                let rest = segments(s@, e + 1, Seq::empty(), d as nat);
                assert(segments(s@, i as int, lit, d as nat) == literal_seg(lit) + mid + rest);
                assert(before + (literal_seg(lit) + mid + rest) =~= before + literal_seg(lit) + mid
                    + rest);
            }
            if e >= v.len() {
                proof {
                    let rest = segments(s@, e + 1, Seq::empty(), d as nat);
                    assert(rest =~= Seq::<SegV>::empty());
                    assert(segs_v(out@) + rest =~= segs_v(out@));
                }
                return out;
            }
            i = e + 1;
        }
    }
    push_literal(&mut out, literal);
    out
}

/// The expression that a node holds.
pub fn parse_expr(n: &Node) -> (r: Expr)
    ensures
        r@ == expr_of(n@, string_depth()),
{
    parse_expr_at(n, 2)
}

/// A grouping of the operands from `a` to `b`, in order, by the operators between them.
pub open spec fn spans(t: Grouping, a: int, b: int) -> bool
    decreases t,
{
    match t {
        Grouping::Leaf(i) => a == i && b == i,
        Grouping::Pair(l, i, r) => spans(*l, a, i) && spans(*r, i + 1, b),
    }
}

/// Every operator in a grouping binds at least as tightly as `m`.
pub open spec fn at_least(t: Grouping, ops: Seq<Seq<char>>, m: nat) -> bool
    decreases t,
{
    match t {
        Grouping::Leaf(_) => true,
        Grouping::Pair(l, i, r) => prec(ops[i]) >= m && at_least(*l, ops, m) && at_least(
            *r,
            ops,
            m,
        ),
    }
}

/// No operator takes an operand away from one that binds more tightly.
pub open spec fn tight(t: Grouping, ops: Seq<Seq<char>>) -> bool
    decreases t,
{
    match t {
        Grouping::Leaf(_) => true,
        Grouping::Pair(l, i, r) => {
            &&& at_least(*l, ops, prec(ops[i]))
            &&& at_least(*r, ops, next_min(ops[i]))
            &&& tight(*l, ops)
            &&& tight(*r, ops)
        },
    }
}

proof fn lemma_at_least_less(t: Grouping, ops: Seq<Seq<char>>, m: nat, k: nat)
    requires
        at_least(t, ops, m),
        k <= m,
    ensures
        at_least(t, ops, k),
    decreases t,
{
    match t {
        Grouping::Leaf(_) => {},
        Grouping::Pair(l, _, r) => {
            lemma_at_least_less(*l, ops, m, k);
            lemma_at_least_less(*r, ops, m, k);
        },
    }
}

proof fn lemma_climb(ops: Seq<Seq<char>>, c: int, min: nat)
    requires
        0 <= c <= ops.len(),
    ensures
        ({
            let (t, e) = climb(ops, c, min);
            &&& c <= e <= ops.len()
            &&& spans(t, c, e)
            &&& at_least(t, ops, min)
            &&& tight(t, ops)
            &&& (e < ops.len() ==> prec(ops[e]) < min)
        }),
    decreases ops.len() - c, 1nat,
{
    lemma_climb_on(ops, Grouping::Leaf(c), c, c, min);
}

proof fn lemma_climb_on(ops: Seq<Seq<char>>, left: Grouping, a: int, c: int, min: nat)
    requires
        0 <= a <= c <= ops.len(),
        spans(left, a, c),
        at_least(left, ops, min),
        tight(left, ops),
        c < ops.len() ==> at_least(left, ops, prec(ops[c])),
    ensures
        ({
            let (t, e) = climb_on(ops, left, c, min);
            &&& c <= e <= ops.len()
            &&& spans(t, a, e)
            &&& at_least(t, ops, min)
            &&& tight(t, ops)
            &&& (e < ops.len() ==> prec(ops[e]) < min)
        }),
    decreases ops.len() - c, 0nat,
{
    if c < ops.len() && prec(ops[c]) >= min {
        let nm = next_min(ops[c]);
        lemma_climb(ops, c + 1, nm);
        let (right, c2) = climb(ops, c + 1, nm);
        let pair = Grouping::Pair(Box::new(left), c, Box::new(right));
        lemma_at_least_less(right, ops, nm, min);
        if c2 < ops.len() {
            lemma_at_least_less(left, ops, prec(ops[c]), prec(ops[c2]));
            lemma_at_least_less(right, ops, nm, prec(ops[c2]));
        }
        lemma_climb_on(ops, pair, a, c2, min);
    }
}

/// Every operand and every operator is taken once, in order, and grouped by how tightly
/// the operators bind; operators that bind alike group from the left, but for `**`.
pub proof fn law_precedence(ops: Seq<Seq<char>>)
    ensures
        climb(ops, 0, 0).1 == ops.len(),
        spans(climb(ops, 0, 0).0, 0, ops.len() as int),
        tight(climb(ops, 0, 0).0, ops),
{
    lemma_climb(ops, 0, 0);
}

} // verus!
