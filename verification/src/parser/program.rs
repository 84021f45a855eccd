//! A whole source: it is cut into declarations, and each is parsed by itself, so that
//! every malformed declaration is reported, and within one every malformed member, and
//! within that every malformed statement.
use crate::ast::{decls_v, DeclV, Declaration, Program};
use crate::codegen::yul::opt_text;
use crate::indent::{preprocess, preprocess_spec};
use crate::parser::decls::{build_declaration, decl_of, opt_decl_v};
use crate::parser::grammar::{line_col, parse_rule_spec, place_at, GumParser};
use crate::parser::node::{nodes_v, NodeV, Rule};
use crate::semantic::rules::{push_opt, with_opt};
use crate::text::{
    begins, cat2, cat7, chars_of, dec, dec_text, find_char, find_spec, lemma_next_char, next_char,
    opt_pos, rep, repeat, rfind_char, rfind_spec, slice_text, starts_with, texts, trim, trim_spec,
    trim_start, trim_start_spec,
};
use vstd::prelude::*;

verus! {

broadcast use {crate::ast::group_views, crate::parser::node::group_nodes};

/// The white space of ASCII.
pub open spec fn ascii_space(c: char) -> bool {
    c == ' ' || c == '\t' || c == '\n' || c == '\u{c}' || c == '\r'
}

pub open spec fn begun(start: Option<int>, i: int) -> int {
    match start {
        Some(s) => s,
        None => i,
    }
}

/// The declarations of a text from `i` on, as spans: one ends at the brace that closes
/// its outermost block, or at a semicolon outside of any block. What is left at the end
/// is one more.
pub open spec fn spans_from(
    s: Seq<char>,
    i: int,
    depth: nat,
    in_string: bool,
    start: Option<int>,
) -> Seq<(int, int)>
    decreases s.len() - i,
{
    if i < 0 || i >= s.len() {
        match start {
            Some(a) => seq![(a, s.len() as int)],
            None => Seq::empty(),
        }
    } else if !in_string && s[i] == '/' && i + 1 < s.len() && s[i + 1] == '/' {
        proof {
            lemma_next_char(s, i, '\n');
        }
        if next_char(s, i, '\n') > i {
            spans_from(s, next_char(s, i, '\n'), depth, in_string, start)
        } else {
            Seq::empty()
        }
    } else if s[i] == '"' {
        spans_from(s, i + 1, depth, !in_string, Some(begun(start, i)))
    } else if in_string || ascii_space(s[i]) {
        spans_from(s, i + 1, depth, in_string, start)
    } else if s[i] == '{' {
        spans_from(s, i + 1, depth + 1, in_string, Some(begun(start, i)))
    } else if s[i] == '}' && depth > 1 {
        spans_from(s, i + 1, (depth - 1) as nat, in_string, Some(begun(start, i)))
    } else if s[i] == '}' || (s[i] == ';' && depth == 0) {
        seq![(begun(start, i), i + 1)] + spans_from(s, i + 1, 0, in_string, None)
    } else {
        spans_from(s, i + 1, depth, in_string, Some(begun(start, i)))
    }
}

pub open spec fn spans_v(s: Seq<(usize, usize)>) -> Seq<(int, int)> {
    s.map_values(|p: (usize, usize)| (p.0 as int, p.1 as int))
}

fn is_ascii_space(c: char) -> (r: bool)
    ensures
        r == ascii_space(c),
{
    c == ' ' || c == '\t' || c == '\n' || c == '\u{c}' || c == '\r'
}

fn end_of_line(s: &Vec<char>, from: usize) -> (r: usize)
    requires
        from <= s@.len(),
    ensures
        r == next_char(s@, from as int, '\n'),
        from <= r <= s@.len(),
{
    let mut i: usize = from;
    while i < s.len() && s[i] != '\n'
        invariant
            from <= i <= s@.len(),
            next_char(s@, from as int, '\n') == next_char(s@, i as int, '\n'),
        decreases s@.len() - i,
    {
        i += 1;
    }
    i
}

fn begin(start: Option<usize>, i: usize) -> (r: usize)
    ensures
        r == begun(opt_pos(start), i as int),
        start matches Some(a) ==> r == a,
        start is None ==> r == i,
{
    match start {
        Some(a) => a,
        None => i,
    }
}

proof fn lemma_push_span(
    out: Seq<(usize, usize)>,
    a: usize,
    b: usize,
    rest: Seq<(int, int)>,
)
    ensures
        spans_v(out.push((a, b))) + rest == spans_v(out) + (seq![(a as int, b as int)] + rest),
{
    assert(spans_v(out.push((a, b))) + rest =~= spans_v(out) + (seq![(a as int, b as int)] + rest));
}

pub fn top_level_spans(s: &Vec<char>) -> (r: Vec<(usize, usize)>)
    ensures
        spans_v(r@) == spans_from(s@, 0, 0, false, None),
        forall|k: int| 0 <= k < r@.len() ==> (#[trigger] r@[k]).0 <= r@[k].1 <= s@.len(),
{
    let ghost whole = spans_from(s@, 0, 0, false, None);
    let mut out: Vec<(usize, usize)> = Vec::new();
    let mut depth: usize = 0;
    let mut in_string = false;
    let mut start: Option<usize> = None;
    let mut i: usize = 0;
    assert(spans_v(out@) + whole =~= whole);
    while i < s.len()
        invariant
            i <= s@.len(),
            depth <= i,
            start matches Some(a) ==> a <= i,
            forall|k: int| 0 <= k < out@.len() ==> (#[trigger] out@[k]).0 <= out@[k].1 <= s@.len(),
            whole == spans_v(out@) + spans_from(
                s@,
                i as int,
                depth as nat,
                in_string,
                opt_pos(start),
            ),
        decreases s@.len() - i,
    {
        let c = s[i];
        if !in_string && c == '/' && s.len() - i > 1 && s[i + 1] == '/' {
            proof {
                lemma_next_char(s@, i as int, '\n');
            }
            let e = end_of_line(s, i);
            assert(e > i) by {
                assert(s@[i as int] != '\n');
            }
            i = e;
            continue;
        }
        if c == '"' {
            in_string = !in_string;
            start = Some(begin(start, i));
        } else if in_string || is_ascii_space(c) {
        } else if c == '{' {
            depth += 1;
            start = Some(begin(start, i));
        } else if c == '}' && depth > 1 {
            depth -= 1;
            start = Some(begin(start, i));
        } else if c == '}' || (c == ';' && depth == 0) {
            let a = begin(start, i);
            proof {
                lemma_push_span(
                    out@,
                    a,
                    (i + 1) as usize,
                    spans_from(s@, i + 1, 0, in_string, None),
                );
            }
            out.push((a, i + 1));
            depth = 0;
            start = None;
        } else {
            start = Some(begin(start, i));
        }
        i += 1;
    }
    match start {
        Some(a) => {
            proof {
                lemma_push_span(out@, a, i, Seq::empty());
                assert(seq![(a as int, i as int)] + Seq::<(int, int)>::empty() =~= seq![
                    (a as int, i as int),
                ]);
                assert(spans_v(out@.push((a, i))) + Seq::<(int, int)>::empty() =~= spans_v(
                    out@.push((a, i)),
                ));
            }
            out.push((a, i));
        },
        None => {
            assert(spans_v(out@) + Seq::<(int, int)>::empty() =~= spans_v(out@));
        },
    }
    out
}

/// How many of the first `n` characters end a line.
pub open spec fn line_ends(s: Seq<char>, n: nat) -> nat
    decreases n,
{
    if n == 0 {
        0
    } else {
        line_ends(s, (n - 1) as nat) + (if s[n - 1] == '\n' {
            1nat
        } else {
            0nat
        })
    }
}

/// A part of a text on the lines on which it stands: behind as many line ends as there
/// are before it.
pub open spec fn padded_spec(s: Seq<char>, a: int, b: int) -> Seq<char> {
    rep("\n"@, line_ends(s, a as nat)) + s.subrange(a, b)
}

fn padded(s: &Vec<char>, a: usize, b: usize) -> (r: Vec<char>)
    requires
        a <= b <= s@.len(),
    ensures
        r@ == padded_spec(s@, a as int, b as int),
{
    let mut n: usize = 0;
    let mut i: usize = 0;
    while i < a
        invariant
            i <= a <= s@.len(),
            n <= i,
            n == line_ends(s@, i as nat),
        decreases a - i,
    {
        if s[i] == '\n' {
            n += 1;
        }
        i += 1;
    }
    let pad = repeat("\n", n);
    let text = slice_text(s, a, b);
    let all = cat2(pad.as_str(), text.as_str());
    chars_of(all.as_str())
}

/// Where a text cannot be read on.
pub open spec fn syntax_error(s: Seq<char>, far: int) -> Seq<char> {
    let at = place_at(s, far);
    "Syntax Error: "@ + dec(at.0 as nat) + ":"@ + dec(at.1 as nat) + ": cannot read '"@
        + trim_spec(s.subrange(far, next_char(s, far, '\n'))) + "'"@
}

fn error_at(s: &Vec<char>, far: usize) -> (r: String)
    requires
        far <= s@.len(),
    ensures
        r@ == syntax_error(s@, far as int),
{
    let (line, col) = line_col(s, far);
    let e = end_of_line(s, far);
    let near = slice_text(s, far, e);
    cat7(
        "Syntax Error: ",
        dec_text(line).as_str(),
        ":",
        dec_text(col).as_str(),
        ": cannot read '",
        trim(near.as_str()).as_str(),
        "'",
    )
}

/// What is wrong with a text that is to be matched by a rule.
pub open spec fn unit_error(r: Rule, s: Seq<char>) -> Option<Seq<char>> {
    let m = parse_rule_spec(r, s);
    match m.out {
        Some(_) => None,
        None => Some(syntax_error(s, m.far)),
    }
}

fn check_unit(r: Rule, s: &Vec<char>) -> (e: Option<String>)
    ensures
        opt_text(e) == unit_error(r, s@),
{
    let m = GumParser::parse(r, s);
    match m.out {
        Some(_) => None,
        None => Some(error_at(s, m.far)),
    }
}

/// What stands between the first brace of a part of a text and the last.
pub open spec fn braces(s: Seq<char>, a: int, b: int) -> Option<(int, int)> {
    let chunk = s.subrange(a, b);
    match (find_spec(chunk, '{'), rfind_spec(chunk, '}')) {
        (Some(open), Some(close)) => if close <= open {
            None
        } else {
            Some((a + open + 1, a + close))
        },
        _ => None,
    }
}

fn between_braces(s: &Vec<char>, a: usize, b: usize) -> (r: Option<(usize, usize)>)
    requires
        a <= b <= s@.len(),
    ensures
        braces(s@, a as int, b as int) == (match r {
            Some(p) => Some((p.0 as int, p.1 as int)),
            None => None,
        }),
        r matches Some(p) ==> a <= p.0 <= p.1 <= b,
{
    let text = slice_text(s, a, b);
    let chunk = chars_of(text.as_str());
    match (find_char(&chunk, '{'), rfind_char(&chunk, '}')) {
        (Some(open), Some(close)) => {
            if close <= open {
                None
            } else {
                Some((a + open + 1, a + close))
            }
        },
        _ => None,
    }
}

/// What is wrong with the first `n` statements of a body that starts at `at`.
pub open spec fn body_errors(
    s: Seq<char>,
    at: int,
    parts: Seq<(int, int)>,
    n: nat,
) -> Seq<Seq<char>>
    decreases n,
{
    if n == 0 {
        Seq::empty()
    } else {
        with_opt(
            body_errors(s, at, parts, (n - 1) as nat),
            unit_error(
                Rule::StatementUnit,
                padded_spec(s, at + parts[n - 1].0, at + parts[n - 1].1),
            ),
        )
    }
}

/// What is wrong with the statements of a function; nothing where it has no body, or
/// where each statement can be read.
pub open spec fn statement_errors_spec(s: Seq<char>, a: int, b: int) -> Seq<Seq<char>> {
    match braces(s, a, b) {
        None => Seq::empty(),
        Some((x, y)) => {
            let parts = spans_from(s.subrange(x, y), 0, 0, false, None);
            body_errors(s, x, parts, parts.len())
        },
    }
}

fn statement_errors(s: &Vec<char>, a: usize, b: usize) -> (r: Vec<String>)
    requires
        a <= b <= s@.len(),
    ensures
        texts(r@) == statement_errors_spec(s@, a as int, b as int),
{
    let mut out: Vec<String> = Vec::new();
    assert(texts(out@) =~= Seq::<Seq<char>>::empty());
    match between_braces(s, a, b) {
        None => {},
        Some((x, y)) => {
            let body = chars_of(slice_text(s, x, y).as_str());
            let parts = top_level_spans(&body);
            let ghost pv = spans_v(parts@);
            let mut i: usize = 0;
            while i < parts.len()
                invariant
                    i <= parts@.len(),
                    x <= y <= s@.len(),
                    body@.len() == y - x,
                    pv == spans_v(parts@),
                    forall|k: int|
                        0 <= k < parts@.len() ==> (#[trigger] parts@[k]).0 <= parts@[k].1
                            <= body@.len(),
                    texts(out@) == body_errors(s@, x as int, pv, i as nat),
                decreases parts@.len() - i,
            {
                let (p, q) = parts[i];
                assert(parts@[i as int] == (p, q));
                assert(pv[i as int] == (p as int, q as int));
                let text = padded(s, x + p, x + q);
                let e = check_unit(Rule::StatementUnit, &text);
                push_opt(&mut out, e);
                i += 1;
            }
        },
    }
    out
}

/// What is wrong with one member: its statements where that says where, else the member
/// itself.
pub open spec fn member_error(s: Seq<char>, a: int, b: int) -> Seq<Seq<char>> {
    match unit_error(Rule::MemberUnit, padded_spec(s, a, b)) {
        None => Seq::empty(),
        Some(e) => {
            let found = statement_errors_spec(s, a, b);
            if found.len() > 0 {
                found
            } else {
                seq![e]
            }
        },
    }
}

fn check_member(s: &Vec<char>, a: usize, b: usize) -> (r: Vec<String>)
    requires
        a <= b <= s@.len(),
    ensures
        texts(r@) == member_error(s@, a as int, b as int),
{
    let text = padded(s, a, b);
    match check_unit(Rule::MemberUnit, &text) {
        None => {
            let v: Vec<String> = Vec::new();
            assert(texts(v@) =~= Seq::<Seq<char>>::empty());
            v
        },
        Some(e) => {
            let found = statement_errors(s, a, b);
            if found.len() > 0 {
                found
            } else {
                let ghost ev = e@;
                let mut v: Vec<String> = Vec::new();
                v.push(e);
                assert(texts(v@) =~= seq![ev]);
                v
            }
        },
    }
}

/// What is wrong with the first `n` members of a body that starts at `at`.
pub open spec fn members_errors(
    s: Seq<char>,
    at: int,
    parts: Seq<(int, int)>,
    n: nat,
) -> Seq<Seq<char>>
    decreases n,
{
    if n == 0 {
        Seq::empty()
    } else {
        members_errors(s, at, parts, (n - 1) as nat) + member_error(
            s,
            at + parts[n - 1].0,
            at + parts[n - 1].1,
        )
    }
}

/// Whether a text starts like a class.
pub open spec fn class_head(t: Seq<char>) -> bool {
    begins(t, "class "@) || begins(t, "contract "@) || begins(t, "interface "@) || begins(
        t,
        "extern "@,
    )
}

fn is_class_head(t: &str) -> (r: bool)
    ensures
        r == class_head(t@),
{
    starts_with(t, "class ") || starts_with(t, "contract ") || starts_with(t, "interface ")
        || starts_with(t, "extern ")
}

/// What is wrong with the members of a class; nothing where a declaration is none, or
/// where each member can be read.
pub open spec fn member_errors_spec(s: Seq<char>, a: int, b: int) -> Seq<Seq<char>> {
    if !class_head(trim_start_spec(s.subrange(a, b))) {
        Seq::empty()
    } else {
        match braces(s, a, b) {
            None => Seq::empty(),
            Some((x, y)) => {
                let parts = spans_from(s.subrange(x, y), 0, 0, false, None);
                members_errors(s, x, parts, parts.len())
            },
        }
    }
}

fn member_errors(s: &Vec<char>, a: usize, b: usize) -> (r: Vec<String>)
    requires
        a <= b <= s@.len(),
    ensures
        texts(r@) == member_errors_spec(s@, a as int, b as int),
{
    let mut out: Vec<String> = Vec::new();
    assert(texts(out@) =~= Seq::<Seq<char>>::empty());
    let head = trim_start(slice_text(s, a, b).as_str());
    if !is_class_head(head.as_str()) {
        return out;
    }
    match between_braces(s, a, b) {
        None => {},
        Some((x, y)) => {
            let body = chars_of(slice_text(s, x, y).as_str());
            let parts = top_level_spans(&body);
            let ghost pv = spans_v(parts@);
            let mut i: usize = 0;
            while i < parts.len()
                invariant
                    i <= parts@.len(),
                    x <= y <= s@.len(),
                    body@.len() == y - x,
                    pv == spans_v(parts@),
                    forall|k: int|
                        0 <= k < parts@.len() ==> (#[trigger] parts@[k]).0 <= parts@[k].1
                            <= body@.len(),
                    texts(out@) == members_errors(s@, x as int, pv, i as nat),
                decreases parts@.len() - i,
            {
                let (p, q) = parts[i];
                assert(parts@[i as int] == (p, q));
                assert(pv[i as int] == (p as int, q as int));
                let mut more = check_member(s, x + p, x + q);
                let ghost before = texts(out@);
                let ghost mv = texts(more@);
                out.append(&mut more);
                assert(texts(out@) =~= before + mv);
                i += 1;
            }
        },
    }
    out
}

/// The declaration that the node of a unit holds.
pub open spec fn unit_decl(ks: Seq<NodeV>) -> Option<DeclV> {
    if ks.len() > 0 && ks[0].kids.len() > 0 && ks[0].kids[0].kids.len() > 0 {
        decl_of(ks[0].kids[0].kids[0])
    } else {
        None
    }
}

/// One declaration of a source, or what is wrong with it.
pub open spec fn declaration_spec(s: Seq<char>, a: int, b: int) -> Result<
    Option<DeclV>,
    Seq<Seq<char>>,
> {
    let text = padded_spec(s, a, b);
    let m = parse_rule_spec(Rule::DeclUnit, text);
    match m.out {
        Some((_, ks)) => Ok(unit_decl(ks)),
        None => {
            let found = member_errors_spec(s, a, b);
            Err(
                if found.len() > 0 {
                    found
                } else {
                    seq![syntax_error(text, m.far)]
                },
            )
        },
    }
}

pub open spec fn declaration_v(r: Result<Option<Declaration>, Vec<String>>) -> Result<
    Option<DeclV>,
    Seq<Seq<char>>,
> {
    match r {
        Ok(d) => Ok(opt_decl_v(d)),
        Err(e) => Err(texts(e@)),
    }
}

fn parse_one_declaration(s: &Vec<char>, a: usize, b: usize) -> (r: Result<
    Option<Declaration>,
    Vec<String>,
>)
    requires
        a <= b <= s@.len(),
    ensures
        declaration_v(r) == declaration_spec(s@, a as int, b as int),
{
    let text = padded(s, a, b);
    let m = GumParser::parse(Rule::DeclUnit, &text);
    match m.out {
        Some((_, ks)) => {
            let ghost kv = nodes_v(ks@);
            if ks.len() > 0 {
                assert(kv[0] == ks@[0]@);
                let unit = &ks[0].kids;
                if unit.len() > 0 {
                    assert(kv[0].kids[0] == unit@[0]@);
                    let decl = &unit[0].kids;
                    if decl.len() > 0 {
                        assert(kv[0].kids[0].kids[0] == decl@[0]@);
                        return Ok(build_declaration(&decl[0]));
                    }
                }
            }
            Ok(None)
        },
        None => {
            let found = member_errors(s, a, b);
            if found.len() > 0 {
                Err(found)
            } else {
                let e = error_at(&text, m.far);
                let ghost ev = e@;
                let mut v: Vec<String> = Vec::new();
                v.push(e);
                assert(texts(v@) =~= seq![ev]);
                Err(v)
            }
        },
    }
}

/// The declarations of a source, and what is wrong with the others.
pub struct ParsedV {
    pub decls: Seq<DeclV>,
    pub errors: Seq<Seq<char>>,
}

pub open spec fn take_decl(p: ParsedV, r: Result<Option<DeclV>, Seq<Seq<char>>>) -> ParsedV {
    match r {
        Ok(Some(d)) => ParsedV { decls: p.decls.push(d), ..p },
        Ok(None) => p,
        Err(e) => ParsedV { errors: p.errors + e, ..p },
    }
}

/// What the first `n` parts of a source hold.
pub open spec fn parsed_parts(s: Seq<char>, parts: Seq<(int, int)>, n: nat) -> ParsedV
    decreases n,
{
    if n == 0 {
        ParsedV { decls: Seq::empty(), errors: Seq::empty() }
    } else {
        take_decl(
            parsed_parts(s, parts, (n - 1) as nat),
            declaration_spec(s, parts[n - 1].0, parts[n - 1].1),
        )
    }
}

/// The program that a source with braces holds, or everything that is wrong with it.
pub open spec fn parse_braced(s: Seq<char>) -> Result<Seq<DeclV>, Seq<Seq<char>>> {
    let parts = spans_from(s, 0, 0, false, None);
    let p = parsed_parts(s, parts, parts.len());
    if p.errors.len() == 0 {
        Ok(p.decls)
    } else {
        Err(p.errors)
    }
}

/// The program that a source holds, or everything that is wrong with it.
pub open spec fn parse_program_spec(source: Seq<char>) -> Result<Seq<DeclV>, Seq<Seq<char>>> {
    match preprocess_spec(source) {
        Ok(s) => parse_braced(s),
        Err(e) => Err(seq![e]),
    }
}

pub open spec fn program_v(r: Result<Program, Vec<String>>) -> Result<
    Seq<DeclV>,
    Seq<Seq<char>>,
> {
    match r {
        Ok(p) => Ok(decls_v(p.declarations@)),
        Err(e) => Err(texts(e@)),
    }
}

/// Parses a whole program, and reports every malformed declaration rather than the
/// first alone.
pub fn parse_program(source: &str) -> (r: Result<Program, Vec<String>>)
    ensures
        program_v(r) == parse_program_spec(source@),
{
    let text = match preprocess(source) {
        Ok(t) => t,
        Err(e) => {
            let ghost ev = e@;
            let mut v: Vec<String> = Vec::new();
            v.push(e);
            assert(texts(v@) =~= seq![ev]);
            return Err(v);
        },
    };
    let s = chars_of(text.as_str());
    let parts = top_level_spans(&s);
    let ghost pv = spans_v(parts@);
    let mut declarations: Vec<Declaration> = Vec::new();
    let mut errors: Vec<String> = Vec::new();
    proof {
        assert(decls_v(declarations@) =~= Seq::<DeclV>::empty());
        assert(texts(errors@) =~= Seq::<Seq<char>>::empty());
    }
    let mut i: usize = 0;
    while i < parts.len()
        invariant
            i <= parts@.len(),
            pv == spans_v(parts@),
            forall|k: int|
                0 <= k < parts@.len() ==> (#[trigger] parts@[k]).0 <= parts@[k].1 <= s@.len(),
            (ParsedV { decls: decls_v(declarations@), errors: texts(errors@) }) == parsed_parts(
                s@,
                pv,
                i as nat,
            ),
        decreases parts@.len() - i,
    {
        let (a, b) = parts[i];
        assert(parts@[i as int] == (a, b));
        assert(pv[i as int] == (a as int, b as int));
        let ghost ds = decls_v(declarations@);
        let ghost es = texts(errors@);
        match parse_one_declaration(&s, a, b) {
            Ok(Some(d)) => {
                let ghost dv = d@;
                declarations.push(d);
                assert(decls_v(declarations@) =~= ds.push(dv));
            },
            Ok(None) => {},
            Err(e) => {
                let mut e = e;
                let ghost ev = texts(e@);
                errors.append(&mut e);
                assert(texts(errors@) =~= es + ev);
            },
        }
        i += 1;
    }
    if errors.len() == 0 {
        Ok(Program { declarations })
    } else {
        Err(errors)
    }
}

/// A source is a program, or something is wrong with it that is reported: there is no
/// failure without a reason.
pub proof fn law_errors_have_reasons(source: Seq<char>)
    ensures
        parse_program_spec(source) matches Err(e) ==> e.len() > 0,
{
}

/// Each declaration, or what is wrong with it, is found whatever stands in the others:
/// the errors of a source are those of its parts, in order.
pub proof fn law_parts_are_reported(s: Seq<char>, parts: Seq<(int, int)>, n: nat, k: int, e: Seq<char>)
    requires
        n <= parts.len(),
        0 <= k < n,
        declaration_spec(s, parts[k].0, parts[k].1) is Err,
        declaration_spec(s, parts[k].0, parts[k].1)->Err_0.contains(e),
    ensures
        parsed_parts(s, parts, n).errors.contains(e),
    decreases n,
{
    let before = parsed_parts(s, parts, (n - 1) as nat).errors;
    if k == n - 1 {
        let more = declaration_spec(s, parts[k].0, parts[k].1)->Err_0;
        let j = choose|j: int| 0 <= j < more.len() && more[j] == e;
        assert((before + more)[before.len() + j] == e);
    } else {
        law_parts_are_reported(s, parts, (n - 1) as nat, k, e);
        let j = choose|j: int| 0 <= j < before.len() && before[j] == e;
        match declaration_spec(s, parts[n - 1].0, parts[n - 1].1) {
            Err(more) => {
                assert((before + more)[j] == e);
            },
            _ => {},
        }
    }
}

} // verus!
