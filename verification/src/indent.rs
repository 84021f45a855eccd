//! From colon and indentation to braces: a line that ends in a colon opens a block,
//! every other line of code ends in a semicolon, and a block is closed at the end of
//! its last line. No line is added or taken away, so a position in the result is a
//! position in the source.
use crate::codegen::yul::opt_text;
use crate::text::{
    begins, begins_char, cat2, cat3, cat5, chars_of, dec, dec_text, lines, lines_spec, rep,
    repeat, same, slice_text, starts_with, starts_with_char, texts, trim, trim_end, trim_end_spec,
    trim_spec,
};
use vstd::prelude::*;

verus! {

/// Where the comment of a line starts, from `i` on, or the length where there is none;
/// inside a string nothing starts a comment.
pub open spec fn comment_at(s: Seq<char>, i: int, in_string: bool) -> int
    decreases s.len() - i,
{
    if i < 0 || i >= s.len() {
        s.len() as int
    } else if s[i] == '"' {
        comment_at(s, i + 1, !in_string)
    } else if !in_string && (s[i] == '#' || (s[i] == '/' && i + 1 < s.len() && s[i + 1] == '/')) {
        i
    } else {
        comment_at(s, i + 1, in_string)
    }
}

/// A line without its comment.
pub open spec fn code_part(s: Seq<char>) -> Seq<char> {
    s.subrange(0, comment_at(s, 0, false))
}

/// The comment of a line; it starts with two slashes, however it is written.
pub open spec fn comment_part(s: Seq<char>) -> Option<Seq<char>> {
    let at = comment_at(s, 0, false);
    if at < s.len() {
        Some(
            if s[at] == '#' {
                "//"@ + s.subrange(at + 1, s.len() as int)
            } else {
                s.subrange(at, s.len() as int)
            },
        )
    } else {
        None
    }
}

proof fn lemma_comment_at(s: Seq<char>, i: int, in_string: bool)
    requires
        0 <= i <= s.len(),
    ensures
        i <= comment_at(s, i, in_string) <= s.len(),
    decreases s.len() - i,
{
    if i < s.len() {
        lemma_comment_at(s, i + 1, !in_string);
        lemma_comment_at(s, i + 1, in_string);
    }
}

fn split_trailing_comment(line: &str) -> (r: (String, Option<String>))
    ensures
        r.0@ == code_part(line@),
        opt_text(r.1) == comment_part(line@),
{
    let v = chars_of(line);
    let mut in_string = false;
    let mut i: usize = 0;
    while i < v.len()
        invariant
            v@ == line@,
            i <= v@.len(),
            comment_at(line@, 0, false) == comment_at(line@, i as int, in_string),
        decreases v@.len() - i,
    {
        let c = v[i];
        if c == '"' {
            in_string = !in_string;
        } else if !in_string && c == '#' {
            let code = slice_text(&v, 0, i);
            let tail = slice_text(&v, i + 1, v.len());
            return (code, Some(cat2("//", tail.as_str())));
        } else if !in_string && c == '/' && v.len() - i > 1 && v[i + 1] == '/' {
            let code = slice_text(&v, 0, i);
            let tail = slice_text(&v, i, v.len());
            return (code, Some(tail));
        }
        i += 1;
    }
    assert(line@.subrange(0, line@.len() as int) =~= line@);
    (String::from_str(line), None)
}

/// How many blanks and tabs a line starts with, from `i` on.
pub open spec fn leading_from(s: Seq<char>, i: int) -> nat
    decreases s.len() - i,
{
    if 0 <= i < s.len() && (s[i] == ' ' || s[i] == '\t') {
        1 + leading_from(s, i + 1)
    } else {
        0
    }
}

pub open spec fn leading(s: Seq<char>) -> nat {
    leading_from(s, 0)
}

fn leading_indent(line: &str) -> (r: usize)
    ensures
        r == leading(line@),
{
    let v = chars_of(line);
    let mut i: usize = 0;
    while i < v.len() && (v[i] == ' ' || v[i] == '\t')
        invariant
            v@ == line@,
            i <= v@.len(),
            leading(line@) == i + leading_from(line@, i as int),
        decreases v@.len() - i,
    {
        i += 1;
    }
    i
}

/// Whether a line holds no code.
pub open spec fn is_blank(s: Seq<char>) -> bool {
    let t = trim_spec(s);
    t.len() == 0 || begins(t, "//"@) || begins_char(t, '#')
}

fn blank(s: &str) -> (r: bool)
    ensures
        r == is_blank(s@),
{
    let t = trim(s);
    t.as_str().is_empty() || starts_with(t.as_str(), "//") || starts_with_char(t.as_str(), '#')
}

/// Whether the last character of `s` is `c`.
pub open spec fn ends_char(s: Seq<char>, c: char) -> bool {
    s.len() > 0 && s.last() == c
}

fn ends_with_char(s: &str, c: char) -> (r: bool)
    ensures
        r == ends_char(s@, c),
{
    let v = chars_of(s);
    v.len() > 0 && v[v.len() - 1] == c
}

/// Whether a line is an attribute of the declaration below it.
pub open spec fn attribute_line(s: Seq<char>) -> bool {
    begins_char(s, '[') && ends_char(s, ']')
}

fn is_attribute(code: &str) -> (r: bool)
    ensures
        r == attribute_line(code@),
{
    starts_with_char(code, '[') && ends_with_char(code, ']')
}

/// A line of the result.
pub struct LineV {
    pub code: Seq<char>,
    /// Whether it opens a block.
    pub opens: bool,
    /// How many blocks are closed at its end.
    pub closers: nat,
    pub comment: Option<Seq<char>>,
}

pub open spec fn line_code(l: LineV) -> Seq<char> {
    l.code + rep(" }"@, l.closers)
}

/// How far the lines have been taken.
#[verifier::ext_equal]
pub struct IndentV {
    /// The indents of the open blocks, from the outermost to the innermost.
    pub stack: Seq<nat>,
    /// Whether the last line of code opened a block.
    pub pending: bool,
    /// The indent of the header of an open `unsafe` block, whose lines are no code of
    /// this language.
    pub unsafe_at: Option<nat>,
    pub lines: Seq<LineV>,
}

/// One block is closed at the end of the last line.
pub open spec fn close_last(lines: Seq<LineV>) -> Seq<LineV> {
    if lines.len() == 0 {
        lines
    } else {
        lines.update(
            lines.len() - 1,
            LineV { closers: lines.last().closers + 1, ..lines.last() },
        )
    }
}

/// The blocks that are deeper than a line's indent are closed.
pub open spec fn dedent(st: IndentV, indent: nat) -> IndentV
    decreases st.stack.len(),
{
    if st.stack.len() > 0 && indent < st.stack.last() {
        dedent(
            IndentV { stack: st.stack.drop_last(), lines: close_last(st.lines), ..st },
            indent,
        )
    } else {
        st
    }
}

/// A line of code below an `unsafe` block ends it.
pub open spec fn end_unsafe(st: IndentV) -> IndentV {
    if st.unsafe_at is Some {
        IndentV { unsafe_at: None, lines: close_last(st.lines), ..st }
    } else {
        st
    }
}

/// A header is followed by a deeper line, or its block is empty.
pub open spec fn enter_block(st: IndentV, indent: nat) -> IndentV {
    if st.pending {
        if indent > st.stack.last() {
            IndentV { stack: st.stack.push(indent), pending: false, ..st }
        } else {
            IndentV { pending: false, lines: close_last(st.lines), ..st }
        }
    } else {
        st
    }
}

/// The code of a line at an indent, from its text.
pub open spec fn emit_line(st: IndentV, indent: nat, code: Seq<char>, comment: Option<Seq<char>>) -> IndentV {
    let pad = rep(" "@, indent);
    if ends_char(code, ':') {
        let header = trim_end_spec(code.drop_last());
        let line = LineV { code: pad + header + " {"@, opens: true, closers: 0, comment };
        if trim_spec(header) == "unsafe"@ {
            IndentV { unsafe_at: Some(indent), lines: st.lines.push(line), ..st }
        } else {
            IndentV { pending: true, lines: st.lines.push(line), ..st }
        }
    } else {
        let text = if attribute_line(code) {
            pad + code
        } else {
            pad + code + ";"@
        };
        IndentV {
            lines: st.lines.push(LineV { code: text, opens: false, closers: 0, comment }),
            ..st
        }
    }
}

pub open spec fn plain_line(st: IndentV, code: Seq<char>, raw: Seq<char>) -> IndentV {
    IndentV {
        lines: st.lines.push(
            LineV { code, opens: false, closers: 0, comment: comment_part(raw) },
        ),
        ..st
    }
}

/// Whether a line belongs to an open `unsafe` block.
pub open spec fn in_unsafe(st: IndentV, raw: Seq<char>) -> bool {
    st.unsafe_at matches Some(h) && leading(raw) > h
}

/// The state in which the code of a line is taken.
pub open spec fn settle(st: IndentV, raw: Seq<char>) -> IndentV {
    dedent(enter_block(end_unsafe(st), leading(raw)), leading(raw))
}

/// One line, the `n`th of the source.
pub open spec fn line_step(st: IndentV, n: nat, raw: Seq<char>) -> Result<IndentV, Seq<char>> {
    if is_blank(raw) {
        Ok(plain_line(st, code_part(raw), raw))
    } else if in_unsafe(st, raw) {
        Ok(plain_line(st, trim_end_spec(code_part(raw)), raw))
    } else {
        let indent = leading(raw);
        let st = settle(st, raw);
        if indent != st.stack.last() {
            Err(
                "Indentation error on line "@ + dec(n) + ": inconsistent indent (got "@ + dec(
                    indent,
                ) + ", expected "@ + dec(st.stack.last()) + ")"@,
            )
        } else {
            let text = trim_end_spec(raw);
            Ok(emit_line(st, indent, trim_spec(code_part(text)), comment_part(text)))
        }
    }
}

/// The first `n` lines.
pub open spec fn lines_step(ls: Seq<Seq<char>>, n: nat) -> Result<IndentV, Seq<char>>
    decreases n,
{
    if n == 0 {
        Ok(
            IndentV {
                stack: seq![0nat],
                pending: false,
                unsafe_at: None,
                lines: Seq::empty(),
            },
        )
    } else {
        match lines_step(ls, (n - 1) as nat) {
            Ok(st) => line_step(st, n, ls[n - 1]),
            Err(e) => Err(e),
        }
    }
}

/// The blocks that are still open at the end are closed.
pub open spec fn close_all(st: IndentV) -> IndentV
    decreases st.stack.len(),
{
    if st.stack.len() > 1 {
        close_all(IndentV { stack: st.stack.drop_last(), lines: close_last(st.lines), ..st })
    } else {
        st
    }
}

pub open spec fn close_pending(st: IndentV) -> IndentV {
    if st.pending {
        IndentV { pending: false, lines: close_last(st.lines), ..st }
    } else {
        st
    }
}

pub open spec fn finish(st: IndentV) -> Seq<LineV> {
    close_all(close_pending(end_unsafe(st))).lines
}

/// A line with its comment.
pub open spec fn line_text(l: LineV) -> Seq<char> {
    let code = line_code(l);
    match l.comment {
        Some(c) => (if code.len() > 0 && code.last() != ' ' {
            code + " "@
        } else {
            code
        }) + c,
        None => code,
    }
}

/// The first `n` lines as one text.
pub open spec fn joined_lines(ls: Seq<LineV>, n: nat) -> Seq<char>
    decreases n,
{
    if n == 0 {
        Seq::empty()
    } else {
        joined_lines(ls, (n - 1) as nat) + line_text(ls[n - 1]) + "\n"@
    }
}

/// The source with braces.
pub open spec fn preprocess_spec(source: Seq<char>) -> Result<Seq<char>, Seq<char>> {
    let ls = lines_spec(source);
    match lines_step(ls, ls.len()) {
        Ok(st) => Ok(joined_lines(finish(st), finish(st).len())),
        Err(e) => Err(e),
    }
}

struct OutLine {
    code: String,
    comment: Option<String>,
}

/// The lines as far as they are written.
spec fn written(out: Seq<OutLine>, lines: Seq<LineV>) -> bool {
    &&& out.len() == lines.len()
    &&& forall|i: int|
        0 <= i < out.len() ==> (#[trigger] out[i]).code@ == line_code(lines[i]) && opt_text(
            out[i].comment,
        ) == lines[i].comment
}

fn push_closer(lines: &mut Vec<OutLine>, Ghost(ls): Ghost<Seq<LineV>>)
    requires
        written(old(lines)@, ls),
    ensures
        written(final(lines)@, close_last(ls)),
{
    match lines.pop() {
        Some(mut last) => {
            let ghost l = ls.last();
            last.code.append(" }");
            proof {
                assert(line_code(LineV { closers: l.closers + 1, ..l }) =~= line_code(l) + " }"@);
            }
            lines.push(last);
        },
        None => {},
    }
}

fn push_line(
    lines: &mut Vec<OutLine>,
    code: String,
    comment: Option<String>,
    Ghost(ls): Ghost<Seq<LineV>>,
    Ghost(opens): Ghost<bool>,
)
    requires
        written(old(lines)@, ls),
    ensures
        written(
            final(lines)@,
            ls.push(LineV { code: code@, opens, closers: 0, comment: opt_text(comment) }),
        ),
{
    let ghost l = LineV { code: code@, opens, closers: 0, comment: opt_text(comment) };
    assert(line_code(l) =~= l.code);
    lines.push(OutLine { code, comment });
}

/// The indents as they stand in the stack.
spec fn indents(s: Seq<usize>) -> Seq<nat> {
    Seq::new(s.len(), |i: int| s[i] as nat)
}

/// The text of a header, a statement or an attribute at its indent, and whether it
/// opens a block.
fn emitted(indent: usize, code: &str) -> (r: (String, bool, bool))
    ensures
        r.1 == ends_char(code@, ':'),
        r.2 == (r.1 && trim_spec(trim_end_spec(code@.drop_last())) == "unsafe"@),
        r.0@ == (if ends_char(code@, ':') {
            rep(" "@, indent as nat) + trim_end_spec(code@.drop_last()) + " {"@
        } else if attribute_line(code@) {
            rep(" "@, indent as nat) + code@
        } else {
            rep(" "@, indent as nat) + code@ + ";"@
        }),
{
    let pad = repeat(" ", indent);
    if ends_with_char(code, ':') {
        let v = chars_of(code);
        let head = slice_text(&v, 0, v.len() - 1);
        assert(head@ =~= code@.drop_last());
        let header = trim_end(head.as_str());
        let is_unsafe = same(trim(header.as_str()).as_str(), "unsafe");
        (cat3(pad.as_str(), header.as_str(), " {"), true, is_unsafe)
    } else if is_attribute(code) {
        (cat2(pad.as_str(), code), false, false)
    } else {
        (cat3(pad.as_str(), code, ";"), false, false)
    }
}

struct Indenter {
    stack: Vec<usize>,
    pending: bool,
    unsafe_at: Option<usize>,
    lines: Vec<OutLine>,
}

impl Indenter {
    spec fn stands_for(&self, st: IndentV) -> bool {
        &&& indents(self.stack@) == st.stack
        &&& st.stack.len() > 0
        &&& st.stack[0] == 0
        &&& self.pending == st.pending
        &&& st.unsafe_at == (match self.unsafe_at {
            Some(h) => Some(h as nat),
            None => None,
        })
        &&& written(self.lines@, st.lines)
    }

    fn end_unsafe(&mut self, Ghost(st): Ghost<IndentV>)
        requires
            old(self).stands_for(st),
        ensures
            final(self).stands_for(end_unsafe(st)),
    {
        if self.unsafe_at.is_some() {
            push_closer(&mut self.lines, Ghost(st.lines));
            self.unsafe_at = None;
        }
    }

    fn enter_block(&mut self, indent: usize, Ghost(st): Ghost<IndentV>)
        requires
            old(self).stands_for(st),
        ensures
            final(self).stands_for(enter_block(st, indent as nat)),
    {
        if self.pending {
            let top = self.stack[self.stack.len() - 1];
            assert(st.stack.last() == top as nat);
            if indent > top {
                self.stack.push(indent);
                assert(indents(self.stack@) =~= st.stack.push(indent as nat));
            } else {
                push_closer(&mut self.lines, Ghost(st.lines));
            }
            self.pending = false;
        }
    }

    fn dedent(&mut self, indent: usize, Ghost(st): Ghost<IndentV>)
        requires
            old(self).stands_for(st),
        ensures
            final(self).stands_for(dedent(st, indent as nat)),
    {
        let ghost mut cur = st;
        while indent < self.stack[self.stack.len() - 1]
            invariant
                self.stands_for(cur),
                dedent(st, indent as nat) == dedent(cur, indent as nat),
            decreases self.stack@.len(),
        {
            assert(cur.stack.last() == self.stack@.last() as nat);
            assert(cur.stack.len() > 1);
            let _ = self.stack.pop();
            push_closer(&mut self.lines, Ghost(cur.lines));
            proof {
                let next = IndentV {
                    stack: cur.stack.drop_last(),
                    lines: close_last(cur.lines),
                    ..cur
                };
                assert(indents(self.stack@) =~= next.stack);
                cur = next;
            }
        }
        assert(cur.stack.last() == self.stack@.last() as nat);
    }

    fn close_all(&mut self, Ghost(st): Ghost<IndentV>)
        requires
            old(self).stands_for(st),
        ensures
            final(self).stands_for(close_all(st)),
    {
        let ghost mut cur = st;
        while self.stack.len() > 1
            invariant
                self.stands_for(cur),
                close_all(st) == close_all(cur),
            decreases self.stack@.len(),
        {
            let _ = self.stack.pop();
            push_closer(&mut self.lines, Ghost(cur.lines));
            proof {
                let next = IndentV {
                    stack: cur.stack.drop_last(),
                    lines: close_last(cur.lines),
                    ..cur
                };
                assert(indents(self.stack@) =~= next.stack);
                cur = next;
            }
        }
    }

    fn emit(&mut self, indent: usize, raw: &str, Ghost(st): Ghost<IndentV>)
        requires
            old(self).stands_for(st),
        ensures
            final(self).stands_for(
                emit_line(
                    st,
                    indent as nat,
                    trim_spec(code_part(trim_end_spec(raw@))),
                    comment_part(trim_end_spec(raw@)),
                ),
            ),
    {
        let text = trim_end(raw);
        let (code, comment) = split_trailing_comment(text.as_str());
        let code = trim(code.as_str());
        let (out, opens, is_unsafe) = emitted(indent, code.as_str());
        push_line(&mut self.lines, out, comment, Ghost(st.lines), Ghost(opens));
        if is_unsafe {
            self.unsafe_at = Some(indent);
        } else if opens {
            self.pending = true;
        }
    }

    fn step(&mut self, n: usize, raw: &str, Ghost(st): Ghost<IndentV>) -> (r: Result<(), String>)
        requires
            old(self).stands_for(st),
        ensures
            match line_step(st, n as nat, raw@) {
                Ok(next) => r is Ok && final(self).stands_for(next),
                Err(e) => r matches Err(x) && x@ == e,
            },
    {
        if blank(raw) {
            let (code, comment) = split_trailing_comment(raw);
            push_line(&mut self.lines, code, comment, Ghost(st.lines), Ghost(false));
            return Ok(());
        }
        let indent = leading_indent(raw);
        match self.unsafe_at {
            Some(h) => {
                if indent > h {
                    let (code, comment) = split_trailing_comment(raw);
                    let code = trim_end(code.as_str());
                    push_line(&mut self.lines, code, comment, Ghost(st.lines), Ghost(false));
                    return Ok(());
                }
            },
            None => {},
        }
        self.end_unsafe(Ghost(st));
        let ghost s1 = end_unsafe(st);
        self.enter_block(indent, Ghost(s1));
        let ghost s2 = enter_block(s1, indent as nat);
        self.dedent(indent, Ghost(s2));
        let ghost s3 = dedent(s2, indent as nat);
        assert(s3 == settle(st, raw@));
        let top = self.stack[self.stack.len() - 1];
        assert(s3.stack.last() == top as nat);
        if indent != top {
            let a = cat5(
                "Indentation error on line ",
                dec_text(n).as_str(),
                ": inconsistent indent (got ",
                dec_text(indent).as_str(),
                ", expected ",
            );
            return Err(cat3(a.as_str(), dec_text(top).as_str(), ")"));
        }
        self.emit(indent, raw, Ghost(s3));
        Ok(())
    }
}

proof fn lemma_lines_err(ls: Seq<Seq<char>>, n: nat, m: nat)
    requires
        n <= m,
        lines_step(ls, n) is Err,
    ensures
        lines_step(ls, m) == lines_step(ls, n),
    decreases m,
{
    if n < m {
        lemma_lines_err(ls, n, (m - 1) as nat);
    }
}

fn join_lines(lines: &Vec<OutLine>, Ghost(ls): Ghost<Seq<LineV>>) -> (r: String)
    requires
        written(lines@, ls),
    ensures
        r@ == joined_lines(ls, ls.len()),
{
    let mut out = String::new();
    let mut i: usize = 0;
    while i < lines.len()
        invariant
            i <= lines@.len(),
            written(lines@, ls),
            out@ == joined_lines(ls, i as nat),
        decreases lines@.len() - i,
    {
        let line = &lines[i];
        let ghost before = out@;
        out.append(line.code.as_str());
        match &line.comment {
            Some(c) => {
                if !line.code.as_str().is_empty() && !ends_with_char(line.code.as_str(), ' ') {
                    out.append(" ");
                }
                out.append(c.as_str());
            },
            None => {},
        }
        assert(out@ =~= before + line_text(ls[i as int]));
        out.append("\n");
        i += 1;
    }
    out
}

pub open spec fn res_text(r: Result<String, String>) -> Result<Seq<char>, Seq<char>> {
    match r {
        Ok(s) => Ok(s@),
        Err(e) => Err(e@),
    }
}

/// Puts braces and semicolons into a source, or says which line has an indent that no
/// open block has.
pub fn preprocess(source: &str) -> (r: Result<String, String>)
    ensures
        res_text(r) == preprocess_spec(source@),
{
    let src = lines(source);
    let ghost ls = lines_spec(source@);
    let mut stack: Vec<usize> = Vec::new();
    stack.push(0);
    let mut ind = Indenter { stack, pending: false, unsafe_at: None, lines: Vec::new() };
    let ghost mut st = IndentV {
        stack: seq![0nat],
        pending: false,
        unsafe_at: None,
        lines: Seq::empty(),
    };
    assert(indents(ind.stack@) =~= st.stack);
    let mut i: usize = 0;
    while i < src.len()
        invariant
            i <= src@.len(),
            texts(src@) == ls,
            ls == lines_spec(source@),
            ind.stands_for(st),
            lines_step(ls, i as nat) == Ok::<IndentV, Seq<char>>(st),
        decreases src@.len() - i,
    {
        assert(ls[i as int] == src@[i as int]@);
        match ind.step(i + 1, src[i].as_str(), Ghost(st)) {
            Ok(_) => {
                proof {
                    st = lines_step(ls, (i + 1) as nat)->Ok_0;
                }
            },
            Err(e) => {
                proof {
                    lemma_lines_err(ls, (i + 1) as nat, ls.len());
                }
                return Err(e);
            },
        }
        i += 1;
    }
    ind.end_unsafe(Ghost(st));
    let ghost s1 = end_unsafe(st);
    if ind.pending {
        push_closer(&mut ind.lines, Ghost(s1.lines));
        ind.pending = false;
    }
    let ghost s2 = close_pending(s1);
    ind.close_all(Ghost(s2));
    assert(finish(st) == close_all(s2).lines);
    Ok(join_lines(&ind.lines, Ghost(finish(st))))
}

/// How many of the first `n` lines open a block.
pub open spec fn opened(ls: Seq<LineV>, n: nat) -> nat
    decreases n,
{
    if n == 0 {
        0
    } else {
        opened(ls, (n - 1) as nat) + (if ls[n - 1].opens {
            1nat
        } else {
            0nat
        })
    }
}

/// How many blocks are closed at the ends of the first `n` lines.
pub open spec fn closed(ls: Seq<LineV>, n: nat) -> nat
    decreases n,
{
    if n == 0 {
        0
    } else {
        closed(ls, (n - 1) as nat) + ls[n - 1].closers
    }
}

/// How many blocks are open.
spec fn depth(st: IndentV) -> int {
    st.stack.len() - 1 + (if st.pending {
        1int
    } else {
        0
    }) + (if st.unsafe_at is Some {
        1int
    } else {
        0
    })
}

/// As many blocks are open as have been opened and not closed; only an unfinished
/// header or an unfinished `unsafe` block stands open at a time.
spec fn balanced(st: IndentV) -> bool {
    &&& st.stack.len() > 0
    &&& st.stack[0] == 0
    &&& !(st.pending && st.unsafe_at is Some)
    &&& opened(st.lines, st.lines.len()) == closed(st.lines, st.lines.len()) + depth(st)
}

proof fn lemma_counts_agree(a: Seq<LineV>, b: Seq<LineV>, n: nat)
    requires
        n <= a.len(),
        n <= b.len(),
        forall|i: int| 0 <= i < n ==> a[i] == b[i],
    ensures
        opened(a, n) == opened(b, n),
        closed(a, n) == closed(b, n),
    decreases n,
{
    if n > 0 {
        lemma_counts_agree(a, b, (n - 1) as nat);
    }
}

proof fn lemma_close_last(ls: Seq<LineV>)
    requires
        opened(ls, ls.len()) > closed(ls, ls.len()),
    ensures
        close_last(ls).len() == ls.len(),
        opened(close_last(ls), ls.len()) == opened(ls, ls.len()),
        closed(close_last(ls), ls.len()) == closed(ls, ls.len()) + 1,
{
    lemma_counts_agree(close_last(ls), ls, (ls.len() - 1) as nat);
}

proof fn lemma_push(ls: Seq<LineV>, l: LineV)
    ensures
        opened(ls.push(l), ls.len() + 1) == opened(ls, ls.len()) + (if l.opens {
            1nat
        } else {
            0nat
        }),
        closed(ls.push(l), ls.len() + 1) == closed(ls, ls.len()) + l.closers,
{
    lemma_counts_agree(ls.push(l), ls, ls.len());
}

proof fn lemma_end_unsafe(st: IndentV)
    requires
        balanced(st),
    ensures
        balanced(end_unsafe(st)),
        end_unsafe(st).lines.len() == st.lines.len(),
        end_unsafe(st).unsafe_at is None,
{
    if st.unsafe_at is Some {
        lemma_close_last(st.lines);
    }
}

proof fn lemma_enter_block(st: IndentV, indent: nat)
    requires
        balanced(st),
        st.unsafe_at is None,
    ensures
        balanced(enter_block(st, indent)),
        enter_block(st, indent).lines.len() == st.lines.len(),
        enter_block(st, indent).unsafe_at is None,
        !enter_block(st, indent).pending,
{
    if st.pending && indent <= st.stack.last() {
        lemma_close_last(st.lines);
    }
}

proof fn lemma_dedent(st: IndentV, indent: nat)
    requires
        balanced(st),
    ensures
        balanced(dedent(st, indent)),
        dedent(st, indent).lines.len() == st.lines.len(),
        dedent(st, indent).unsafe_at == st.unsafe_at,
        dedent(st, indent).pending == st.pending,
    decreases st.stack.len(),
{
    if indent < st.stack.last() {
        assert(st.stack.len() > 1);
        lemma_close_last(st.lines);
        lemma_dedent(
            IndentV { stack: st.stack.drop_last(), lines: close_last(st.lines), ..st },
            indent,
        );
    }
}

proof fn lemma_close_all(st: IndentV)
    requires
        balanced(st),
        !st.pending,
        st.unsafe_at is None,
    ensures
        balanced(close_all(st)),
        close_all(st).lines.len() == st.lines.len(),
        depth(close_all(st)) == 0,
    decreases st.stack.len(),
{
    if st.stack.len() > 1 {
        lemma_close_last(st.lines);
        lemma_close_all(
            IndentV { stack: st.stack.drop_last(), lines: close_last(st.lines), ..st },
        );
    }
}

proof fn lemma_line_step(st: IndentV, n: nat, raw: Seq<char>)
    requires
        balanced(st),
    ensures
        line_step(st, n, raw) matches Ok(next) ==> balanced(next) && next.lines.len()
            == st.lines.len() + 1,
{
    if is_blank(raw) {
        lemma_push(
            st.lines,
            LineV { code: code_part(raw), opens: false, closers: 0, comment: comment_part(raw) },
        );
    } else if in_unsafe(st, raw) {
        lemma_push(
            st.lines,
            LineV {
                code: trim_end_spec(code_part(raw)),
                opens: false,
                closers: 0,
                comment: comment_part(raw),
            },
        );
    } else {
        let indent = leading(raw);
        lemma_end_unsafe(st);
        lemma_enter_block(end_unsafe(st), indent);
        lemma_dedent(enter_block(end_unsafe(st), indent), indent);
        let mid = settle(st, raw);
        if indent == mid.stack.last() {
            let next = line_step(st, n, raw)->Ok_0;
            lemma_push(mid.lines, next.lines.last());
            assert(next.lines =~= mid.lines.push(next.lines.last()));
        }
    }
}

proof fn lemma_lines_step(ls: Seq<Seq<char>>, n: nat)
    ensures
        lines_step(ls, n) matches Ok(st) ==> balanced(st) && st.lines.len() == n,
    decreases n,
{
    if n > 0 {
        lemma_lines_step(ls, (n - 1) as nat);
        match lines_step(ls, (n - 1) as nat) {
            Ok(st) => lemma_line_step(st, n, ls[n - 1]),
            Err(_) => {},
        }
    }
}

/// Every block that is opened is closed, and there are as many lines as before.
pub proof fn law_blocks_balance(ls: Seq<Seq<char>>)
    ensures
        lines_step(ls, ls.len()) matches Ok(st) ==> finish(st).len() == ls.len() && opened(
            finish(st),
            finish(st).len(),
        ) == closed(finish(st), finish(st).len()),
{
    lemma_lines_step(ls, ls.len());
    match lines_step(ls, ls.len()) {
        Ok(st) => {
            lemma_end_unsafe(st);
            let a = end_unsafe(st);
            if a.pending {
                lemma_close_last(a.lines);
            }
            lemma_close_all(close_pending(a));
        },
        Err(_) => {},
    }
}

} // verus!
