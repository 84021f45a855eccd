//! What a block of statements has to do with the names around it: which it mentions,
//! which it may change, and whether it returns.
use crate::ast::{
    arms_v, body_v, exprs_v, segs_v, ArmV, Expr, ExprV, FStringSegment, MatchArm, SegV, Spanned,
    SpannedV, Statement, StmtV,
};
use crate::lexer::{is_letter, lemma_word_end, letter, word_end, word_end_at};
use crate::text::{chars_of, slice_text, texts};
use vstd::prelude::*;

verus! {

broadcast use crate::ast::group_views;

/// The words of a text from `i` on.
pub open spec fn words_from(s: Seq<char>, i: int) -> Seq<Seq<char>>
    decreases s.len() - i,
{
    if i < 0 || i >= s.len() {
        Seq::empty()
    } else if is_letter(s[i]) {
        proof {
            lemma_word_end(s, i);
        }
        seq![s.subrange(i, word_end(s, i))] + words_from(s, word_end(s, i))
    } else {
        words_from(s, i + 1)
    }
}

fn add_words(code: &str, out: &mut Vec<String>)
    ensures
        texts(final(out)@) == texts(old(out)@) + words_from(code@, 0),
{
    let v = chars_of(code);
    let ghost before = texts(out@);
    let mut i: usize = 0;
    assert(texts(out@) + words_from(v@, 0) =~= before + words_from(v@, 0));
    while i < v.len()
        invariant
            i <= v@.len(),
            v@ == code@,
            texts(out@) + words_from(v@, i as int) == before + words_from(v@, 0),
        decreases v@.len() - i,
    {
        if letter(v[i]) {
            proof {
                lemma_word_end(v@, i as int);
            }
            let e = word_end_at(&v, i);
            let w = slice_text(&v, i, e);
            let ghost so_far = texts(out@);
            let ghost wv = w@;
            out.push(w);
            assert(texts(out@) =~= so_far.push(wv));
            assert(texts(out@) + words_from(v@, e as int) =~= so_far + words_from(v@, i as int));
            i = e;
        } else {
            i += 1;
        }
    }
    assert(texts(out@) =~= before + words_from(v@, 0));
}

/// The names that an expression mentions.
pub open spec fn names_in(e: ExprV) -> Seq<Seq<char>>
    decreases e, 1nat,
{
    match e {
        ExprV::Identifier(n) => seq![n],
        ExprV::FnCall { args, .. } => names_in_all(args, args.len()),
        ExprV::Instantiation { args, .. } => names_in_all(args, args.len()),
        ExprV::StaticCall { args, .. } => names_in_all(args, args.len()),
        ExprV::ArrayLiteral(args) => names_in_all(args, args.len()),
        ExprV::PropertyAccess { base, .. } => names_in(*base),
        ExprV::Neg(x) => names_in(*x),
        ExprV::Not(x) => names_in(*x),
        ExprV::MethodCall { base, args, .. } => names_in(*base) + names_in_all(args, args.len()),
        ExprV::IndexAccess { base, index } => names_in(*base) + names_in(*index),
        ExprV::BinaryOp { left, right, .. } => names_in(*left) + names_in(*right),
        ExprV::FString(segs) => names_in_segs(segs, segs.len()),
        _ => Seq::empty(),
    }
}

pub open spec fn names_in_all(xs: Seq<ExprV>, n: nat) -> Seq<Seq<char>>
    decreases xs, n,
{
    if n == 0 || n > xs.len() {
        Seq::empty()
    } else {
        names_in_all(xs, (n - 1) as nat) + names_in(xs[n - 1])
    }
}

pub open spec fn names_in_segs(segs: Seq<SegV>, n: nat) -> Seq<Seq<char>>
    decreases segs, n,
{
    if n == 0 || n > segs.len() {
        Seq::empty()
    } else {
        names_in_segs(segs, (n - 1) as nat) + (match segs[n - 1] {
            SegV::Interp(x) => names_in(x),
            SegV::Literal(_) => Seq::empty(),
        })
    }
}

pub open spec fn names_in_opt(e: Option<ExprV>) -> Seq<Seq<char>> {
    match e {
        Some(x) => names_in(x),
        None => Seq::empty(),
    }
}

fn push_name(out: &mut Vec<String>, n: &String)
    ensures
        texts(final(out)@) == texts(old(out)@) + seq![n@],
{
    let ghost before = texts(out@);
    let c = n.clone();
    let ghost cv = c@;
    out.push(c);
    assert(texts(out@) =~= before + seq![cv]);
}

fn add_names(e: &Expr, out: &mut Vec<String>)
    ensures
        texts(final(out)@) == texts(old(out)@) + names_in(e@),
    decreases e, 1nat,
{
    let ghost before = texts(out@);
    proof {
        reveal_with_fuel(Expr::view, 2);
    }
    match e {
        Expr::Identifier(n) => {
            push_name(out, n);
        },
        Expr::FnCall { args, .. } => {
            add_all_names(args, out);
        },
        Expr::Instantiation { args, .. } => {
            add_all_names(args, out);
        },
        Expr::StaticCall { args, .. } => {
            add_all_names(args, out);
        },
        Expr::ArrayLiteral(args) => {
            add_all_names(args, out);
        },
        Expr::PropertyAccess { base, .. } => {
            add_names(base, out);
        },
        Expr::Neg(x) => {
            add_names(x, out);
        },
        Expr::Not(x) => {
            add_names(x, out);
        },
        Expr::MethodCall { base, args, .. } => {
            add_names(base, out);
            add_all_names(args, out);
            assert(texts(out@) =~= before + names_in(e@));
        },
        Expr::IndexAccess { base, index } => {
            add_names(base, out);
            add_names(index, out);
            assert(texts(out@) =~= before + names_in(e@));
        },
        Expr::BinaryOp { left, right, .. } => {
            add_names(left, out);
            add_names(right, out);
            assert(texts(out@) =~= before + names_in(e@));
        },
        Expr::FString(segs) => {
            add_seg_names(segs, out);
        },
        _ => {
            assert(texts(out@) =~= before + names_in(e@));
        },
    }
}

fn add_all_names(xs: &Vec<Expr>, out: &mut Vec<String>)
    ensures
        texts(final(out)@) == texts(old(out)@) + names_in_all(exprs_v(xs@), xs@.len()),
    decreases xs, 0nat,
{
    let ghost before = texts(out@);
    let mut i: usize = 0;
    assert(texts(out@) =~= before + names_in_all(exprs_v(xs@), 0));
    while i < xs.len()
        invariant
            i <= xs@.len(),
            texts(out@) == before + names_in_all(exprs_v(xs@), i as nat),
        decreases xs@.len() - i,
    {
        let x: &Expr = &xs[i];
        assert(decreases_to!(*xs => *x));
        assert(exprs_v(xs@)[i as int] == x@);
        add_names(x, out);
        assert(texts(out@) =~= before + names_in_all(exprs_v(xs@), (i + 1) as nat));
        i += 1;
    }
}

fn add_seg_names(segs: &Vec<FStringSegment>, out: &mut Vec<String>)
    ensures
        texts(final(out)@) == texts(old(out)@) + names_in_segs(segs_v(segs@), segs@.len()),
    decreases segs, 0nat,
{
    let ghost before = texts(out@);
    let mut i: usize = 0;
    assert(texts(out@) =~= before + names_in_segs(segs_v(segs@), 0));
    while i < segs.len()
        invariant
            i <= segs@.len(),
            texts(out@) == before + names_in_segs(segs_v(segs@), i as nat),
        decreases segs@.len() - i,
    {
        let s: &FStringSegment = &segs[i];
        assert(decreases_to!(*segs => *s));
        assert(segs_v(segs@)[i as int] == s@);
        match s {
            FStringSegment::Interp(x) => {
                add_names(x, out);
            },
            FStringSegment::Literal(_) => {},
        }
        assert(texts(out@) =~= before + names_in_segs(segs_v(segs@), (i + 1) as nat));
        i += 1;
    }
}

/// The name at the root of an lvalue.
pub open spec fn root_of(e: ExprV) -> Seq<Seq<char>>
    decreases e,
{
    match e {
        ExprV::Identifier(n) => seq![n],
        ExprV::PropertyAccess { base, .. } => root_of(*base),
        ExprV::IndexAccess { base, .. } => root_of(*base),
        _ => Seq::empty(),
    }
}

fn add_root(e: &Expr, out: &mut Vec<String>)
    ensures
        texts(final(out)@) == texts(old(out)@) + root_of(e@),
    decreases e,
{
    let ghost before = texts(out@);
    proof {
        reveal_with_fuel(Expr::view, 2);
    }
    match e {
        Expr::Identifier(n) => {
            push_name(out, n);
        },
        Expr::PropertyAccess { base, .. } => {
            add_root(base, out);
        },
        Expr::IndexAccess { base, .. } => {
            add_root(base, out);
        },
        _ => {
            assert(texts(out@) =~= before + root_of(e@));
        },
    }
}

/// What an expression mentions, where that is asked for.
pub open spec fn read_in(e: ExprV, w: bool) -> Seq<Seq<char>> {
    if w {
        Seq::empty()
    } else {
        names_in(e)
    }
}

/// The names that a statement mentions or, with `w`, those that it assigns. Raw code may
/// do either with every word in it.
pub open spec fn touched(s: StmtV, w: bool) -> Seq<Seq<char>>
    decreases s, 1nat,
{
    match s {
        StmtV::VarDecl { value, .. } => if w {
            Seq::empty()
        } else {
            names_in_opt(value)
        },
        StmtV::Assignment { target, value } => if w {
            root_of(target)
        } else {
            names_in(target) + names_in(value)
        },
        StmtV::BitwiseFlip { name, index, value } => seq![name] + read_in(index, w) + read_in(
            value,
            w,
        ),
        StmtV::Assert { condition, message } => read_in(condition, w) + (if w {
            Seq::empty()
        } else {
            names_in_opt(message)
        }),
        StmtV::Revert { error } => read_in(error, w),
        StmtV::Delete { target } => if w {
            root_of(target)
        } else {
            names_in(target)
        },
        StmtV::Return { value } => if w {
            Seq::empty()
        } else {
            names_in_opt(value)
        },
        StmtV::IfElse { condition, if_body, else_body } => read_in(condition, w) + touched_body(
            if_body,
            w,
            if_body.len(),
        ) + (match else_body {
            Some(b) => touched_body(b, w, b.len()),
            None => Seq::empty(),
        }),
        StmtV::ForLoop { iterable, body, .. } => read_in(iterable, w) + touched_body(
            body,
            w,
            body.len(),
        ),
        StmtV::WhileLoop { condition, body } => read_in(condition, w) + touched_body(
            body,
            w,
            body.len(),
        ),
        StmtV::TryCatch { try_body, catch_body } => touched_body(try_body, w, try_body.len())
            + touched_body(catch_body, w, catch_body.len()),
        StmtV::ScopedTryCall { catch_body, .. } => touched_body(catch_body, w, catch_body.len()),
        StmtV::ReturnCaptures(_) => Seq::empty(),
        StmtV::Match { expr, arms } => read_in(expr, w) + touched_arms(arms, w, arms.len()),
        StmtV::Expression(e) => read_in(e, w),
        StmtV::Call { target, args } => if w {
            Seq::empty()
        } else {
            seq![target] + names_in_all(args, args.len())
        },
        StmtV::UnsafeBlock(code) => words_from(code, 0),
    }
}

pub open spec fn touched_body(body: Seq<SpannedV>, w: bool, n: nat) -> Seq<Seq<char>>
    decreases body, n,
{
    if n == 0 || n > body.len() {
        Seq::empty()
    } else {
        touched_body(body, w, (n - 1) as nat) + touched(body[n - 1].node, w)
    }
}

pub open spec fn touched_arms(arms: Seq<ArmV>, w: bool, n: nat) -> Seq<Seq<char>>
    decreases arms, n,
{
    if n == 0 || n > arms.len() {
        Seq::empty()
    } else {
        touched_arms(arms, w, (n - 1) as nat) + touched_body(
            arms[n - 1].body,
            w,
            arms[n - 1].body.len(),
        )
    }
}

fn add_read(e: &Expr, w: bool, out: &mut Vec<String>)
    ensures
        texts(final(out)@) == texts(old(out)@) + read_in(e@, w),
{
    if w {
        assert(texts(out@) =~= texts(out@) + read_in(e@, w));
    } else {
        add_names(e, out);
    }
}

fn add_opt(e: &Option<Expr>, w: bool, out: &mut Vec<String>)
    ensures
        texts(final(out)@) == texts(old(out)@) + (if w {
            Seq::empty()
        } else {
            names_in_opt(crate::ast::opt_expr_v(*e))
        }),
{
    let ghost before = texts(out@);
    if !w {
        match e {
            Some(x) => {
                add_names(x, out);
            },
            None => {
                assert(texts(out@) =~= before + Seq::<Seq<char>>::empty());
            },
        }
    } else {
        assert(texts(out@) =~= before + Seq::<Seq<char>>::empty());
    }
}

fn add_touched(s: &Statement, w: bool, out: &mut Vec<String>)
    ensures
        texts(final(out)@) == texts(old(out)@) + touched(s@, w),
    decreases s, 1nat,
{
    let ghost before = texts(out@);
    proof {
        reveal_with_fuel(Statement::view, 2);
    }
    match s {
        Statement::VarDecl { value, .. } => {
            add_opt(value, w, out);
        },
        Statement::Assignment { target, value } => {
            if w {
                add_root(target, out);
            } else {
                add_names(target, out);
                add_names(value, out);
            }
        },
        Statement::BitwiseFlip { name, index, value } => {
            push_name(out, name);
            add_read(index, w, out);
            add_read(value, w, out);
        },
        Statement::Assert { condition, message } => {
            add_read(condition, w, out);
            add_opt(message, w, out);
        },
        Statement::Revert { error } => {
            add_read(error, w, out);
        },
        Statement::Delete { target } => {
            if w {
                add_root(target, out);
            } else {
                add_names(target, out);
            }
        },
        Statement::Return { value } => {
            add_opt(value, w, out);
        },
        Statement::IfElse { condition, if_body, else_body } => {
            add_read(condition, w, out);
            add_touched_body(if_body, w, out);
            match else_body {
                Some(b) => {
                    add_touched_body(b, w, out);
                },
                None => {},
            }
        },
        Statement::ForLoop { iterable, body, .. } => {
            add_read(iterable, w, out);
            add_touched_body(body, w, out);
        },
        Statement::WhileLoop { condition, body } => {
            add_read(condition, w, out);
            add_touched_body(body, w, out);
        },
        Statement::TryCatch { try_body, catch_body } => {
            add_touched_body(try_body, w, out);
            add_touched_body(catch_body, w, out);
        },
        Statement::ScopedTryCall { catch_body, .. } => {
            add_touched_body(catch_body, w, out);
        },
        Statement::ReturnCaptures(_) => {},
        Statement::Match { expr, arms } => {
            add_read(expr, w, out);
            add_touched_arms(arms, w, out);
        },
        Statement::Expression(e) => {
            add_read(e, w, out);
        },
        Statement::Call { target, args } => {
            if !w {
                push_name(out, target);
                add_all_names(args, out);
            }
        },
        Statement::UnsafeBlock(code) => {
            add_words(code.as_str(), out);
        },
    }
    assert(texts(out@) =~= before + touched(s@, w));
}

/// Adds what a block mentions or, with `w`, what it assigns.
pub(crate) fn add_touched_body(body: &Vec<Spanned<Statement>>, w: bool, out: &mut Vec<String>)
    ensures
        texts(final(out)@) == texts(old(out)@) + touched_body(body_v(body@), w, body@.len()),
    decreases body, 0nat,
{
    let ghost before = texts(out@);
    let mut i: usize = 0;
    assert(texts(out@) =~= before + touched_body(body_v(body@), w, 0));
    while i < body.len()
        invariant
            i <= body@.len(),
            texts(out@) == before + touched_body(body_v(body@), w, i as nat),
        decreases body@.len() - i,
    {
        let s: &Spanned<Statement> = &body[i];
        assert(decreases_to!(*body => *s));
        assert(body_v(body@)[i as int].node == s.node@);
        add_touched(&s.node, w, out);
        assert(texts(out@) =~= before + touched_body(body_v(body@), w, (i + 1) as nat));
        i += 1;
    }
}

fn add_touched_arms(arms: &Vec<MatchArm>, w: bool, out: &mut Vec<String>)
    ensures
        texts(final(out)@) == texts(old(out)@) + touched_arms(arms_v(arms@), w, arms@.len()),
    decreases arms, 0nat,
{
    let ghost before = texts(out@);
    let mut i: usize = 0;
    assert(texts(out@) =~= before + touched_arms(arms_v(arms@), w, 0));
    while i < arms.len()
        invariant
            i <= arms@.len(),
            texts(out@) == before + touched_arms(arms_v(arms@), w, i as nat),
        decreases arms@.len() - i,
    {
        let a: &MatchArm = &arms[i];
        assert(decreases_to!(*arms => *a));
        assert(arms_v(arms@)[i as int].body == body_v(a.body@));
        add_touched_body(&a.body, w, out);
        assert(texts(out@) =~= before + touched_arms(arms_v(arms@), w, (i + 1) as nat));
        i += 1;
    }
}

/// Whether a statement, or one inside it, returns from the function.
pub open spec fn returns_in(s: StmtV) -> bool
    decreases s, 1nat,
{
    match s {
        StmtV::Return { .. } => true,
        StmtV::IfElse { if_body, else_body, .. } => returns_within(if_body, if_body.len()) || (
        match else_body {
            Some(b) => returns_within(b, b.len()),
            None => false,
        }),
        StmtV::ForLoop { body, .. } => returns_within(body, body.len()),
        StmtV::WhileLoop { body, .. } => returns_within(body, body.len()),
        StmtV::TryCatch { try_body, catch_body } => returns_within(try_body, try_body.len())
            || returns_within(catch_body, catch_body.len()),
        StmtV::ScopedTryCall { catch_body, .. } => returns_within(catch_body, catch_body.len()),
        StmtV::Match { arms, .. } => arms_return(arms, arms.len()),
        _ => false,
    }
}

pub open spec fn returns_within(body: Seq<SpannedV>, n: nat) -> bool
    decreases body, n,
{
    if n == 0 || n > body.len() {
        false
    } else {
        returns_within(body, (n - 1) as nat) || returns_in(body[n - 1].node)
    }
}

pub open spec fn arms_return(arms: Seq<ArmV>, n: nat) -> bool
    decreases arms, n,
{
    if n == 0 || n > arms.len() {
        false
    } else {
        arms_return(arms, (n - 1) as nat) || returns_within(
            arms[n - 1].body,
            arms[n - 1].body.len(),
        )
    }
}

fn stmt_returns(s: &Statement) -> (r: bool)
    ensures
        r == returns_in(s@),
    decreases s, 1nat,
{
    proof {
        reveal_with_fuel(Statement::view, 2);
    }
    match s {
        Statement::Return { .. } => true,
        Statement::IfElse { if_body, else_body, .. } => {
            let a = block_returns(if_body);
            let b = match else_body {
                Some(b) => block_returns(b),
                None => false,
            };
            a || b
        },
        Statement::ForLoop { body, .. } => block_returns(body),
        Statement::WhileLoop { body, .. } => block_returns(body),
        Statement::TryCatch { try_body, catch_body } => {
            let a = block_returns(try_body);
            let b = block_returns(catch_body);
            a || b
        },
        Statement::ScopedTryCall { catch_body, .. } => block_returns(catch_body),
        Statement::Match { arms, .. } => any_arm_returns(arms),
        _ => false,
    }
}

/// Whether a block returns somewhere.
pub(crate) fn block_returns(body: &Vec<Spanned<Statement>>) -> (r: bool)
    ensures
        r == returns_within(body_v(body@), body@.len()),
    decreases body, 0nat,
{
    let mut out = false;
    let mut i: usize = 0;
    while i < body.len()
        invariant
            i <= body@.len(),
            out == returns_within(body_v(body@), i as nat),
        decreases body@.len() - i,
    {
        let s: &Spanned<Statement> = &body[i];
        assert(decreases_to!(*body => *s));
        assert(body_v(body@)[i as int].node == s.node@);
        let one = stmt_returns(&s.node);
        out = out || one;
        i += 1;
    }
    out
}

fn any_arm_returns(arms: &Vec<MatchArm>) -> (r: bool)
    ensures
        r == arms_return(arms_v(arms@), arms@.len()),
    decreases arms, 0nat,
{
    let mut out = false;
    let mut i: usize = 0;
    while i < arms.len()
        invariant
            i <= arms@.len(),
            out == arms_return(arms_v(arms@), i as nat),
        decreases arms@.len() - i,
    {
        let a: &MatchArm = &arms[i];
        assert(decreases_to!(*arms => *a));
        assert(arms_v(arms@)[i as int].body == body_v(a.body@));
        let one = block_returns(&a.body);
        out = out || one;
        i += 1;
    }
    out
}

} // verus!
