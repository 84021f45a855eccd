//! `try` blocks of a contract. Such a block runs in a frame of its own: it becomes the
//! body of a function that the contract reaches by a call to itself. Whatever reverts in
//! it, inside or in a call that it makes, ends that frame alone and rolls back what it
//! did; then the `catch` block runs. What the block reads is handed over as arguments, and
//! what it changed is handed back.
//!
//! A constructor has no code yet that it could call, and a value in memory has no address,
//! so the blocks of those stay where they are.
use crate::ast::{
    arms_v, body_v, captures_v, clone_opt_text, clone_opt_type, find_variant, methods_v,
    opt_type_v, variant_named, ArmV, ClassDecl, ClassField, ClassV, Expr, ExprV, FieldV, FnDecl,
    FnV, MatchArm, Spanned, SpannedV, Statement, StmtV, Type, TypeV,
};
use crate::codegen::abi::exported;
use crate::codegen::entry::is_unsafe_spec;
use crate::codegen::object::{declare_all, declare_params};
use crate::codegen::scan::{add_touched_body, block_returns, returns_within, touched_body};
use crate::codegen::tr_stmt::{
    capture_params, params_of_captures, var_type_spec, TRY_CAPABILITY_SLOT, TRY_RETURNED_SLOT,
};
use crate::codegen::tr_types::{elem_type_of_spec, static_type_spec};
use crate::codegen::translator::{declare_spec, helper_spec, Ctx, CtxV, EnvV, SelfCtx, Translator};
use crate::codegen::yul::{
    abi_scalar, is_abi_scalar, is_str_type, is_struct_type, str_type, struct_type,
};
use crate::semantic::{scalar_enum, TypeChecker, WorldV};
use crate::semantic::spell::{spelled, type_text};
use crate::text::{cat2, cat3, cat4, cat5, cat7, cat9, dec, dec_text, has_text, same, texts};
use vstd::prelude::*;

verus! {

broadcast use crate::ast::group_views;

/// The functions that blocks were moved into, and what stood in the way of others.
pub struct Frames {
    pub thunks: Vec<FnDecl>,
    pub errors: Vec<String>,
}

/// The view of [`Frames`].
pub struct FramesV {
    pub thunks: Seq<FnV>,
    pub errors: Seq<Seq<char>>,
}

impl Frames {
    pub open spec fn view(&self) -> FramesV {
        FramesV { thunks: methods_v(self.thunks@), errors: texts(self.errors@) }
    }
}

/// What marks a function that a block was moved into. No attribute in a source can have
/// a space in it.
pub const FRAME_MARK: &'static str = "try block";

pub open spec fn is_frame_spec(f: FnV) -> bool {
    f.attributes.contains(FRAME_MARK@)
}

/// Whether a function is the body of a `try` block.
pub fn is_frame(f: &FnDecl) -> (r: bool)
    ensures
        r == is_frame_spec(f@),
{
    has_text(&f.attributes, FRAME_MARK)
}

/// Whether a value of the type is one word.
pub open spec fn word_like(w: WorldV, t: TypeV) -> bool {
    abi_scalar(t) || scalar_enum(w, t)
}

fn is_word_like(tc: &TypeChecker, t: &Type) -> (r: bool)
    ensures
        r == word_like(tc.world(), t@),
{
    is_abi_scalar(t) || tc.is_scalar_enum(t)
}

/// Whether an array of the type can be handed from frame to frame.
pub open spec fn leaf_like(w: WorldV, t: TypeV) -> bool
    decreases t,
{
    match t {
        TypeV::Array(inner) => leaf_like(w, *inner),
        TypeV::FixedArray(inner, _) => leaf_like(w, *inner),
        _ => word_like(w, t) || str_type(t),
    }
}

fn is_leaf_like(tc: &TypeChecker, t: &Type) -> (r: bool)
    ensures
        r == leaf_like(tc.world(), t@),
    decreases t,
{
    match t {
        Type::Array(inner) => is_leaf_like(tc, inner),
        Type::FixedArray(inner, _) => is_leaf_like(tc, inner),
        _ => is_word_like(tc, t) || is_str_type(t),
    }
}

pub open spec fn plain_field(w: WorldV, f: FieldV) -> bool {
    word_like(w, f.type_def) || str_type(f.type_def)
}

/// Whether a class is a struct of words and texts.
pub open spec fn plain_class(w: WorldV, c: ClassV) -> bool {
    !c.is_global && !c.is_extern && c.fields.len() > 0 && forall|i: int|
        0 <= i < c.fields.len() ==> plain_field(w, #[trigger] c.fields[i])
}

fn is_plain_class(tc: &TypeChecker, c: &ClassDecl) -> (r: bool)
    ensures
        r == plain_class(tc.world(), c@),
{
    if c.is_global || c.is_extern || c.fields.len() == 0 {
        return false;
    }
    let mut i: usize = 0;
    while i < c.fields.len()
        invariant
            i <= c.fields@.len(),
            forall|k: int| 0 <= k < i ==> plain_field(tc.world(), #[trigger] c@.fields[k]),
        decreases c.fields@.len() - i,
    {
        let f: &ClassField = &c.fields[i];
        assert(c@.fields[i as int] == f@);
        if !is_word_like(tc, &f.type_def) && !is_str_type(&f.type_def) {
            return false;
        }
        i += 1;
    }
    true
}

/// Whether a local of the type can be handed from frame to frame.
pub open spec fn carried(w: WorldV, t: TypeV) -> bool {
    match t {
        TypeV::Primitive(n) => if struct_type(w, t) {
            plain_class(w, w.classes[n])
        } else {
            word_like(w, t) || str_type(t)
        },
        TypeV::Array(inner) => leaf_like(w, *inner),
        TypeV::FixedArray(inner, _) => leaf_like(w, *inner),
        TypeV::Generic { .. } => false,
    }
}

fn is_carried(tc: &TypeChecker, t: &Type) -> (r: bool)
    ensures
        r == carried(tc.world(), t@),
{
    match t {
        Type::Primitive(n) => if is_struct_type(tc, t) {
            match tc.loaded_classes.get(n.as_str()) {
                Some(c) => {
                    assert(tc.world().classes[n@] == c@);
                    is_plain_class(tc, c)
                },
                None => false,
            }
        } else {
            is_word_like(tc, t) || is_str_type(t)
        },
        Type::Array(inner) => is_leaf_like(tc, inner),
        Type::FixedArray(inner, _) => is_leaf_like(tc, inner),
        Type::Generic { .. } => false,
    }
}

/// The names of captured locals.
pub open spec fn cap_names(cs: Seq<(Seq<char>, TypeV)>) -> Seq<Seq<char>> {
    cs.map_values(|c: (Seq<char>, TypeV)| c.0)
}

/// The locals among the first `n` names, each once, in the order in which they come.
pub open spec fn locals_among(cx: CtxV, names: Seq<Seq<char>>, n: nat) -> Seq<
    (Seq<char>, TypeV),
>
    decreases n,
{
    if n == 0 || n > names.len() {
        Seq::empty()
    } else {
        let found = locals_among(cx, names, (n - 1) as nat);
        let x = names[n - 1];
        if cx.locals.contains_key(x) && !cap_names(found).contains(x) {
            found.push((x, cx.locals[x]))
        } else {
            found
        }
    }
}

fn has_capture(cs: &Vec<(String, Type)>, name: &str) -> (r: bool)
    ensures
        r == cap_names(captures_v(cs@)).contains(name@),
{
    let ghost ns = cap_names(captures_v(cs@));
    let mut i: usize = 0;
    while i < cs.len()
        invariant
            i <= cs@.len(),
            ns == cap_names(captures_v(cs@)),
            forall|k: int| 0 <= k < i ==> ns[k] != name@,
        decreases cs@.len() - i,
    {
        assert(ns[i as int] == cs@[i as int].0@);
        if same(cs[i].0.as_str(), name) {
            assert(ns.contains(name@));
            return true;
        }
        i += 1;
    }
    assert(!ns.contains(name@));
    false
}

fn push_capture(cs: &mut Vec<(String, Type)>, name: String, t: Type)
    ensures
        captures_v(final(cs)@) == captures_v(old(cs)@).push((name@, t@)),
{
    let ghost before = captures_v(cs@);
    let ghost nv = name@;
    let ghost tv = t@;
    cs.push((name, t));
    assert(captures_v(cs@) =~= before.push((nv, tv)));
}

fn find_locals(cx: &Ctx, names: &Vec<String>) -> (r: Vec<(String, Type)>)
    ensures
        captures_v(r@) == locals_among(cx@, texts(names@), names@.len()),
{
    let mut out: Vec<(String, Type)> = Vec::new();
    let mut i: usize = 0;
    assert(captures_v(out@) =~= Seq::<(Seq<char>, TypeV)>::empty());
    while i < names.len()
        invariant
            i <= names@.len(),
            captures_v(out@) == locals_among(cx@, texts(names@), i as nat),
        decreases names@.len() - i,
    {
        assert(texts(names@)[i as int] == names@[i as int]@);
        match cx.local_type(names[i].as_str()) {
            Some(t) => {
                if !has_capture(&out, names[i].as_str()) {
                    push_capture(&mut out, names[i].clone(), t);
                }
            },
            None => {},
        }
        i += 1;
    }
    out
}

/// What a block reads of the locals around it.
pub open spec fn captures(cx: CtxV, body: Seq<SpannedV>) -> Seq<(Seq<char>, TypeV)> {
    let names = touched_body(body, false, body.len());
    locals_among(cx, names, names.len())
}

/// Whether a captured local is handed back: it is assigned, or it is more than a word,
/// so that it may have changed where it points to.
pub open spec fn written(w: WorldV, c: (Seq<char>, TypeV), writes: Seq<Seq<char>>) -> bool {
    writes.contains(c.0) || !word_like(w, c.1)
}

/// Those of the first `n` captured locals that are handed back.
pub open spec fn handed_back(
    w: WorldV,
    cs: Seq<(Seq<char>, TypeV)>,
    writes: Seq<Seq<char>>,
    n: nat,
) -> Seq<(Seq<char>, TypeV)>
    decreases n,
{
    if n == 0 || n > cs.len() {
        Seq::empty()
    } else if written(w, cs[n - 1], writes) {
        handed_back(w, cs, writes, (n - 1) as nat).push(cs[n - 1])
    } else {
        handed_back(w, cs, writes, (n - 1) as nat)
    }
}

fn find_handed_back(tc: &TypeChecker, cs: &Vec<(String, Type)>, writes: &Vec<String>) -> (r: Vec<
    (String, Type),
>)
    ensures
        captures_v(r@) == handed_back(tc.world(), captures_v(cs@), texts(writes@), cs@.len()),
{
    let mut out: Vec<(String, Type)> = Vec::new();
    let mut i: usize = 0;
    assert(captures_v(out@) =~= Seq::<(Seq<char>, TypeV)>::empty());
    while i < cs.len()
        invariant
            i <= cs@.len(),
            captures_v(out@) == handed_back(
                tc.world(),
                captures_v(cs@),
                texts(writes@),
                i as nat,
            ),
        decreases cs@.len() - i,
    {
        assert(captures_v(cs@)[i as int] == (cs@[i as int].0@, cs@[i as int].1@));
        if has_text(writes, cs[i].0.as_str()) || !is_word_like(tc, &cs[i].1) {
            push_capture(&mut out, cs[i].0.clone(), cs[i].1.clone());
        }
        i += 1;
    }
    out
}

/// What is said of a local that no call can carry.
pub open spec fn stuck_error(f: Seq<char>, c: (Seq<char>, TypeV)) -> Seq<char> {
    "try in '"@ + f + "': the block runs in a frame of its own, and '"@ + c.0 + "' of type "@
        + spelled(c.1) + " cannot be carried into it. Copy what the block needs into a local first."@
}

/// What stands in the way of the first `n` captured locals.
pub open spec fn stuck(w: WorldV, f: Seq<char>, cs: Seq<(Seq<char>, TypeV)>, n: nat) -> Seq<
    Seq<char>,
>
    decreases n,
{
    if n == 0 || n > cs.len() {
        Seq::empty()
    } else if carried(w, cs[n - 1].1) {
        stuck(w, f, cs, (n - 1) as nat)
    } else {
        stuck(w, f, cs, (n - 1) as nat).push(stuck_error(f, cs[n - 1]))
    }
}

fn note_stuck(tc: &TypeChecker, f: &str, cs: &Vec<(String, Type)>, errors: &mut Vec<String>)
    ensures
        texts(final(errors)@) == texts(old(errors)@) + stuck(
            tc.world(),
            f@,
            captures_v(cs@),
            cs@.len(),
        ),
{
    let ghost before = texts(errors@);
    let mut i: usize = 0;
    assert(texts(errors@) =~= before + stuck(tc.world(), f@, captures_v(cs@), 0));
    while i < cs.len()
        invariant
            i <= cs@.len(),
            texts(errors@) == before + stuck(tc.world(), f@, captures_v(cs@), i as nat),
        decreases cs@.len() - i,
    {
        assert(captures_v(cs@)[i as int] == (cs@[i as int].0@, cs@[i as int].1@));
        if !is_carried(tc, &cs[i].1) {
            let e = cat7(
                "try in '",
                f,
                "': the block runs in a frame of its own, and '",
                cs[i].0.as_str(),
                "' of type ",
                type_text(&cs[i].1).as_str(),
                " cannot be carried into it. Copy what the block needs into a local first.",
            );
            let ghost so_far = texts(errors@);
            let ghost ev = e@;
            errors.push(e);
            assert(texts(errors@) =~= so_far.push(ev));
            assert(texts(errors@) =~= before + stuck(
                tc.world(),
                f@,
                captures_v(cs@),
                (i + 1) as nat,
            ));
        }
        i += 1;
    }
}

/// How the statements of a block are written in a frame.
pub struct ModeV {
    /// The local that says that the block left the function, where the function returns
    /// nothing.
    pub left: Option<Seq<char>>,
    /// What is handed back at the end.
    pub back: Seq<(Seq<char>, TypeV)>,
}

/// The same, as the code holds it.
pub struct Mode {
    pub left: Option<String>,
    pub back: Vec<(String, Type)>,
}

impl Mode {
    pub open spec fn view(&self) -> ModeV {
        ModeV { left: crate::codegen::yul::opt_text(self.left), back: captures_v(self.back@) }
    }
}

/// Raw code as a statement.
pub open spec fn raw(code: Seq<char>) -> StmtV {
    StmtV::UnsafeBlock("{"@ + code + "}"@)
}

pub open spec fn at(s: StmtV, line: usize, col: usize) -> SpannedV {
    SpannedV { node: s, line, col }
}

fn raw_stmt(code: &str, line: usize, col: usize) -> (r: Spanned<Statement>)
    ensures
        r@ == at(raw(code@), line, col),
{
    Spanned { node: Statement::UnsafeBlock(cat3("{", code, "}")), line, col }
}

pub open spec fn mark_returned() -> Seq<char> {
    " tstore("@ + TRY_RETURNED_SLOT@ + ", 1) "@
}

pub open spec fn mark_ended() -> Seq<char> {
    " tstore("@ + TRY_RETURNED_SLOT@ + ", 0) "@
}

/// A `return` in a frame. One with a value notes that the function ends; one without
/// says so in a local that is handed back.
pub open spec fn framed_return(m: ModeV, value: Option<ExprV>, line: usize, col: usize) -> Seq<
    SpannedV,
> {
    match (value, m.left) {
        (None, Some(left)) => seq![
            at(
                StmtV::Assignment {
                    target: ExprV::Identifier(left),
                    value: ExprV::Identifier("true"@),
                },
                line,
                col,
            ),
            at(raw(mark_ended()), line, col),
            at(StmtV::ReturnCaptures(m.back), line, col),
        ],
        _ => seq![
            at(raw(mark_returned()), line, col),
            at(StmtV::Return { value }, line, col),
        ],
    }
}

/// A statement of a block, in a frame.
pub open spec fn framed(m: ModeV, s: StmtV, line: usize, col: usize) -> Seq<SpannedV>
    decreases s, 1nat,
{
    match s {
        StmtV::Return { value } => framed_return(m, value, line, col),
        StmtV::IfElse { condition, if_body, else_body } => seq![
            at(
                StmtV::IfElse {
                    condition,
                    if_body: framed_body(m, if_body, if_body.len()),
                    else_body: match else_body {
                        Some(b) => Some(framed_body(m, b, b.len())),
                        None => None,
                    },
                },
                line,
                col,
            ),
        ],
        StmtV::ForLoop { iterator, iterable, body } => seq![
            at(
                StmtV::ForLoop { iterator, iterable, body: framed_body(m, body, body.len()) },
                line,
                col,
            ),
        ],
        StmtV::WhileLoop { condition, body } => seq![
            at(
                StmtV::WhileLoop { condition, body: framed_body(m, body, body.len()) },
                line,
                col,
            ),
        ],
        StmtV::ScopedTryCall { thunk, args, propagate_return, writeback, catch_body } => seq![
            at(
                StmtV::ScopedTryCall {
                    thunk,
                    args,
                    propagate_return,
                    writeback,
                    catch_body: framed_body(m, catch_body, catch_body.len()),
                },
                line,
                col,
            ),
        ],
        StmtV::Match { expr, arms } => seq![
            at(StmtV::Match { expr, arms: framed_arms(m, arms, arms.len()) }, line, col),
        ],
        _ => seq![at(s, line, col)],
    }
}

pub open spec fn framed_body(m: ModeV, body: Seq<SpannedV>, n: nat) -> Seq<SpannedV>
    decreases body, n,
{
    if n == 0 || n > body.len() {
        Seq::empty()
    } else {
        framed_body(m, body, (n - 1) as nat) + framed(
            m,
            body[n - 1].node,
            body[n - 1].line,
            body[n - 1].col,
        )
    }
}

pub open spec fn framed_arms(m: ModeV, arms: Seq<ArmV>, n: nat) -> Seq<ArmV>
    decreases arms, n,
{
    if n == 0 || n > arms.len() {
        Seq::empty()
    } else {
        let a = arms[n - 1];
        framed_arms(m, arms, (n - 1) as nat).push(
            ArmV {
                variant: a.variant,
                payload_var: a.payload_var,
                body: framed_body(m, a.body, a.body.len()),
            },
        )
    }
}

fn push_stmt(out: &mut Vec<Spanned<Statement>>, node: Statement, line: usize, col: usize)
    ensures
        body_v(final(out)@) == body_v(old(out)@) + seq![at(node@, line, col)],
{
    let ghost before = body_v(out@);
    let ghost nv = node@;
    out.push(Spanned { node, line, col });
    assert(body_v(out@) =~= before + seq![at(nv, line, col)]);
}

fn push_raw(out: &mut Vec<Spanned<Statement>>, code: &str, line: usize, col: usize)
    ensures
        body_v(final(out)@) == body_v(old(out)@) + seq![at(raw(code@), line, col)],
{
    let ghost before = body_v(out@);
    let s = raw_stmt(code, line, col);
    let ghost sv = s@;
    out.push(s);
    assert(body_v(out@) =~= before + seq![sv]);
}

fn push_return(
    m: &Mode,
    value: &Option<Expr>,
    line: usize,
    col: usize,
    out: &mut Vec<Spanned<Statement>>,
)
    ensures
        body_v(final(out)@) == body_v(old(out)@) + framed_return(
            m@,
            crate::ast::opt_expr_v(*value),
            line,
            col,
        ),
{
    let ghost before = body_v(out@);
    match (value, &m.left) {
        (None, Some(left)) => {
            let yes = Statement::Assignment {
                target: Expr::Identifier(left.clone()),
                value: Expr::Identifier(String::from_str("true")),
            };
            push_stmt(out, yes, line, col);
            push_raw(out, cat3(" tstore(", TRY_RETURNED_SLOT, ", 0) ").as_str(), line, col);
            let back = crate::ast::copy_captures(&m.back);
            push_stmt(out, Statement::ReturnCaptures(back), line, col);
        },
        _ => {
            push_raw(out, cat3(" tstore(", TRY_RETURNED_SLOT, ", 1) ").as_str(), line, col);
            let s = Statement::Return { value: crate::ast::copy_opt_expr(value) };
            push_stmt(out, s, line, col);
        },
    }
    assert(body_v(out@) =~= before + framed_return(
        m@,
        crate::ast::opt_expr_v(*value),
        line,
        col,
    ));
}

fn push_framed(
    m: &Mode,
    s: &Statement,
    line: usize,
    col: usize,
    out: &mut Vec<Spanned<Statement>>,
)
    ensures
        body_v(final(out)@) == body_v(old(out)@) + framed(m@, s@, line, col),
    decreases s, 1nat,
{
    proof {
        reveal_with_fuel(Statement::view, 2);
    }
    match s {
        Statement::Return { value } => {
            push_return(m, value, line, col, out);
        },
        Statement::IfElse { condition, if_body, else_body } => {
            let a = frame_body(m, if_body);
            let b = match else_body {
                Some(b) => Some(frame_body(m, b)),
                None => None,
            };
            let node = Statement::IfElse { condition: condition.clone(), if_body: a, else_body: b };
            push_stmt(out, node, line, col);
        },
        Statement::ForLoop { iterator, iterable, body } => {
            let b = frame_body(m, body);
            let node = Statement::ForLoop {
                iterator: iterator.clone(),
                iterable: iterable.clone(),
                body: b,
            };
            push_stmt(out, node, line, col);
        },
        Statement::WhileLoop { condition, body } => {
            let b = frame_body(m, body);
            let node = Statement::WhileLoop { condition: condition.clone(), body: b };
            push_stmt(out, node, line, col);
        },
        Statement::ScopedTryCall { thunk, args, propagate_return, writeback, catch_body } => {
            let b = frame_body(m, catch_body);
            let node = Statement::ScopedTryCall {
                thunk: thunk.clone(),
                args: crate::ast::copy_captures(args),
                propagate_return: *propagate_return,
                writeback: crate::ast::copy_captures(writeback),
                catch_body: b,
            };
            push_stmt(out, node, line, col);
        },
        Statement::Match { expr, arms } => {
            let b = frame_arms(m, arms);
            let node = Statement::Match { expr: expr.clone(), arms: b };
            push_stmt(out, node, line, col);
        },
        _ => {
            push_stmt(out, s.clone(), line, col);
        },
    }
}

fn frame_body(m: &Mode, body: &Vec<Spanned<Statement>>) -> (r: Vec<Spanned<Statement>>)
    ensures
        body_v(r@) == framed_body(m@, body_v(body@), body@.len()),
    decreases body, 0nat,
{
    let mut out: Vec<Spanned<Statement>> = Vec::new();
    let mut i: usize = 0;
    assert(body_v(out@) =~= Seq::<SpannedV>::empty());
    while i < body.len()
        invariant
            i <= body@.len(),
            body_v(out@) == framed_body(m@, body_v(body@), i as nat),
        decreases body@.len() - i,
    {
        let s: &Spanned<Statement> = &body[i];
        assert(decreases_to!(*body => *s));
        assert(body_v(body@)[i as int] == s@);
        push_framed(m, &s.node, s.line, s.col, &mut out);
        i += 1;
    }
    out
}

fn frame_arms(m: &Mode, arms: &Vec<MatchArm>) -> (r: Vec<MatchArm>)
    ensures
        arms_v(r@) == framed_arms(m@, arms_v(arms@), arms@.len()),
    decreases arms, 0nat,
{
    let mut out: Vec<MatchArm> = Vec::new();
    let mut i: usize = 0;
    assert(arms_v(out@) =~= Seq::<ArmV>::empty());
    while i < arms.len()
        invariant
            i <= arms@.len(),
            arms_v(out@) == framed_arms(m@, arms_v(arms@), i as nat),
        decreases arms@.len() - i,
    {
        let a: &MatchArm = &arms[i];
        assert(decreases_to!(*arms => *a));
        assert(arms_v(arms@)[i as int] == a@);
        let body = frame_body(m, &a.body);
        let ghost before = arms_v(out@);
        let arm = MatchArm {
            variant: a.variant.clone(),
            payload_var: clone_opt_text(&a.payload_var),
            body,
        };
        let ghost av = arm@;
        out.push(arm);
        assert(arms_v(out@) =~= before.push(av));
        i += 1;
    }
    out
}

/// The function that the block number `n` of function `f` is moved into.
pub open spec fn thunk_name(f: Seq<char>, n: nat) -> Seq<char> {
    "__try_"@ + f + "_"@ + dec(n)
}

/// Who called the contract, and what was sent along, as the block number `n` is told.
pub open spec fn caller_args(n: nat) -> Seq<(Seq<char>, TypeV)> {
    seq![
        ("__sender_"@ + dec(n), TypeV::Primitive("Account"@)),
        ("__value_"@ + dec(n), TypeV::Primitive("u256"@)),
    ]
}

/// Notes them before the call.
pub open spec fn note_caller(n: nat) -> Seq<char> {
    " let __sender_"@ + dec(n) + " := Message_sender()\nlet __value_"@ + dec(n)
        + " := Message_value() "@
}

/// What a frame begins with: only the call that it was made for may enter it, and only
/// once; and who called is still who called.
pub open spec fn enter_frame(n: nat) -> Seq<char> {
    " if iszero(tload("@ + TRY_CAPABILITY_SLOT@ + ")) { revert(0, 0) }\ntstore("@
        + TRY_CAPABILITY_SLOT@ + ", 0)\nlet __frame := allocate_memory(64)\nmstore(__frame, __sender_"@
        + dec(n) + ")\nmstore(add(__frame, 32), __value_"@ + dec(n) + ")\nmstore(0x60, __frame) "@
}

/// The local that says that the block number `n` left the function.
pub open spec fn left_name(n: nat) -> Seq<char> {
    "__left_"@ + dec(n)
}

pub open spec fn left_decl(n: nat) -> StmtV {
    StmtV::VarDecl {
        is_mut: true,
        is_const: false,
        type_def: TypeV::Primitive("bool"@),
        name: left_name(n),
        value: Some(ExprV::Identifier("false"@)),
    }
}

/// What is known of a block that is to be moved.
pub struct BlockV {
    /// The function around it.
    pub f: Seq<char>,
    /// Its number.
    pub n: nat,
    /// What that function returns.
    pub ret: Option<TypeV>,
    pub args: Seq<(Seq<char>, TypeV)>,
    pub back: Seq<(Seq<char>, TypeV)>,
    pub leaves: bool,
}

/// What is known of the block number `n`.
pub open spec fn block_of(
    g: EnvV,
    cx: CtxV,
    f: Seq<char>,
    n: nat,
    try_body: Seq<SpannedV>,
) -> BlockV {
    let caps = captures(cx, try_body);
    let writes = touched_body(try_body, true, try_body.len());
    let leaves = returns_within(try_body, try_body.len());
    let back = handed_back(g.w, caps, writes, caps.len());
    BlockV {
        f,
        n,
        ret: cx.return_type,
        args: caps + caller_args(n),
        back: if leaves && cx.return_type is None {
            back.push((left_name(n), TypeV::Primitive("bool"@)))
        } else {
            back
        },
        leaves,
    }
}

/// Whether the block leaves a function that returns nothing.
pub open spec fn leaves_bare(b: BlockV) -> bool {
    b.leaves && b.ret is None
}

/// The function that a block becomes; `body` is the block, in a frame.
pub open spec fn thunk_of(b: BlockV, body: Seq<SpannedV>, line: usize, col: usize) -> FnV {
    let head = seq![at(raw(enter_frame(b.n)), line, col)];
    let flag = if leaves_bare(b) {
        seq![at(left_decl(b.n), line, col)]
    } else {
        Seq::empty()
    };
    let tail = if b.back.len() > 0 {
        seq![
            at(raw(mark_ended()), line, col),
            at(StmtV::ReturnCaptures(b.back), line, col),
        ]
    } else {
        Seq::empty()
    };
    FnV {
        modifiers: seq!["unsafe"@],
        attributes: seq![FRAME_MARK@],
        name: thunk_name(b.f, b.n),
        has_self: false,
        parameters: capture_params(b.args),
        return_type: if b.leaves {
            b.ret
        } else {
            None
        },
        body: head + flag + body + tail,
    }
}

/// What stands where the block stood.
pub open spec fn call_of(b: BlockV, catch_body: Seq<SpannedV>, line: usize, col: usize) -> Seq<
    SpannedV,
> {
    let flag = if leaves_bare(b) {
        seq![at(left_decl(b.n), line, col)]
    } else {
        Seq::empty()
    };
    let after = if leaves_bare(b) {
        seq![
            at(
                StmtV::IfElse {
                    condition: ExprV::Identifier(left_name(b.n)),
                    if_body: seq![at(StmtV::Return { value: None }, line, col)],
                    else_body: None,
                },
                line,
                col,
            ),
        ]
    } else {
        Seq::empty()
    };
    flag + seq![
        at(raw(note_caller(b.n)), line, col),
        at(
            StmtV::ScopedTryCall {
                thunk: thunk_name(b.f, b.n),
                args: b.args,
                propagate_return: b.leaves && b.ret is Some,
                writeback: b.back,
                catch_body,
            },
            line,
            col,
        ),
    ] + after
}

pub open spec fn mode_of(b: BlockV) -> ModeV {
    ModeV {
        left: if leaves_bare(b) {
            Some(left_name(b.n))
        } else {
            None
        },
        back: b.back,
    }
}

/// The type of what a variant carries.
pub open spec fn payload_type(g: EnvV, cx: CtxV, e: ExprV, variant: Seq<char>) -> TypeV {
    match static_type_spec(g, cx, e) {
        TypeV::Primitive(n) => if g.w.enums.contains_key(n) {
            match variant_named(g.w.enums[n].variants, variant) {
                Some(v) => if v.parameters.len() > 0 {
                    v.parameters[0].type_def
                } else {
                    TypeV::Primitive("u256"@)
                },
                None => TypeV::Primitive("u256"@),
            }
        } else {
            TypeV::Primitive("u256"@)
        },
        _ => TypeV::Primitive("u256"@),
    }
}

/// A statement of a contract's function `f`, its `try` blocks moved out.
pub open spec fn scoped(
    g: EnvV,
    fr: FramesV,
    cx: CtxV,
    f: Seq<char>,
    s: StmtV,
    line: usize,
    col: usize,
) -> (FramesV, CtxV, Seq<SpannedV>)
    decreases s, 1nat,
{
    match s {
        StmtV::VarDecl { type_def, name, value, .. } => (
            fr,
            declare_spec(cx, name, var_type_spec(g, cx, type_def, value)),
            seq![at(s, line, col)],
        ),
        StmtV::IfElse { condition, if_body, else_body } => {
            let (fr, _, a) = scoped_body(g, fr, cx, f, if_body, if_body.len());
            match else_body {
                Some(eb) => {
                    let (fr, _, b) = scoped_body(g, fr, cx, f, eb, eb.len());
                    let node = StmtV::IfElse { condition, if_body: a, else_body: Some(b) };
                    (fr, cx, seq![at(node, line, col)])
                },
                None => {
                    let node = StmtV::IfElse { condition, if_body: a, else_body: None };
                    (fr, cx, seq![at(node, line, col)])
                },
            }
        },
        StmtV::ForLoop { iterator, iterable, body } => {
            let inner = declare_spec(cx, iterator, elem_type_of_spec(g, cx, iterable));
            let (fr, _, b) = scoped_body(g, fr, inner, f, body, body.len());
            (fr, cx, seq![at(StmtV::ForLoop { iterator, iterable, body: b }, line, col)])
        },
        StmtV::WhileLoop { condition, body } => {
            let (fr, _, b) = scoped_body(g, fr, cx, f, body, body.len());
            (fr, cx, seq![at(StmtV::WhileLoop { condition, body: b }, line, col)])
        },
        StmtV::Match { expr, arms } => {
            let (fr, b) = scoped_arms(g, fr, cx, f, expr, arms, arms.len());
            (fr, cx, seq![at(StmtV::Match { expr, arms: b }, line, col)])
        },
        StmtV::ScopedTryCall { thunk, args, propagate_return, writeback, catch_body } => {
            let (fr, _, b) = scoped_body(g, fr, cx, f, catch_body, catch_body.len());
            let node = StmtV::ScopedTryCall {
                thunk,
                args,
                propagate_return,
                writeback,
                catch_body: b,
            };
            (fr, cx, seq![at(node, line, col)])
        },
        StmtV::TryCatch { try_body, catch_body } => {
            let (fr, _, tb) = scoped_body(g, fr, cx, f, try_body, try_body.len());
            let (fr, _, cb) = scoped_body(g, fr, cx, f, catch_body, catch_body.len());
            let caps = captures(cx, try_body);
            let b = block_of(g, cx, f, fr.thunks.len(), try_body);
            let body = framed_body(mode_of(b), tb, tb.len());
            (
                FramesV {
                    thunks: fr.thunks.push(thunk_of(b, body, line, col)),
                    errors: fr.errors + stuck(g.w, f, caps, caps.len()),
                },
                cx,
                call_of(b, cb, line, col),
            )
        },
        _ => (fr, cx, seq![at(s, line, col)]),
    }
}

pub open spec fn scoped_body(
    g: EnvV,
    fr: FramesV,
    cx: CtxV,
    f: Seq<char>,
    body: Seq<SpannedV>,
    n: nat,
) -> (FramesV, CtxV, Seq<SpannedV>)
    decreases body, n,
{
    if n == 0 || n > body.len() {
        (fr, cx, Seq::empty())
    } else {
        let (fr, cx, out) = scoped_body(g, fr, cx, f, body, (n - 1) as nat);
        let s = body[n - 1];
        let (fr, cx, one) = scoped(g, fr, cx, f, s.node, s.line, s.col);
        (fr, cx, out + one)
    }
}

/// What an arm declares.
pub open spec fn in_arm(g: EnvV, cx: CtxV, e: ExprV, a: ArmV) -> CtxV {
    match a.payload_var {
        Some(x) => declare_spec(cx, x, payload_type(g, cx, e, a.variant)),
        None => cx,
    }
}

pub open spec fn scoped_arms(
    g: EnvV,
    fr: FramesV,
    cx: CtxV,
    f: Seq<char>,
    e: ExprV,
    arms: Seq<ArmV>,
    n: nat,
) -> (FramesV, Seq<ArmV>)
    decreases arms, n,
{
    if n == 0 || n > arms.len() {
        (fr, Seq::empty())
    } else {
        let (fr, out) = scoped_arms(g, fr, cx, f, e, arms, (n - 1) as nat);
        let a = arms[n - 1];
        let (fr, _, b) = scoped_body(g, fr, in_arm(g, cx, e, a), f, a.body, a.body.len());
        (fr, out.push(ArmV { variant: a.variant, payload_var: a.payload_var, body: b }))
    }
}

/// What is known of a block that is to be moved, as the code holds it.
struct Block {
    n: usize,
    ret: Option<Type>,
    args: Vec<(String, Type)>,
    back: Vec<(String, Type)>,
    leaves: bool,
}

impl Block {
    spec fn of(&self, f: Seq<char>) -> BlockV {
        BlockV {
            f,
            n: self.n as nat,
            ret: opt_type_v(self.ret),
            args: captures_v(self.args@),
            back: captures_v(self.back@),
            leaves: self.leaves,
        }
    }

    fn bare(&self) -> (r: bool)
        ensures
            forall|f: Seq<char>| r == leaves_bare(#[trigger] self.of(f)),
    {
        self.leaves && self.ret.is_none()
    }

    fn mode(&self, f: &str) -> (r: Mode)
        ensures
            r@ == mode_of(self.of(f@)),
    {
        assert(leaves_bare(self.of(f@)) == (self.leaves && self.ret is None));
        let left = if self.bare() {
            Some(cat2("__left_", dec_text(self.n).as_str()))
        } else {
            None
        };
        Mode { left, back: crate::ast::copy_captures(&self.back) }
    }

    fn push_flag(&self, out: &mut Vec<Spanned<Statement>>, line: usize, col: usize)
        ensures
            body_v(final(out)@) == body_v(old(out)@) + seq![
                at(left_decl(self.n as nat), line, col),
            ],
    {
        let s = Statement::VarDecl {
            is_mut: true,
            is_const: false,
            type_def: Type::Primitive(String::from_str("bool")),
            name: cat2("__left_", dec_text(self.n).as_str()),
            value: Some(Expr::Identifier(String::from_str("false"))),
        };
        push_stmt(out, s, line, col);
    }

    fn thunk(&self, f: &str, body: Vec<Spanned<Statement>>, line: usize, col: usize) -> (r: FnDecl)
        ensures
            r@ == thunk_of(self.of(f@), body_v(body@), line, col),
    {
        let ghost b = self.of(f@);
        let n = dec_text(self.n);
        let mut out: Vec<Spanned<Statement>> = Vec::new();
        let enter = cat9(
            " if iszero(tload(",
            TRY_CAPABILITY_SLOT,
            ")) { revert(0, 0) }\ntstore(",
            TRY_CAPABILITY_SLOT,
            ", 0)\nlet __frame := allocate_memory(64)\nmstore(__frame, __sender_",
            n.as_str(),
            ")\nmstore(add(__frame, 32), __value_",
            n.as_str(),
            ")\nmstore(0x60, __frame) ",
        );
        assert(body_v(out@) =~= Seq::<SpannedV>::empty());
        push_raw(&mut out, enter.as_str(), line, col);
        let ghost head = seq![at(raw(enter_frame(b.n)), line, col)];
        assert(body_v(out@) =~= head);
        let bare = self.bare();
        assert(bare == leaves_bare(b));
        if bare {
            self.push_flag(&mut out, line, col);
        }
        let ghost flag = if leaves_bare(b) {
            seq![at(left_decl(b.n), line, col)]
        } else {
            Seq::empty()
        };
        assert(body_v(out@) =~= head + flag);
        let ghost bv = body_v(body@);
        append_body(&mut out, body);
        assert(body_v(out@) =~= head + flag + bv);
        if self.back.len() > 0 {
            push_raw(&mut out, cat3(" tstore(", TRY_RETURNED_SLOT, ", 0) ").as_str(), line, col);
            let back = crate::ast::copy_captures(&self.back);
            push_stmt(&mut out, Statement::ReturnCaptures(back), line, col);
        }
        let ghost tail = if b.back.len() > 0 {
            seq![
                at(raw(mark_ended()), line, col),
                at(StmtV::ReturnCaptures(b.back), line, col),
            ]
        } else {
            Seq::empty()
        };
        assert(body_v(out@) =~= head + flag + bv + tail);
        let modifiers = vec![String::from_str("unsafe")];
        let attributes = vec![String::from_str(FRAME_MARK)];
        assert(texts(modifiers@) =~= seq!["unsafe"@]);
        assert(texts(attributes@) =~= seq![FRAME_MARK@]);
        FnDecl {
            modifiers,
            attributes,
            name: cat4("__try_", f, "_", n.as_str()),
            has_self: false,
            parameters: params_of_captures(&self.args),
            return_type: if self.leaves {
                clone_opt_type(&self.ret)
            } else {
                None
            },
            body: out,
        }
    }

    fn push_call(
        &self,
        f: &str,
        catch_body: Vec<Spanned<Statement>>,
        line: usize,
        col: usize,
        out: &mut Vec<Spanned<Statement>>,
    )
        ensures
            body_v(final(out)@) == body_v(old(out)@) + call_of(
                self.of(f@),
                body_v(catch_body@),
                line,
                col,
            ),
    {
        let ghost b = self.of(f@);
        let ghost before = body_v(out@);
        let ghost cv = body_v(catch_body@);
        let n = dec_text(self.n);
        let bare = self.bare();
        assert(bare == leaves_bare(b));
        if bare {
            self.push_flag(out, line, col);
        }
        let note = cat5(
            " let __sender_",
            n.as_str(),
            " := Message_sender()\nlet __value_",
            n.as_str(),
            " := Message_value() ",
        );
        push_raw(out, note.as_str(), line, col);
        let node = Statement::ScopedTryCall {
            thunk: cat4("__try_", f, "_", n.as_str()),
            args: crate::ast::copy_captures(&self.args),
            propagate_return: self.leaves && self.ret.is_some(),
            writeback: crate::ast::copy_captures(&self.back),
            catch_body,
        };
        push_stmt(out, node, line, col);
        if bare {
            let mut leave: Vec<Spanned<Statement>> = Vec::new();
            assert(body_v(leave@) =~= Seq::<SpannedV>::empty());
            push_stmt(&mut leave, Statement::Return { value: None }, line, col);
            assert(body_v(leave@) =~= seq![at(StmtV::Return { value: None }, line, col)]);
            let node = Statement::IfElse {
                condition: Expr::Identifier(cat2("__left_", n.as_str())),
                if_body: leave,
                else_body: None,
            };
            push_stmt(out, node, line, col);
        }
        assert(body_v(out@) =~= before + call_of(b, cv, line, col));
    }
}

fn append_body(out: &mut Vec<Spanned<Statement>>, more: Vec<Spanned<Statement>>)
    ensures
        body_v(final(out)@) == body_v(old(out)@) + body_v(more@),
{
    let ghost before = out@;
    let ghost mv = more@;
    let mut more = more;
    out.append(&mut more);
    assert(out@ =~= before + mv);
    assert(body_v(out@) =~= body_v(before) + body_v(mv));
}

impl<'a> Translator<'a> {
    fn payload_type_of(&self, cx: &Ctx, e: &Expr, variant: &str) -> (r: Type)
        ensures
            r@ == payload_type(self.env(), cx@, e@, variant@),
    {
        let tc = self.layout_engine.type_checker;
        match &self.static_type(cx, e) {
            Type::Primitive(n) => match tc.loaded_enums.get(n.as_str()) {
                Some(d) => {
                    assert(self.env().w.enums[n@] == d@);
                    match find_variant(&d.variants, variant) {
                        Some(i) => {
                            let v = &d.variants[i];
                            assert(v@ == d.variants@[i as int]@);
                            if v.parameters.len() > 0 {
                                assert(v@.parameters[0] == v.parameters@[0]@);
                                v.parameters[0].type_def.clone()
                            } else {
                                Type::Primitive(String::from_str("u256"))
                            }
                        },
                        None => Type::Primitive(String::from_str("u256")),
                    }
                },
                None => Type::Primitive(String::from_str("u256")),
            },
            _ => Type::Primitive(String::from_str("u256")),
        }
    }

    /// Moves a `try` block out: `tried` and `caught` are its two bodies, their own blocks
    /// moved out already.
    fn move_block(
        &self,
        fr: &mut Frames,
        cx: &Ctx,
        f: &str,
        try_body: &Vec<Spanned<Statement>>,
        tried: Vec<Spanned<Statement>>,
        caught: Vec<Spanned<Statement>>,
        line: usize,
        col: usize,
        out: &mut Vec<Spanned<Statement>>,
    )
        ensures
            ({
                let caps = captures(cx@, body_v(try_body@));
                let b = block_of(
                    self.env(),
                    cx@,
                    f@,
                    old(fr)@.thunks.len(),
                    body_v(try_body@),
                );
                let body = framed_body(mode_of(b), body_v(tried@), tried@.len());
                &&& final(fr)@ == (FramesV {
                    thunks: old(fr)@.thunks.push(thunk_of(b, body, line, col)),
                    errors: old(fr)@.errors + stuck(self.env().w, f@, caps, caps.len()),
                })
                &&& body_v(final(out)@) == body_v(old(out)@) + call_of(
                    b,
                    body_v(caught@),
                    line,
                    col,
                )
            }),
    {
        let ghost fr0 = fr@;
        let ghost out0 = body_v(out@);
        let ghost cv = body_v(caught@);
        let tc = self.layout_engine.type_checker;
        let mut names: Vec<String> = Vec::new();
        assert(texts(names@) =~= Seq::<Seq<char>>::empty());
        add_touched_body(try_body, false, &mut names);
        let ghost nv = touched_body(body_v(try_body@), false, try_body@.len());
        assert(texts(names@) =~= nv);
        assert(body_v(try_body@).len() == try_body@.len());
        let mut args = find_locals(cx, &names);
        let ghost caps = captures(cx@, body_v(try_body@));
        assert(captures_v(args@) == caps);
        let mut writes: Vec<String> = Vec::new();
        assert(texts(writes@) =~= Seq::<Seq<char>>::empty());
        add_touched_body(try_body, true, &mut writes);
        assert(texts(writes@) =~= touched_body(body_v(try_body@), true, try_body@.len()));
        note_stuck(tc, f, &args, &mut fr.errors);
        let leaves = block_returns(try_body);
        let ret = clone_opt_type(&cx.return_type);
        let n = fr.thunks.len();
        let number = dec_text(n);
        let mut back = find_handed_back(tc, &args, &writes);
        if leaves && ret.is_none() {
            push_capture(
                &mut back,
                cat2("__left_", number.as_str()),
                Type::Primitive(String::from_str("bool")),
            );
        }
        push_capture(
            &mut args,
            cat2("__sender_", number.as_str()),
            Type::Primitive(String::from_str("Account")),
        );
        push_capture(
            &mut args,
            cat2("__value_", number.as_str()),
            Type::Primitive(String::from_str("u256")),
        );
        assert(captures_v(args@) =~= caps + caller_args(n as nat));
        let block = Block { n, ret, args, back, leaves };
        let ghost b = block_of(self.env(), cx@, f@, fr0.thunks.len(), body_v(try_body@));
        assert(block.of(f@) == b);
        let mode = block.mode(f);
        let body = frame_body(&mode, &tried);
        let thunk = block.thunk(f, body, line, col);
        let ghost tv = thunk@;
        fr.thunks.push(thunk);
        assert(fr@.thunks =~= fr0.thunks.push(tv));
        block.push_call(f, caught, line, col, out);
    }

    fn scope_stmt(
        &self,
        fr: &mut Frames,
        cx: &mut Ctx,
        f: &str,
        s: &Statement,
        line: usize,
        col: usize,
        out: &mut Vec<Spanned<Statement>>,
    )
        ensures
            ({
                let r = scoped(self.env(), old(fr)@, old(cx)@, f@, s@, line, col);
                &&& final(fr)@ == r.0
                &&& final(cx)@ == r.1
                &&& body_v(final(out)@) == body_v(old(out)@) + r.2
            }),
        decreases s, 1nat,
    {
        proof {
            reveal_with_fuel(Statement::view, 2);
        }
        match s {
            Statement::VarDecl { type_def, name, value, .. } => {
                let t = self.var_type(cx, type_def, value);
                cx.declare(name.as_str(), &t);
                push_stmt(out, s.clone(), line, col);
            },
            Statement::IfElse { condition, if_body, else_body } => {
                let mut inner = cx.copy();
                let a = self.scope_body(fr, &mut inner, f, if_body);
                let b = match else_body {
                    Some(eb) => {
                        let mut inner = cx.copy();
                        Some(self.scope_body(fr, &mut inner, f, eb))
                    },
                    None => None,
                };
                let node = Statement::IfElse {
                    condition: condition.clone(),
                    if_body: a,
                    else_body: b,
                };
                push_stmt(out, node, line, col);
            },
            Statement::ForLoop { iterator, iterable, body } => {
                let mut inner = cx.copy();
                let t = self.elem_type_of(cx, iterable);
                inner.declare(iterator.as_str(), &t);
                let b = self.scope_body(fr, &mut inner, f, body);
                let node = Statement::ForLoop {
                    iterator: iterator.clone(),
                    iterable: iterable.clone(),
                    body: b,
                };
                push_stmt(out, node, line, col);
            },
            Statement::WhileLoop { condition, body } => {
                let mut inner = cx.copy();
                let b = self.scope_body(fr, &mut inner, f, body);
                let node = Statement::WhileLoop { condition: condition.clone(), body: b };
                push_stmt(out, node, line, col);
            },
            Statement::Match { expr, arms } => {
                let b = self.scope_arms(fr, cx, f, expr, arms);
                let node = Statement::Match { expr: expr.clone(), arms: b };
                push_stmt(out, node, line, col);
            },
            Statement::ScopedTryCall { thunk, args, propagate_return, writeback, catch_body } => {
                let mut inner = cx.copy();
                let b = self.scope_body(fr, &mut inner, f, catch_body);
                let node = Statement::ScopedTryCall {
                    thunk: thunk.clone(),
                    args: crate::ast::copy_captures(args),
                    propagate_return: *propagate_return,
                    writeback: crate::ast::copy_captures(writeback),
                    catch_body: b,
                };
                push_stmt(out, node, line, col);
            },
            Statement::TryCatch { try_body, catch_body } => {
                let mut inner = cx.copy();
                let tried = self.scope_body(fr, &mut inner, f, try_body);
                let mut inner = cx.copy();
                let caught = self.scope_body(fr, &mut inner, f, catch_body);
                assert(body_v(tried@).len() == tried@.len());
                self.move_block(fr, cx, f, try_body, tried, caught, line, col, out);
            },
            _ => {
                push_stmt(out, s.clone(), line, col);
            },
        }
    }

    fn scope_body(
        &self,
        fr: &mut Frames,
        cx: &mut Ctx,
        f: &str,
        body: &Vec<Spanned<Statement>>,
    ) -> (r: Vec<Spanned<Statement>>)
        ensures
            scoped_body(self.env(), old(fr)@, old(cx)@, f@, body_v(body@), body@.len()) == (
                final(fr)@,
                final(cx)@,
                body_v(r@),
            ),
        decreases body, 0nat,
    {
        let ghost fr0 = fr@;
        let ghost cx0 = cx@;
        let mut out: Vec<Spanned<Statement>> = Vec::new();
        let mut i: usize = 0;
        assert(body_v(out@) =~= Seq::<SpannedV>::empty());
        while i < body.len()
            invariant
                i <= body@.len(),
                scoped_body(self.env(), fr0, cx0, f@, body_v(body@), i as nat) == (
                    fr@,
                    cx@,
                    body_v(out@),
                ),
            decreases body@.len() - i,
        {
            let s: &Spanned<Statement> = &body[i];
            assert(decreases_to!(*body => *s));
            assert(body_v(body@)[i as int] == s@);
            self.scope_stmt(fr, cx, f, &s.node, s.line, s.col, &mut out);
            i += 1;
        }
        out
    }

    fn scope_arms(
        &self,
        fr: &mut Frames,
        cx: &Ctx,
        f: &str,
        e: &Expr,
        arms: &Vec<MatchArm>,
    ) -> (r: Vec<MatchArm>)
        ensures
            scoped_arms(self.env(), old(fr)@, cx@, f@, e@, arms_v(arms@), arms@.len()) == (
                final(fr)@,
                arms_v(r@),
            ),
        decreases arms, 0nat,
    {
        let ghost fr0 = fr@;
        let mut out: Vec<MatchArm> = Vec::new();
        let mut i: usize = 0;
        assert(arms_v(out@) =~= Seq::<ArmV>::empty());
        while i < arms.len()
            invariant
                i <= arms@.len(),
                scoped_arms(self.env(), fr0, cx@, f@, e@, arms_v(arms@), i as nat) == (
                    fr@,
                    arms_v(out@),
                ),
            decreases arms@.len() - i,
        {
            let a: &MatchArm = &arms[i];
            assert(decreases_to!(*arms => *a));
            assert(arms_v(arms@)[i as int] == a@);
            let mut inner = cx.copy();
            match &a.payload_var {
                Some(x) => {
                    let t = self.payload_type_of(cx, e, a.variant.as_str());
                    inner.declare(x.as_str(), &t);
                },
                None => {},
            }
            let body = self.scope_body(fr, &mut inner, f, &a.body);
            let ghost before = arms_v(out@);
            let arm = MatchArm {
                variant: a.variant.clone(),
                payload_var: clone_opt_text(&a.payload_var),
                body,
            };
            let ghost av = arm@;
            out.push(arm);
            assert(arms_v(out@) =~= before.push(av));
            i += 1;
        }
        out
    }
}

/// A function of contract `class`, its `try` blocks moved out.
pub open spec fn scoped_fn(g: EnvV, fr: FramesV, class: Seq<char>, f: FnV) -> (FramesV, FnV) {
    if f.name == "new"@ {
        (fr, f)
    } else {
        let cx0 = CtxV { return_type: f.return_type, ..helper_spec(Some((class, true))) };
        let cx = declare_all(cx0, f.parameters, f.parameters.len());
        let (fr, _, body) = scoped_body(g, fr, cx, f.name, f.body, f.body.len());
        (fr, FnV { body, ..f })
    }
}

/// The first `n` functions of a contract, their `try` blocks moved out.
pub open spec fn scoped_fns(g: EnvV, class: Seq<char>, ms: Seq<FnV>, n: nat) -> (
    FramesV,
    Seq<FnV>,
)
    decreases n,
{
    if n == 0 || n > ms.len() {
        (FramesV { thunks: Seq::empty(), errors: Seq::empty() }, Seq::empty())
    } else {
        let (fr, out) = scoped_fns(g, class, ms, (n - 1) as nat);
        let (fr, one) = scoped_fn(g, fr, class, ms[n - 1]);
        (fr, out.push(one))
    }
}

impl<'a> Translator<'a> {
    fn scope_fn(&self, fr: &mut Frames, class: &str, f: &FnDecl) -> (r: FnDecl)
        ensures
            scoped_fn(self.env(), old(fr)@, class@, f@) == (final(fr)@, r@),
    {
        if same(f.name.as_str(), "new") {
            return f.clone();
        }
        let this = SelfCtx { class_name: String::from_str(class), is_global: true };
        let mut cx = Ctx::helper(Some(&this)).with_return_type(clone_opt_type(&f.return_type));
        declare_params(&mut cx, &f.parameters);
        assert(body_v(f.body@).len() == f.body@.len());
        let body = self.scope_body(fr, &mut cx, f.name.as_str(), &f.body);
        FnDecl { body, ..f.clone() }
    }

    /// The functions of a contract, their `try` blocks moved out.
    pub(crate) fn scope_fns(&self, class: &str, ms: &Vec<FnDecl>) -> (r: (Frames, Vec<FnDecl>))
        ensures
            scoped_fns(self.env(), class@, methods_v(ms@), ms@.len()) == (
                r.0@,
                methods_v(r.1@),
            ),
    {
        let mut fr = Frames { thunks: Vec::new(), errors: Vec::new() };
        let mut out: Vec<FnDecl> = Vec::new();
        let mut i: usize = 0;
        assert(fr@.thunks =~= Seq::<FnV>::empty());
        assert(fr@.errors =~= Seq::<Seq<char>>::empty());
        assert(methods_v(out@) =~= Seq::<FnV>::empty());
        while i < ms.len()
            invariant
                i <= ms@.len(),
                scoped_fns(self.env(), class@, methods_v(ms@), i as nat) == (
                    fr@,
                    methods_v(out@),
                ),
            decreases ms@.len() - i,
        {
            assert(methods_v(ms@)[i as int] == ms@[i as int]@);
            let one = self.scope_fn(&mut fr, class, &ms[i]);
            let ghost before = methods_v(out@);
            let ghost ov = one@;
            out.push(one);
            assert(methods_v(out@) =~= before.push(ov));
            i += 1;
        }
        (fr, out)
    }
}

/// Whether a statement holds no `try` block that stands where it was written.
pub open spec fn untried(s: StmtV) -> bool
    decreases s, 1nat,
{
    match s {
        StmtV::TryCatch { .. } => false,
        StmtV::IfElse { if_body, else_body, .. } => untried_all(if_body) && (match else_body {
            Some(b) => untried_all(b),
            None => true,
        }),
        StmtV::ForLoop { body, .. } => untried_all(body),
        StmtV::WhileLoop { body, .. } => untried_all(body),
        StmtV::ScopedTryCall { catch_body, .. } => untried_all(catch_body),
        StmtV::Match { arms, .. } => untried_arms(arms),
        _ => true,
    }
}

pub open spec fn untried_all(body: Seq<SpannedV>) -> bool
    decreases body, 0nat,
{
    forall|i: int| 0 <= i < body.len() ==> untried(#[trigger] body[i].node)
}

pub open spec fn untried_arms(arms: Seq<ArmV>) -> bool
    decreases arms, 0nat,
{
    forall|i: int| 0 <= i < arms.len() ==> untried_all(#[trigger] arms[i].body)
}

proof fn lemma_untried_plus(a: Seq<SpannedV>, b: Seq<SpannedV>)
    requires
        untried_all(a),
        untried_all(b),
    ensures
        untried_all(a + b),
{
    assert forall|i: int| 0 <= i < (a + b).len() implies untried(#[trigger] (a + b)[i].node) by {
        if i < a.len() {
            assert((a + b)[i] == a[i]);
        } else {
            assert((a + b)[i] == b[i - a.len()]);
        }
    }
}

proof fn lemma_framed(m: ModeV, s: StmtV, line: usize, col: usize)
    requires
        untried(s),
    ensures
        untried_all(framed(m, s, line, col)),
    decreases s, 1nat,
{
    match s {
        StmtV::Return { value } => {},
        StmtV::IfElse { if_body, else_body, .. } => {
            lemma_framed_body(m, if_body, if_body.len());
            match else_body {
                Some(b) => {
                    lemma_framed_body(m, b, b.len());
                },
                None => {},
            }
        },
        StmtV::ForLoop { body, .. } => {
            lemma_framed_body(m, body, body.len());
        },
        StmtV::WhileLoop { body, .. } => {
            lemma_framed_body(m, body, body.len());
        },
        StmtV::ScopedTryCall { catch_body, .. } => {
            lemma_framed_body(m, catch_body, catch_body.len());
        },
        StmtV::Match { arms, .. } => {
            lemma_framed_arms(m, arms, arms.len());
        },
        _ => {},
    }
}

proof fn lemma_framed_body(m: ModeV, body: Seq<SpannedV>, n: nat)
    requires
        untried_all(body),
        n <= body.len(),
    ensures
        untried_all(framed_body(m, body, n)),
    decreases body, n,
{
    if n > 0 {
        lemma_framed_body(m, body, (n - 1) as nat);
        let s = body[n - 1];
        assert(untried(body[n - 1].node));
        lemma_framed(m, s.node, s.line, s.col);
        lemma_untried_plus(
            framed_body(m, body, (n - 1) as nat),
            framed(m, s.node, s.line, s.col),
        );
    }
}

proof fn lemma_framed_arms(m: ModeV, arms: Seq<ArmV>, n: nat)
    requires
        untried_arms(arms),
        n <= arms.len(),
    ensures
        untried_arms(framed_arms(m, arms, n)),
    decreases arms, n,
{
    if n > 0 {
        lemma_framed_arms(m, arms, (n - 1) as nat);
        let a = arms[n - 1];
        assert(untried_all(arms[n - 1].body));
        lemma_framed_body(m, a.body, a.body.len());
        let before = framed_arms(m, arms, (n - 1) as nat);
        let after = framed_arms(m, arms, n);
        assert forall|i: int| 0 <= i < after.len() implies untried_all(#[trigger] after[i].body) by {
            if i < before.len() {
                assert(after[i] == before[i]);
            }
        }
    }
}

/// What holds of the function number `k` that a block was moved into: it is no entry
/// point, it takes no lock, nothing runs in it before it has seen that the contract
/// itself made the call, and it holds no `try` block itself.
pub open spec fn sound_frame(f: FnV, k: nat) -> bool {
    &&& is_frame_spec(f)
    &&& !exported(f)
    &&& is_unsafe_spec(f)
    &&& f.body.len() > 0
    &&& f.body[0].node == raw(enter_frame(k))
    &&& untried_all(f.body)
}

pub open spec fn sound_frames(fr: FramesV) -> bool {
    forall|k: int| 0 <= k < fr.thunks.len() ==> sound_frame(#[trigger] fr.thunks[k], k as nat)
}

proof fn lemma_thunk(b: BlockV, body: Seq<SpannedV>, line: usize, col: usize)
    requires
        untried_all(body),
    ensures
        sound_frame(thunk_of(b, body, line, col), b.n),
{
    let f = thunk_of(b, body, line, col);
    let head = seq![at(raw(enter_frame(b.n)), line, col)];
    let flag = if leaves_bare(b) {
        seq![at(left_decl(b.n), line, col)]
    } else {
        Seq::empty()
    };
    let tail = if b.back.len() > 0 {
        seq![
            at(raw(mark_ended()), line, col),
            at(StmtV::ReturnCaptures(b.back), line, col),
        ]
    } else {
        Seq::empty()
    };
    assert(untried_all(head));
    assert(untried_all(flag));
    assert(untried_all(tail));
    lemma_untried_plus(head, flag);
    lemma_untried_plus(head + flag, body);
    lemma_untried_plus(head + flag + body, tail);
    assert(f.attributes[0] == FRAME_MARK@);
    assert(f.modifiers[0] == "unsafe"@);
    assert(f.body[0] == head[0]);
    reveal_strlit("unsafe");
    reveal_strlit("export");
    reveal_strlit("try block");
    reveal_strlit("Test");
    assert("unsafe"@[0] != "export"@[0]);
    assert("try block"@.len() != "Test"@.len());
}

proof fn lemma_call(b: BlockV, catch_body: Seq<SpannedV>, line: usize, col: usize)
    requires
        untried_all(catch_body),
    ensures
        untried_all(call_of(b, catch_body, line, col)),
{
    let flag = if leaves_bare(b) {
        seq![at(left_decl(b.n), line, col)]
    } else {
        Seq::empty()
    };
    let leave = seq![at(StmtV::Return { value: None }, line, col)];
    let branch = StmtV::IfElse {
        condition: ExprV::Identifier(left_name(b.n)),
        if_body: leave,
        else_body: None,
    };
    let after = if leaves_bare(b) {
        seq![at(branch, line, col)]
    } else {
        Seq::empty()
    };
    let call = StmtV::ScopedTryCall {
        thunk: thunk_name(b.f, b.n),
        args: b.args,
        propagate_return: b.leaves && b.ret is Some,
        writeback: b.back,
        catch_body,
    };
    let mid = seq![at(raw(note_caller(b.n)), line, col), at(call, line, col)];
    assert(untried_all(leave));
    assert(untried(branch));
    assert(untried(call));
    assert(untried_all(flag));
    assert(untried_all(mid));
    assert(untried_all(after));
    lemma_untried_plus(flag, mid);
    lemma_untried_plus(flag + mid, after);
}

proof fn lemma_scoped(
    g: EnvV,
    fr: FramesV,
    cx: CtxV,
    f: Seq<char>,
    s: StmtV,
    line: usize,
    col: usize,
)
    requires
        sound_frames(fr),
    ensures
        sound_frames(scoped(g, fr, cx, f, s, line, col).0),
        untried_all(scoped(g, fr, cx, f, s, line, col).2),
    decreases s, 1nat,
{
    match s {
        StmtV::IfElse { if_body, else_body, .. } => {
            lemma_scoped_body(g, fr, cx, f, if_body, if_body.len());
            match else_body {
                Some(b) => {
                    let fr1 = scoped_body(g, fr, cx, f, if_body, if_body.len()).0;
                    lemma_scoped_body(g, fr1, cx, f, b, b.len());
                },
                None => {},
            }
        },
        StmtV::ForLoop { iterator, iterable, body } => {
            let inner = declare_spec(cx, iterator, elem_type_of_spec(g, cx, iterable));
            lemma_scoped_body(g, fr, inner, f, body, body.len());
        },
        StmtV::WhileLoop { body, .. } => {
            lemma_scoped_body(g, fr, cx, f, body, body.len());
        },
        StmtV::Match { expr, arms } => {
            lemma_scoped_arms(g, fr, cx, f, expr, arms, arms.len());
        },
        StmtV::ScopedTryCall { catch_body, .. } => {
            lemma_scoped_body(g, fr, cx, f, catch_body, catch_body.len());
        },
        StmtV::TryCatch { try_body, catch_body } => {
            lemma_scoped_body(g, fr, cx, f, try_body, try_body.len());
            let (fr1, _, tb) = scoped_body(g, fr, cx, f, try_body, try_body.len());
            lemma_scoped_body(g, fr1, cx, f, catch_body, catch_body.len());
            let (fr2, _, cb) = scoped_body(g, fr1, cx, f, catch_body, catch_body.len());
            let b = block_of(g, cx, f, fr2.thunks.len(), try_body);
            lemma_framed_body(mode_of(b), tb, tb.len());
            let body = framed_body(mode_of(b), tb, tb.len());
            lemma_thunk(b, body, line, col);
            lemma_call(b, cb, line, col);
            let out = scoped(g, fr, cx, f, s, line, col).0;
            assert forall|k: int| 0 <= k < out.thunks.len() implies sound_frame(
                #[trigger] out.thunks[k],
                k as nat,
            ) by {
                if k < fr2.thunks.len() {
                    assert(out.thunks[k] == fr2.thunks[k]);
                }
            }
        },
        _ => {},
    }
}

proof fn lemma_scoped_body(
    g: EnvV,
    fr: FramesV,
    cx: CtxV,
    f: Seq<char>,
    body: Seq<SpannedV>,
    n: nat,
)
    requires
        sound_frames(fr),
        n <= body.len(),
    ensures
        sound_frames(scoped_body(g, fr, cx, f, body, n).0),
        untried_all(scoped_body(g, fr, cx, f, body, n).2),
    decreases body, n,
{
    if n > 0 {
        lemma_scoped_body(g, fr, cx, f, body, (n - 1) as nat);
        let (fr1, cx1, out) = scoped_body(g, fr, cx, f, body, (n - 1) as nat);
        let s = body[n - 1];
        lemma_scoped(g, fr1, cx1, f, s.node, s.line, s.col);
        lemma_untried_plus(out, scoped(g, fr1, cx1, f, s.node, s.line, s.col).2);
    }
}

proof fn lemma_scoped_arms(
    g: EnvV,
    fr: FramesV,
    cx: CtxV,
    f: Seq<char>,
    e: ExprV,
    arms: Seq<ArmV>,
    n: nat,
)
    requires
        sound_frames(fr),
        n <= arms.len(),
    ensures
        sound_frames(scoped_arms(g, fr, cx, f, e, arms, n).0),
        untried_arms(scoped_arms(g, fr, cx, f, e, arms, n).1),
    decreases arms, n,
{
    if n > 0 {
        lemma_scoped_arms(g, fr, cx, f, e, arms, (n - 1) as nat);
        let (fr1, before) = scoped_arms(g, fr, cx, f, e, arms, (n - 1) as nat);
        let a = arms[n - 1];
        lemma_scoped_body(g, fr1, in_arm(g, cx, e, a), f, a.body, a.body.len());
        let after = scoped_arms(g, fr, cx, f, e, arms, n).1;
        assert forall|i: int| 0 <= i < after.len() implies untried_all(#[trigger] after[i].body) by {
            if i < before.len() {
                assert(after[i] == before[i]);
            }
        }
    }
}

/// Every `try` block of a contract runs in a frame of its own: none is left where it was
/// written but in the constructor, and the functions that they are moved into can be
/// entered by the contract itself alone. Of its functions nothing else changes.
pub proof fn law_every_block_has_a_frame(g: EnvV, class: Seq<char>, ms: Seq<FnV>, n: nat)
    requires
        n <= ms.len(),
    ensures
        ({
            let (fr, out) = scoped_fns(g, class, ms, n);
            &&& out.len() == n
            &&& forall|i: int|
                0 <= i < n && ms[i].name != "new"@ ==> untried_all(#[trigger] out[i].body)
            &&& forall|i: int|
                0 <= i < n ==> (FnV { body: ms[i].body, ..#[trigger] out[i] }) == ms[i]
            &&& sound_frames(fr)
        }),
    decreases n,
{
    if n > 0 {
        law_every_block_has_a_frame(g, class, ms, (n - 1) as nat);
        let (fr, before) = scoped_fns(g, class, ms, (n - 1) as nat);
        let f = ms[n - 1];
        if f.name != "new"@ {
            let cx0 = CtxV { return_type: f.return_type, ..helper_spec(Some((class, true))) };
            let cx = declare_all(cx0, f.parameters, f.parameters.len());
            lemma_scoped_body(g, fr, cx, f.name, f.body, f.body.len());
        }
        let out = scoped_fns(g, class, ms, n).1;
        assert forall|i: int| 0 <= i < n && ms[i].name != "new"@ implies untried_all(
            #[trigger] out[i].body,
        ) by {
            if i < n - 1 {
                assert(out[i] == before[i]);
            }
        }
        assert forall|i: int| 0 <= i < n implies (FnV { body: ms[i].body, ..#[trigger] out[i] })
            == ms[i] by {
            if i < n - 1 {
                assert(out[i] == before[i]);
            }
        }
    }
}

} // verus!
