//! Leaving a function: `return`, `revert`, a failing `assert`, and logs.
use crate::ast::{exprs_v, opt_expr_v, opt_type_v, types_v, Expr, ExprV, Type, TypeV};
use crate::codegen::abi::sig_spec;
use crate::codegen::helpers::{
    gum_revert_str_helper_src, gum_revert_str_src, gum_str_len_helper_src, gum_str_len_src,
};
use crate::codegen::tr_blob::blob_spec;
use crate::codegen::tr_codec::{
    abi_dynamic, abi_head_bytes_spec, ensure_abi_dyn_struct_put_spec, ensure_abi_put_spec,
    ensure_abi_struct_put_spec,
};
use crate::codegen::tr_expr::{args_spec, translate_expr_spec};
use crate::codegen::tr_types::{ident_name, ident_name_spec};
use crate::codegen::translator::{
    ensure_spec, error_selector_spec, error_spec, error_types_spec, variant_selector_spec,
    variant_types_spec, Ctx, CtxV, EnvV, StV, Translator,
};
use crate::codegen::yul::{
    byte_width, byte_width_spec, is_str_type, is_struct_type, mask_for_type, mask_spec, opt_text,
    str_type, struct_type,
};
use crate::text::{cat2, cat3, cat5, cat7, cat9, dec, dec_text, indent, indent_spec, texts};
use vstd::prelude::*;

verus! {

broadcast use crate::ast::group_views;

/// No expressions.
pub open spec fn no_exprs() -> Seq<ExprV> {
    Seq::empty()
}

pub(crate) fn no_args() -> (r: Vec<Expr>)
    ensures
        exprs_v(r@) == no_exprs(),
{
    let r: Vec<Expr> = Vec::new();
    assert(exprs_v(r@) =~= no_exprs());
    r
}

/// The first `n` values, bound to the variables `a0`, `a1` and so on.
pub open spec fn bind_lines(pad: Seq<char>, vals: Seq<Seq<char>>, n: nat) -> Seq<char>
    decreases n,
{
    if n == 0 {
        Seq::empty()
    } else {
        bind_lines(pad, vals, (n - 1) as nat) + pad + "let a"@ + dec((n - 1) as nat) + " := "@ + vals[n
            - 1] + "\n"@
    }
}

pub(crate) fn bind_lines_text(pad: &str, vals: &Vec<String>) -> (r: String)
    ensures
        r@ == bind_lines(pad@, texts(vals@), vals@.len()),
{
    let mut out = String::new();
    let mut i: usize = 0;
    while i < vals.len()
        invariant
            i <= vals@.len(),
            out@ == bind_lines(pad@, texts(vals@), i as nat),
        decreases vals@.len() - i,
    {
        out.append(pad);
        out.append("let a");
        out.append(dec_text(i).as_str());
        out.append(" := ");
        out.append(vals[i].as_str());
        out.append("\n");
        i += 1;
    }
    out
}

/// Reverts with one string.
#[verifier::opaque]
pub open spec fn revert_string_spec(
    g: EnvV,
    st: StV,
    cx: CtxV,
    label: Seq<char>,
    selector: Seq<char>,
    arg: ExprV,
) -> (StV, Seq<char>) {
    let st = ensure_spec(st, "gum_str_len"@, gum_str_len_src());
    let st = ensure_spec(st, "gum_revert_str"@, gum_revert_str_src());
    let (st, s) = translate_expr_spec(g, st, cx, arg);
    (st, "// "@ + label + "\ngum_revert_str(shl(224, "@ + selector + "), "@ + s + ")\n"@)
}

impl<'a> Translator<'a> {
    pub(crate) fn revert_string(
        &mut self,
        cx: &Ctx,
        label: &str,
        selector: &str,
        arg: &Expr,
    ) -> (r: String)
        ensures
            final(self).env() == old(self).env(),
            revert_string_spec(
                old(self).env(),
                old(self).st(),
                cx@,
                label@,
                selector@,
                arg@,
            ) == (final(self).st(), r@),
    {
        proof {
            reveal(revert_string_spec);
        }
        self.ensure_helper("gum_str_len", gum_str_len_helper_src());
        self.ensure_helper("gum_revert_str", gum_revert_str_helper_src());
        let s = self.translate_expr(cx, arg);
        cat7("// ", label, "\ngum_revert_str(shl(224, ", selector, "), ", s.as_str(), ")\n")
    }
}

pub open spec fn first_is_string_spec(ts: Seq<TypeV>) -> bool {
    if ts.len() == 0 {
        false
    } else {
        str_type(ts[0])
    }
}

pub(crate) fn first_is_string(ts: &Vec<Type>) -> (r: bool)
    ensures
        r == first_is_string_spec(types_v(ts@)),
{
    if ts.len() == 0 {
        return false;
    }
    is_str_type(&ts[0])
}

/// Reverts with an error and its fields.
#[verifier::opaque]
pub open spec fn emit_revert_data_spec(
    g: EnvV,
    st: StV,
    cx: CtxV,
    label: Seq<char>,
    selector: Seq<char>,
    args: Seq<ExprV>,
    types: Seq<TypeV>,
) -> (StV, Seq<char>) {
    if args.len() == 1 && first_is_string_spec(types) {
        revert_string_spec(g, st, cx, label, selector, args[0])
    } else if args.len() == 0 {
        (
            st,
            "// "@ + label + "\n{\nlet _p := mload(0x40)\nmstore(_p, shl(224, "@ + selector + "))\nrevert(_p, 4)\n}\n"@,
        )
    } else {
        let (st, pair) = blob_spec(g, st, types);
        let size_src = pair.0;
        let write_src = pair.1;
        let (st, vals) = args_spec(g, st, cx, args, args.len());
        (
            st,
            "// "@ + label + "\n{\n"@ + bind_lines(
                ""@,
                vals,
                vals.len(),
            ) + size_src + "let _p := allocate_memory(add(4, alen))\nmstore(_p, shl(224, "@ + selector + "))\nlet blob := add(_p, 4)\n"@ + write_src + "revert(_p, add(4, alen))\n}\n"@,
        )
    }
}

impl<'a> Translator<'a> {
    pub(crate) fn emit_revert_data(
        &mut self,
        cx: &Ctx,
        label: &str,
        selector: &str,
        args: &Vec<Expr>,
        types: &Vec<Type>,
    ) -> (r: String)
        ensures
            final(self).env() == old(self).env(),
            emit_revert_data_spec(
                old(self).env(),
                old(self).st(),
                cx@,
                label@,
                selector@,
                exprs_v(args@),
                types_v(types@),
            ) == (final(self).st(), r@),
    {
        proof {
            reveal(emit_revert_data_spec);
        }
        if args.len() == 1 && first_is_string(types) {
            return self.revert_string(cx, label, selector, &args[0]);
        }
        if args.len() == 0 {
            return cat5(
                "// ",
                label,
                "\n{\nlet _p := mload(0x40)\nmstore(_p, shl(224, ",
                selector,
                "))\nrevert(_p, 4)\n}\n",
            );
        }
        let (size_src, write_src) = self.abi_arg_blob_src(types);
        let vals = self.translate_args(cx, args);
        cat2(
            cat9(
                "// ",
                label,
                "\n{\n",
                bind_lines_text("", &vals).as_str(),
                size_src.as_str(),
                "let _p := allocate_memory(add(4, alen))\nmstore(_p, shl(224, ",
                selector,
                "))\nlet blob := add(_p, 4)\n",
                write_src.as_str(),
            ).as_str(),
            "revert(_p, add(4, alen))\n}\n",
        )
    }
}

/// Reverts with a declared error, or with a variant of an enum.
#[verifier::opaque]
pub open spec fn named_error_spec(
    g: EnvV,
    st: StV,
    cx: CtxV,
    e: ExprV,
    lead: Seq<char>,
) -> (StV, Option<Seq<char>>) {
    match e {
        ExprV::FnCall { name, args } => {
            match error_types_spec(g, name) {
                Some(ts) => {
                    let (st, code) = emit_revert_data_spec(
                        g,
                        st,
                        cx,
                        lead + name,
                        error_selector_spec(g, name),
                        args,
                        ts,
                    );
                    (st, Some(code))
                },
                None => (st, None),
            }
        },
        ExprV::MethodCall { base, method, args } => {
            match ident_name_spec(*base) {
                Some(n) => {
                    match variant_types_spec(g, n, method) {
                        Some(ts) => {
                            let (st, code) = emit_revert_data_spec(
                                g,
                                st,
                                cx,
                                lead + method,
                                variant_selector_spec(g, n, method),
                                args,
                                ts,
                            );
                            (st, Some(code))
                        },
                        None => (st, None),
                    }
                },
                None => (st, None),
            }
        },
        ExprV::PropertyAccess { base, property } => {
            match ident_name_spec(*base) {
                Some(n) => {
                    match variant_types_spec(g, n, property) {
                        Some(ts) => {
                            let (st, code) = emit_revert_data_spec(
                                g,
                                st,
                                cx,
                                lead + property,
                                variant_selector_spec(g, n, property),
                                no_exprs(),
                                ts,
                            );
                            (st, Some(code))
                        },
                        None => (st, None),
                    }
                },
                None => (st, None),
            }
        },
        _ => (st, None),
    }
}

impl<'a> Translator<'a> {
    pub(crate) fn named_error(&mut self, cx: &Ctx, e: &Expr, lead: &str) -> (r: Option<String>)
        ensures
            final(self).env() == old(self).env(),
            named_error_spec(
                old(self).env(),
                old(self).st(),
                cx@,
                e@,
                lead@,
            ) == (final(self).st(), opt_text(r)),
    {
        proof {
            reveal(named_error_spec);
        }
        match e {
            Expr::FnCall { name, args } => {
                match self.error_types(name.as_str()) {
                    Some(ts) => {
                        let code = self.emit_revert_data(
                            cx,
                            cat2(lead, name.as_str()).as_str(),
                            self.error_selector(name.as_str()).as_str(),
                            args,
                            &ts,
                        );
                        Some(code)
                    },
                    None => None,
                }
            },
            Expr::MethodCall { base, method, args } => {
                match ident_name(base) {
                    Some(n) => {
                        match self.variant_types(n.as_str(), method.as_str()) {
                            Some(ts) => {
                                let code = self.emit_revert_data(
                                    cx,
                                    cat2(lead, method.as_str()).as_str(),
                                    self.variant_selector(n.as_str(), method.as_str()).as_str(),
                                    args,
                                    &ts,
                                );
                                Some(code)
                            },
                            None => None,
                        }
                    },
                    None => None,
                }
            },
            Expr::PropertyAccess { base, property } => {
                match ident_name(base) {
                    Some(n) => {
                        match self.variant_types(n.as_str(), property.as_str()) {
                            Some(ts) => {
                                let code = self.emit_revert_data(
                                    cx,
                                    cat2(lead, property.as_str()).as_str(),
                                    self.variant_selector(n.as_str(), property.as_str()).as_str(),
                                    &no_args(),
                                    &ts,
                                );
                                Some(code)
                            },
                            None => None,
                        }
                    },
                    None => None,
                }
            },
            _ => None,
        }
    }
}

/// What a failing assertion reverts with: an error, or a message.
#[verifier::opaque]
pub open spec fn assert_failure_data_spec(
    g: EnvV,
    st: StV,
    cx: CtxV,
    msg: ExprV,
) -> (StV, Seq<char>) {
    let (st, found) = named_error_spec(g, st, cx, msg, "assert failed: "@);
    match found {
        Some(s) => (st, s),
        None => revert_string_spec(g, st, cx, "assert failed"@, "0x08c379a0"@, msg),
    }
}

impl<'a> Translator<'a> {
    pub(crate) fn assert_failure_data(&mut self, cx: &Ctx, msg: &Expr) -> (r: String)
        ensures
            final(self).env() == old(self).env(),
            assert_failure_data_spec(
                old(self).env(),
                old(self).st(),
                cx@,
                msg@,
            ) == (final(self).st(), r@),
    {
        proof {
            reveal(assert_failure_data_spec);
        }
        let found = self.named_error(cx, msg, "assert failed: ");
        match found {
            Some(s) => {
                return s;
            },
            None => {},
        }
        self.revert_string(cx, "assert failed", "0x08c379a0", msg)
    }
}

#[verifier::opaque]
pub open spec fn translate_revert_spec(g: EnvV, st: StV, cx: CtxV, e: ExprV) -> (StV, Seq<char>) {
    let (st, found) = named_error_spec(g, st, cx, e, "Revert "@);
    match found {
        Some(s) => (st, s),
        None => {
            let st = error_spec(st, "revert takes a declared error or a variant of an enum."@);
            (st, ""@)
        },
    }
}

impl<'a> Translator<'a> {
    pub(crate) fn translate_revert(&mut self, cx: &Ctx, e: &Expr) -> (r: String)
        ensures
            final(self).env() == old(self).env(),
            translate_revert_spec(
                old(self).env(),
                old(self).st(),
                cx@,
                e@,
            ) == (final(self).st(), r@),
    {
        proof {
            reveal(translate_revert_spec);
        }
        let found = self.named_error(cx, e, "Revert ");
        match found {
            Some(s) => {
                return s;
            },
            None => {},
        }
        self.note_error(String::from_str("revert takes a declared error or a variant of an enum."));
        String::from_str("")
    }
}

#[verifier::opaque]
pub open spec fn translate_assert_spec(
    g: EnvV,
    st: StV,
    cx: CtxV,
    condition: ExprV,
    message: Option<ExprV>,
) -> (StV, Seq<char>) {
    let (st, c) = translate_expr_spec(g, st, cx, condition);
    match message {
        Some(m) => {
            let (st, code) = assert_failure_data_spec(g, st, cx, m);
            (st, "if iszero("@ + c + ") {\n"@ + indent_spec("    "@, code) + "}\n"@)
        },
        None => (st, "if iszero("@ + c + ") { revert(0, 0) }\n"@),
    }
}

impl<'a> Translator<'a> {
    pub(crate) fn translate_assert(
        &mut self,
        cx: &Ctx,
        condition: &Expr,
        message: &Option<Expr>,
    ) -> (r: String)
        ensures
            final(self).env() == old(self).env(),
            translate_assert_spec(
                old(self).env(),
                old(self).st(),
                cx@,
                condition@,
                opt_expr_v(*message),
            ) == (final(self).st(), r@),
    {
        proof {
            reveal(translate_assert_spec);
        }
        let c = self.translate_expr(cx, condition);
        match message {
            Some(m) => {
                let code = self.assert_failure_data(cx, m);
                cat5(
                    "if iszero(",
                    c.as_str(),
                    ") {\n",
                    indent("    ", code.as_str()).as_str(),
                    "}\n",
                )
            },
            None => cat3("if iszero(", c.as_str(), ") { revert(0, 0) }\n"),
        }
    }
}

/// Opens the lock of a function that may not be entered again.
pub open spec fn lock_clear_spec(g: EnvV, cx: CtxV) -> Seq<char> {
    match cx.lock_slot {
        Some(lock) => "tstore("@ + lock + ", 0)\n"@,
        None => ""@,
    }
}

impl<'a> Translator<'a> {
    pub(crate) fn lock_clear(&self, cx: &Ctx) -> (r: String)
        ensures
            r@ == lock_clear_spec(self.env(), cx@),
    {
        match &cx.lock_slot {
            Some(lock) => cat3("tstore(", lock.as_str(), ", 0)\n"),
            None => String::from_str(""),
        }
    }
}

pub open spec fn is_bytes_n_spec(t: TypeV) -> bool {
    match t {
        TypeV::Primitive(n) => byte_width_spec(n) is Some,
        _ => false,
    }
}

pub(crate) fn is_bytes_n(t: &Type) -> (r: bool)
    ensures
        r == is_bytes_n_spec(t@),
{
    match t {
        Type::Primitive(n) => byte_width(n.as_str()).is_some(),
        _ => false,
    }
}

pub open spec fn masked_return_spec(g: EnvV, cx: CtxV, val_expr: Seq<char>) -> Seq<char> {
    match cx.return_type {
        Some(t) => {
            if is_bytes_n_spec(t) {
                val_expr
            } else {
                mask_spec(val_expr, t)
            }
        },
        None => val_expr,
    }
}

impl<'a> Translator<'a> {
    pub(crate) fn masked_return(&self, cx: &Ctx, val_expr: &str) -> (r: String)
        ensures
            r@ == masked_return_spec(self.env(), cx@, val_expr@),
    {
        match &cx.return_type {
            Some(t) => {
                if is_bytes_n(t) {
                    return String::from_str(val_expr);
                }
                mask_for_type(val_expr, t)
            },
            None => String::from_str(val_expr),
        }
    }
}

/// The helper that encodes a value that has no size of one word, its size
/// helper, whether it is dynamic, and the bytes of its head.
#[verifier::opaque]
pub open spec fn return_codec_spec(
    g: EnvV,
    st: StV,
    t: TypeV,
) -> (StV, Option<(Seq<char>, Seq<char>, bool, usize)>) {
    match t {
        TypeV::Primitive(name) => {
            if struct_type(g.w, t) && abi_dynamic(g.w, t) {
                let (st, found) = ensure_abi_dyn_struct_put_spec(g, st, name);
                match found {
                    Some((put, size_fn)) => (st, Some((put, size_fn, true, 32usize))),
                    None => (st, None),
                }
            } else {
                (st, None)
            }
        },
        TypeV::Array(_) => {
            let (st, found) = ensure_abi_put_spec(g, st, t);
            match found {
                Some((put, size_fn)) => (
                    st,
                    Some((put, size_fn, abi_dynamic(g.w, t), abi_head_bytes_spec(g, t))),
                ),
                None => {
                    let st = error_spec(
                        st,
                        "an array of type '"@ + sig_spec(g.aw, t) + "' has no ABI encoding."@,
                    );
                    (st, None)
                },
            }
        },
        TypeV::FixedArray(_, _) => {
            let (st, found) = ensure_abi_put_spec(g, st, t);
            match found {
                Some((put, size_fn)) => (
                    st,
                    Some((put, size_fn, abi_dynamic(g.w, t), abi_head_bytes_spec(g, t))),
                ),
                None => {
                    let st = error_spec(
                        st,
                        "an array of type '"@ + sig_spec(g.aw, t) + "' has no ABI encoding."@,
                    );
                    (st, None)
                },
            }
        },
        _ => (st, None),
    }
}

impl<'a> Translator<'a> {
    pub(crate) fn return_codec(&mut self, t: &Type) -> (r: Option<(String, String, bool, usize)>)
        ensures
            final(self).env() == old(self).env(),
            return_codec_spec(old(self).env(), old(self).st(), t@) == (
                final(self).st(),
                (match r { Some(x) => Some((x.0@, x.1@, x.2, x.3)), None => None }),
            ),
    {
        proof {
            reveal(return_codec_spec);
        }
        match t {
            Type::Primitive(name) => {
                if is_struct_type(self.layout_engine.type_checker, t) && self.abi_is_dynamic(t) {
                    let found = self.ensure_abi_dyn_struct_put(name.as_str());
                    match found {
                        Some((put, size_fn)) => {
                            return Some((put, size_fn, true, 32));
                        },
                        None => {
                            return None;
                        },
                    }
                }
                None
            },
            Type::Array(_) => {
                let found = self.ensure_abi_put(t);
                match found {
                    Some((put, size_fn)) => Some(
                        (put, size_fn, self.abi_is_dynamic(t), self.abi_head_bytes(t))
                    ),
                    None => {
                        self.note_error(
                            cat3(
                                "an array of type '",
                                self.abi_gen.signature_type(t).as_str(),
                                "' has no ABI encoding.",
                            )
                        );
                        None
                    },
                }
            },
            Type::FixedArray(_, _) => {
                let found = self.ensure_abi_put(t);
                match found {
                    Some((put, size_fn)) => Some(
                        (put, size_fn, self.abi_is_dynamic(t), self.abi_head_bytes(t))
                    ),
                    None => {
                        self.note_error(
                            cat3(
                                "an array of type '",
                                self.abi_gen.signature_type(t).as_str(),
                                "' has no ABI encoding.",
                            )
                        );
                        None
                    },
                }
            },
            _ => None,
        }
    }
}

#[verifier::opaque]
pub open spec fn return_struct_spec(
    g: EnvV,
    st: StV,
    t: TypeV,
) -> (StV, Option<(Seq<char>, usize)>) {
    match t {
        TypeV::Primitive(name) => {
            if struct_type(g.w, t) && !abi_dynamic(g.w, t) {
                ensure_abi_struct_put_spec(g, st, name)
            } else {
                (st, None)
            }
        },
        _ => (st, None),
    }
}

impl<'a> Translator<'a> {
    pub(crate) fn return_struct(&mut self, t: &Type) -> (r: Option<(String, usize)>)
        ensures
            final(self).env() == old(self).env(),
            return_struct_spec(old(self).env(), old(self).st(), t@) == (
                final(self).st(),
                (match r { Some(x) => Some((x.0@, x.1)), None => None }),
            ),
    {
        proof {
            reveal(return_struct_spec);
        }
        match t {
            Type::Primitive(name) => {
                if is_struct_type(self.layout_engine.type_checker, t) && !self.abi_is_dynamic(t) {
                    return self.ensure_abi_struct_put(name.as_str());
                }
                None
            },
            _ => None,
        }
    }
}

/// How far a byte string of `w` bytes is shifted to fill its word from the left.
pub open spec fn left_shift(w: usize) -> usize {
    if w <= 32 {
        ((32 - w) * 8) as usize
    } else {
        0
    }
}

fn left_shift_bits(w: usize) -> (r: usize)
    ensures
        r == left_shift(w),
{
    if w <= 32 {
        (32 - w) * 8
    } else {
        0
    }
}

/// A value in one word; a byte string fills it from the left.
pub open spec fn return_word_spec(t: Option<TypeV>, val_expr: Seq<char>) -> Seq<char> {
    match t {
        Some(u) => {
            match u {
                TypeV::Primitive(n) => {
                    match byte_width_spec(n) {
                        Some(w) => {
                            if w < 32usize {
                                "shl("@ + dec(left_shift(w) as nat) + ", "@ + val_expr + ")"@
                            } else {
                                val_expr
                            }
                        },
                        None => val_expr,
                    }
                },
                _ => val_expr,
            }
        },
        None => val_expr,
    }
}

pub(crate) fn return_word(t: &Option<Type>, val_expr: &str) -> (r: String)
    ensures
        r@ == return_word_spec(opt_type_v(*t), val_expr@),
{
    match t {
        Some(u) => {
            match u {
                Type::Primitive(n) => {
                    match byte_width(n.as_str()) {
                        Some(w) => {
                            if w < 32 {
                                return cat5(
                                    "shl(",
                                    dec_text(left_shift_bits(w)).as_str(),
                                    ", ",
                                    val_expr,
                                    ")",
                                );
                            }
                            String::from_str(val_expr)
                        },
                        None => String::from_str(val_expr),
                    }
                },
                _ => String::from_str(val_expr),
            }
        },
        None => String::from_str(val_expr),
    }
}

#[verifier::opaque]
pub open spec fn return_wide_spec(
    g: EnvV,
    st: StV,
    cx: CtxV,
    t: TypeV,
    v: Seq<char>,
) -> (StV, Option<Seq<char>>) {
    let (st, found) = return_codec_spec(g, st, t);
    match found {
        Some((put, size_fn, dynamic, head)) => {
            if dynamic {
                (
                    st,
                    Some(
                        "let _p := "@
                        + v
                        + "\nlet _out := allocate_memory(add(32, "@
                        + size_fn
                        + "(_p)))\nmstore(_out, 32)\nlet _w := "@
                        + put
                        + "(add(_out, 32), _p)\n"@
                        + lock_clear_spec(g, cx)
                        + "return(_out, add(32, _w))\n"@
                    ),
                )
            } else {
                (
                    st,
                    Some(
                        "let _p := "@
                        + v
                        + "\nlet _out := allocate_memory("@
                        + dec(head as nat)
                        + ")\npop("@
                        + put
                        + "(_out, _p))\n"@
                        + lock_clear_spec(g, cx)
                        + "return(_out, "@
                        + dec(head as nat)
                        + ")\n"@
                    ),
                )
            }
        },
        None => {
            let (st, found) = return_struct_spec(g, st, t);
            match found {
                Some((helper, wire)) => (
                    st,
                    Some(
                        "let _p := "@
                        + v
                        + "\nlet _out := allocate_memory("@
                        + dec(wire as nat)
                        + ")\n"@
                        + helper
                        + "(_out, _p)\n"@
                        + lock_clear_spec(g, cx)
                        + "return(_out, "@
                        + dec(wire as nat)
                        + ")\n"@
                    ),
                ),
                None => {
                    if str_type(t) {
                        (
                            st,
                            Some(
                                "let _p := "@
                                + v
                                + "\nlet _len := and(shr(192, mload(_p)), 0xffffffffffffffff)\nlet _padded_len := and(add(_len, 31), not(31))\nlet _out := allocate_memory(add(64, _padded_len))\nmstore(_out, 32)\nmstore(add(_out, 32), _len)\ngum_memory_copy(add(_p, 32), add(_out, 64), _len)\n"@
                                + lock_clear_spec(g, cx)
                                + "return(_out, add(64, _padded_len))\n"@
                            ),
                        )
                    } else {
                        (st, None)
                    }
                },
            }
        },
    }
}

impl<'a> Translator<'a> {
    pub(crate) fn return_wide(&mut self, cx: &Ctx, t: &Type, v: &str) -> (r: Option<String>)
        ensures
            final(self).env() == old(self).env(),
            return_wide_spec(
                old(self).env(),
                old(self).st(),
                cx@,
                t@,
                v@,
            ) == (final(self).st(), opt_text(r)),
    {
        proof {
            reveal(return_wide_spec);
        }
        let found = self.return_codec(t);
        match found {
            Some((put, size_fn, dynamic, head)) => {
                if dynamic {
                    return Some(
                        cat9(
                            "let _p := ",
                            v,
                            "\nlet _out := allocate_memory(add(32, ",
                            size_fn.as_str(),
                            "(_p)))\nmstore(_out, 32)\nlet _w := ",
                            put.as_str(),
                            "(add(_out, 32), _p)\n",
                            self.lock_clear(cx).as_str(),
                            "return(_out, add(32, _w))\n",
                        )
                    );
                }
                return Some(
                    cat3(
                        cat9(
                            "let _p := ",
                            v,
                            "\nlet _out := allocate_memory(",
                            dec_text(head).as_str(),
                            ")\npop(",
                            put.as_str(),
                            "(_out, _p))\n",
                            self.lock_clear(cx).as_str(),
                            "return(_out, ",
                        ).as_str(),
                        dec_text(head).as_str(),
                        ")\n",
                    )
                );
            },
            None => {},
        }
        let found = self.return_struct(t);
        match found {
            Some((helper, wire)) => {
                return Some(
                    cat3(
                        cat9(
                            "let _p := ",
                            v,
                            "\nlet _out := allocate_memory(",
                            dec_text(wire).as_str(),
                            ")\n",
                            helper.as_str(),
                            "(_out, _p)\n",
                            self.lock_clear(cx).as_str(),
                            "return(_out, ",
                        ).as_str(),
                        dec_text(wire).as_str(),
                        ")\n",
                    )
                );
            },
            None => {},
        }
        if is_str_type(t) {
            return Some(
                cat5(
                    "let _p := ",
                    v,
                    "\nlet _len := and(shr(192, mload(_p)), 0xffffffffffffffff)\nlet _padded_len := and(add(_len, 31), not(31))\nlet _out := allocate_memory(add(64, _padded_len))\nmstore(_out, 32)\nmstore(add(_out, 32), _len)\ngum_memory_copy(add(_p, 32), add(_out, 64), _len)\n",
                    self.lock_clear(cx).as_str(),
                    "return(_out, add(64, _padded_len))\n",
                )
            );
        }
        None
    }
}

#[verifier::opaque]
pub open spec fn wide_return_spec(
    g: EnvV,
    st: StV,
    cx: CtxV,
    v: Seq<char>,
) -> (StV, Option<Seq<char>>) {
    match cx.return_type {
        Some(t) => return_wide_spec(g, st, cx, t, v),
        None => (st, None),
    }
}

impl<'a> Translator<'a> {
    pub(crate) fn wide_return(&mut self, cx: &Ctx, v: &str) -> (r: Option<String>)
        ensures
            final(self).env() == old(self).env(),
            wide_return_spec(
                old(self).env(),
                old(self).st(),
                cx@,
                v@,
            ) == (final(self).st(), opt_text(r)),
    {
        proof {
            reveal(wide_return_spec);
        }
        match &cx.return_type {
            Some(t) => self.return_wide(cx, t, v),
            None => None,
        }
    }
}

/// Leaves the function; an entry point encodes what it returns.
#[verifier::opaque]
pub open spec fn translate_return_spec(
    g: EnvV,
    st: StV,
    cx: CtxV,
    value: Option<ExprV>,
) -> (StV, Seq<char>) {
    match value {
        Some(e) => {
            let (st, raw) = translate_expr_spec(g, st, cx, e);
            let v = masked_return_spec(g, cx, raw);
            if !cx.is_entry {
                (st, "ret := "@ + v + "\nleave\n"@)
            } else {
                let (st, found) = wide_return_spec(g, st, cx, v);
                match found {
                    Some(s) => (st, s),
                    None => (
                        st,
                        "mstore(0, "@ + return_word_spec(
                            cx.return_type,
                            v,
                        ) + ")\n"@ + lock_clear_spec(g, cx) + "return(0, 32)\n"@,
                    ),
                }
            }
        },
        None => {
            if !cx.is_entry {
                (st, "leave\n"@)
            } else {
                (st, lock_clear_spec(g, cx) + "return(0, 0)\n"@)
            }
        },
    }
}

impl<'a> Translator<'a> {
    pub(crate) fn translate_return(&mut self, cx: &Ctx, value: &Option<Expr>) -> (r: String)
        ensures
            final(self).env() == old(self).env(),
            translate_return_spec(
                old(self).env(),
                old(self).st(),
                cx@,
                opt_expr_v(*value),
            ) == (final(self).st(), r@),
    {
        proof {
            reveal(translate_return_spec);
        }
        match value {
            Some(e) => {
                let raw = self.translate_expr(cx, e);
                let v = self.masked_return(cx, raw.as_str());
                if !cx.is_entry {
                    return cat3("ret := ", v.as_str(), "\nleave\n");
                }
                let found = self.wide_return(cx, v.as_str());
                match found {
                    Some(s) => {
                        return s;
                    },
                    None => {},
                }
                cat5(
                    "mstore(0, ",
                    return_word(&cx.return_type, v.as_str()).as_str(),
                    ")\n",
                    self.lock_clear(cx).as_str(),
                    "return(0, 32)\n",
                )
            },
            None => {
                if !cx.is_entry {
                    return String::from_str("leave\n");
                }
                cat2(self.lock_clear(cx).as_str(), "return(0, 0)\n")
            },
        }
    }
}

} // verus!
