//! Statements.
use crate::ast::{
    arms_v, body_v, captures_v, opt_expr_v, opt_type_v, params_v, ArmV, Expr, ExprV, MatchArm,
    ParamV, Parameter, Spanned, SpannedV, Statement, StmtV, Type, TypeV,
};
use crate::codegen::abi::call_selector;
use crate::codegen::helpers::{
    arr_data_base_helper_src, arr_data_base_src, pk_read_helper_src, pk_read_src,
};
use crate::codegen::layout::size_spec;
use crate::codegen::tr_blob::blob_spec;
use crate::codegen::tr_construct::{is_prim, is_prim_spec};
use crate::codegen::tr_expr::{args_spec, translate_array_literal_spec, translate_expr_spec};
use crate::codegen::tr_extcall::{
    capture_names, capture_types, extcall_wrapper_src_spec, gum_exception_helpers_src,
    gum_exception_helpers_src_spec, names_of_captures, numbered, numbered_names,
    returndata_to_var_spec, returndata_tuple_to_vars_spec, types_of_captures,
};
use crate::codegen::tr_leave::{
    bind_lines, bind_lines_text, translate_assert_spec, translate_return_spec,
    translate_revert_spec,
};
use crate::codegen::tr_log::log_spec;
use crate::codegen::tr_storage::{dyn_storage_array_spec, storage_array_info_spec};
use crate::codegen::tr_store::{store_to_spec, translate_delete_spec};
use crate::codegen::tr_types::{elem_type_of_spec, fresh_local_bytes_spec, static_type_spec};
use crate::codegen::translator::{
    declare_spec, ensure_spec, error_spec, next_spec, variant_pos_spec, Ctx, CtxV, EnvV, StV,
    Translator,
};
use crate::codegen::yul::{
    at_least_one, is_struct_type, kind_suffix, kind_suffix_spec, ld_op, ld_op_spec, mask_for_type,
    mask_spec, max_one, opt_text, pack_params, pack_spec, read_packed, read_packed_spec,
    struct_type,
};
use crate::semantic::{is_infer, is_infer_spec, scalar_enum};
use crate::text::{
    cat2, cat3, cat4, cat5, cat6, cat7, cat8, cat9, chars_of, dec, dec_mul, dec_text, find_char,
    find_spec, indent, indent_spec, join, join_spec, rfind_char, rfind_spec, same, slice_text,
    trim, trim_spec,
};
use vstd::prelude::*;

verus! {

broadcast use crate::ast::group_views;

/// Open while code that a `try` block stands for runs in a call of its own.
pub const TRY_CAPABILITY_SLOT: &'static str = "0xfffffffffffffffffffffffffffffffffffffffffffffffffffffffffffffffe";

/// Set where such a call ended in a `return` of the function around the block.
pub const TRY_RETURNED_SLOT: &'static str = "0xfffffffffffffffffffffffffffffffffffffffffffffffffffffffffffffffd";

/// The variables that a `try` block reads, as parameters of its function.
pub open spec fn capture_params(cs: Seq<(Seq<char>, TypeV)>) -> Seq<ParamV> {
    cs.map_values(
        |c: (Seq<char>, TypeV)| ParamV { is_mut: false, type_def: c.1, name: c.0 },
    )
}

pub(crate) fn params_of_captures(cs: &Vec<(String, Type)>) -> (r: Vec<Parameter>)
    ensures
        params_v(r@) == capture_params(captures_v(cs@)),
{
    let mut out: Vec<Parameter> = Vec::new();
    let mut i: usize = 0;
    while i < cs.len()
        invariant
            i <= cs@.len(),
            out@.len() == i,
            forall|k: int|
                0 <= k < i ==> (#[trigger] out@[k])@ == capture_params(captures_v(cs@))[k],
        decreases cs@.len() - i,
    {
        let p = Parameter { is_mut: false, type_def: cs[i].1.clone(), name: cs[i].0.clone() };
        out.push(p);
        i += 1;
    }
    assert(params_v(out@) =~= capture_params(captures_v(cs@)));
    out
}

/// What stands between the first opening and the last closing bracket.
pub open spec fn unsafe_spec(code: Seq<char>) -> Seq<char> {
    let from = match find_spec(code, '{') {
        Some(i) => i + 1,
        None => 0,
    };
    let to = match rfind_spec(code, '}') {
        Some(i) => i,
        None => code.len() as int,
    };
    if from <= to {
        trim_spec(code.subrange(from, to))
    } else {
        Seq::empty()
    }
}

fn unsafe_text(code: &str) -> (r: String)
    ensures
        r@ == unsafe_spec(code@),
{
    let v = chars_of(code);
    let from: usize = match find_char(&v, '{') {
        Some(i) => i + 1,
        None => 0,
    };
    let to: usize = match rfind_char(&v, '}') {
        Some(i) => i,
        None => v.len(),
    };
    if from <= to {
        let s = slice_text(&v, from, to);
        trim(s.as_str())
    } else {
        String::new()
    }
}

/// The type of a new local: the declared one, or that of its value.
pub open spec fn var_type_spec(g: EnvV, cx: CtxV, t: TypeV, value: Option<ExprV>) -> TypeV {
    if is_infer_spec(t) {
        match value {
            Some(v) => static_type_spec(g, cx, v),
            None => TypeV::Primitive("u256"@),
        }
    } else {
        t
    }
}

impl<'a> Translator<'a> {
    pub(crate) fn var_type(&self, cx: &Ctx, t: &Type, value: &Option<Expr>) -> (r: Type)
        ensures
            r@ == var_type_spec(self.env(), cx@, t@, opt_expr_v(*value)),
    {
        if is_infer(t) {
            match value {
                Some(v) => {
                    return self.static_type(cx, v);
                },
                None => {
                    return Type::Primitive(String::from_str("u256"));
                },
            }
        }
        t.clone()
    }
}

pub open spec fn element_hint_spec(t: TypeV) -> Option<TypeV> {
    match t {
        TypeV::FixedArray(inner, _) => Some(*inner),
        _ => None,
    }
}

pub(crate) fn element_hint(t: &Type) -> (r: Option<Type>)
    ensures
        opt_type_v(r) == element_hint_spec(t@),
{
    match t {
        Type::FixedArray(inner, _) => Some((**inner).clone()),
        _ => None,
    }
}

/// The first value of a local; without one it is zero, or memory of its own.
#[verifier::opaque]
pub open spec fn var_value_spec(
    g: EnvV,
    st: StV,
    cx: CtxV,
    t: TypeV,
    value: Option<ExprV>,
) -> (StV, Seq<char>) {
    match value {
        Some(v) => {
            match v {
                ExprV::ArrayLiteral(elements) => {
                    let (st, a) = translate_array_literal_spec(
                        g,
                        st,
                        cx,
                        elements,
                        element_hint_spec(t),
                    );
                    (st, mask_spec(a, t))
                },
                _ => {
                    let (st, x) = translate_expr_spec(g, st, cx, v);
                    (st, mask_spec(x, t))
                },
            }
        },
        None => {
            match fresh_local_bytes_spec(g, t) {
                Some(bytes) => (st, "allocate_memory("@ + dec(bytes as nat) + ")"@),
                None => (st, "0"@),
            }
        },
    }
}

impl<'a> Translator<'a> {
    pub(crate) fn var_value(&mut self, cx: &Ctx, t: &Type, value: &Option<Expr>) -> (r: String)
        ensures
            final(self).env() == old(self).env(),
            var_value_spec(
                old(self).env(),
                old(self).st(),
                cx@,
                t@,
                opt_expr_v(*value),
            ) == (final(self).st(), r@),
    {
        proof {
            reveal(var_value_spec);
        }
        match value {
            Some(v) => {
                match v {
                    Expr::ArrayLiteral(elements) => {
                        let a = self.translate_array_literal(cx, elements, &element_hint(t));
                        mask_for_type(a.as_str(), t)
                    },
                    _ => {
                        let x = self.translate_expr(cx, v);
                        mask_for_type(x.as_str(), t)
                    },
                }
            },
            None => {
                match self.fresh_local_bytes(t) {
                    Some(bytes) => cat3("allocate_memory(", dec_text(bytes).as_str(), ")"),
                    None => String::from_str("0"),
                }
            },
        }
    }
}

/// A loop over an array in storage.
#[verifier::opaque]
pub open spec fn storage_for_loop_spec(
    g: EnvV,
    st: StV,
    cx: CtxV,
    iterator: Seq<char>,
    base_expr: Seq<char>,
    len_expr: Seq<char>,
    elem_size: usize,
    elem_type: TypeV,
    body: Seq<SpannedV>,
    tr: bool,
) -> (StV, CtxV, Seq<char>)
    decreases body, body.len() + 1,
{
    let (per, es) = pack_spec(elem_size);
    let st = ensure_spec(st, "pk_read"@ + kind_suffix_spec(tr), pk_read_src(tr));
    let (st, cx) = (st, declare_spec(cx, iterator, elem_type));
    let (st, id) = next_spec(st);
    let (st, cx, inner) = inner_spec(g, st, cx, "    "@, body, body.len());
    (
        st,
        cx,
        "let __iter_base_"@ + dec(id as nat) + " := "@ + base_expr + "\nlet __iter_len_"@ + dec(id as nat) + " := "@ + len_expr + "\nfor { let __iter_i_"@ + dec(id as nat) + " := 0 } lt(__iter_i_"@ + dec(id as nat) + ", __iter_len_"@ + dec(id as nat) + ") { __iter_i_"@ + dec(id as nat) + " := add(__iter_i_"@ + dec(id as nat) + ", 1) } {\n    let "@ + iterator + " := pk_read"@ + kind_suffix_spec(tr) + "(__iter_base_"@ + dec(id as nat) + ", __iter_i_"@ + dec(id as nat) + ", "@ + dec(per as nat) + ", "@ + dec(es as nat) + ", "@ + dec(
            at_least_one(elem_size) as nat
        ) + ")\n"@ + inner + "}\n"@,
    )
}

impl<'a> Translator<'a> {
    pub(crate) fn storage_for_loop(
        &mut self,
        cx: &mut Ctx,
        iterator: &str,
        base_expr: &str,
        len_expr: &str,
        elem_size: usize,
        elem_type: &Type,
        body: &Vec<Spanned<Statement>>,
        tr: bool,
    ) -> (r: String)
        ensures
            final(self).env() == old(self).env(),
            storage_for_loop_spec(
                old(self).env(),
                old(self).st(),
                old(cx)@,
                iterator@,
                base_expr@,
                len_expr@,
                elem_size,
                elem_type@,
                body_v(body@),
                tr,
            ) == (final(self).st(), final(cx)@, r@),
        decreases body, 1nat,
    {
        proof {
            reveal(storage_for_loop_spec);
        }
        let (per, es) = pack_params(elem_size);
        self.ensure_helper(cat2("pk_read", kind_suffix(tr)).as_str(), pk_read_helper_src(tr));
        cx.declare(iterator, elem_type);
        let id = self.next_literal_id();
        let inner = self.translate_inner(cx, "    ", body);
        cat3(
            cat9(
                cat9(
                    cat9(
                        cat9(
                            "let __iter_base_",
                            dec_text(id).as_str(),
                            " := ",
                            base_expr,
                            "\nlet __iter_len_",
                            dec_text(id).as_str(),
                            " := ",
                            len_expr,
                            "\nfor { let __iter_i_",
                        ).as_str(),
                        dec_text(id).as_str(),
                        " := 0 } lt(__iter_i_",
                        dec_text(id).as_str(),
                        ", __iter_len_",
                        dec_text(id).as_str(),
                        ") { __iter_i_",
                        dec_text(id).as_str(),
                        " := add(__iter_i_",
                    ).as_str(),
                    dec_text(id).as_str(),
                    ", 1) } {\n    let ",
                    iterator,
                    " := pk_read",
                    kind_suffix(tr),
                    "(__iter_base_",
                    dec_text(id).as_str(),
                    ", __iter_i_",
                ).as_str(),
                dec_text(id).as_str(),
                ", ",
                dec_text(per).as_str(),
                ", ",
                dec_text(es).as_str(),
                ", ",
                dec_text(max_one(elem_size)).as_str(),
                ")\n",
            ).as_str(),
            inner.as_str(),
            "}\n",
        )
    }
}

/// Where the elements of an array in memory start, how many bytes they take, the
/// bytes of one, and its type.
pub open spec fn iterated_spec(
    g: EnvV,
    t: TypeV,
    ptr: Seq<char>,
) -> (Seq<char>, Seq<char>, usize, TypeV) {
    match t {
        TypeV::FixedArray(inner, n) => (
            ptr,
            dec(n as nat * size_spec(g.w, g.lay.sizes, *inner) as nat),
            size_spec(g.w, g.lay.sizes, *inner),
            *inner,
        ),
        TypeV::Array(inner) => (
            "add("@ + ptr + ", 32)"@,
            "mload("@ + ptr + ")"@,
            size_spec(g.w, g.lay.sizes, *inner),
            *inner,
        ),
        _ => (ptr, "0"@, 32usize, TypeV::Primitive("u256"@)),
    }
}

impl<'a> Translator<'a> {
    pub(crate) fn iterated(&self, t: &Type, ptr: &str) -> (r: (String, String, usize, Type))
        ensures
            (r.0@, r.1@, r.2, r.3@) == iterated_spec(self.env(), t@, ptr@),
    {
        match t {
            Type::FixedArray(inner, n) => (
                String::from_str(ptr),
                dec_mul(*n, self.layout_engine.size_of(inner)),
                self.layout_engine.size_of(inner),
                (**inner).clone(),
            ),
            Type::Array(inner) => (
                cat3("add(", ptr, ", 32)"),
                cat3("mload(", ptr, ")"),
                self.layout_engine.size_of(inner),
                (**inner).clone(),
            ),
            _ => (
                String::from_str(ptr),
                String::from_str("0"),
                32,
                Type::Primitive(String::from_str("u256")),
            ),
        }
    }
}

pub open spec fn element_read_spec(g: EnvV, t: TypeV, addr: Seq<char>, stride: usize) -> Seq<char> {
    if struct_type(g.w, t) {
        addr
    } else {
        read_packed_spec("mload("@ + addr + ")"@, 0usize, stride)
    }
}

impl<'a> Translator<'a> {
    pub(crate) fn element_read(&self, t: &Type, addr: &str, stride: usize) -> (r: String)
        ensures
            r@ == element_read_spec(self.env(), t@, addr@, stride),
    {
        if is_struct_type(self.layout_engine.type_checker, t) {
            return String::from_str(addr);
        }
        read_packed(cat3("mload(", addr, ")").as_str(), 0, stride)
    }
}

/// A loop over an array in memory.
#[verifier::opaque]
pub open spec fn memory_for_loop_spec(
    g: EnvV,
    st: StV,
    cx: CtxV,
    iterator: Seq<char>,
    iterable: ExprV,
    body: Seq<SpannedV>,
) -> (StV, CtxV, Seq<char>)
    decreases body, body.len() + 1,
{
    let (st, e) = translate_expr_spec(g, st, cx, iterable);
    let (st, id) = next_spec(st);
    let ptr = "__iter_ptr_"@ + dec(id as nat);
    let (data, len_src, stride, elem) = iterated_spec(g, static_type_spec(g, cx, iterable), ptr);
    let (st, cx) = (st, declare_spec(cx, iterator, elem));
    let (st, cx, inner) = inner_spec(g, st, cx, "    "@, body, body.len());
    let read = element_read_spec(
        g,
        elem,
        "add("@ + data + ", __iter_i_"@ + dec(id as nat) + ")"@,
        stride,
    );
    (
        st,
        cx,
        "let "@ + ptr + " := "@ + e + "\nlet __iter_len_"@ + dec(id as nat) + " := "@ + len_src + "\nlet __iter_i_"@ + dec(id as nat) + " := 0\nfor {} lt(__iter_i_"@ + dec(id as nat) + ", __iter_len_"@ + dec(id as nat) + ") { __iter_i_"@ + dec(id as nat) + " := add(__iter_i_"@ + dec(id as nat) + ", "@ + dec(
            stride as nat
        ) + ") } {\n    let "@ + iterator + " := "@ + read + "\n"@ + inner + "}\n"@,
    )
}

impl<'a> Translator<'a> {
    pub(crate) fn memory_for_loop(
        &mut self,
        cx: &mut Ctx,
        iterator: &str,
        iterable: &Expr,
        body: &Vec<Spanned<Statement>>,
    ) -> (r: String)
        ensures
            final(self).env() == old(self).env(),
            memory_for_loop_spec(
                old(self).env(),
                old(self).st(),
                old(cx)@,
                iterator@,
                iterable@,
                body_v(body@),
            ) == (final(self).st(), final(cx)@, r@),
        decreases body, 1nat,
    {
        proof {
            reveal(memory_for_loop_spec);
            reveal(translate_expr_spec);
        }
        let e = self.translate_expr(&*cx, iterable);
        let id = self.next_literal_id();
        let ptr = cat2("__iter_ptr_", dec_text(id).as_str());
        let (data, len_src, stride, elem) = self.iterated(
            &self.static_type(&*cx, iterable),
            ptr.as_str(),
        );
        cx.declare(iterator, &elem);
        let inner = self.translate_inner(cx, "    ", body);
        let read = self.element_read(
            &elem,
            cat5("add(", data.as_str(), ", __iter_i_", dec_text(id).as_str(), ")").as_str(),
            stride,
        );
        cat3(
            cat9(
                cat9(
                    cat9(
                        "let ",
                        ptr.as_str(),
                        " := ",
                        e.as_str(),
                        "\nlet __iter_len_",
                        dec_text(id).as_str(),
                        " := ",
                        len_src.as_str(),
                        "\nlet __iter_i_",
                    ).as_str(),
                    dec_text(id).as_str(),
                    " := 0\nfor {} lt(__iter_i_",
                    dec_text(id).as_str(),
                    ", __iter_len_",
                    dec_text(id).as_str(),
                    ") { __iter_i_",
                    dec_text(id).as_str(),
                    " := add(__iter_i_",
                ).as_str(),
                dec_text(id).as_str(),
                ", ",
                dec_text(stride).as_str(),
                ") } {\n    let ",
                iterator,
                " := ",
                read.as_str(),
                "\n",
            ).as_str(),
            inner.as_str(),
            "}\n",
        )
    }
}

/// A loop over an array.
#[verifier::opaque]
pub open spec fn translate_for_loop_spec(
    g: EnvV,
    st: StV,
    cx: CtxV,
    iterator: Seq<char>,
    iterable: ExprV,
    body: Seq<SpannedV>,
) -> (StV, CtxV, Seq<char>)
    decreases body, body.len() + 2,
{
    let (st, found) = dyn_storage_array_spec(g, st, cx, iterable);
    match found {
        Some((slot, elem_size, tr)) => {
            let st = ensure_spec(st, "arr_data_base"@, arr_data_base_src());
            let (st, cx, out) = storage_for_loop_spec(
                g,
                st,
                cx,
                iterator,
                "arr_data_base("@ + slot + ")"@,
                ld_op_spec(tr) + "("@ + slot + ")"@,
                elem_size,
                elem_type_of_spec(g, cx, iterable),
                body,
                tr,
            );
            (st, cx, out)
        },
        None => {
            match storage_array_info_spec(g, cx, iterable) {
                Some((base_slot, elem_size, n, tr)) => {
                    let (st, cx, out) = storage_for_loop_spec(
                        g,
                        st,
                        cx,
                        iterator,
                        dec(base_slot as nat),
                        dec(n as nat),
                        elem_size,
                        elem_type_of_spec(g, cx, iterable),
                        body,
                        tr,
                    );
                    (st, cx, out)
                },
                None => {
                    let (st, cx, out) = memory_for_loop_spec(g, st, cx, iterator, iterable, body);
                    (st, cx, out)
                },
            }
        },
    }
}

impl<'a> Translator<'a> {
    pub(crate) fn translate_for_loop(
        &mut self,
        cx: &mut Ctx,
        iterator: &str,
        iterable: &Expr,
        body: &Vec<Spanned<Statement>>,
    ) -> (r: String)
        ensures
            final(self).env() == old(self).env(),
            translate_for_loop_spec(
                old(self).env(),
                old(self).st(),
                old(cx)@,
                iterator@,
                iterable@,
                body_v(body@),
            ) == (final(self).st(), final(cx)@, r@),
        decreases body, 2nat,
    {
        proof {
            reveal(translate_for_loop_spec);
            reveal(dyn_storage_array_spec);
            reveal(memory_for_loop_spec);
            reveal(storage_for_loop_spec);
        }
        let found = self.dyn_storage_array(&*cx, iterable);
        match found {
            Some((slot, elem_size, tr)) => {
                self.ensure_helper("arr_data_base", arr_data_base_helper_src());
                let out = self.storage_for_loop(
                    cx,
                    iterator,
                    cat3("arr_data_base(", slot.as_str(), ")").as_str(),
                    cat4(ld_op(tr), "(", slot.as_str(), ")").as_str(),
                    elem_size,
                    &self.elem_type_of(&*cx, iterable),
                    body,
                    tr,
                );
                return out;
            },
            None => {},
        }
        match self.storage_array_info(&*cx, iterable) {
            Some((base_slot, elem_size, n, tr)) => {
                let out = self.storage_for_loop(
                    cx,
                    iterator,
                    dec_text(base_slot).as_str(),
                    dec_text(n).as_str(),
                    elem_size,
                    &self.elem_type_of(&*cx, iterable),
                    body,
                    tr,
                );
                return out;
            },
            None => {},
        }
        let out = self.memory_for_loop(cx, iterator, iterable, body);
        out
    }
}

/// Calls the contract itself; only while the call runs may the function that it
/// names be entered.
pub open spec fn thunk_src_spec(
    helper: Seq<char>,
    n: usize,
    selector: Seq<char>,
    size_src: Seq<char>,
    write_src: Seq<char>,
) -> Seq<char> {
    "function "@ + helper + "("@ + join_spec(
        numbered("a"@, n as nat),
        ", "@,
    ) + ") -> ok {\n"@ + size_src + "    let ptr := allocate_memory(add(4, alen))\n    mstore(ptr, shl(224, "@ + selector + "))\n    let blob := add(ptr, 4)\n"@ + write_src + "    tstore("@ + TRY_CAPABILITY_SLOT@ + ", 1)\n    ok := call(gas(), address(), 0, ptr, add(4, alen), 0, 0)\n    tstore("@ + TRY_CAPABILITY_SLOT@ + ", 0)\n}\n"@
}

pub(crate) fn thunk_src(
    helper: &str,
    n: usize,
    selector: &str,
    size_src: &str,
    write_src: &str,
) -> (r: String)
    ensures
        r@ == thunk_src_spec(helper@, n, selector@, size_src@, write_src@),
{
    cat7(
        cat9(
            "function ",
            helper,
            "(",
            join(&numbered_names("a", n), ", ").as_str(),
            ") -> ok {\n",
            size_src,
            "    let ptr := allocate_memory(add(4, alen))\n    mstore(ptr, shl(224, ",
            selector,
            "))\n    let blob := add(ptr, 4)\n",
        ).as_str(),
        write_src,
        "    tstore(",
        TRY_CAPABILITY_SLOT,
        ", 1)\n    ok := call(gas(), address(), 0, ptr, add(4, alen), 0, 0)\n    tstore(",
        TRY_CAPABILITY_SLOT,
        ", 0)\n}\n",
    )
}

pub open spec fn inner_lock_clear_spec(g: EnvV, cx: CtxV) -> Seq<char> {
    match cx.lock_slot {
        Some(lock) => "        tstore("@ + lock + ", 0)\n"@,
        None => ""@,
    }
}

impl<'a> Translator<'a> {
    pub(crate) fn inner_lock_clear(&self, cx: &Ctx) -> (r: String)
        ensures
            r@ == inner_lock_clear_spec(self.env(), cx@),
    {
        match &cx.lock_slot {
            Some(lock) => cat3("        tstore(", lock.as_str(), ", 0)\n"),
            None => String::from_str(""),
        }
    }
}

/// Returns from the function what the `try` block returned.
#[verifier::opaque]
pub open spec fn propagated_spec(g: EnvV, st: StV, cx: CtxV) -> (StV, Seq<char>) {
    if cx.is_entry {
        (
            st,
            "    if gt(returndatasize(), 0) {\n        tstore("@ + TRY_RETURNED_SLOT@ + ", 1)\n"@ + inner_lock_clear_spec(
                g,
                cx,
            ) + "        let __rb := allocate_memory(returndatasize())\n        returndatacopy(__rb, 0, returndatasize())\n        return(__rb, returndatasize())\n    }\n"@,
        )
    } else {
        match cx.return_type {
            Some(t) => {
                let (st, take) = returndata_to_var_spec(g, st, t, "ret"@);
                (
                    st,
                    "    if gt(returndatasize(), 0) {\n        tstore("@ + TRY_RETURNED_SLOT@ + ", 1)\n"@ + take + "        leave\n    }\n"@,
                )
            },
            None => (
                st,
                "    if gt(returndatasize(), 0) {\n        tstore("@ + TRY_RETURNED_SLOT@ + ", 1)\n    }\n"@,
            ),
        }
    }
}

impl<'a> Translator<'a> {
    pub(crate) fn propagated(&mut self, cx: &Ctx) -> (r: String)
        ensures
            final(self).env() == old(self).env(),
            propagated_spec(old(self).env(), old(self).st(), cx@) == (final(self).st(), r@),
    {
        proof {
            reveal(propagated_spec);
        }
        if cx.is_entry {
            return cat5(
                "    if gt(returndatasize(), 0) {\n        tstore(",
                TRY_RETURNED_SLOT,
                ", 1)\n",
                self.inner_lock_clear(cx).as_str(),
                "        let __rb := allocate_memory(returndatasize())\n        returndatacopy(__rb, 0, returndatasize())\n        return(__rb, returndatasize())\n    }\n",
            );
        }
        match &cx.return_type {
            Some(t) => {
                let take = self.returndata_to_var(t, "ret");
                cat5(
                    "    if gt(returndatasize(), 0) {\n        tstore(",
                    TRY_RETURNED_SLOT,
                    ", 1)\n",
                    take.as_str(),
                    "        leave\n    }\n",
                )
            },
            None => cat3(
                "    if gt(returndatasize(), 0) {\n        tstore(",
                TRY_RETURNED_SLOT,
                ", 1)\n    }\n",
            ),
        }
    }
}

/// What follows a `try` block that went well.
pub open spec fn after_try_spec(
    ok: Seq<char>,
    propagate: bool,
    writes: bool,
    p: Seq<char>,
    w: Seq<char>,
) -> Seq<char> {
    if propagate && writes {
        "if "@ + ok + " {\nswitch tload("@ + TRY_RETURNED_SLOT@ + ")\ncase 1 {\n"@ + p + "}\ndefault {\n"@ + w + "}\n}\n"@
    } else if propagate {
        "if "@ + ok + " {\n"@ + p + "}\n"@
    } else if writes {
        "if "@ + ok + " {\n"@ + w + "}\n"@
    } else {
        ""@
    }
}

pub(crate) fn after_try(ok: &str, propagate: bool, writes: bool, p: &str, w: &str) -> (r: String)
    ensures
        r@ == after_try_spec(ok@, propagate, writes, p@, w@),
{
    if propagate && writes {
        return cat9(
            "if ",
            ok,
            " {\nswitch tload(",
            TRY_RETURNED_SLOT,
            ")\ncase 1 {\n",
            p,
            "}\ndefault {\n",
            w,
            "}\n}\n",
        );
    }
    if propagate {
        return cat5("if ", ok, " {\n", p, "}\n");
    }
    if writes {
        return cat5("if ", ok, " {\n", w, "}\n");
    }
    String::from_str("")
}

/// Runs a `try` block in a call of its own: the code, and the variable that says
/// whether it went well.
#[verifier::opaque]
pub open spec fn try_call_spec(
    g: EnvV,
    st: StV,
    cx: CtxV,
    thunk: Seq<char>,
    args: Seq<(Seq<char>, TypeV)>,
    propagate: bool,
    writeback: Seq<(Seq<char>, TypeV)>,
) -> (StV, (Seq<char>, Seq<char>)) {
    let helper = thunk + "_call"@;
    let (st, pair) = blob_spec(g, st, capture_types(args));
    let size_src = pair.0;
    let write_src = pair.1;
    let n = args.len() as usize;
    let st = ensure_spec(
        st,
        helper,
        thunk_src_spec(
            helper,
            n,
            call_selector(g.aw, thunk, capture_params(args), false),
            size_src,
            write_src,
        ),
    );
    let (st, id) = next_spec(st);
    let ok = "__try_ok_"@ + dec(id as nat);
    let (st, p) = propagated_spec(g, st, cx);
    let (st, w) = returndata_tuple_to_vars_spec(g, st, writeback);
    let writes = !(writeback.len() == 0);
    (
        st,
        (
            "let "@ + ok + " := "@ + helper + "("@ + join_spec(capture_names(args), ", "@) + ")\n"@ + after_try_spec(
                ok,
                propagate,
                writes,
                p,
                w,
            ),
            ok,
        ),
    )
}

impl<'a> Translator<'a> {
    pub(crate) fn try_call(
        &mut self,
        cx: &Ctx,
        thunk: &str,
        args: &Vec<(String, Type)>,
        propagate: bool,
        writeback: &Vec<(String, Type)>,
    ) -> (r: (String, String))
        ensures
            final(self).env() == old(self).env(),
            try_call_spec(
                old(self).env(),
                old(self).st(),
                cx@,
                thunk@,
                captures_v(args@),
                propagate,
                captures_v(writeback@),
            ) == (final(self).st(), (r.0@, r.1@)),
    {
        proof {
            reveal(try_call_spec);
        }
        let helper = cat2(thunk, "_call");
        let (size_src, write_src) = self.abi_arg_blob_src(&types_of_captures(args));
        let n: usize = args.len();
        self.ensure_helper(
            helper.as_str(),
            thunk_src(
                helper.as_str(),
                n,
                self.abi_gen.params_selector(thunk, &params_of_captures(args)).as_str(),
                size_src.as_str(),
                write_src.as_str(),
            ),
        );
        let id = self.next_literal_id();
        let ok = cat2("__try_ok_", dec_text(id).as_str());
        let p = self.propagated(cx);
        let w = self.returndata_tuple_to_vars(writeback);
        let writes = !(writeback.len() == 0);
        (
            cat8(
                "let ",
                ok.as_str(),
                " := ",
                helper.as_str(),
                "(",
                join(&names_of_captures(args), ", ").as_str(),
                ")\n",
                after_try(ok.as_str(), propagate, writes, p.as_str(), w.as_str()).as_str(),
            ),
            ok,
        )
    }
}

#[verifier::opaque]
pub open spec fn translate_scoped_try_spec(
    g: EnvV,
    st: StV,
    cx: CtxV,
    thunk: Seq<char>,
    args: Seq<(Seq<char>, TypeV)>,
    propagate: bool,
    writeback: Seq<(Seq<char>, TypeV)>,
    catch_body: Seq<SpannedV>,
) -> (StV, CtxV, Seq<char>)
    decreases catch_body, catch_body.len() + 1,
{
    let (st, pair) = try_call_spec(g, st, cx, thunk, args, propagate, writeback);
    let code = pair.0;
    let ok = pair.1;
    let (st, cx, caught) = body_spec(g, st, cx, catch_body, catch_body.len());
    (st, cx, code + "if iszero("@ + ok + ") {\n"@ + caught + "}\n"@)
}

impl<'a> Translator<'a> {
    pub(crate) fn translate_scoped_try(
        &mut self,
        cx: &mut Ctx,
        thunk: &str,
        args: &Vec<(String, Type)>,
        propagate: bool,
        writeback: &Vec<(String, Type)>,
        catch_body: &Vec<Spanned<Statement>>,
    ) -> (r: String)
        ensures
            final(self).env() == old(self).env(),
            translate_scoped_try_spec(
                old(self).env(),
                old(self).st(),
                old(cx)@,
                thunk@,
                captures_v(args@),
                propagate,
                captures_v(writeback@),
                body_v(catch_body@),
            ) == (final(self).st(), final(cx)@, r@),
        decreases catch_body, 1nat,
    {
        proof {
            reveal(translate_scoped_try_spec);
        }
        let (code, ok) = self.try_call(&*cx, thunk, args, propagate, writeback);
        let caught = self.translate_body(cx, catch_body);
        cat6(code.as_str(), "if iszero(", ok.as_str(), ") {\n", caught.as_str(), "}\n")
    }
}

/// A `try` block whose failing calls are noted in a flag.
#[verifier::opaque]
pub open spec fn translate_try_catch_spec(
    g: EnvV,
    st: StV,
    cx: CtxV,
    s: StmtV,
) -> (StV, CtxV, Seq<char>)
    decreases s, 8nat,
{
    match s {
        StmtV::TryCatch { try_body, catch_body } => {
            let st = ensure_spec(st, "gum_exception_helpers"@, gum_exception_helpers_src_spec());
            let (st, id) = next_spec(st);
            let ok = "__try_ok_"@ + dec(id as nat);
            let (st, tried) = try_text(g, st, cx, ok, try_body);
            let (st, cx, caught) = body_spec(g, st, cx, catch_body, catch_body.len());
            (
                st,
                cx,
                "let "@ + ok + " := 1\nfor {} 1 {} {\n"@ + tried + "    break\n}\nif iszero("@ + ok + ") {\n"@ + caught + "}\n"@,
            )
        },
        _ => (st, cx, ""@),
    }
}

impl<'a> Translator<'a> {
    pub(crate) fn translate_try_catch(&mut self, cx: &mut Ctx, s: &Statement) -> (r: String)
        ensures
            final(self).env() == old(self).env(),
            translate_try_catch_spec(
                old(self).env(),
                old(self).st(),
                old(cx)@,
                s@,
            ) == (final(self).st(), final(cx)@, r@),
        decreases s, 8nat,
    {
        proof {
            reveal(translate_try_catch_spec);
        }
        match s {
            Statement::TryCatch { try_body, catch_body } => {
                self.ensure_helper("gum_exception_helpers", gum_exception_helpers_src());
                let id = self.next_literal_id();
                let ok = cat2("__try_ok_", dec_text(id).as_str());
                let tried = self.translate_try(&*cx, ok.as_str(), try_body);
                let caught = self.translate_body(cx, catch_body);
                cat9(
                    "let ",
                    ok.as_str(),
                    " := 1\nfor {} 1 {} {\n",
                    tried.as_str(),
                    "    break\n}\nif iszero(",
                    ok.as_str(),
                    ") {\n",
                    caught.as_str(),
                    "}\n",
                )
            },
            _ => String::from_str(""),
        }
    }
}

/// Hands the variables that a `try` block changed back to its caller.
#[verifier::opaque]
pub open spec fn return_captures_spec(
    g: EnvV,
    st: StV,
    cx: CtxV,
    fields: Seq<(Seq<char>, TypeV)>,
) -> (StV, Seq<char>) {
    let (st, pair) = blob_spec(g, st, capture_types(fields));
    let size_src = pair.0;
    let write_src = pair.1;
    (
        st,
        "{\n"@ + bind_lines(
            "    "@,
            capture_names(fields),
            capture_names(fields).len(),
        ) + size_src + "    let blob := allocate_memory(alen)\n"@ + write_src + "    return(blob, alen)\n}\n"@,
    )
}

impl<'a> Translator<'a> {
    pub(crate) fn return_captures(
        &mut self,
        cx: &Ctx,
        fields: &Vec<(String, Type)>,
    ) -> (r: String)
        ensures
            final(self).env() == old(self).env(),
            return_captures_spec(
                old(self).env(),
                old(self).st(),
                cx@,
                captures_v(fields@),
            ) == (final(self).st(), r@),
    {
        proof {
            reveal(return_captures_spec);
        }
        let (size_src, write_src) = self.abi_arg_blob_src(&types_of_captures(fields));
        cat6(
            "{\n",
            bind_lines_text("    ", &names_of_captures(fields)).as_str(),
            size_src.as_str(),
            "    let blob := allocate_memory(alen)\n",
            write_src.as_str(),
            "    return(blob, alen)\n}\n",
        )
    }
}

pub open spec fn match_subject_spec(scalar: bool, mv: Seq<char>) -> Seq<char> {
    if scalar {
        mv
    } else {
        "mload("@ + mv + ")"@
    }
}

pub(crate) fn match_subject(scalar: bool, mv: &str) -> (r: String)
    ensures
        r@ == match_subject_spec(scalar, mv@),
{
    if scalar {
        return String::from_str(mv);
    }
    cat3("mload(", mv, ")")
}

/// Whether an enum has the variants of the first `n` arms.
pub open spec fn arms_known_spec(g: EnvV, name: Seq<char>, arms: Seq<ArmV>, n: nat) -> bool
    decreases n,
{
    n == 0 || n > arms.len() || (arms_known_spec(g, name, arms, (n - 1) as nat)
        && variant_pos_spec(g, name, arms[n - 1].variant) is Some)
}

impl<'a> Translator<'a> {
    fn arms_known(&self, name: &str, arms: &Vec<MatchArm>) -> (r: bool)
        ensures
            r == arms_known_spec(self.env(), name@, arms_v(arms@), arms@.len()),
    {
        let mut known = true;
        let mut i: usize = 0;
        while i < arms.len()
            invariant
                i <= arms@.len(),
                known == arms_known_spec(self.env(), name@, arms_v(arms@), i as nat),
            decreases arms@.len() - i,
        {
            assert(arms_v(arms@)[i as int] == arms@[i as int]@);
            let here = self.variant_pos(name, arms[i].variant.as_str()).is_some();
            known = known && here;
            i += 1;
        }
        known
    }
}

/// The enum that a `match` is over, where it has every variant that is named.
pub open spec fn matched_enum_spec(g: EnvV, t: TypeV, arms: Seq<ArmV>) -> Option<Seq<char>> {
    match t {
        TypeV::Primitive(n) => {
            if arms_known_spec(g, n, arms, arms.len()) {
                Some(n)
            } else {
                None
            }
        },
        _ => None,
    }
}

impl<'a> Translator<'a> {
    pub(crate) fn matched_enum(&self, t: &Type, arms: &Vec<MatchArm>) -> (r: Option<String>)
        ensures
            opt_text(r) == matched_enum_spec(self.env(), t@, arms_v(arms@)),
    {
        match t {
            Type::Primitive(n) => {
                if self.arms_known(n.as_str(), arms) {
                    return Some(n.clone());
                }
                None
            },
            _ => None,
        }
    }
}

/// A `match`: the tag of an enum without payloads is the value itself.
#[verifier::opaque]
pub open spec fn translate_match_spec(
    g: EnvV,
    st: StV,
    cx: CtxV,
    s: StmtV,
) -> (StV, CtxV, Seq<char>)
    decreases s, 8nat,
{
    match s {
        StmtV::Match { expr, arms } => {
            let (st, e) = translate_expr_spec(g, st, cx, expr);
            let (st, id) = next_spec(st);
            let mv = "__match_"@ + dec(id as nat);
            let t = static_type_spec(g, cx, expr);
            let subject = match_subject_spec(scalar_enum(g.w, t), mv);
            match matched_enum_spec(g, t, arms) {
                Some(en) => {
                    let (st, cx, cases) = arms_spec(g, st, cx, en, mv, arms, arms.len());
                    (st, cx, "let "@ + mv + " := "@ + e + "\nswitch "@ + subject + "\n"@ + cases)
                },
                None => {
                    let st = error_spec(
                        st,
                        "match: cannot tell which variants the arms stand for"@,
                    );
                    (st, cx, ""@)
                },
            }
        },
        _ => (st, cx, ""@),
    }
}

impl<'a> Translator<'a> {
    pub(crate) fn translate_match(&mut self, cx: &mut Ctx, s: &Statement) -> (r: String)
        ensures
            final(self).env() == old(self).env(),
            translate_match_spec(
                old(self).env(),
                old(self).st(),
                old(cx)@,
                s@,
            ) == (final(self).st(), final(cx)@, r@),
        decreases s, 8nat,
    {
        proof {
            reveal(translate_match_spec);
            reveal(translate_expr_spec);
        }
        match s {
            Statement::Match { expr, arms } => {
                let e = self.translate_expr(&*cx, expr);
                let id = self.next_literal_id();
                let mv = cat2("__match_", dec_text(id).as_str());
                let t = self.static_type(&*cx, expr);
                let subject = match_subject(
                    self.layout_engine.type_checker.is_scalar_enum(&t),
                    mv.as_str(),
                );
                match self.matched_enum(&t, arms) {
                    Some(en) => {
                        let cases = self.translate_arms(cx, en.as_str(), mv.as_str(), arms);
                        cat8(
                            "let ",
                            mv.as_str(),
                            " := ",
                            e.as_str(),
                            "\nswitch ",
                            subject.as_str(),
                            "\n",
                            cases.as_str(),
                        )
                    },
                    None => {
                        self.note_error(
                            String::from_str("match: cannot tell which variants the arms stand for")
                        );
                        String::from_str("")
                    },
                }
            },
            _ => String::from_str(""),
        }
    }
}

/// An `if`: its condition is read once, whatever its bodies change.
#[verifier::opaque]
pub open spec fn translate_branch_spec(
    g: EnvV,
    st: StV,
    cx: CtxV,
    s: StmtV,
) -> (StV, CtxV, Seq<char>)
    decreases s, 8nat,
{
    match s {
        StmtV::IfElse { condition, if_body, else_body } => {
            let (st, c) = translate_expr_spec(g, st, cx, condition);
            let (st, cx, yes) = body_spec(g, st, cx, if_body, if_body.len());
            match else_body {
                Some(eb) => {
                    let (st, cx, no) = body_spec(g, st, cx, eb, eb.len());
                    (
                        st,
                        cx,
                        "switch "@ + c + "\ncase 0 {\n"@ + no + "}\ndefault {\n"@ + yes + "}\n"@,
                    )
                },
                None => (st, cx, "if "@ + c + " {\n"@ + yes + "}\n"@),
            }
        },
        _ => (st, cx, ""@),
    }
}

impl<'a> Translator<'a> {
    pub(crate) fn translate_branch(&mut self, cx: &mut Ctx, s: &Statement) -> (r: String)
        ensures
            final(self).env() == old(self).env(),
            translate_branch_spec(
                old(self).env(),
                old(self).st(),
                old(cx)@,
                s@,
            ) == (final(self).st(), final(cx)@, r@),
        decreases s, 8nat,
    {
        proof {
            reveal(translate_branch_spec);
            reveal(translate_expr_spec);
        }
        match s {
            Statement::IfElse { condition, if_body, else_body } => {
                let c = self.translate_expr(&*cx, condition);
                let yes = self.translate_body(cx, if_body);
                match else_body {
                    Some(eb) => {
                        let no = self.translate_body(cx, eb);
                        cat7(
                            "switch ",
                            c.as_str(),
                            "\ncase 0 {\n",
                            no.as_str(),
                            "}\ndefault {\n",
                            yes.as_str(),
                            "}\n",
                        )
                    },
                    None => cat5("if ", c.as_str(), " {\n", yes.as_str(), "}\n"),
                }
            },
            _ => String::from_str(""),
        }
    }
}

/// An expression as a statement; a value that it has is dropped.
#[verifier::opaque]
pub open spec fn translate_expression_spec(
    g: EnvV,
    st: StV,
    cx: CtxV,
    e: ExprV,
) -> (StV, Seq<char>) {
    match e {
        ExprV::FnCall { name, args } => {
            if name == "log"@ {
                log_spec(g, st, cx, args)
            } else {
                let (st, code) = translate_expr_spec(g, st, cx, e);
                if is_prim_spec(static_type_spec(g, cx, e), "unknown"@) {
                    (st, code + "\n"@)
                } else {
                    (st, "pop("@ + code + ")\n"@)
                }
            }
        },
        ExprV::MethodCall { .. } => {
            let (st, code) = translate_expr_spec(g, st, cx, e);
            if is_prim_spec(static_type_spec(g, cx, e), "unknown"@) {
                (st, code + "\n"@)
            } else {
                (st, "pop("@ + code + ")\n"@)
            }
        },
        _ => {
            let (st, code) = translate_expr_spec(g, st, cx, e);
            (st, code + "\n"@)
        },
    }
}

impl<'a> Translator<'a> {
    pub(crate) fn translate_expression(&mut self, cx: &Ctx, e: &Expr) -> (r: String)
        ensures
            final(self).env() == old(self).env(),
            translate_expression_spec(
                old(self).env(),
                old(self).st(),
                cx@,
                e@,
            ) == (final(self).st(), r@),
    {
        proof {
            reveal(translate_expression_spec);
        }
        match e {
            Expr::FnCall { name, args } => {
                if same(name.as_str(), "log") {
                    return self.translate_log_stmt(cx, args);
                }
                let code = self.translate_expr(cx, e);
                if is_prim(&self.static_type(cx, e), "unknown") {
                    return cat2(code.as_str(), "\n");
                }
                cat3("pop(", code.as_str(), ")\n")
            },
            Expr::MethodCall { .. } => {
                let code = self.translate_expr(cx, e);
                if is_prim(&self.static_type(cx, e), "unknown") {
                    return cat2(code.as_str(), "\n");
                }
                cat3("pop(", code.as_str(), ")\n")
            },
            _ => {
                let code = self.translate_expr(cx, e);
                cat2(code.as_str(), "\n")
            },
        }
    }
}

/// The code of a statement.
#[verifier::opaque]
pub open spec fn translate_statement_spec(
    g: EnvV,
    st: StV,
    cx: CtxV,
    s: StmtV,
) -> (StV, CtxV, Seq<char>)
    decreases s, 9nat,
{
    match s {
        StmtV::VarDecl { type_def, name, value, .. } => {
            let t = var_type_spec(g, cx, type_def, value);
            let (st, cx) = (st, declare_spec(cx, name, t));
            let (st, v) = var_value_spec(g, st, cx, t, value);
            (st, cx, "let "@ + name + " := "@ + v + "\n"@)
        },
        StmtV::Assignment { target, value } => {
            let (st, v) = translate_expr_spec(g, st, cx, value);
            let (st, out) = store_to_spec(g, st, cx, target, v);
            (st, cx, out)
        },
        StmtV::Delete { target } => {
            let (st, out) = translate_delete_spec(g, st, cx, target);
            (st, cx, out)
        },
        StmtV::Return { value } => {
            let (st, out) = translate_return_spec(g, st, cx, value);
            (st, cx, out)
        },
        StmtV::Assert { condition, message } => {
            let (st, out) = translate_assert_spec(g, st, cx, condition, message);
            (st, cx, out)
        },
        StmtV::Revert { error } => {
            let (st, out) = translate_revert_spec(g, st, cx, error);
            (st, cx, out)
        },
        StmtV::IfElse { .. } => {
            let (st, cx, out) = translate_branch_spec(g, st, cx, s);
            (st, cx, out)
        },
        StmtV::WhileLoop { condition, body } => {
            let (st, c) = translate_expr_spec(g, st, cx, condition);
            let (st, cx, inner) = body_spec(g, st, cx, body, body.len());
            (st, cx, "for {} "@ + c + " {} {\n"@ + inner + "}\n"@)
        },
        StmtV::TryCatch { .. } => {
            let (st, cx, out) = translate_try_catch_spec(g, st, cx, s);
            (st, cx, out)
        },
        StmtV::ScopedTryCall { thunk, args, propagate_return, writeback, catch_body } => {
            let (st, cx, out) = translate_scoped_try_spec(
                g,
                st,
                cx,
                thunk,
                args,
                propagate_return,
                writeback,
                catch_body,
            );
            (st, cx, out)
        },
        StmtV::ReturnCaptures(fields) => {
            let (st, out) = return_captures_spec(g, st, cx, fields);
            (st, cx, out)
        },
        StmtV::ForLoop { iterator, iterable, body } => {
            let (st, cx, out) = translate_for_loop_spec(g, st, cx, iterator, iterable, body);
            (st, cx, out)
        },
        StmtV::BitwiseFlip { name, index, value } => {
            let (st, i) = translate_expr_spec(g, st, cx, index);
            let (st, v) = translate_expr_spec(g, st, cx, value);
            (
                st,
                cx,
                name + " := or(and("@ + name + ", not(shl("@ + i + ", 1))), shl("@ + i + ", and("@ + v + ", 1)))\n"@,
            )
        },
        StmtV::UnsafeBlock(code) => (st, cx, unsafe_spec(code) + "\n"@),
        StmtV::Match { .. } => {
            let (st, cx, out) = translate_match_spec(g, st, cx, s);
            (st, cx, out)
        },
        StmtV::Call { target, args } => {
            let (st, a) = args_spec(g, st, cx, args, args.len());
            let (st, out) = extcall_wrapper_src_spec(
                g,
                st,
                "Interface"@,
                target,
                a,
                cx.try_ok_var is Some,
            );
            (st, cx, out)
        },
        StmtV::Expression(e) => {
            let (st, out) = translate_expression_spec(g, st, cx, e);
            (st, cx, out)
        },
    }
}

impl<'a> Translator<'a> {
    #[verifier::rlimit(60)]
    pub fn translate_statement(&mut self, cx: &mut Ctx, s: &Statement) -> (r: String)
        ensures
            final(self).env() == old(self).env(),
            translate_statement_spec(
                old(self).env(),
                old(self).st(),
                old(cx)@,
                s@,
            ) == (final(self).st(), final(cx)@, r@),
        decreases s, 9nat,
    {
        proof {
            reveal(translate_statement_spec);
            reveal(translate_expr_spec);
            reveal(translate_branch_spec);
            reveal(translate_try_catch_spec);
            reveal(translate_scoped_try_spec);
            reveal(translate_for_loop_spec);
            reveal(translate_match_spec);
        }
        match s {
            Statement::VarDecl { type_def, name, value, .. } => {
                let t = self.var_type(&*cx, type_def, value);
                cx.declare(name.as_str(), &t);
                let v = self.var_value(&*cx, &t, value);
                cat5("let ", name.as_str(), " := ", v.as_str(), "\n")
            },
            Statement::Assignment { target, value } => {
                let v = self.translate_expr(&*cx, value);
                let out = self.store_to(&*cx, target, v.as_str());
                out
            },
            Statement::Delete { target } => {
                let out = self.translate_delete(&*cx, target);
                out
            },
            Statement::Return { value } => {
                let out = self.translate_return(&*cx, value);
                out
            },
            Statement::Assert { condition, message } => {
                let out = self.translate_assert(&*cx, condition, message);
                out
            },
            Statement::Revert { error } => {
                let out = self.translate_revert(&*cx, error);
                out
            },
            Statement::IfElse { .. } => {
                let out = self.translate_branch(cx, s);
                out
            },
            Statement::WhileLoop { condition, body } => {
                let c = self.translate_expr(&*cx, condition);
                let inner = self.translate_body(cx, body);
                cat5("for {} ", c.as_str(), " {} {\n", inner.as_str(), "}\n")
            },
            Statement::TryCatch { .. } => {
                let out = self.translate_try_catch(cx, s);
                out
            },
            Statement::ScopedTryCall { thunk, args, propagate_return, writeback, catch_body } => {
                let out = self.translate_scoped_try(
                    cx,
                    thunk.as_str(),
                    args,
                    *propagate_return,
                    writeback,
                    catch_body,
                );
                out
            },
            Statement::ReturnCaptures(fields) => {
                let out = self.return_captures(&*cx, fields);
                out
            },
            Statement::ForLoop { iterator, iterable, body } => {
                let out = self.translate_for_loop(cx, iterator.as_str(), iterable, body);
                out
            },
            Statement::BitwiseFlip { name, index, value } => {
                let i = self.translate_expr(&*cx, index);
                let v = self.translate_expr(&*cx, value);
                cat2(
                    cat9(
                        name.as_str(),
                        " := or(and(",
                        name.as_str(),
                        ", not(shl(",
                        i.as_str(),
                        ", 1))), shl(",
                        i.as_str(),
                        ", and(",
                        v.as_str(),
                    ).as_str(),
                    ", 1)))\n",
                )
            },
            Statement::UnsafeBlock(code) => cat2(unsafe_text(code.as_str()).as_str(), "\n"),
            Statement::Match { .. } => {
                let out = self.translate_match(cx, s);
                out
            },
            Statement::Call { target, args } => {
                let a = self.translate_args(&*cx, args);
                let out = self.extcall_wrapper_src(
                    "Interface",
                    target.as_str(),
                    &a,
                    cx.try_ok_var.is_some(),
                );
                out
            },
            Statement::Expression(e) => {
                let out = self.translate_expression(&*cx, e);
                out
            },
        }
    }
}

/// The first `n` statements.
pub open spec fn body_spec(g: EnvV, st: StV, cx: CtxV, body: Seq<SpannedV>, n: nat) -> (
    StV,
    CtxV,
    Seq<char>,
)
    decreases body, n,
{
    if n == 0 || n > body.len() {
        (st, cx, Seq::empty())
    } else {
        let (st, cx, out) = body_spec(g, st, cx, body, (n - 1) as nat);
        let (st, cx, one) = translate_statement_spec(g, st, cx, body[n - 1].node);
        (st, cx, out + one)
    }
}

/// The first `n` statements, each line of them set in by `pad`.
pub open spec fn inner_spec(
    g: EnvV,
    st: StV,
    cx: CtxV,
    pad: Seq<char>,
    body: Seq<SpannedV>,
    n: nat,
) -> (StV, CtxV, Seq<char>)
    decreases body, n,
{
    if n == 0 || n > body.len() {
        (st, cx, Seq::empty())
    } else {
        let (st, cx, out) = inner_spec(g, st, cx, pad, body, (n - 1) as nat);
        let (st, cx, one) = translate_statement_spec(g, st, cx, body[n - 1].node);
        (st, cx, out + indent_spec(pad, one))
    }
}

/// Leaves a `try` block once a call has failed.
pub open spec fn try_check(ok: Seq<char>) -> Seq<char> {
    "    if gum_check_exception() {\n        "@ + ok + " := 0\n        break\n    }\n"@
}

/// The first `n` statements of a `try` block, each followed by a look at the flag.
pub open spec fn tried_spec(
    g: EnvV,
    st: StV,
    cx: CtxV,
    ok: Seq<char>,
    body: Seq<SpannedV>,
    n: nat,
) -> (StV, CtxV, Seq<char>)
    decreases body, n,
{
    if n == 0 || n > body.len() {
        (st, cx, Seq::empty())
    } else {
        let (st, cx, out) = tried_spec(g, st, cx, ok, body, (n - 1) as nat);
        let (st, cx, one) = translate_statement_spec(g, st, cx, body[n - 1].node);
        (st, cx, out + one + try_check(ok))
    }
}

/// The statements of a `try` block; what they declare is not seen outside it.
pub open spec fn try_text(g: EnvV, st: StV, cx: CtxV, ok: Seq<char>, body: Seq<SpannedV>) -> (
    StV,
    Seq<char>,
)
    decreases body, body.len() + 1,
{
    let inner = CtxV { try_ok_var: Some(ok), ..cx };
    let (st, _, out) = tried_spec(g, st, inner, ok, body, body.len());
    (st, out)
}

/// The variable that holds the payload of the matched variant.
pub open spec fn payload_line(mv: Seq<char>, var: Option<Seq<char>>) -> Seq<char> {
    match var {
        Some(v) => "    let "@ + v + " := mload(add("@ + mv + ", 32))\n"@,
        None => Seq::empty(),
    }
}

/// The tag that an arm stands for: the place of its variant in the enum.
pub open spec fn arm_tag(g: EnvV, name: Seq<char>, variant: Seq<char>) -> Seq<char> {
    match variant_pos_spec(g, name, variant) {
        Some(i) => dec(i as nat),
        None => Seq::empty(),
    }
}

/// The first `n` arms of a `match` over the enum `name`.
pub open spec fn arms_spec(
    g: EnvV,
    st: StV,
    cx: CtxV,
    name: Seq<char>,
    mv: Seq<char>,
    arms: Seq<ArmV>,
    n: nat,
) -> (StV, CtxV, Seq<char>)
    decreases arms, n,
{
    if n == 0 || n > arms.len() {
        (st, cx, Seq::empty())
    } else {
        let (st, cx, out) = arms_spec(g, st, cx, name, mv, arms, (n - 1) as nat);
        let arm = arms[n - 1];
        let (st, cx, inner) = inner_spec(g, st, cx, "    "@, arm.body, arm.body.len());
        (
            st,
            cx,
            out + "case "@ + arm_tag(g, name, arm.variant) + " {\n"@ + payload_line(
                mv,
                arm.payload_var,
            ) + inner + "}\n"@,
        )
    }
}

impl<'a> Translator<'a> {
    /// The statements of a block.
    pub(crate) fn translate_body(&mut self, cx: &mut Ctx, body: &Vec<Spanned<Statement>>) -> (r:
        String)
        ensures
            final(self).env() == old(self).env(),
            body_spec(
                old(self).env(),
                old(self).st(),
                old(cx)@,
                body_v(body@),
                body@.len(),
            ) == (final(self).st(), final(cx)@, r@),
        decreases body, 0nat,
    {
        let ghost g = self.env();
        let ghost st0 = self.st();
        let ghost cx0 = cx@;
        let mut out = String::new();
        let mut i: usize = 0;
        while i < body.len()
            invariant
                i <= body@.len(),
                self.env() == g,
                body_spec(g, st0, cx0, body_v(body@), i as nat) == (self.st(), cx@, out@),
            decreases body@.len() - i,
        {
            let s: &Spanned<Statement> = &body[i];
            proof {
                reveal(translate_statement_spec);
                assert(decreases_to!(*body => *s));
                assert(decreases_to!(*body => s.node));
                assert(body_v(body@)[i as int] == s@);
            }
            let one = self.translate_statement(cx, &s.node);
            out.append(one.as_str());
            i += 1;
        }
        out
    }

    /// The statements of a block, each line of them set in by `pad`.
    pub(crate) fn translate_inner(
        &mut self,
        cx: &mut Ctx,
        pad: &str,
        body: &Vec<Spanned<Statement>>,
    ) -> (r: String)
        ensures
            final(self).env() == old(self).env(),
            inner_spec(
                old(self).env(),
                old(self).st(),
                old(cx)@,
                pad@,
                body_v(body@),
                body@.len(),
            ) == (final(self).st(), final(cx)@, r@),
        decreases body, 0nat,
    {
        let ghost g = self.env();
        let ghost st0 = self.st();
        let ghost cx0 = cx@;
        let mut out = String::new();
        let mut i: usize = 0;
        while i < body.len()
            invariant
                i <= body@.len(),
                self.env() == g,
                inner_spec(g, st0, cx0, pad@, body_v(body@), i as nat) == (self.st(), cx@, out@),
            decreases body@.len() - i,
        {
            let s: &Spanned<Statement> = &body[i];
            proof {
                reveal(translate_statement_spec);
                assert(decreases_to!(*body => *s));
                assert(decreases_to!(*body => s.node));
                assert(body_v(body@)[i as int] == s@);
            }
            let one = self.translate_statement(cx, &s.node);
            out.append(indent(pad, one.as_str()).as_str());
            i += 1;
        }
        out
    }

    fn translate_try(&mut self, cx: &Ctx, ok: &str, body: &Vec<Spanned<Statement>>) -> (r: String)
        ensures
            final(self).env() == old(self).env(),
            try_text(old(self).env(), old(self).st(), cx@, ok@, body_v(body@)) == (
                final(self).st(),
                r@,
            ),
        decreases body, 1nat,
    {
        let mut inner = cx.inside_try(ok);
        let ghost g = self.env();
        let ghost st0 = self.st();
        let ghost cx0 = inner@;
        let mut out = String::new();
        let mut i: usize = 0;
        while i < body.len()
            invariant
                i <= body@.len(),
                self.env() == g,
                tried_spec(g, st0, cx0, ok@, body_v(body@), i as nat) == (
                    self.st(),
                    inner@,
                    out@,
                ),
            decreases body@.len() - i,
        {
            let s: &Spanned<Statement> = &body[i];
            proof {
                reveal(translate_statement_spec);
                assert(decreases_to!(*body => *s));
                assert(decreases_to!(*body => s.node));
                assert(body_v(body@)[i as int] == s@);
            }
            let one = self.translate_statement(&mut inner, &s.node);
            out.append(one.as_str());
            out.append(
                cat3(
                    "    if gum_check_exception() {\n        ",
                    ok,
                    " := 0\n        break\n    }\n",
                ).as_str(),
            );
            i += 1;
        }
        out
    }

    fn translate_arms(&mut self, cx: &mut Ctx, name: &str, mv: &str, arms: &Vec<MatchArm>) -> (r:
        String)
        ensures
            final(self).env() == old(self).env(),
            arms_spec(
                old(self).env(),
                old(self).st(),
                old(cx)@,
                name@,
                mv@,
                arms_v(arms@),
                arms@.len(),
            ) == (final(self).st(), final(cx)@, r@),
        decreases arms, 0nat,
    {
        let ghost g = self.env();
        let ghost st0 = self.st();
        let ghost cx0 = cx@;
        let mut out = String::new();
        let mut i: usize = 0;
        while i < arms.len()
            invariant
                i <= arms@.len(),
                self.env() == g,
                arms_spec(g, st0, cx0, name@, mv@, arms_v(arms@), i as nat) == (
                    self.st(),
                    cx@,
                    out@,
                ),
            decreases arms@.len() - i,
        {
            let arm: &MatchArm = &arms[i];
            proof {
                assert(decreases_to!(*arms => *arm));
                assert(decreases_to!(*arms => arm.body));
                assert(arms_v(arms@)[i as int] == arm@);
                assert(body_v(arm.body@).len() == arm.body@.len());
            }
            let tag = match self.variant_pos(name, arm.variant.as_str()) {
                Some(k) => dec_text(k),
                None => String::new(),
            };
            let payload = match &arm.payload_var {
                Some(v) => cat5("    let ", v.as_str(), " := mload(add(", mv, ", 32))\n"),
                None => String::new(),
            };
            let inner = self.translate_inner(cx, "    ", &arm.body);
            out.append("case ");
            out.append(tag.as_str());
            out.append(" {\n");
            out.append(payload.as_str());
            out.append(inner.as_str());
            out.append("}\n");
            i += 1;
        }
        out
    }
}

} // verus!
