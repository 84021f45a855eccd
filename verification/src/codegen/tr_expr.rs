//! Expressions.
use crate::ast::{
    exprs_v, opt_type_v, segs_v, types_v, Expr, ExprV, FStringSegment, SegV, Type, TypeV,
};
use crate::codegen::abi::sig_spec;
use crate::codegen::consts::{const_value_spec, immutable_key, immutable_spec};
use crate::codegen::helpers::{
    bytes_copy_helper_src, bytes_copy_src, gum_ecrecover_helper_src, gum_ecrecover_src,
    gum_farr_addr_helper_src, gum_farr_addr_src, gum_keccak_arr_helper_src, gum_keccak_arr_src,
    gum_keccak_str_helper_src, gum_keccak_str_src, gum_marr_addr_helper_src, gum_marr_addr_src,
    gum_sstr_base_helper_src, gum_sstr_base_src, gum_sstr_load_helper_src, gum_sstr_load_src,
    gum_str_at_helper_src, gum_str_at_src, gum_str_len_helper_src, gum_str_len_src,
    make_enum_helper_src, make_enum_src,
};
use crate::codegen::layout::{field_in, mem_field_in, size_spec};
use crate::codegen::tr_binop::translate_binary_op_spec;
use crate::codegen::tr_construct::{translate_construction_spec, translate_static_call_spec};
use crate::codegen::tr_extcall::{numbered, numbered_names};
use crate::codegen::tr_field::{
    load_memory_field, load_memory_field_spec, load_storage_field_spec,
};
use crate::codegen::tr_methodcall::translate_method_call_spec;
use crate::codegen::tr_storage::{
    dyn_array_get_spec, dyn_storage_array_spec, hashmap_base_slot_expr_spec,
    hashmap_transient_spec, map_value, map_value_spec, storage_array_get_spec,
    storage_array_info_spec, storage_array_to_memory_spec, struct_base_transient_spec,
    struct_field_slot_spec, struct_storage_base_spec,
};
use crate::codegen::tr_types::{
    array_elem_info_spec, elem_is_inline_spec, first_type_spec, ident_name, ident_name_spec,
    is_ident, is_ident_spec, mem_elem_stride_spec, sign_extend_read, sign_extend_read_spec,
    static_type_spec,
};
use crate::codegen::translator::{
    ensure_spec, error_spec, global_self_spec, memory_self_spec, next_spec, variant_pos_spec, Ctx,
    CtxV, EnvV, StV, Translator,
};
use crate::codegen::yul::{
    at_least_one, is_str_type, kind_suffix, kind_suffix_spec, ld_op, ld_op_spec, max_one,
    opt_text, read_packed, read_packed_spec, read_slot_packed, read_slot_spec, str_body_spec,
    str_literal_body_src, str_type, write_packed, write_packed_spec,
};
use crate::semantic::has_payload;
use crate::text::{
    cat2, cat3, cat4, cat5, cat7, cat9, dec, dec_mul, dec_text, join, join_spec, same, texts,
};
use vstd::prelude::*;
use vstd::utf8::encode_utf8;

verus! {

broadcast use crate::ast::group_views;

/// The first `n` expressions, translated in order.
pub open spec fn args_spec(g: EnvV, st: StV, cx: CtxV, args: Seq<ExprV>, n: nat) -> (
    StV,
    Seq<Seq<char>>,
)
    decreases args, n,
{
    if n == 0 || n > args.len() {
        (st, Seq::empty())
    } else {
        let (st, out) = args_spec(g, st, cx, args, (n - 1) as nat);
        let (st, one) = translate_expr_spec(g, st, cx, args[n - 1]);
        (st, out.push(one))
    }
}

impl<'a> Translator<'a> {
    /// The expressions, translated in order.
    pub(crate) fn translate_args(&mut self, cx: &Ctx, args: &Vec<Expr>) -> (r: Vec<String>)
        ensures
            final(self).env() == old(self).env(),
            args_spec(old(self).env(), old(self).st(), cx@, exprs_v(args@), args@.len()) == (
                final(self).st(),
                texts(r@),
            ),
            r@.len() == args@.len(),
        decreases args, 0nat,
    {
        let ghost g = self.env();
        let ghost st0 = self.st();
        let mut out: Vec<String> = Vec::new();
        let mut i: usize = 0;
        assert(texts(out@) =~= Seq::<Seq<char>>::empty());
        while i < args.len()
            invariant
                i <= args@.len(),
                g == old(self).env(),
                st0 == old(self).st(),
                self.env() == g,
                out@.len() == i,
                args_spec(g, st0, cx@, exprs_v(args@), i as nat) == (self.st(), texts(out@)),
            decreases args@.len() - i,
        {
            let ghost before = texts(out@);
            let x: &Expr = &args[i];
            proof {
                reveal(translate_expr_spec);
                assert(decreases_to!(*args => *x));
                assert(exprs_v(args@)[i as int] == x@);
            }
            let one = self.translate_expr(cx, x);
            let ghost ov = one@;
            out.push(one);
            assert(texts(out@) =~= before.push(ov));
            i += 1;
        }
        out
    }
}

/// The types of expressions.
pub open spec fn static_types_spec(g: EnvV, cx: CtxV, args: Seq<ExprV>) -> Seq<TypeV> {
    args.map_values(|e: ExprV| static_type_spec(g, cx, e))
}

impl<'a> Translator<'a> {
    pub(crate) fn static_types(&self, cx: &Ctx, args: &Vec<Expr>) -> (r: Vec<Type>)
        ensures
            types_v(r@) == static_types_spec(self.env(), cx@, exprs_v(args@)),
    {
        let mut out: Vec<Type> = Vec::new();
        let mut i: usize = 0;
        while i < args.len()
            invariant
                i <= args@.len(),
                out@.len() == i,
                forall|k: int|
                    0 <= k < i ==> (#[trigger] out@[k])@ == static_type_spec(
                        self.env(),
                        cx@,
                        args@[k]@,
                    ),
            decreases args@.len() - i,
        {
            let t = self.static_type(cx, &args[i]);
            out.push(t);
            i += 1;
        }
        assert(types_v(out@) =~= static_types_spec(self.env(), cx@, exprs_v(args@)));
        out
    }
}

pub(crate) fn prepend(first: String, rest: Vec<String>) -> (r: Vec<String>)
    ensures
        texts(r@) == seq![first@] + texts(rest@),
{
    let ghost fv = first@;
    let ghost rv = texts(rest@);
    let mut out: Vec<String> = Vec::new();
    let mut tail = rest;
    out.push(first);
    out.append(&mut tail);
    assert(texts(out@) =~= seq![fv] + rv);
    out
}

/// The `i`-th expression.
#[verifier::opaque]
pub open spec fn translate_at_spec(
    g: EnvV,
    st: StV,
    cx: CtxV,
    args: Seq<ExprV>,
    i: usize,
) -> (StV, Seq<char>)
    decreases args, 0nat,
{
    if i < (args.len() as usize) {
        translate_expr_spec(g, st, cx, args[i as int])
    } else {
        (st, ""@)
    }
}

impl<'a> Translator<'a> {
    pub(crate) fn translate_at(&mut self, cx: &Ctx, args: &Vec<Expr>, i: usize) -> (r: String)
        ensures
            final(self).env() == old(self).env(),
            translate_at_spec(
                old(self).env(),
                old(self).st(),
                cx@,
                exprs_v(args@),
                i,
            ) == (final(self).st(), r@),
        decreases args, 0nat,
    {
        proof {
            reveal(translate_at_spec);
            reveal(translate_expr_spec);
        }
        if i < args.len() {
            assert(decreases_to!(*args => args@[i as int]));
            return self.translate_expr(cx, &args[i]);
        }
        String::from_str("")
    }
}

/// A literal is built by a function of its own.
#[verifier::opaque]
pub open spec fn translate_string_literal_spec(
    g: EnvV,
    st: StV,
    cx: CtxV,
    s: Seq<char>,
) -> (StV, Seq<char>) {
    let (st, id) = next_spec(st);
    let fn_name = "__strlit_"@ + dec(id as nat);
    let st = ensure_spec(
        st,
        fn_name,
        "function "@ + fn_name + "() -> ptr {\n"@ + str_body_spec("ptr"@, encode_utf8(s)) + "}\n"@,
    );
    (st, fn_name + "()"@)
}

impl<'a> Translator<'a> {
    pub(crate) fn translate_string_literal(&mut self, cx: &Ctx, s: &str) -> (r: String)
        ensures
            final(self).env() == old(self).env(),
            translate_string_literal_spec(
                old(self).env(),
                old(self).st(),
                cx@,
                s@,
            ) == (final(self).st(), r@),
    {
        proof {
            reveal(translate_string_literal_spec);
        }
        let id = self.next_literal_id();
        let fn_name = cat2("__strlit_", dec_text(id).as_str());
        self.ensure_helper(
            fn_name.as_str(),
            cat5(
                "function ",
                fn_name.as_str(),
                "() -> ptr {\n",
                str_literal_body_src("ptr", s).as_str(),
                "}\n",
            ),
        );
        cat2(fn_name.as_str(), "()")
    }
}

pub open spec fn ident_text_spec(name: Seq<char>) -> Seq<char> {
    if name == "true"@ {
        "1"@
    } else if name == "false"@ {
        "0"@
    } else {
        name
    }
}

pub(crate) fn ident_text(name: &str) -> (r: String)
    ensures
        r@ == ident_text_spec(name@),
{
    if same(name, "true") {
        return String::from_str("1");
    }
    if same(name, "false") {
        return String::from_str("0");
    }
    String::from_str(name)
}

/// The contract whose const fields a bare name gives access to.
pub open spec fn const_owner_spec(g: EnvV, cx: CtxV, name: Seq<char>) -> Option<Seq<char>> {
    if name == "self"@ {
        global_self_spec(cx)
    } else {
        Some(name)
    }
}

impl<'a> Translator<'a> {
    pub(crate) fn const_owner(&self, cx: &Ctx, name: &str) -> (r: Option<String>)
        ensures
            opt_text(r) == const_owner_spec(self.env(), cx@, name@),
    {
        if same(name, "self") {
            cx.global_self()
        } else {
            Some(String::from_str(name))
        }
    }
}

/// A const field: its value where it is known, else what deployment wrote.
pub open spec fn immutable_read_spec(g: EnvV, cx: CtxV, e: ExprV) -> Option<Seq<char>> {
    match e {
        ExprV::PropertyAccess { base, property } => {
            match ident_name_spec(*base) {
                Some(n) => {
                    match const_owner_spec(g, cx, n) {
                        Some(owner) => {
                            if immutable_spec(g.w, owner, property) is None {
                                None
                            } else {
                                match const_value_spec(g.w, owner, property) {
                                    Some(v) => Some(v),
                                    None => Some(
                                        "loadimmutable(\""@
                                        + (owner + "_"@ + property)
                                        + "\")"@
                                    ),
                                }
                            }
                        },
                        None => None,
                    }
                },
                None => None,
            }
        },
        _ => None,
    }
}

impl<'a> Translator<'a> {
    pub(crate) fn immutable_read(&self, cx: &Ctx, e: &Expr) -> (r: Option<String>)
        ensures
            opt_text(r) == immutable_read_spec(self.env(), cx@, e@),
    {
        match e {
            Expr::PropertyAccess { base, property } => {
                match ident_name(base) {
                    Some(n) => {
                        match self.const_owner(cx, n.as_str()) {
                            Some(owner) => {
                                if self.layout_engine.immutable_field(
                                    owner.as_str(),
                                    property.as_str(),
                                ).is_none() {
                                    return None;
                                }
                                match self.layout_engine.const_field_value(
                                    owner.as_str(),
                                    property.as_str(),
                                ) {
                                    Some(v) => Some(v),
                                    None => Some(
                                        cat3(
                                            "loadimmutable(\"",
                                            immutable_key(
                                                owner.as_str(),
                                                property.as_str(),
                                            ).as_str(),
                                            "\")",
                                        )
                                    ),
                                }
                            },
                            None => None,
                        }
                    },
                    None => None,
                }
            },
            _ => None,
        }
    }
}

/// A field of `self`, in storage or in memory.
#[verifier::opaque]
pub open spec fn self_field_read_spec(
    g: EnvV,
    st: StV,
    cx: CtxV,
    e: ExprV,
) -> (StV, Option<Seq<char>>) {
    match e {
        ExprV::PropertyAccess { base, property } => {
            if !is_ident_spec(*base, "self"@) {
                (st, None)
            } else {
                match global_self_spec(cx) {
                    Some(c) => {
                        match field_in(g.lay.storage, c, property) {
                            Some(sf) => {
                                let (st, value) = load_storage_field_spec(g, st, c, property, sf);
                                (st, Some(value))
                            },
                            None => (st, None),
                        }
                    },
                    None => {
                        match memory_self_spec(cx) {
                            Some(c) => {
                                match mem_field_in(g.lay.mem, c, property) {
                                    Some(mf) => (
                                        st,
                                        Some(
                                            sign_extend_read_spec(
                                                static_type_spec(g, cx, e),
                                                load_memory_field_spec("self"@, mf),
                                            )
                                        ),
                                    ),
                                    None => (st, None),
                                }
                            },
                            None => (st, None),
                        }
                    },
                }
            }
        },
        _ => (st, None),
    }
}

impl<'a> Translator<'a> {
    pub(crate) fn self_field_read(&mut self, cx: &Ctx, e: &Expr) -> (r: Option<String>)
        ensures
            final(self).env() == old(self).env(),
            self_field_read_spec(
                old(self).env(),
                old(self).st(),
                cx@,
                e@,
            ) == (final(self).st(), opt_text(r)),
    {
        proof {
            reveal(self_field_read_spec);
        }
        match e {
            Expr::PropertyAccess { base, property } => {
                if !is_ident(base, "self") {
                    return None;
                }
                match cx.global_self() {
                    Some(c) => {
                        match self.layout_engine.storage_field(c.as_str(), property.as_str()) {
                            Some(sf) => {
                                let value = self.load_storage_field(
                                    c.as_str(),
                                    property.as_str(),
                                    sf,
                                );
                                return Some(value);
                            },
                            None => {
                                return None;
                            },
                        }
                    },
                    None => {},
                }
                match cx.memory_self() {
                    Some(c) => {
                        match self.layout_engine.memory_field(c.as_str(), property.as_str()) {
                            Some(mf) => Some(
                                sign_extend_read(
                                    &self.static_type(cx, e),
                                    load_memory_field("self", mf).as_str(),
                                )
                            ),
                            None => None,
                        }
                    },
                    None => None,
                }
            },
            _ => None,
        }
    }
}

/// A storage field, written with the name of its contract.
#[verifier::opaque]
pub open spec fn named_field_read_spec(
    g: EnvV,
    st: StV,
    cx: CtxV,
    e: ExprV,
) -> (StV, Option<Seq<char>>)
    decreases e, 6nat,
{
    match e {
        ExprV::PropertyAccess { base, property } => {
            match ident_name_spec(*base) {
                Some(n) => {
                    match field_in(g.lay.storage, n, property) {
                        Some(sf) => {
                            let (st, found) = storage_array_to_memory_spec(g, st, cx, e);
                            match found {
                                Some(copy) => (st, Some(copy)),
                                None => {
                                    let (st, value) = load_storage_field_spec(
                                        g,
                                        st,
                                        n,
                                        property,
                                        sf,
                                    );
                                    (st, Some(value))
                                },
                            }
                        },
                        None => (st, None),
                    }
                },
                None => (st, None),
            }
        },
        _ => (st, None),
    }
}

impl<'a> Translator<'a> {
    pub(crate) fn named_field_read(&mut self, cx: &Ctx, e: &Expr) -> (r: Option<String>)
        ensures
            final(self).env() == old(self).env(),
            named_field_read_spec(
                old(self).env(),
                old(self).st(),
                cx@,
                e@,
            ) == (final(self).st(), opt_text(r)),
        decreases e, 6nat,
    {
        proof {
            reveal(named_field_read_spec);
            reveal(storage_array_to_memory_spec);
        }
        match e {
            Expr::PropertyAccess { base, property } => {
                match ident_name(base) {
                    Some(n) => {
                        match self.layout_engine.storage_field(n.as_str(), property.as_str()) {
                            Some(sf) => {
                                let found = self.storage_array_to_memory(cx, e);
                                match found {
                                    Some(copy) => {
                                        return Some(copy);
                                    },
                                    None => {},
                                }
                                let value = self.load_storage_field(
                                    n.as_str(),
                                    property.as_str(),
                                    sf,
                                );
                                Some(value)
                            },
                            None => None,
                        }
                    },
                    None => None,
                }
            },
            _ => None,
        }
    }
}

/// A variant without a payload: its tag, or a pair in memory.
#[verifier::opaque]
pub open spec fn variant_read_spec(
    g: EnvV,
    st: StV,
    cx: CtxV,
    e: ExprV,
) -> (StV, Option<Seq<char>>) {
    match e {
        ExprV::PropertyAccess { base, property } => {
            match ident_name_spec(*base) {
                Some(n) => {
                    match variant_pos_spec(g, n, property) {
                        Some(idx) => {
                            if !has_payload(g.w, n) {
                                (st, Some(dec(idx as nat)))
                            } else {
                                let st = ensure_spec(st, "make_enum"@, make_enum_src());
                                (st, Some("make_enum("@ + dec(idx as nat) + ", 0)"@))
                            }
                        },
                        None => (st, None),
                    }
                },
                None => (st, None),
            }
        },
        _ => (st, None),
    }
}

impl<'a> Translator<'a> {
    pub(crate) fn variant_read(&mut self, cx: &Ctx, e: &Expr) -> (r: Option<String>)
        ensures
            final(self).env() == old(self).env(),
            variant_read_spec(
                old(self).env(),
                old(self).st(),
                cx@,
                e@,
            ) == (final(self).st(), opt_text(r)),
    {
        proof {
            reveal(variant_read_spec);
        }
        match e {
            Expr::PropertyAccess { base, property } => {
                match ident_name(base) {
                    Some(n) => {
                        match self.variant_pos(n.as_str(), property.as_str()) {
                            Some(idx) => {
                                if !self.layout_engine.type_checker.enum_has_payload(n.as_str()) {
                                    return Some(dec_text(idx));
                                }
                                self.ensure_helper("make_enum", make_enum_helper_src());
                                Some(cat3("make_enum(", dec_text(idx).as_str(), ", 0)"))
                            },
                            None => None,
                        }
                    },
                    None => None,
                }
            },
            _ => None,
        }
    }
}

/// The length of an array.
#[verifier::opaque]
pub open spec fn length_read_spec(
    g: EnvV,
    st: StV,
    cx: CtxV,
    e: ExprV,
) -> (StV, Option<Seq<char>>)
    decreases e, 6nat,
{
    match e {
        ExprV::PropertyAccess { base, property } => {
            if property != "length"@ {
                (st, None)
            } else {
                let (st, found) = dyn_storage_array_spec(g, st, cx, *base);
                match found {
                    Some((slot, _, tr)) => (st, Some(ld_op_spec(tr) + "("@ + slot + ")"@)),
                    None => {
                        match static_type_spec(g, cx, *base) {
                            TypeV::FixedArray(_, n) => (st, Some(dec(n as nat))),
                            TypeV::Array(inner) => {
                                let esz = at_least_one(mem_elem_stride_spec(g, *inner));
                                let (st, b) = translate_expr_spec(g, st, cx, *base);
                                (st, Some("div(mload("@ + b + "), "@ + dec(esz as nat) + ")"@))
                            },
                            _ => (st, None),
                        }
                    },
                }
            }
        },
        _ => (st, None),
    }
}

impl<'a> Translator<'a> {
    pub(crate) fn length_read(&mut self, cx: &Ctx, e: &Expr) -> (r: Option<String>)
        ensures
            final(self).env() == old(self).env(),
            length_read_spec(
                old(self).env(),
                old(self).st(),
                cx@,
                e@,
            ) == (final(self).st(), opt_text(r)),
        decreases e, 6nat,
    {
        proof {
            reveal(length_read_spec);
            reveal(dyn_storage_array_spec);
            reveal(translate_expr_spec);
        }
        match e {
            Expr::PropertyAccess { base, property } => {
                if !same(property.as_str(), "length") {
                    return None;
                }
                let found = self.dyn_storage_array(cx, base);
                match found {
                    Some((slot, _, tr)) => {
                        return Some(cat4(ld_op(tr), "(", slot.as_str(), ")"));
                    },
                    None => {},
                }
                match &self.static_type(cx, base) {
                    Type::FixedArray(_, n) => Some(dec_text(*n)),
                    Type::Array(inner) => {
                        let esz: usize = max_one(self.mem_elem_stride(inner));
                        let b = self.translate_expr(cx, base);
                        Some(cat5("div(mload(", b.as_str(), "), ", dec_text(esz).as_str(), ")"))
                    },
                    _ => None,
                }
            },
            _ => None,
        }
    }
}

/// A field of a struct in storage.
#[verifier::opaque]
pub open spec fn struct_field_read_spec(
    g: EnvV,
    st: StV,
    cx: CtxV,
    e: ExprV,
) -> (StV, Option<Seq<char>>)
    decreases e, 6nat,
{
    match e {
        ExprV::PropertyAccess { base, property } => {
            let (st, found) = struct_storage_base_spec(g, st, cx, *base);
            match found {
                Some((base_slot, struct_name)) => {
                    match struct_field_slot_spec(g, base_slot, struct_name, property) {
                        Some((slot, off, size)) => {
                            let (st, tr) = struct_base_transient_spec(g, st, cx, *base);
                            (
                                st,
                                Some(
                                    sign_extend_read_spec(
                                        static_type_spec(g, cx, e),
                                        read_slot_spec(
                                            ld_op_spec(tr) + "("@ + slot + ")"@,
                                            off,
                                            size,
                                        ),
                                    )
                                ),
                            )
                        },
                        None => (st, None),
                    }
                },
                None => (st, None),
            }
        },
        _ => (st, None),
    }
}

impl<'a> Translator<'a> {
    pub(crate) fn struct_field_read(&mut self, cx: &Ctx, e: &Expr) -> (r: Option<String>)
        ensures
            final(self).env() == old(self).env(),
            struct_field_read_spec(
                old(self).env(),
                old(self).st(),
                cx@,
                e@,
            ) == (final(self).st(), opt_text(r)),
        decreases e, 6nat,
    {
        proof {
            reveal(struct_field_read_spec);
            reveal(struct_storage_base_spec);
        }
        match e {
            Expr::PropertyAccess { base, property } => {
                let found = self.struct_storage_base(cx, base);
                match found {
                    Some((base_slot, struct_name)) => {
                        match self.struct_field_slot(
                            base_slot.as_str(),
                            struct_name.as_str(),
                            property.as_str(),
                        ) {
                            Some((slot, off, size)) => {
                                let tr = self.struct_base_transient(cx, base);
                                Some(
                                    sign_extend_read(
                                        &self.static_type(cx, e),
                                        read_slot_packed(
                                            cat4(ld_op(tr), "(", slot.as_str(), ")").as_str(),
                                            off,
                                            size,
                                        ).as_str(),
                                    )
                                )
                            },
                            None => None,
                        }
                    },
                    None => None,
                }
            },
            _ => None,
        }
    }
}

/// A field of a value in memory.
#[verifier::opaque]
pub open spec fn memory_field_read_spec(
    g: EnvV,
    st: StV,
    cx: CtxV,
    e: ExprV,
) -> (StV, Option<Seq<char>>)
    decreases e, 6nat,
{
    match e {
        ExprV::PropertyAccess { base, property } => {
            match static_type_spec(g, cx, *base) {
                TypeV::Primitive(class_name) => {
                    match mem_field_in(g.lay.mem, class_name, property) {
                        Some(mf) => {
                            let (st, b) = translate_expr_spec(g, st, cx, *base);
                            (
                                st,
                                Some(
                                    sign_extend_read_spec(
                                        static_type_spec(g, cx, e),
                                        load_memory_field_spec(b, mf),
                                    )
                                ),
                            )
                        },
                        None => (st, None),
                    }
                },
                _ => (st, None),
            }
        },
        _ => (st, None),
    }
}

impl<'a> Translator<'a> {
    pub(crate) fn memory_field_read(&mut self, cx: &Ctx, e: &Expr) -> (r: Option<String>)
        ensures
            final(self).env() == old(self).env(),
            memory_field_read_spec(
                old(self).env(),
                old(self).st(),
                cx@,
                e@,
            ) == (final(self).st(), opt_text(r)),
        decreases e, 6nat,
    {
        proof {
            reveal(memory_field_read_spec);
            reveal(translate_expr_spec);
        }
        match e {
            Expr::PropertyAccess { base, property } => {
                match &self.static_type(cx, base) {
                    Type::Primitive(class_name) => {
                        match self.layout_engine.memory_field(
                            class_name.as_str(),
                            property.as_str(),
                        ) {
                            Some(mf) => {
                                let b = self.translate_expr(cx, base);
                                Some(
                                    sign_extend_read(
                                        &self.static_type(cx, e),
                                        load_memory_field(b.as_str(), mf).as_str(),
                                    )
                                )
                            },
                            None => None,
                        }
                    },
                    _ => None,
                }
            },
            _ => None,
        }
    }
}

/// Whether an expression is the code of an account.
pub open spec fn is_account_code_spec(g: EnvV, cx: CtxV, e: ExprV) -> bool {
    match e {
        ExprV::PropertyAccess { base, property } => {
            match static_type_spec(g, cx, *base) {
                TypeV::Primitive(class_name) => class_name == "Account"@ && property == "code"@,
                _ => false,
            }
        },
        _ => false,
    }
}

impl<'a> Translator<'a> {
    pub(crate) fn is_account_code(&self, cx: &Ctx, e: &Expr) -> (r: bool)
        ensures
            r == is_account_code_spec(self.env(), cx@, e@),
    {
        match e {
            Expr::PropertyAccess { base, property } => {
                match &self.static_type(cx, base) {
                    Type::Primitive(class_name) => same(
                        class_name.as_str(),
                        "Account",
                    ) && same(property.as_str(), "code"),
                    _ => false,
                }
            },
            _ => false,
        }
    }
}

#[verifier::opaque]
pub open spec fn translate_property_spec(g: EnvV, st: StV, cx: CtxV, e: ExprV) -> (StV, Seq<char>)
    decreases e, 8nat,
{
    match e {
        ExprV::PropertyAccess { base, property } => {
            if is_account_code_spec(g, cx, e) {
                translate_expr_spec(g, st, cx, *base)
            } else {
                match immutable_read_spec(g, cx, e) {
                    Some(s) => (st, s),
                    None => {
                        let (st, found) = self_field_read_spec(g, st, cx, e);
                        match found {
                            Some(s) => (st, s),
                            None => {
                                let (st, found) = named_field_read_spec(g, st, cx, e);
                                match found {
                                    Some(s) => (st, s),
                                    None => {
                                        let (st, found) = variant_read_spec(g, st, cx, e);
                                        match found {
                                            Some(s) => (st, s),
                                            None => {
                                                let (st, found) = length_read_spec(g, st, cx, e);
                                                match found {
                                                    Some(s) => (st, s),
                                                    None => {
                                                        let (st, found) = struct_field_read_spec(
                                                            g,
                                                            st,
                                                            cx,
                                                            e,
                                                        );
                                                        match found {
                                                            Some(s) => (st, s),
                                                            None => {
                                                                let (st, found) = memory_field_read_spec(
                                                                    g,
                                                                    st,
                                                                    cx,
                                                                    e,
                                                                );
                                                                match found {
                                                                    Some(s) => (st, s),
                                                                    None => {
                                                                        let st = error_spec(
                                                                            st,
                                                                            "no known storage or memory offset for '"@ + property + "' on a "@ + sig_spec(
                                                                                g.aw,
                                                                                static_type_spec(
                                                                                    g,
                                                                                    cx,
                                                                                    *base,
                                                                                ),
                                                                            ) + ", so it cannot be read. This is a compiler gap rather than a mistake in your code: please report it."@,
                                                                        );
                                                                        (st, "0"@)
                                                                    },
                                                                }
                                                            },
                                                        }
                                                    },
                                                }
                                            },
                                        }
                                    },
                                }
                            },
                        }
                    },
                }
            }
        },
        _ => (st, ""@),
    }
}

impl<'a> Translator<'a> {
    pub(crate) fn translate_property(&mut self, cx: &Ctx, e: &Expr) -> (r: String)
        ensures
            final(self).env() == old(self).env(),
            translate_property_spec(
                old(self).env(),
                old(self).st(),
                cx@,
                e@,
            ) == (final(self).st(), r@),
        decreases e, 8nat,
    {
        proof {
            reveal(translate_property_spec);
            reveal(named_field_read_spec);
            reveal(length_read_spec);
            reveal(struct_field_read_spec);
            reveal(memory_field_read_spec);
            reveal(translate_expr_spec);
        }
        match e {
            Expr::PropertyAccess { base, property } => {
                if self.is_account_code(cx, e) {
                    return self.translate_expr(cx, base);
                }
                match self.immutable_read(cx, e) {
                    Some(s) => {
                        return s;
                    },
                    None => {},
                }
                let found = self.self_field_read(cx, e);
                match found {
                    Some(s) => {
                        return s;
                    },
                    None => {},
                }
                let found = self.named_field_read(cx, e);
                match found {
                    Some(s) => {
                        return s;
                    },
                    None => {},
                }
                let found = self.variant_read(cx, e);
                match found {
                    Some(s) => {
                        return s;
                    },
                    None => {},
                }
                let found = self.length_read(cx, e);
                match found {
                    Some(s) => {
                        return s;
                    },
                    None => {},
                }
                let found = self.struct_field_read(cx, e);
                match found {
                    Some(s) => {
                        return s;
                    },
                    None => {},
                }
                let found = self.memory_field_read(cx, e);
                match found {
                    Some(s) => {
                        return s;
                    },
                    None => {},
                }
                self.note_error(
                    cat5(
                        "no known storage or memory offset for '",
                        property.as_str(),
                        "' on a ",
                        self.abi_gen.signature_type(&self.static_type(cx, base)).as_str(),
                        ", so it cannot be read. This is a compiler gap rather than a mistake in your code: please report it.",
                    )
                );
                String::from_str("0")
            },
            _ => String::from_str(""),
        }
    }
}

pub open spec fn is_map_type_spec(t: TypeV) -> bool {
    match t {
        TypeV::Generic { name, .. } => name == "HashMap"@,
        _ => false,
    }
}

pub(crate) fn is_map_type(t: &Type) -> (r: bool)
    ensures
        r == is_map_type_spec(t@),
{
    match t {
        Type::Generic { name, .. } => same(name.as_str(), "HashMap"),
        _ => false,
    }
}

/// The value of a mapping at a slot; a mapping inside it is its slot.
#[verifier::opaque]
pub open spec fn load_map_value_spec(
    g: EnvV,
    st: StV,
    v: TypeV,
    slot: Seq<char>,
    tr: bool,
) -> (StV, Seq<char>) {
    if is_map_type_spec(v) {
        (st, slot)
    } else if str_type(v) {
        let st = ensure_spec(st, "gum_sstr_base"@, gum_sstr_base_src());
        let st = ensure_spec(st, "gum_sstr_load"@ + kind_suffix_spec(tr), gum_sstr_load_src(tr));
        (st, "gum_sstr_load"@ + kind_suffix_spec(tr) + "("@ + slot + ")"@)
    } else {
        (st, ld_op_spec(tr) + "("@ + slot + ")"@)
    }
}

impl<'a> Translator<'a> {
    pub(crate) fn load_map_value(&mut self, v: &Type, slot: &str, tr: bool) -> (r: String)
        ensures
            final(self).env() == old(self).env(),
            load_map_value_spec(
                old(self).env(),
                old(self).st(),
                v@,
                slot@,
                tr,
            ) == (final(self).st(), r@),
    {
        proof {
            reveal(load_map_value_spec);
        }
        if is_map_type(v) {
            return String::from_str(slot);
        }
        if is_str_type(v) {
            self.ensure_helper("gum_sstr_base", gum_sstr_base_helper_src());
            self.ensure_helper(
                cat2("gum_sstr_load", kind_suffix(tr)).as_str(),
                gum_sstr_load_helper_src(tr),
            );
            return cat5("gum_sstr_load", kind_suffix(tr), "(", slot, ")");
        }
        cat4(ld_op(tr), "(", slot, ")")
    }
}

#[verifier::opaque]
pub open spec fn map_index_read_spec(
    g: EnvV,
    st: StV,
    cx: CtxV,
    e: ExprV,
) -> (StV, Option<Seq<char>>)
    decreases e, 6nat,
{
    match e {
        ExprV::IndexAccess { base, index } => {
            match map_value_spec(static_type_spec(g, cx, *base)) {
                Some(v) => {
                    let (st, found) = hashmap_base_slot_expr_spec(g, st, cx, *base);
                    match found {
                        Some(base_slot) => {
                            let (st, idx) = translate_expr_spec(g, st, cx, *index);
                            let (st, value) = load_map_value_spec(
                                g,
                                st,
                                v,
                                "gum_hash_slot("@ + idx + ", "@ + base_slot + ")"@,
                                hashmap_transient_spec(g, cx, *base),
                            );
                            (st, Some(value))
                        },
                        None => (st, None),
                    }
                },
                None => (st, None),
            }
        },
        _ => (st, None),
    }
}

impl<'a> Translator<'a> {
    pub(crate) fn map_index_read(&mut self, cx: &Ctx, e: &Expr) -> (r: Option<String>)
        ensures
            final(self).env() == old(self).env(),
            map_index_read_spec(
                old(self).env(),
                old(self).st(),
                cx@,
                e@,
            ) == (final(self).st(), opt_text(r)),
        decreases e, 6nat,
    {
        proof {
            reveal(map_index_read_spec);
            reveal(hashmap_base_slot_expr_spec);
            reveal(translate_expr_spec);
        }
        match e {
            Expr::IndexAccess { base, index } => {
                match map_value(&self.static_type(cx, base)) {
                    Some(v) => {
                        let found = self.hashmap_base_slot_expr(cx, base);
                        match found {
                            Some(base_slot) => {
                                let idx = self.translate_expr(cx, index);
                                let value = self.load_map_value(
                                    &v,
                                    cat5(
                                        "gum_hash_slot(",
                                        idx.as_str(),
                                        ", ",
                                        base_slot.as_str(),
                                        ")",
                                    ).as_str(),
                                    self.hashmap_transient(cx, base),
                                );
                                Some(value)
                            },
                            None => None,
                        }
                    },
                    None => None,
                }
            },
            _ => None,
        }
    }
}

/// An element of an array in storage.
#[verifier::opaque]
pub open spec fn storage_index_read_spec(
    g: EnvV,
    st: StV,
    cx: CtxV,
    e: ExprV,
) -> (StV, Option<Seq<char>>)
    decreases e, 6nat,
{
    match e {
        ExprV::IndexAccess { base, index } => {
            match storage_array_info_spec(g, cx, *base) {
                Some((base_slot, elem_size, len, tr)) => {
                    let (st, idx) = translate_expr_spec(g, st, cx, *index);
                    let (st, raw) = storage_array_get_spec(
                        g,
                        st,
                        base_slot,
                        elem_size,
                        len,
                        idx,
                        tr,
                    );
                    (st, Some(sign_extend_read_spec(static_type_spec(g, cx, e), raw)))
                },
                None => {
                    let (st, found) = dyn_storage_array_spec(g, st, cx, *base);
                    match found {
                        Some((slot, elem_size, tr)) => {
                            let (st, idx) = translate_expr_spec(g, st, cx, *index);
                            let (st, raw) = dyn_array_get_spec(g, st, slot, elem_size, idx, tr);
                            (st, Some(sign_extend_read_spec(static_type_spec(g, cx, e), raw)))
                        },
                        None => (st, None),
                    }
                },
            }
        },
        _ => (st, None),
    }
}

impl<'a> Translator<'a> {
    pub(crate) fn storage_index_read(&mut self, cx: &Ctx, e: &Expr) -> (r: Option<String>)
        ensures
            final(self).env() == old(self).env(),
            storage_index_read_spec(
                old(self).env(),
                old(self).st(),
                cx@,
                e@,
            ) == (final(self).st(), opt_text(r)),
        decreases e, 6nat,
    {
        proof {
            reveal(storage_index_read_spec);
            reveal(dyn_storage_array_spec);
            reveal(translate_expr_spec);
        }
        match e {
            Expr::IndexAccess { base, index } => {
                match self.storage_array_info(cx, base) {
                    Some((base_slot, elem_size, len, tr)) => {
                        let idx = self.translate_expr(cx, index);
                        let raw = self.storage_array_get(
                            base_slot,
                            elem_size,
                            len,
                            idx.as_str(),
                            tr,
                        );
                        return Some(sign_extend_read(&self.static_type(cx, e), raw.as_str()));
                    },
                    None => {},
                }
                let found = self.dyn_storage_array(cx, base);
                match found {
                    Some((slot, elem_size, tr)) => {
                        let idx = self.translate_expr(cx, index);
                        let raw = self.dyn_array_get(slot.as_str(), elem_size, idx.as_str(), tr);
                        Some(sign_extend_read(&self.static_type(cx, e), raw.as_str()))
                    },
                    None => None,
                }
            },
            _ => None,
        }
    }
}

/// The address of an element of a memory array, and how far apart its elements
/// stand.
#[verifier::opaque]
pub open spec fn mem_array_addr_spec(
    g: EnvV,
    st: StV,
    cx: CtxV,
    e: ExprV,
    index_expr: Seq<char>,
) -> (StV, (Seq<char>, usize))
    decreases e, 10nat,
{
    let (is_dynamic, stride) = array_elem_info_spec(g, cx, e);
    let (st, b) = translate_expr_spec(g, st, cx, e);
    if is_dynamic {
        let st = ensure_spec(st, "gum_marr_addr"@, gum_marr_addr_src(g.rich));
        (
            st,
            (
                "gum_marr_addr("@ + b + ", "@ + index_expr + ", "@ + dec(stride as nat) + ")"@,
                stride,
            ),
        )
    } else {
        match static_type_spec(g, cx, e) {
            TypeV::FixedArray(_, n) => {
                let st = ensure_spec(st, "gum_farr_addr"@, gum_farr_addr_src(g.rich));
                (
                    st,
                    (
                        "gum_farr_addr("@ + b + ", "@ + index_expr + ", "@ + dec(n as nat) + ", "@ + dec(
                            stride as nat
                        ) + ")"@,
                        stride,
                    ),
                )
            },
            _ => (
                st,
                ("add("@ + b + ", mul("@ + index_expr + ", "@ + dec(stride as nat) + "))"@, stride),
            ),
        }
    }
}

impl<'a> Translator<'a> {
    pub(crate) fn mem_array_addr(
        &mut self,
        cx: &Ctx,
        e: &Expr,
        index_expr: &str,
    ) -> (r: (String, usize))
        ensures
            final(self).env() == old(self).env(),
            mem_array_addr_spec(
                old(self).env(),
                old(self).st(),
                cx@,
                e@,
                index_expr@,
            ) == (final(self).st(), (r.0@, r.1)),
        decreases e, 10nat,
    {
        proof {
            reveal(mem_array_addr_spec);
            reveal(translate_expr_spec);
        }
        let (is_dynamic, stride) = self.array_elem_info(cx, e);
        let b = self.translate_expr(cx, e);
        if is_dynamic {
            self.ensure_helper("gum_marr_addr", gum_marr_addr_helper_src(self.rich_reverts));
            return (
                cat7(
                    "gum_marr_addr(",
                    b.as_str(),
                    ", ",
                    index_expr,
                    ", ",
                    dec_text(stride).as_str(),
                    ")",
                ),
                stride,
            );
        }
        match &self.static_type(cx, e) {
            Type::FixedArray(_, n) => {
                self.ensure_helper("gum_farr_addr", gum_farr_addr_helper_src(self.rich_reverts));
                (
                    cat9(
                        "gum_farr_addr(",
                        b.as_str(),
                        ", ",
                        index_expr,
                        ", ",
                        dec_text(*n).as_str(),
                        ", ",
                        dec_text(stride).as_str(),
                        ")",
                    ),
                    stride,
                )
            },
            _ => (
                cat7(
                    "add(",
                    b.as_str(),
                    ", mul(",
                    index_expr,
                    ", ",
                    dec_text(stride).as_str(),
                    "))",
                ),
                stride,
            ),
        }
    }
}

#[verifier::opaque]
pub open spec fn translate_index_spec(g: EnvV, st: StV, cx: CtxV, e: ExprV) -> (StV, Seq<char>)
    decreases e, 8nat,
{
    match e {
        ExprV::IndexAccess { base, index } => {
            if str_type(static_type_spec(g, cx, *base)) {
                let st = ensure_spec(st, "gum_str_len"@, gum_str_len_src());
                let st = ensure_spec(st, "gum_str_at"@, gum_str_at_src(g.rich));
                let (st, b) = translate_expr_spec(g, st, cx, *base);
                let (st, i) = translate_expr_spec(g, st, cx, *index);
                (st, "gum_str_at("@ + b + ", "@ + i + ")"@)
            } else {
                let (st, found) = map_index_read_spec(g, st, cx, e);
                match found {
                    Some(s) => (st, s),
                    None => {
                        let (st, found) = storage_index_read_spec(g, st, cx, e);
                        match found {
                            Some(s) => (st, s),
                            None => {
                                let (st, i) = translate_expr_spec(g, st, cx, *index);
                                let (st, pair) = mem_array_addr_spec(g, st, cx, *base, i);
                                let addr = pair.0;
                                let stride = pair.1;
                                let elem_ty = static_type_spec(g, cx, e);
                                if elem_is_inline_spec(g, elem_ty) {
                                    (st, addr)
                                } else {
                                    (
                                        st,
                                        sign_extend_read_spec(
                                            elem_ty,
                                            read_packed_spec(
                                                "mload("@ + addr + ")"@,
                                                0usize,
                                                stride,
                                            ),
                                        ),
                                    )
                                }
                            },
                        }
                    },
                }
            }
        },
        _ => (st, ""@),
    }
}

impl<'a> Translator<'a> {
    pub(crate) fn translate_index(&mut self, cx: &Ctx, e: &Expr) -> (r: String)
        ensures
            final(self).env() == old(self).env(),
            translate_index_spec(
                old(self).env(),
                old(self).st(),
                cx@,
                e@,
            ) == (final(self).st(), r@),
        decreases e, 8nat,
    {
        proof {
            reveal(translate_index_spec);
            reveal(map_index_read_spec);
            reveal(storage_index_read_spec);
            reveal(translate_expr_spec);
            reveal(mem_array_addr_spec);
        }
        match e {
            Expr::IndexAccess { base, index } => {
                if is_str_type(&self.static_type(cx, base)) {
                    self.ensure_helper("gum_str_len", gum_str_len_helper_src());
                    self.ensure_helper("gum_str_at", gum_str_at_helper_src(self.rich_reverts));
                    let b = self.translate_expr(cx, base);
                    let i = self.translate_expr(cx, index);
                    return cat5("gum_str_at(", b.as_str(), ", ", i.as_str(), ")");
                }
                let found = self.map_index_read(cx, e);
                match found {
                    Some(s) => {
                        return s;
                    },
                    None => {},
                }
                let found = self.storage_index_read(cx, e);
                match found {
                    Some(s) => {
                        return s;
                    },
                    None => {},
                }
                let i = self.translate_expr(cx, index);
                let (addr, stride) = self.mem_array_addr(cx, base, i.as_str());
                let elem_ty = self.static_type(cx, e);
                if self.elem_is_inline(&elem_ty) {
                    return addr;
                }
                sign_extend_read(
                    &elem_ty,
                    read_packed(cat3("mload(", addr.as_str(), ")").as_str(), 0, stride).as_str(),
                )
            },
            _ => String::from_str(""),
        }
    }
}

/// The Yul function that a call by a bare name goes to.
pub open spec fn callee_name_spec(g: EnvV, name: Seq<char>) -> Seq<char> {
    if g.free.contains(name) {
        "gumfn_"@ + name
    } else if g.top.contains(name) {
        name + "_impl"@
    } else {
        name
    }
}

impl<'a> Translator<'a> {
    pub(crate) fn callee_name(&self, name: &str) -> (r: String)
        ensures
            r@ == callee_name_spec(self.env(), name@),
    {
        if self.free_fns.contains(name) {
            return cat2("gumfn_", name);
        }
        if self.top_level_fns.contains(name) {
            return cat2(name, "_impl");
        }
        String::from_str(name)
    }
}

#[verifier::opaque]
pub open spec fn translate_call_spec(g: EnvV, st: StV, cx: CtxV, e: ExprV) -> (StV, Seq<char>)
    decreases e, 8nat,
{
    match e {
        ExprV::FnCall { name, args } => {
            if name == "keccak256"@ && args.len() == 1 {
                let (st, p) = translate_at_spec(g, st, cx, args, 0usize);
                if str_type(first_type_spec(g, cx, args)) {
                    let st = ensure_spec(st, "gum_str_len"@, gum_str_len_src());
                    let st = ensure_spec(st, "gum_keccak_str"@, gum_keccak_str_src());
                    (st, "gum_keccak_str("@ + p + ")"@)
                } else {
                    let st = ensure_spec(st, "gum_keccak_arr"@, gum_keccak_arr_src());
                    (st, "gum_keccak_arr("@ + p + ")"@)
                }
            } else if name == "ecrecover"@ && args.len() == 4 {
                let st = ensure_spec(st, "gum_ecrecover"@, gum_ecrecover_src());
                let (st, a) = args_spec(g, st, cx, args, args.len());
                (st, "gum_ecrecover("@ + join_spec(a, ", "@) + ")"@)
            } else if args.len() == 1 && g.w.classes.contains_key(name) {
                translate_at_spec(g, st, cx, args, 0usize)
            } else {
                let (st, a) = args_spec(g, st, cx, args, args.len());
                (st, callee_name_spec(g, name) + "("@ + join_spec(a, ", "@) + ")"@)
            }
        },
        _ => (st, ""@),
    }
}

impl<'a> Translator<'a> {
    pub(crate) fn translate_call(&mut self, cx: &Ctx, e: &Expr) -> (r: String)
        ensures
            final(self).env() == old(self).env(),
            translate_call_spec(old(self).env(), old(self).st(), cx@, e@) == (final(self).st(), r@),
        decreases e, 8nat,
    {
        proof {
            reveal(translate_call_spec);
            reveal_with_fuel(Expr::view, 2);
            reveal(translate_at_spec);
        }
        match e {
            Expr::FnCall { name, args } => {
                if same(name.as_str(), "keccak256") && args.len() == 1 {
                    let p = self.translate_at(cx, args, 0);
                    if is_str_type(&self.first_type(cx, args)) {
                        self.ensure_helper("gum_str_len", gum_str_len_helper_src());
                        self.ensure_helper("gum_keccak_str", gum_keccak_str_helper_src());
                        return cat3("gum_keccak_str(", p.as_str(), ")");
                    }
                    self.ensure_helper("gum_keccak_arr", gum_keccak_arr_helper_src());
                    return cat3("gum_keccak_arr(", p.as_str(), ")");
                }
                if same(name.as_str(), "ecrecover") && args.len() == 4 {
                    self.ensure_helper("gum_ecrecover", gum_ecrecover_helper_src());
                    let a = self.translate_args(cx, args);
                    return cat3("gum_ecrecover(", join(&a, ", ").as_str(), ")");
                }
                if args.len() == 1 && self.layout_engine.type_checker.loaded_classes.has(
                    name.as_str()
                ) {
                    return self.translate_at(cx, args, 0);
                }
                let a = self.translate_args(cx, args);
                cat4(self.callee_name(name.as_str()).as_str(), "(", join(&a, ", ").as_str(), ")")
            },
            _ => String::from_str(""),
        }
    }
}

/// Stores the first `n` parameters `v0`, `v1`, ... one `stride` apart.
pub open spec fn literal_stores(stride: usize, n: nat) -> Seq<char>
    decreases n,
{
    if n == 0 {
        Seq::empty()
    } else {
        let addr = "add(ptr, "@ + dec((n - 1) as nat * stride as nat) + ")"@;
        let p = "v"@ + dec((n - 1) as nat);
        literal_stores(stride, (n - 1) as nat) + "    mstore("@ + addr + ", "@ + (if stride >= 32 {
            p
        } else {
            write_packed_spec("mload("@ + addr + ")"@, 0, stride, p)
        }) + ")\n"@
    }
}

fn literal_stores_text(stride: usize, n: usize) -> (r: String)
    ensures
        r@ == literal_stores(stride, n as nat),
{
    let mut out = String::new();
    let mut i: usize = 0;
    while i < n
        invariant
            i <= n,
            out@ == literal_stores(stride, i as nat),
        decreases n - i,
    {
        let addr = cat3("add(ptr, ", dec_mul(i, stride).as_str(), ")");
        let p = cat2("v", dec_text(i).as_str());
        out.append("    mstore(");
        out.append(addr.as_str());
        out.append(", ");
        if stride >= 32 {
            out.append(p.as_str());
        } else {
            let load = cat3("mload(", addr.as_str(), ")");
            out.append(write_packed(load.as_str(), 0, stride, p.as_str()).as_str());
        }
        out.append(")\n");
        i += 1;
    }
    out
}

/// An array literal, with the element type that the target asks for.
#[verifier::opaque]
pub open spec fn translate_array_literal_spec(
    g: EnvV,
    st: StV,
    cx: CtxV,
    elements: Seq<ExprV>,
    hint: Option<TypeV>,
) -> (StV, Seq<char>)
    decreases elements, elements.len() + 1,
{
    if elements.len() == 0 {
        (st, "allocate_memory(0)"@)
    } else {
        let stride = literal_stride_spec(g, cx, elements, hint);
        let (st, exprs) = args_spec(g, st, cx, elements, elements.len());
        let (st, id) = next_spec(st);
        let fn_name = "__arrlit_"@ + dec(id as nat);
        let n = elements.len() as usize;
        let params = join_spec(numbered("v"@, n as nat), ", "@);
        let st = ensure_spec(
            st,
            fn_name,
            "function "@ + fn_name + "("@ + params + ") -> ptr {\n    ptr := allocate_memory("@ + dec(
                n as nat * stride as nat
            ) + ")\n"@ + literal_stores(stride, n as nat) + "}\n"@,
        );
        (st, fn_name + "("@ + join_spec(exprs, ", "@) + ")"@)
    }
}

impl<'a> Translator<'a> {
    pub(crate) fn translate_array_literal(
        &mut self,
        cx: &Ctx,
        elements: &Vec<Expr>,
        hint: &Option<Type>,
    ) -> (r: String)
        ensures
            final(self).env() == old(self).env(),
            translate_array_literal_spec(
                old(self).env(),
                old(self).st(),
                cx@,
                exprs_v(elements@),
                opt_type_v(*hint),
            ) == (final(self).st(), r@),
        decreases elements, 1nat,
    {
        proof {
            reveal(translate_array_literal_spec);
        }
        if elements.len() == 0 {
            return String::from_str("allocate_memory(0)");
        }
        let stride: usize = self.literal_stride(cx, elements, hint);
        let exprs = self.translate_args(cx, elements);
        let id = self.next_literal_id();
        let fn_name = cat2("__arrlit_", dec_text(id).as_str());
        let n: usize = elements.len();
        let params = join(&numbered_names("v", n), ", ");
        self.ensure_helper(
            fn_name.as_str(),
            cat9(
                "function ",
                fn_name.as_str(),
                "(",
                params.as_str(),
                ") -> ptr {\n    ptr := allocate_memory(",
                dec_mul(n, stride).as_str(),
                ")\n",
                literal_stores_text(stride, n).as_str(),
                "}\n",
            ),
        );
        cat4(fn_name.as_str(), "(", join(&exprs, ", ").as_str(), ")")
    }
}

pub open spec fn literal_stride_spec(
    g: EnvV,
    cx: CtxV,
    elements: Seq<ExprV>,
    hint: Option<TypeV>,
) -> usize {
    match hint {
        Some(t) => size_spec(g.w, g.lay.sizes, t),
        None => size_spec(g.w, g.lay.sizes, first_type_spec(g, cx, elements)),
    }
}

impl<'a> Translator<'a> {
    pub(crate) fn literal_stride(
        &self,
        cx: &Ctx,
        elements: &Vec<Expr>,
        hint: &Option<Type>,
    ) -> (r: usize)
        ensures
            r == literal_stride_spec(self.env(), cx@, exprs_v(elements@), opt_type_v(*hint)),
    {
        match hint {
            Some(t) => self.layout_engine.size_of(t),
            None => self.layout_engine.size_of(&self.first_type(cx, elements)),
        }
    }
}

/// The interpolated values among the first `n` segments, translated in order.
pub open spec fn interps_spec(g: EnvV, st: StV, cx: CtxV, segs: Seq<SegV>, n: nat) -> (
    StV,
    Seq<Seq<char>>,
)
    decreases segs, n,
{
    if n == 0 || n > segs.len() {
        (st, Seq::empty())
    } else {
        let (st, out) = interps_spec(g, st, cx, segs, (n - 1) as nat);
        match segs[n - 1] {
            SegV::Interp(x) => {
                let (st, one) = translate_expr_spec(g, st, cx, x);
                (st, out.push(one))
            },
            SegV::Literal(_) => (st, out),
        }
    }
}

/// Whether a value is pasted as the bytes it is, rather than as a number.
pub open spec fn pasted_raw(g: EnvV, cx: CtxV, e: ExprV) -> bool {
    let t = static_type_spec(g, cx, e);
    t is Array || t is FixedArray
}

/// How many of the first `n` segments are interpolated.
pub open spec fn interp_count(segs: Seq<SegV>, n: nat) -> nat
    decreases n,
{
    if n == 0 {
        0
    } else {
        interp_count(segs, (n - 1) as nat) + (if segs[n - 1] is Interp {
            1nat
        } else {
            0
        })
    }
}

/// The variable that holds segment `i`.
pub open spec fn chunk_name(seg: SegV, i: nat) -> Seq<char> {
    match seg {
        SegV::Literal(_) => "lit"@ + dec(i),
        SegV::Interp(_) => "chunk"@ + dec(i),
    }
}

/// The length of a chunk.
pub open spec fn chunk_len(g: EnvV, cx: CtxV, seg: SegV, i: nat) -> Seq<char> {
    match seg {
        SegV::Interp(x) => if pasted_raw(g, cx, x) {
            "mload("@ + chunk_name(seg, i) + ")"@
        } else {
            "gum_str_len("@ + chunk_name(seg, i) + ")"@
        },
        SegV::Literal(_) => "gum_str_len("@ + chunk_name(seg, i) + ")"@,
    }
}

/// The chunks of the first `n` segments.
pub open spec fn chunk_lets(g: EnvV, cx: CtxV, segs: Seq<SegV>, n: nat) -> Seq<char>
    decreases n,
{
    if n == 0 {
        Seq::empty()
    } else {
        let cv = chunk_name(segs[n - 1], (n - 1) as nat);
        chunk_lets(g, cx, segs, (n - 1) as nat) + (match segs[n - 1] {
            SegV::Literal(s) => "    let "@ + cv + " := 0\n"@ + str_body_spec(cv, encode_utf8(s)),
            SegV::Interp(x) => {
                let p = "v"@ + dec(interp_count(segs, (n - 1) as nat));
                if pasted_raw(g, cx, x) {
                    "    let "@ + cv + " := "@ + p + "\n"@
                } else {
                    "    let "@ + cv + " := u256_to_string("@ + p + ")\n"@
                }
            },
        })
    }
}

/// Adds up the lengths of the first `n` chunks.
pub open spec fn chunk_totals(g: EnvV, cx: CtxV, segs: Seq<SegV>, n: nat) -> Seq<char>
    decreases n,
{
    if n == 0 {
        Seq::empty()
    } else {
        chunk_totals(g, cx, segs, (n - 1) as nat) + "    total := add(total, "@ + chunk_len(
            g,
            cx,
            segs[n - 1],
            (n - 1) as nat,
        ) + ")\n"@
    }
}

/// Copies the first `n` chunks one behind the other.
pub open spec fn chunk_copies(g: EnvV, cx: CtxV, segs: Seq<SegV>, n: nat) -> Seq<char>
    decreases n,
{
    if n == 0 {
        Seq::empty()
    } else {
        let cv = chunk_name(segs[n - 1], (n - 1) as nat);
        let l = chunk_len(g, cx, segs[n - 1], (n - 1) as nat);
        chunk_copies(g, cx, segs, (n - 1) as nat)
            + "    bytes_copy(add(add(ptr, 32), off), add("@ + cv + ", 32), "@ + l
            + ")\n    off := add(off, "@ + l + ")\n"@
    }
}

/// A function that builds an interpolated string from its values.
pub open spec fn fstring_src(g: EnvV, cx: CtxV, name: Seq<char>, segs: Seq<SegV>) -> Seq<char> {
    let n = segs.len();
    "function "@ + name + "("@ + join_spec(numbered("v"@, interp_count(segs, n)), ", "@)
        + ") -> ptr {\n"@ + chunk_lets(g, cx, segs, n) + "    let total := 0\n"@ + chunk_totals(
        g,
        cx,
        segs,
        n,
    )
        + "    ptr := allocate_memory(add(32, total))\n    mstore(ptr, shl(192, total))\n    let off := 0\n"@
        + chunk_copies(g, cx, segs, n) + "}\n"@
}

proof fn lemma_interp_count(segs: Seq<SegV>, n: nat)
    ensures
        interp_count(segs, n) <= n,
    decreases n,
{
    if n > 0 {
        lemma_interp_count(segs, (n - 1) as nat);
    }
}

impl<'a> Translator<'a> {
    fn translate_interps(&mut self, cx: &Ctx, segs: &Vec<FStringSegment>) -> (r: Vec<String>)
        ensures
            final(self).env() == old(self).env(),
            interps_spec(old(self).env(), old(self).st(), cx@, segs_v(segs@), segs@.len()) == (
                final(self).st(),
                texts(r@),
            ),
        decreases segs, 0nat,
    {
        let ghost g = self.env();
        let ghost st0 = self.st();
        let mut out: Vec<String> = Vec::new();
        let mut i: usize = 0;
        assert(texts(out@) =~= Seq::<Seq<char>>::empty());
        while i < segs.len()
            invariant
                i <= segs@.len(),
                g == old(self).env(),
                st0 == old(self).st(),
                self.env() == g,
                interps_spec(g, st0, cx@, segs_v(segs@), i as nat) == (self.st(), texts(out@)),
            decreases segs@.len() - i,
        {
            let ghost before = texts(out@);
            let s: &FStringSegment = &segs[i];
            proof {
                reveal(translate_expr_spec);
                assert(decreases_to!(*segs => *s));
                assert(segs_v(segs@)[i as int] == s@);
            }
            match s {
                FStringSegment::Interp(x) => {
                    let one = self.translate_expr(cx, x);
                    let ghost ov = one@;
                    out.push(one);
                    assert(texts(out@) =~= before.push(ov));
                },
                FStringSegment::Literal(_) => {},
            }
            i += 1;
        }
        out
    }

    fn is_pasted_raw(&self, cx: &Ctx, e: &Expr) -> (r: bool)
        ensures
            r == pasted_raw(self.env(), cx@, e@),
    {
        match self.static_type(cx, e) {
            Type::Array(_) => true,
            Type::FixedArray(_, _) => true,
            _ => false,
        }
    }

    fn chunk_len_text(&self, cx: &Ctx, seg: &FStringSegment, cv: &str, Ghost(i): Ghost<nat>) -> (r:
        String)
        requires
            cv@ == chunk_name(seg@, i),
        ensures
            r@ == chunk_len(self.env(), cx@, seg@, i),
    {
        let raw = match seg {
            FStringSegment::Interp(x) => self.is_pasted_raw(cx, x),
            FStringSegment::Literal(_) => false,
        };
        if raw {
            cat3("mload(", cv, ")")
        } else {
            cat3("gum_str_len(", cv, ")")
        }
    }

    fn fstring_text(&self, cx: &Ctx, name: &str, segs: &Vec<FStringSegment>) -> (r: String)
        ensures
            r@ == fstring_src(self.env(), cx@, name@, segs_v(segs@)),
    {
        let ghost g = self.env();
        let ghost sv = segs_v(segs@);
        let mut lets = String::new();
        let mut totals = String::new();
        let mut copies = String::new();
        let mut k: usize = 0;
        let mut i: usize = 0;
        while i < segs.len()
            invariant
                i <= segs@.len(),
                g == self.env(),
                sv == segs_v(segs@),
                k <= i,
                k == interp_count(sv, i as nat),
                lets@ == chunk_lets(g, cx@, sv, i as nat),
                totals@ == chunk_totals(g, cx@, sv, i as nat),
                copies@ == chunk_copies(g, cx@, sv, i as nat),
            decreases segs@.len() - i,
        {
            let s = &segs[i];
            assert(sv[i as int] == s@);
            let cv = match s {
                FStringSegment::Literal(_) => cat2("lit", dec_text(i).as_str()),
                FStringSegment::Interp(_) => cat2("chunk", dec_text(i).as_str()),
            };
            match s {
                FStringSegment::Literal(text) => {
                    let line = cat4(
                        "    let ",
                        cv.as_str(),
                        " := 0\n",
                        str_literal_body_src(cv.as_str(), text.as_str()).as_str(),
                    );
                    lets.append(line.as_str());
                },
                FStringSegment::Interp(x) => {
                    let p = cat2("v", dec_text(k).as_str());
                    let line = if self.is_pasted_raw(cx, x) {
                        cat5("    let ", cv.as_str(), " := ", p.as_str(), "\n")
                    } else {
                        cat5("    let ", cv.as_str(), " := u256_to_string(", p.as_str(), ")\n")
                    };
                    lets.append(line.as_str());
                    k += 1;
                },
            }
            let l = self.chunk_len_text(cx, s, cv.as_str(), Ghost(i as nat));
            totals.append("    total := add(total, ");
            totals.append(l.as_str());
            totals.append(")\n");
            copies.append("    bytes_copy(add(add(ptr, 32), off), add(");
            copies.append(cv.as_str());
            copies.append(", 32), ");
            copies.append(l.as_str());
            copies.append(")\n    off := add(off, ");
            copies.append(l.as_str());
            copies.append(")\n");
            i += 1;
        }
        let params = join(&numbered_names("v", k), ", ");
        let head = cat9(
            "function ",
            name,
            "(",
            params.as_str(),
            ") -> ptr {\n",
            lets.as_str(),
            "    let total := 0\n",
            totals.as_str(),
            "    ptr := allocate_memory(add(32, total))\n    mstore(ptr, shl(192, total))\n    let off := 0\n",
        );
        cat3(head.as_str(), copies.as_str(), "}\n")
    }
}

pub open spec fn u256_to_string_src_spec() -> Seq<char> {
    "function u256_to_string(val) -> ptr {\n    let count := 1\n    let tmp := val\n    for {} gt(tmp, 9) {} {\n        tmp := div(tmp, 10)\n        count := add(count, 1)\n    }\n    ptr := allocate_memory(add(32, count))\n    mstore(ptr, shl(192, count))\n    let i := count\n    let v := val\n    for {} gt(i, 0) {} {\n        i := sub(i, 1)\n        mstore8(add(add(ptr, 32), i), add(0x30, mod(v, 10)))\n        v := div(v, 10)\n    }\n}\n"@
}

pub(crate) fn u256_to_string_src() -> (r: String)
    ensures
        r@ == u256_to_string_src_spec(),
{
    String::from_str(
        "function u256_to_string(val) -> ptr {\n    let count := 1\n    let tmp := val\n    for {} gt(tmp, 9) {} {\n        tmp := div(tmp, 10)\n        count := add(count, 1)\n    }\n    ptr := allocate_memory(add(32, count))\n    mstore(ptr, shl(192, count))\n    let i := count\n    let v := val\n    for {} gt(i, 0) {} {\n        i := sub(i, 1)\n        mstore8(add(add(ptr, 32), i), add(0x30, mod(v, 10)))\n        v := div(v, 10)\n    }\n}\n"
    )
}

/// An interpolated string is built by a function of its own, from its values.
#[verifier::opaque]
pub open spec fn translate_fstring_spec(
    g: EnvV,
    st: StV,
    cx: CtxV,
    segs: Seq<SegV>,
) -> (StV, Seq<char>)
    decreases segs, segs.len() + 1,
{
    let st = ensure_spec(st, "u256_to_string"@, u256_to_string_src_spec());
    let st = ensure_spec(st, "bytes_copy"@, bytes_copy_src());
    let st = ensure_spec(st, "gum_str_len"@, gum_str_len_src());
    let (st, values) = interps_spec(g, st, cx, segs, segs.len());
    let (st, id) = next_spec(st);
    let fn_name = "__fstr_"@ + dec(id as nat);
    let st = ensure_spec(st, fn_name, fstring_src(g, cx, fn_name, segs));
    (st, fn_name + "("@ + join_spec(values, ", "@) + ")"@)
}

impl<'a> Translator<'a> {
    pub(crate) fn translate_fstring(
        &mut self,
        cx: &Ctx,
        segs: &Vec<FStringSegment>,
    ) -> (r: String)
        ensures
            final(self).env() == old(self).env(),
            translate_fstring_spec(
                old(self).env(),
                old(self).st(),
                cx@,
                segs_v(segs@),
            ) == (final(self).st(), r@),
        decreases segs, 1nat,
    {
        proof {
            reveal(translate_fstring_spec);
        }
        self.ensure_helper("u256_to_string", u256_to_string_src());
        self.ensure_helper("bytes_copy", bytes_copy_helper_src());
        self.ensure_helper("gum_str_len", gum_str_len_helper_src());
        let values = self.translate_interps(cx, segs);
        let id = self.next_literal_id();
        let fn_name = cat2("__fstr_", dec_text(id).as_str());
        self.ensure_helper(fn_name.as_str(), self.fstring_text(cx, fn_name.as_str(), segs));
        cat4(fn_name.as_str(), "(", join(&values, ", ").as_str(), ")")
    }
}

/// The Yul expression that an expression becomes.
#[verifier::opaque]
pub open spec fn translate_expr_spec(g: EnvV, st: StV, cx: CtxV, e: ExprV) -> (StV, Seq<char>)
    decreases e, 9nat,
{
    match e {
        ExprV::Number(n) => (st, n),
        ExprV::StringLiteral(s) => translate_string_literal_spec(g, st, cx, s),
        ExprV::Identifier(name) => (st, ident_text_spec(name)),
        ExprV::BinaryOp { .. } => translate_binary_op_spec(g, st, cx, e),
        ExprV::Instantiation { type_def, args } => translate_construction_spec(
            g,
            st,
            cx,
            type_def,
            args,
            "new"@,
        ),
        ExprV::StaticCall { .. } => translate_static_call_spec(g, st, cx, e),
        ExprV::MethodCall { .. } => translate_method_call_spec(g, st, cx, e),
        ExprV::FString(segs) => translate_fstring_spec(g, st, cx, segs),
        ExprV::Neg(inner) => {
            let (st, x) = translate_expr_spec(g, st, cx, *inner);
            (st, "sub(0, "@ + x + ")"@)
        },
        ExprV::Not(inner) => {
            let (st, x) = translate_expr_spec(g, st, cx, *inner);
            (st, "iszero("@ + x + ")"@)
        },
        ExprV::ArrayLiteral(elements) => translate_array_literal_spec(g, st, cx, elements, None),
        ExprV::PropertyAccess { .. } => translate_property_spec(g, st, cx, e),
        ExprV::IndexAccess { .. } => translate_index_spec(g, st, cx, e),
        ExprV::FnCall { .. } => translate_call_spec(g, st, cx, e),
    }
}

impl<'a> Translator<'a> {
    pub fn translate_expr(&mut self, cx: &Ctx, e: &Expr) -> (r: String)
        ensures
            final(self).env() == old(self).env(),
            translate_expr_spec(old(self).env(), old(self).st(), cx@, e@) == (final(self).st(), r@),
        decreases e, 9nat,
    {
        proof {
            reveal(translate_expr_spec);
            reveal(translate_binary_op_spec);
            reveal(translate_construction_spec);
            reveal(translate_static_call_spec);
            reveal(translate_method_call_spec);
            reveal(translate_fstring_spec);
            reveal(translate_array_literal_spec);
            reveal(translate_property_spec);
            reveal(translate_index_spec);
            reveal(translate_call_spec);
        }
        match e {
            Expr::Number(n) => n.clone(),
            Expr::StringLiteral(s) => self.translate_string_literal(cx, s.as_str()),
            Expr::Identifier(name) => ident_text(name.as_str()),
            Expr::BinaryOp { .. } => self.translate_binary_op(cx, e),
            Expr::Instantiation { type_def, args } => self.translate_construction(
                cx,
                type_def,
                args,
                "new",
            ),
            Expr::StaticCall { .. } => self.translate_static_call(cx, e),
            Expr::MethodCall { .. } => self.translate_method_call(cx, e),
            Expr::FString(segs) => self.translate_fstring(cx, segs),
            Expr::Neg(inner) => {
                let x = self.translate_expr(cx, inner);
                cat3("sub(0, ", x.as_str(), ")")
            },
            Expr::Not(inner) => {
                let x = self.translate_expr(cx, inner);
                cat3("iszero(", x.as_str(), ")")
            },
            Expr::ArrayLiteral(elements) => self.translate_array_literal(cx, elements, &None),
            Expr::PropertyAccess { .. } => self.translate_property(cx, e),
            Expr::IndexAccess { .. } => self.translate_index(cx, e),
            Expr::FnCall { .. } => self.translate_call(cx, e),
        }
    }
}

} // verus!
