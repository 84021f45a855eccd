//! Method calls, tried one meaning after the other.
use crate::ast::{exprs_v, types_v, Expr, ExprV, Type, TypeV};
use crate::codegen::{generic_suffix, generic_suffix_spec};
use crate::codegen::helpers::{
    arr_data_base_helper_src, arr_data_base_src, dpk_pop_helper_src, dpk_pop_src,
    dpk_push_helper_src, dpk_push_src, dsarr_pop_helper_src, dsarr_pop_src,
    gum_delegate_of_helper_src, gum_delegate_of_src, gum_p256_verify_helper_src,
    gum_p256_verify_src, gum_pay_helper_src, gum_pay_src, gum_sstr_base_helper_src,
    gum_sstr_base_src, gum_sstr_load_helper_src, gum_sstr_load_src, gum_sstr_store_helper_src,
    gum_sstr_store_src, gum_str_concat_helper_src, gum_str_concat_src, gum_str_len_helper_src,
    gum_str_len_src, gum_str_slice_helper_src, gum_str_slice_src, gum_transfer_helper_src,
    gum_transfer_src, gum_uint_to_str_helper_src, gum_uint_to_str_src, make_enum_helper_src,
    make_enum_src, pk_write_helper_src, pk_write_src,
};
use crate::codegen::mutability::{contract_name, is_contract_name};
use crate::codegen::tr_blob::blob_spec;
use crate::codegen::tr_construct::{
    account_op_spec, is_prim, is_prim_spec, takes_self_spec, translate_construction_spec,
};
use crate::codegen::tr_expr::{
    args_spec, is_map_type, is_map_type_spec, prepend, static_types_spec, translate_at_spec,
    translate_expr_spec,
};
use crate::codegen::tr_extcall::{extcall_wrapper_src_spec, numbered, numbered_names};
use crate::codegen::tr_storage::{
    dyn_array_get_spec, dyn_storage_array_spec, hashmap_base_slot_expr_spec,
    hashmap_transient_spec, map_value, map_value_spec, resolve_storage_field_spec,
    storage_struct_array_spec,
};
use crate::codegen::tr_types::{
    ident_name, ident_name_spec, is_ident, is_ident_spec, is_parent_spec, sign_extend_read,
    sign_extend_read_spec, static_type_spec,
};
use crate::codegen::translator::{
    any_self_spec, ensure_spec, error_spec, method_of_spec, next_spec, variant_pos_spec, Ctx,
    CtxV, EnvV, StV, Translator,
};
use crate::codegen::yul::{
    at_least_one, is_numeric_primitive, is_str_type, kind_suffix, kind_suffix_spec, ld_op,
    ld_op_spec, max_one, numeric_name, opt_text, pack_params, pack_spec, packed_width,
    packed_width_spec, st_op, st_op_spec, str_type,
};
use crate::semantic::{has_payload, qualified_method_name, super_name};
use crate::text::{
    begins_char, cat2, cat3, cat4, cat5, cat6, cat7, cat8, cat9, clone_texts, dec, dec_text, join,
    join_spec, same, starts_with_char, texts,
};
use vstd::prelude::*;

verus! {

broadcast use crate::ast::group_views;

/// The function that `super.method` stands for, and whether it takes `self`.
pub open spec fn super_call_name_spec(
    g: EnvV,
    cx: CtxV,
    method: Seq<char>,
) -> Option<(Seq<char>, bool)> {
    match any_self_spec(cx) {
        Some(c) => Some(
            (
                c + "_"@ + ("super_"@ + method),
                !contract_name(g.w, c) && super_takes_self_spec(g, c, method),
            )
        ),
        None => None,
    }
}

impl<'a> Translator<'a> {
    pub(crate) fn super_call_name(&self, cx: &Ctx, method: &str) -> (r: Option<(String, bool)>)
        ensures
            (
                match r { Some(x) => Some((x.0@, x.1)), None => None }
            ) == super_call_name_spec(self.env(), cx@, method@),
    {
        match cx.any_self() {
            Some(c) => Some(
                (
                    cat3(c.as_str(), "_", super_name(method).as_str()),
                    !is_contract_name(
                        self.layout_engine.type_checker,
                        c.as_str(),
                    ) && self.super_takes_self(c.as_str(), method),
                )
            ),
            None => None,
        }
    }
}

pub open spec fn super_takes_self_spec(g: EnvV, class_name: Seq<char>, method: Seq<char>) -> bool {
    match method_of_spec(g, class_name, "super_"@ + method) {
        Some(m) => m.has_self,
        None => true,
    }
}

impl<'a> Translator<'a> {
    pub(crate) fn super_takes_self(&self, class_name: &str, method: &str) -> (r: bool)
        ensures
            r == super_takes_self_spec(self.env(), class_name@, method@),
    {
        match self.method_of(class_name, super_name(method).as_str()) {
            Some(m) => m.has_self,
            None => true,
        }
    }
}

/// The arguments, behind `name` where it is passed too.
pub open spec fn with_self_spec(first: bool, name: Seq<char>, a: Seq<Seq<char>>) -> Seq<Seq<char>> {
    if first {
        seq![name] + a
    } else {
        a
    }
}

pub fn with_self(first: bool, name: &str, a: &Vec<String>) -> (r: Vec<String>)
    ensures
        texts(r@) == with_self_spec(first, name@, texts(a@)),
{
    if first {
        return prepend(String::from_str(name), clone_texts(a));
    }
    clone_texts(a)
}

#[verifier::opaque]
pub open spec fn translate_super_call_spec(
    g: EnvV,
    st: StV,
    cx: CtxV,
    method: Seq<char>,
    args: Seq<ExprV>,
) -> (StV, Seq<char>)
    decreases args, args.len() + 1,
{
    match super_call_name_spec(g, cx, method) {
        Some((name, first)) => {
            let (st, a) = args_spec(g, st, cx, args, args.len());
            (st, name + "("@ + join_spec(with_self_spec(first, "self"@, a), ", "@) + ")"@)
        },
        None => (st, ""@),
    }
}

impl<'a> Translator<'a> {
    pub(crate) fn translate_super_call(
        &mut self,
        cx: &Ctx,
        method: &str,
        args: &Vec<Expr>,
    ) -> (r: String)
        ensures
            final(self).env() == old(self).env(),
            translate_super_call_spec(
                old(self).env(),
                old(self).st(),
                cx@,
                method@,
                exprs_v(args@),
            ) == (final(self).st(), r@),
        decreases args, 1nat,
    {
        proof {
            reveal(translate_super_call_spec);
        }
        match self.super_call_name(cx, method) {
            Some((name, first)) => {
                let a = self.translate_args(cx, args);
                cat4(name.as_str(), "(", join(&with_self(first, "self", &a), ", ").as_str(), ")")
            },
            None => String::from_str(""),
        }
    }
}

/// The class and the ancestor that `value.Ancestor` names.
pub open spec fn ancestor_owner_spec(
    g: EnvV,
    cx: CtxV,
    e: ExprV,
) -> Option<(Seq<char>, Seq<char>)> {
    match e {
        ExprV::PropertyAccess { base, property } => {
            match static_type_spec(g, cx, *base) {
                TypeV::Primitive(owner) => {
                    if is_parent_spec(g, owner, property) && g.w.classes.contains_key(property) {
                        Some((owner, property))
                    } else {
                        None
                    }
                },
                _ => None,
            }
        },
        _ => None,
    }
}

impl<'a> Translator<'a> {
    pub(crate) fn ancestor_owner(&self, cx: &Ctx, e: &Expr) -> (r: Option<(String, String)>)
        ensures
            (
                match r { Some(x) => Some((x.0@, x.1@)), None => None }
            ) == ancestor_owner_spec(self.env(), cx@, e@),
    {
        match e {
            Expr::PropertyAccess { base, property } => {
                match &self.static_type(cx, base) {
                    Type::Primitive(owner) => {
                        if self.is_parent(
                            owner.as_str(),
                            property.as_str(),
                        ) && self.layout_engine.type_checker.loaded_classes.has(property.as_str()) {
                            return Some((owner.clone(), property.clone()));
                        }
                        None
                    },
                    _ => None,
                }
            },
            _ => None,
        }
    }
}

/// The value in front of the last dot.
#[verifier::opaque]
pub open spec fn receiver_spec(g: EnvV, st: StV, cx: CtxV, e: ExprV) -> (StV, Seq<char>)
    decreases e, 7nat,
{
    match e {
        ExprV::PropertyAccess { base, .. } => translate_expr_spec(g, st, cx, *base),
        _ => (st, ""@),
    }
}

impl<'a> Translator<'a> {
    pub(crate) fn receiver(&mut self, cx: &Ctx, e: &Expr) -> (r: String)
        ensures
            final(self).env() == old(self).env(),
            receiver_spec(old(self).env(), old(self).st(), cx@, e@) == (final(self).st(), r@),
        decreases e, 7nat,
    {
        proof {
            reveal(receiver_spec);
            reveal(translate_expr_spec);
        }
        match e {
            Expr::PropertyAccess { base, .. } => self.translate_expr(cx, base),
            _ => String::from_str(""),
        }
    }
}

/// A method of one ancestor: `value.Ancestor.method(..)`.
#[verifier::opaque]
pub open spec fn ancestor_call_spec(
    g: EnvV,
    st: StV,
    cx: CtxV,
    e: ExprV,
) -> (StV, Option<Seq<char>>)
    decreases e, 7nat,
{
    match e {
        ExprV::MethodCall { base, method, args } => {
            match ancestor_owner_spec(g, cx, *base) {
                Some((owner, ancestor)) => {
                    let name = owner + "_"@ + (ancestor + "_"@ + method);
                    if contract_name(g.w, owner) {
                        let (st, a) = args_spec(g, st, cx, args, args.len());
                        (st, Some(name + "("@ + join_spec(a, ", "@) + ")"@))
                    } else {
                        let (st, first) = receiver_spec(g, st, cx, *base);
                        let (st, a) = args_spec(g, st, cx, args, args.len());
                        (st, Some(name + "("@ + join_spec(seq![first] + a, ", "@) + ")"@))
                    }
                },
                None => (st, None),
            }
        },
        _ => (st, None),
    }
}

impl<'a> Translator<'a> {
    pub(crate) fn ancestor_call(&mut self, cx: &Ctx, e: &Expr) -> (r: Option<String>)
        ensures
            final(self).env() == old(self).env(),
            ancestor_call_spec(
                old(self).env(),
                old(self).st(),
                cx@,
                e@,
            ) == (final(self).st(), opt_text(r)),
        decreases e, 7nat,
    {
        proof {
            reveal(ancestor_call_spec);
            reveal(receiver_spec);
        }
        match e {
            Expr::MethodCall { base, method, args } => {
                match self.ancestor_owner(cx, base) {
                    Some((owner, ancestor)) => {
                        let name = cat3(
                            owner.as_str(),
                            "_",
                            qualified_method_name(ancestor.as_str(), method.as_str()).as_str(),
                        );
                        if is_contract_name(self.layout_engine.type_checker, owner.as_str()) {
                            let a = self.translate_args(cx, args);
                            return Some(cat4(name.as_str(), "(", join(&a, ", ").as_str(), ")"));
                        }
                        let first = self.receiver(cx, base);
                        let a = self.translate_args(cx, args);
                        Some(cat4(name.as_str(), "(", join(&prepend(first, a), ", ").as_str(), ")"))
                    },
                    None => None,
                }
            },
            _ => None,
        }
    }
}

pub open spec fn sat_add_src_spec() -> Seq<char> {
    "function sat_add(a, b) -> r {\n    r := add(a, b)\n    if lt(r, a) { r := not(0) }\n}\n"@
}

pub(crate) fn sat_add_src() -> (r: String)
    ensures
        r@ == sat_add_src_spec(),
{
    String::from_str(
        "function sat_add(a, b) -> r {\n    r := add(a, b)\n    if lt(r, a) { r := not(0) }\n}\n"
    )
}

pub open spec fn as_bytes_src_spec() -> Seq<char> {
    "function as_bytes_u256(val) -> ptr {\n    ptr := allocate_memory(64)\n    mstore(ptr, 32)\n    mstore(add(ptr, 32), val)\n}\n"@
}

pub(crate) fn as_bytes_src() -> (r: String)
    ensures
        r@ == as_bytes_src_spec(),
{
    String::from_str(
        "function as_bytes_u256(val) -> ptr {\n    ptr := allocate_memory(64)\n    mstore(ptr, 32)\n    mstore(add(ptr, 32), val)\n}\n"
    )
}

/// A sum that stops at the largest word instead of failing.
#[verifier::opaque]
pub open spec fn translate_saturate_spec(g: EnvV, st: StV, cx: CtxV, e: ExprV) -> (StV, Seq<char>)
    decreases e, 10nat,
{
    match e {
        ExprV::BinaryOp { left, operator, right } => {
            if operator == "+"@ {
                let (st, l) = translate_expr_spec(g, st, cx, *left);
                let (st, r) = translate_expr_spec(g, st, cx, *right);
                let st = ensure_spec(st, "sat_add"@, sat_add_src_spec());
                (st, "sat_add("@ + l + ", "@ + r + ")"@)
            } else {
                translate_expr_spec(g, st, cx, e)
            }
        },
        _ => translate_expr_spec(g, st, cx, e),
    }
}

impl<'a> Translator<'a> {
    pub(crate) fn translate_saturate(&mut self, cx: &Ctx, e: &Expr) -> (r: String)
        ensures
            final(self).env() == old(self).env(),
            translate_saturate_spec(
                old(self).env(),
                old(self).st(),
                cx@,
                e@,
            ) == (final(self).st(), r@),
        decreases e, 10nat,
    {
        proof {
            reveal(translate_saturate_spec);
            reveal(translate_expr_spec);
        }
        match e {
            Expr::BinaryOp { left, operator, right } => {
                if same(operator.as_str(), "+") {
                    let l = self.translate_expr(cx, left);
                    let r = self.translate_expr(cx, right);
                    self.ensure_helper("sat_add", sat_add_src());
                    return cat5("sat_add(", l.as_str(), ", ", r.as_str(), ")");
                }
                self.translate_expr(cx, e)
            },
            _ => self.translate_expr(cx, e),
        }
    }
}

/// The methods of numbers.
#[verifier::opaque]
pub open spec fn numeric_call_spec(
    g: EnvV,
    st: StV,
    cx: CtxV,
    e: ExprV,
) -> (StV, Option<Seq<char>>)
    decreases e, 7nat,
{
    match e {
        ExprV::MethodCall { base, method, .. } => {
            match static_type_spec(g, cx, *base) {
                TypeV::Primitive(name) => {
                    if !numeric_name(name) {
                        (st, None)
                    } else if method == "saturate"@ {
                        let (st, s) = translate_saturate_spec(g, st, cx, *base);
                        (st, Some(s))
                    } else if method == "as_bytes"@ || method == "as_bits"@ {
                        let (st, v) = translate_expr_spec(g, st, cx, *base);
                        let st = ensure_spec(st, "as_bytes_u256"@, as_bytes_src_spec());
                        (st, Some("as_bytes_u256("@ + v + ")"@))
                    } else if method == "to_string"@ && begins_char(name, 'u') {
                        let (st, v) = translate_expr_spec(g, st, cx, *base);
                        let st = ensure_spec(st, "gum_uint_to_str"@, gum_uint_to_str_src());
                        (st, Some("gum_uint_to_str("@ + v + ")"@))
                    } else {
                        (st, None)
                    }
                },
                _ => (st, None),
            }
        },
        _ => (st, None),
    }
}

impl<'a> Translator<'a> {
    pub(crate) fn numeric_call(&mut self, cx: &Ctx, e: &Expr) -> (r: Option<String>)
        ensures
            final(self).env() == old(self).env(),
            numeric_call_spec(
                old(self).env(),
                old(self).st(),
                cx@,
                e@,
            ) == (final(self).st(), opt_text(r)),
        decreases e, 7nat,
    {
        proof {
            reveal(numeric_call_spec);
            reveal(translate_saturate_spec);
            reveal(translate_expr_spec);
        }
        match e {
            Expr::MethodCall { base, method, .. } => {
                match &self.static_type(cx, base) {
                    Type::Primitive(name) => {
                        if !is_numeric_primitive(name.as_str()) {
                            return None;
                        }
                        if same(method.as_str(), "saturate") {
                            let s = self.translate_saturate(cx, base);
                            return Some(s);
                        }
                        if same(method.as_str(), "as_bytes") || same(method.as_str(), "as_bits") {
                            let v = self.translate_expr(cx, base);
                            self.ensure_helper("as_bytes_u256", as_bytes_src());
                            return Some(cat3("as_bytes_u256(", v.as_str(), ")"));
                        }
                        if same(
                            method.as_str(),
                            "to_string",
                        ) && starts_with_char(name.as_str(), 'u') {
                            let v = self.translate_expr(cx, base);
                            self.ensure_helper("gum_uint_to_str", gum_uint_to_str_helper_src());
                            return Some(cat3("gum_uint_to_str(", v.as_str(), ")"));
                        }
                        None
                    },
                    _ => None,
                }
            },
            _ => None,
        }
    }
}

/// The methods of strings.
#[verifier::opaque]
pub open spec fn string_call_spec(
    g: EnvV,
    st: StV,
    cx: CtxV,
    e: ExprV,
) -> (StV, Option<Seq<char>>)
    decreases e, 7nat,
{
    match e {
        ExprV::MethodCall { base, method, args } => {
            if !str_type(static_type_spec(g, cx, *base)) {
                (st, None)
            } else {
                let (st, s) = translate_expr_spec(g, st, cx, *base);
                if method == "concat"@ && args.len() == 1 {
                    let st = ensure_spec(st, "gum_str_len"@, gum_str_len_src());
                    let st = ensure_spec(st, "gum_str_concat"@, gum_str_concat_src());
                    let (st, other) = translate_at_spec(g, st, cx, args, 0usize);
                    (st, Some("gum_str_concat("@ + s + ", "@ + other + ")"@))
                } else if method == "slice"@ && args.len() == 2 {
                    let st = ensure_spec(st, "gum_str_len"@, gum_str_len_src());
                    let st = ensure_spec(st, "gum_str_slice"@, gum_str_slice_src(g.rich));
                    let (st, from_) = translate_at_spec(g, st, cx, args, 0usize);
                    let (st, to) = translate_at_spec(g, st, cx, args, 1usize);
                    (st, Some("gum_str_slice("@ + s + ", "@ + from_ + ", "@ + to + ")"@))
                } else {
                    (st, None)
                }
            }
        },
        _ => (st, None),
    }
}

impl<'a> Translator<'a> {
    pub(crate) fn string_call(&mut self, cx: &Ctx, e: &Expr) -> (r: Option<String>)
        ensures
            final(self).env() == old(self).env(),
            string_call_spec(
                old(self).env(),
                old(self).st(),
                cx@,
                e@,
            ) == (final(self).st(), opt_text(r)),
        decreases e, 7nat,
    {
        proof {
            reveal(string_call_spec);
            reveal_with_fuel(Expr::view, 2);
            reveal(translate_expr_spec);
            reveal(translate_at_spec);
        }
        match e {
            Expr::MethodCall { base, method, args } => {
                if !is_str_type(&self.static_type(cx, base)) {
                    return None;
                }
                let s = self.translate_expr(cx, base);
                if same(method.as_str(), "concat") && args.len() == 1 {
                    self.ensure_helper("gum_str_len", gum_str_len_helper_src());
                    self.ensure_helper("gum_str_concat", gum_str_concat_helper_src());
                    let other = self.translate_at(cx, args, 0);
                    return Some(cat5("gum_str_concat(", s.as_str(), ", ", other.as_str(), ")"));
                }
                if same(method.as_str(), "slice") && args.len() == 2 {
                    self.ensure_helper("gum_str_len", gum_str_len_helper_src());
                    self.ensure_helper(
                        "gum_str_slice",
                        gum_str_slice_helper_src(self.rich_reverts),
                    );
                    let from_ = self.translate_at(cx, args, 0);
                    let to = self.translate_at(cx, args, 1);
                    return Some(
                        cat7(
                            "gum_str_slice(",
                            s.as_str(),
                            ", ",
                            from_.as_str(),
                            ", ",
                            to.as_str(),
                            ")",
                        )
                    );
                }
                None
            },
            _ => None,
        }
    }
}

/// The methods of accounts and of their code.
#[verifier::opaque]
pub open spec fn account_call_spec(
    g: EnvV,
    st: StV,
    cx: CtxV,
    e: ExprV,
) -> (StV, Option<Seq<char>>)
    decreases e, 7nat,
{
    match e {
        ExprV::MethodCall { base, method, args } => {
            if is_prim_spec(static_type_spec(g, cx, *base), "AccountCode"@) {
                if method == "len"@ {
                    let (st, s) = translate_expr_spec(g, st, cx, *base);
                    (st, Some("extcodesize("@ + s + ")"@))
                } else {
                    (st, None)
                }
            } else if !is_prim_spec(static_type_spec(g, cx, *base), "Account"@) {
                (st, None)
            } else {
                let (st, s) = translate_expr_spec(g, st, cx, *base);
                if method == "balance"@ {
                    (st, Some("balance("@ + s + ")"@))
                } else if method == "pay"@ && args.len() == 1 {
                    let st = ensure_spec(st, "gum_pay"@, gum_pay_src());
                    let (st, amt) = translate_at_spec(g, st, cx, args, 0usize);
                    (st, Some("gum_pay("@ + s + ", "@ + amt + ")"@))
                } else if method == "transfer"@ && args.len() == 1 {
                    let st = ensure_spec(st, "gum_transfer"@, gum_transfer_src());
                    let (st, amt) = translate_at_spec(g, st, cx, args, 0usize);
                    (st, Some("gum_transfer("@ + s + ", "@ + amt + ")"@))
                } else if method == "delegated_to"@ && args.len() == 0 {
                    let st = ensure_spec(st, "gum_delegate_of"@, gum_delegate_of_src());
                    (st, Some("gum_delegate_of("@ + s + ")"@))
                } else if method == "is_delegated"@ && args.len() == 0 {
                    let st = ensure_spec(st, "gum_delegate_of"@, gum_delegate_of_src());
                    (st, Some("iszero(iszero(gum_delegate_of("@ + s + ")))"@))
                } else {
                    (st, None)
                }
            }
        },
        _ => (st, None),
    }
}

impl<'a> Translator<'a> {
    pub(crate) fn account_call(&mut self, cx: &Ctx, e: &Expr) -> (r: Option<String>)
        ensures
            final(self).env() == old(self).env(),
            account_call_spec(
                old(self).env(),
                old(self).st(),
                cx@,
                e@,
            ) == (final(self).st(), opt_text(r)),
        decreases e, 7nat,
    {
        proof {
            reveal(account_call_spec);
            reveal_with_fuel(Expr::view, 2);
            reveal(translate_expr_spec);
            reveal(translate_at_spec);
        }
        match e {
            Expr::MethodCall { base, method, args } => {
                if is_prim(&self.static_type(cx, base), "AccountCode") {
                    if same(method.as_str(), "len") {
                        let s = self.translate_expr(cx, base);
                        return Some(cat3("extcodesize(", s.as_str(), ")"));
                    }
                    return None;
                }
                if !is_prim(&self.static_type(cx, base), "Account") {
                    return None;
                }
                let s = self.translate_expr(cx, base);
                if same(method.as_str(), "balance") {
                    return Some(cat3("balance(", s.as_str(), ")"));
                }
                if same(method.as_str(), "pay") && args.len() == 1 {
                    self.ensure_helper("gum_pay", gum_pay_helper_src());
                    let amt = self.translate_at(cx, args, 0);
                    return Some(cat5("gum_pay(", s.as_str(), ", ", amt.as_str(), ")"));
                }
                if same(method.as_str(), "transfer") && args.len() == 1 {
                    self.ensure_helper("gum_transfer", gum_transfer_helper_src());
                    let amt = self.translate_at(cx, args, 0);
                    return Some(cat5("gum_transfer(", s.as_str(), ", ", amt.as_str(), ")"));
                }
                if same(method.as_str(), "delegated_to") && args.len() == 0 {
                    self.ensure_helper("gum_delegate_of", gum_delegate_of_helper_src());
                    return Some(cat3("gum_delegate_of(", s.as_str(), ")"));
                }
                if same(method.as_str(), "is_delegated") && args.len() == 0 {
                    self.ensure_helper("gum_delegate_of", gum_delegate_of_helper_src());
                    return Some(cat3("iszero(iszero(gum_delegate_of(", s.as_str(), ")))"));
                }
                None
            },
            _ => None,
        }
    }
}

/// Functions that are written as methods of a fixed name.
#[verifier::opaque]
pub open spec fn namespace_call_spec(
    g: EnvV,
    st: StV,
    cx: CtxV,
    e: ExprV,
) -> (StV, Option<Seq<char>>)
    decreases e, 7nat,
{
    match e {
        ExprV::MethodCall { base, method, args } => {
            if is_ident_spec(*base, "Account"@) {
                let (st, a) = args_spec(g, st, cx, args, args.len());
                account_op_spec(g, st, method, a)
            } else if is_ident_spec(
                *base,
                "Crypto"@,
            ) && method == "verify_p256"@ && args.len() == 5 {
                let st = ensure_spec(st, "gum_p256_verify"@, gum_p256_verify_src());
                let (st, a) = args_spec(g, st, cx, args, args.len());
                (st, Some("gum_p256_verify("@ + join_spec(a, ", "@) + ")"@))
            } else if is_ident_spec(*base, "Abi"@) && (
                method == "encode"@
                || method == "encode_packed"@
            ) {
                let (st, s) = translate_abi_encode_spec(
                    g,
                    st,
                    cx,
                    method == "encode_packed"@,
                    args,
                );
                (st, Some(s))
            } else {
                (st, None)
            }
        },
        _ => (st, None),
    }
}

impl<'a> Translator<'a> {
    pub(crate) fn namespace_call(&mut self, cx: &Ctx, e: &Expr) -> (r: Option<String>)
        ensures
            final(self).env() == old(self).env(),
            namespace_call_spec(
                old(self).env(),
                old(self).st(),
                cx@,
                e@,
            ) == (final(self).st(), opt_text(r)),
        decreases e, 7nat,
    {
        proof {
            reveal(namespace_call_spec);
            reveal_with_fuel(Expr::view, 2);
            reveal(translate_abi_encode_spec);
        }
        match e {
            Expr::MethodCall { base, method, args } => {
                if is_ident(base, "Account") {
                    let a = self.translate_args(cx, args);
                    return self.account_op(method.as_str(), &a);
                }
                if is_ident(base, "Crypto") && same(
                    method.as_str(),
                    "verify_p256",
                ) && args.len() == 5 {
                    self.ensure_helper("gum_p256_verify", gum_p256_verify_helper_src());
                    let a = self.translate_args(cx, args);
                    return Some(cat3("gum_p256_verify(", join(&a, ", ").as_str(), ")"));
                }
                if is_ident(base, "Abi") && (
                    same(method.as_str(), "encode")
                    || same(method.as_str(), "encode_packed")
                ) {
                    let s = self.translate_abi_encode(
                        cx,
                        same(method.as_str(), "encode_packed"),
                        args,
                    );
                    return Some(s);
                }
                None
            },
            _ => None,
        }
    }
}

/// `len` and `get` on a dynamic array in storage.
#[verifier::opaque]
pub open spec fn array_read_call_spec(
    g: EnvV,
    st: StV,
    cx: CtxV,
    e: ExprV,
) -> (StV, Option<Seq<char>>)
    decreases e, 7nat,
{
    match e {
        ExprV::MethodCall { base, method, args } => {
            if !(method == "len"@ || method == "get"@) {
                (st, None)
            } else {
                let (st, found) = dyn_storage_array_spec(g, st, cx, *base);
                match found {
                    Some((slot, elem_size, tr)) => {
                        if method == "len"@ && args.len() == 0 {
                            (st, Some(ld_op_spec(tr) + "("@ + slot + ")"@))
                        } else if method == "get"@ && args.len() == 1 {
                            let (st, idx) = translate_at_spec(g, st, cx, args, 0usize);
                            let (st, value) = dyn_array_get_spec(g, st, slot, elem_size, idx, tr);
                            (st, Some(sign_extend_read_spec(static_type_spec(g, cx, e), value)))
                        } else {
                            (st, None)
                        }
                    },
                    None => (st, None),
                }
            }
        },
        _ => (st, None),
    }
}

impl<'a> Translator<'a> {
    pub(crate) fn array_read_call(&mut self, cx: &Ctx, e: &Expr) -> (r: Option<String>)
        ensures
            final(self).env() == old(self).env(),
            array_read_call_spec(
                old(self).env(),
                old(self).st(),
                cx@,
                e@,
            ) == (final(self).st(), opt_text(r)),
        decreases e, 7nat,
    {
        proof {
            reveal(array_read_call_spec);
            reveal_with_fuel(Expr::view, 2);
            reveal(dyn_storage_array_spec);
            reveal(translate_at_spec);
        }
        match e {
            Expr::MethodCall { base, method, args } => {
                if !(same(method.as_str(), "len") || same(method.as_str(), "get")) {
                    return None;
                }
                let found = self.dyn_storage_array(cx, base);
                match found {
                    Some((slot, elem_size, tr)) => {
                        if same(method.as_str(), "len") && args.len() == 0 {
                            return Some(cat4(ld_op(tr), "(", slot.as_str(), ")"));
                        }
                        if same(method.as_str(), "get") && args.len() == 1 {
                            let idx = self.translate_at(cx, args, 0);
                            let value = self.dyn_array_get(
                                slot.as_str(),
                                elem_size,
                                idx.as_str(),
                                tr,
                            );
                            return Some(sign_extend_read(&self.static_type(cx, e), value.as_str()));
                        }
                        None
                    },
                    None => None,
                }
            },
            _ => None,
        }
    }
}

pub open spec fn field_slot_or_zero_spec(g: EnvV, cx: CtxV, e: ExprV) -> usize {
    match resolve_storage_field_spec(g, cx, e) {
        Some(sf) => sf.slot,
        None => 0usize,
    }
}

impl<'a> Translator<'a> {
    pub(crate) fn field_slot_or_zero(&self, cx: &Ctx, e: &Expr) -> (r: usize)
        ensures
            r == field_slot_or_zero_spec(self.env(), cx@, e@),
    {
        match self.resolve_storage_field(cx, e) {
            Some(sf) => sf.slot,
            None => 0,
        }
    }
}

/// `push` and `pop` on an array of structs.
#[verifier::opaque]
pub open spec fn struct_array_call_spec(
    g: EnvV,
    st: StV,
    cx: CtxV,
    e: ExprV,
) -> (StV, Option<Seq<char>>)
    decreases e, 6nat,
{
    match e {
        ExprV::MethodCall { base, method, args } => {
            let (st, found_array) = dyn_storage_array_spec(g, st, cx, *base);
            if found_array is None {
                (st, None)
            } else {
                let (st, found) = storage_struct_array_spec(g, st, cx, *base);
                match found {
                    Some((_, _, struct_name, es, tr)) => {
                        let st = ensure_spec(st, "arr_data_base"@, arr_data_base_src());
                        let slot = field_slot_or_zero_spec(g, cx, *base);
                        if method == "push"@ {
                            if args.len() > 0 {
                                let st = error_spec(
                                    st,
                                    "Semantic Error: push on an array of struct '"@ + struct_name + "' takes no argument. gum has no struct-copy: a struct lives either in memory or in storage, and moving one between them field by field is not something push can do implicitly. Use arr.push() to append a zeroed element, then set its fields (arr[arr.length - 1].field = v) the same way a struct in a mapping is written."@,
                                );
                                (st, Some(""@))
                            } else {
                                (
                                    st,
                                    Some(
                                        st_op_spec(tr)
                                        + "("@
                                        + dec(slot as nat)
                                        + ", add("@
                                        + ld_op_spec(tr)
                                        + "("@
                                        + dec(slot as nat)
                                        + "), 1))\n"@
                                    ),
                                )
                            }
                        } else {
                            let st = ensure_spec(
                                st,
                                "dsarr_pop"@ + kind_suffix_spec(tr),
                                dsarr_pop_src(g.rich, tr),
                            );
                            (
                                st,
                                Some(
                                    "dsarr_pop"@
                                    + kind_suffix_spec(tr)
                                    + "("@
                                    + dec(slot as nat)
                                    + ", "@
                                    + dec(es as nat)
                                    + ")\n"@
                                ),
                            )
                        }
                    },
                    None => (st, None),
                }
            }
        },
        _ => (st, None),
    }
}

impl<'a> Translator<'a> {
    pub(crate) fn struct_array_call(&mut self, cx: &Ctx, e: &Expr) -> (r: Option<String>)
        ensures
            final(self).env() == old(self).env(),
            struct_array_call_spec(
                old(self).env(),
                old(self).st(),
                cx@,
                e@,
            ) == (final(self).st(), opt_text(r)),
        decreases e, 6nat,
    {
        proof {
            reveal(struct_array_call_spec);
            reveal_with_fuel(Expr::view, 2);
            reveal(dyn_storage_array_spec);
        }
        match e {
            Expr::MethodCall { base, method, args } => {
                let found_array = self.dyn_storage_array(cx, base);
                if found_array.is_none() {
                    return None;
                }
                let found = self.storage_struct_array(cx, base);
                match found {
                    Some((_, _, struct_name, es, tr)) => {
                        self.ensure_helper("arr_data_base", arr_data_base_helper_src());
                        let slot: usize = self.field_slot_or_zero(cx, base);
                        if same(method.as_str(), "push") {
                            if args.len() > 0 {
                                self.note_error(
                                    cat3(
                                        "Semantic Error: push on an array of struct '",
                                        struct_name.as_str(),
                                        "' takes no argument. gum has no struct-copy: a struct lives either in memory or in storage, and moving one between them field by field is not something push can do implicitly. Use arr.push() to append a zeroed element, then set its fields (arr[arr.length - 1].field = v) the same way a struct in a mapping is written.",
                                    )
                                );
                                return Some(String::from_str(""));
                            }
                            return Some(
                                cat8(
                                    st_op(tr),
                                    "(",
                                    dec_text(slot).as_str(),
                                    ", add(",
                                    ld_op(tr),
                                    "(",
                                    dec_text(slot).as_str(),
                                    "), 1))\n",
                                )
                            );
                        }
                        self.ensure_helper(
                            cat2("dsarr_pop", kind_suffix(tr)).as_str(),
                            dsarr_pop_helper_src(self.rich_reverts, tr),
                        );
                        Some(
                            cat7(
                                "dsarr_pop",
                                kind_suffix(tr),
                                "(",
                                dec_text(slot).as_str(),
                                ", ",
                                dec_text(es).as_str(),
                                ")\n",
                            )
                        )
                    },
                    None => None,
                }
            },
            _ => None,
        }
    }
}

/// `push` and `pop` on an array of packed elements.
#[verifier::opaque]
pub open spec fn word_array_call_spec(
    g: EnvV,
    st: StV,
    cx: CtxV,
    e: ExprV,
) -> (StV, Option<Seq<char>>)
    decreases e, 6nat,
{
    match e {
        ExprV::MethodCall { base, method, args } => {
            let (st, found) = dyn_storage_array_spec(g, st, cx, *base);
            match found {
                Some((slot, elem_size, tr)) => {
                    let (per, es) = pack_spec(elem_size);
                    let esz = at_least_one(elem_size);
                    let st = ensure_spec(st, "arr_data_base"@, arr_data_base_src());
                    let st = ensure_spec(st, "pk_write"@ + kind_suffix_spec(tr), pk_write_src(tr));
                    if method == "push"@ {
                        if args.len() == 0 {
                            let st = error_spec(st, "push takes the element to append."@);
                            (st, Some(""@))
                        } else {
                            let (st, v) = translate_at_spec(g, st, cx, args, 0usize);
                            let st = ensure_spec(
                                st,
                                "dpk_push"@ + kind_suffix_spec(tr),
                                dpk_push_src(tr),
                            );
                            (
                                st,
                                Some(
                                    "dpk_push"@
                                    + kind_suffix_spec(tr)
                                    + "("@
                                    + slot
                                    + ", "@
                                    + dec(per as nat)
                                    + ", "@
                                    + dec(es as nat)
                                    + ", "@
                                    + dec(esz as nat)
                                    + ", "@
                                    + v
                                    + ")\n"@
                                ),
                            )
                        }
                    } else {
                        let st = ensure_spec(
                            st,
                            "dpk_pop"@ + kind_suffix_spec(tr),
                            dpk_pop_src(g.rich, tr),
                        );
                        (
                            st,
                            Some(
                                "dpk_pop"@
                                + kind_suffix_spec(tr)
                                + "("@
                                + slot
                                + ", "@
                                + dec(per as nat)
                                + ", "@
                                + dec(es as nat)
                                + ", "@
                                + dec(esz as nat)
                                + ")\n"@
                            ),
                        )
                    }
                },
                None => (st, None),
            }
        },
        _ => (st, None),
    }
}

impl<'a> Translator<'a> {
    pub(crate) fn word_array_call(&mut self, cx: &Ctx, e: &Expr) -> (r: Option<String>)
        ensures
            final(self).env() == old(self).env(),
            word_array_call_spec(
                old(self).env(),
                old(self).st(),
                cx@,
                e@,
            ) == (final(self).st(), opt_text(r)),
        decreases e, 6nat,
    {
        proof {
            reveal(word_array_call_spec);
            reveal_with_fuel(Expr::view, 2);
            reveal(dyn_storage_array_spec);
            reveal(translate_at_spec);
        }
        match e {
            Expr::MethodCall { base, method, args } => {
                let found = self.dyn_storage_array(cx, base);
                match found {
                    Some((slot, elem_size, tr)) => {
                        let (per, es) = pack_params(elem_size);
                        let esz: usize = max_one(elem_size);
                        self.ensure_helper("arr_data_base", arr_data_base_helper_src());
                        self.ensure_helper(
                            cat2("pk_write", kind_suffix(tr)).as_str(),
                            pk_write_helper_src(tr),
                        );
                        if same(method.as_str(), "push") {
                            if args.len() == 0 {
                                self.note_error(
                                    String::from_str("push takes the element to append.")
                                );
                                return Some(String::from_str(""));
                            }
                            let v = self.translate_at(cx, args, 0);
                            self.ensure_helper(
                                cat2("dpk_push", kind_suffix(tr)).as_str(),
                                dpk_push_helper_src(tr),
                            );
                            return Some(
                                cat5(
                                    cat9(
                                        "dpk_push",
                                        kind_suffix(tr),
                                        "(",
                                        slot.as_str(),
                                        ", ",
                                        dec_text(per).as_str(),
                                        ", ",
                                        dec_text(es).as_str(),
                                        ", ",
                                    ).as_str(),
                                    dec_text(esz).as_str(),
                                    ", ",
                                    v.as_str(),
                                    ")\n",
                                )
                            );
                        }
                        self.ensure_helper(
                            cat2("dpk_pop", kind_suffix(tr)).as_str(),
                            dpk_pop_helper_src(self.rich_reverts, tr),
                        );
                        Some(
                            cat3(
                                cat9(
                                    "dpk_pop",
                                    kind_suffix(tr),
                                    "(",
                                    slot.as_str(),
                                    ", ",
                                    dec_text(per).as_str(),
                                    ", ",
                                    dec_text(es).as_str(),
                                    ", ",
                                ).as_str(),
                                dec_text(esz).as_str(),
                                ")\n",
                            )
                        )
                    },
                    None => None,
                }
            },
            _ => None,
        }
    }
}

#[verifier::opaque]
pub open spec fn array_write_call_spec(
    g: EnvV,
    st: StV,
    cx: CtxV,
    e: ExprV,
) -> (StV, Option<Seq<char>>)
    decreases e, 7nat,
{
    match e {
        ExprV::MethodCall { method, .. } => {
            if !(method == "push"@ || method == "pop"@) {
                (st, None)
            } else {
                let (st, found) = struct_array_call_spec(g, st, cx, e);
                match found {
                    Some(s) => (st, Some(s)),
                    None => word_array_call_spec(g, st, cx, e),
                }
            }
        },
        _ => (st, None),
    }
}

impl<'a> Translator<'a> {
    pub(crate) fn array_write_call(&mut self, cx: &Ctx, e: &Expr) -> (r: Option<String>)
        ensures
            final(self).env() == old(self).env(),
            array_write_call_spec(
                old(self).env(),
                old(self).st(),
                cx@,
                e@,
            ) == (final(self).st(), opt_text(r)),
        decreases e, 7nat,
    {
        proof {
            reveal(array_write_call_spec);
            reveal(struct_array_call_spec);
            reveal(word_array_call_spec);
        }
        match e {
            Expr::MethodCall { method, .. } => {
                if !(same(method.as_str(), "push") || same(method.as_str(), "pop")) {
                    return None;
                }
                let found = self.struct_array_call(cx, e);
                match found {
                    Some(s) => Some(s),
                    None => self.word_array_call(cx, e),
                }
            },
            _ => None,
        }
    }
}

/// Stores a value of a mapping at a slot.
#[verifier::opaque]
pub open spec fn store_map_value_spec(
    g: EnvV,
    st: StV,
    v: TypeV,
    slot: Seq<char>,
    val_expr: Seq<char>,
    tr: bool,
) -> (StV, Seq<char>) {
    if str_type(v) {
        let st = ensure_spec(st, "gum_str_len"@, gum_str_len_src());
        let st = ensure_spec(st, "gum_sstr_base"@, gum_sstr_base_src());
        let st = ensure_spec(st, "gum_sstr_store"@ + kind_suffix_spec(tr), gum_sstr_store_src(tr));
        (st, "gum_sstr_store"@ + kind_suffix_spec(tr) + "("@ + slot + ", "@ + val_expr + ")"@)
    } else {
        (st, st_op_spec(tr) + "("@ + slot + ", "@ + val_expr + ")"@)
    }
}

impl<'a> Translator<'a> {
    pub(crate) fn store_map_value(
        &mut self,
        v: &Type,
        slot: &str,
        val_expr: &str,
        tr: bool,
    ) -> (r: String)
        ensures
            final(self).env() == old(self).env(),
            store_map_value_spec(
                old(self).env(),
                old(self).st(),
                v@,
                slot@,
                val_expr@,
                tr,
            ) == (final(self).st(), r@),
    {
        proof {
            reveal(store_map_value_spec);
        }
        if is_str_type(v) {
            self.ensure_helper("gum_str_len", gum_str_len_helper_src());
            self.ensure_helper("gum_sstr_base", gum_sstr_base_helper_src());
            self.ensure_helper(
                cat2("gum_sstr_store", kind_suffix(tr)).as_str(),
                gum_sstr_store_helper_src(tr),
            );
            return cat7("gum_sstr_store", kind_suffix(tr), "(", slot, ", ", val_expr, ")");
        }
        cat6(st_op(tr), "(", slot, ", ", val_expr, ")")
    }
}

/// The value that `get` reads from a mapping.
#[verifier::opaque]
pub open spec fn fetch_map_value_spec(
    g: EnvV,
    st: StV,
    v: TypeV,
    slot: Seq<char>,
    tr: bool,
) -> (StV, Seq<char>) {
    if str_type(v) {
        let st = ensure_spec(st, "gum_sstr_base"@, gum_sstr_base_src());
        let st = ensure_spec(st, "gum_sstr_load"@ + kind_suffix_spec(tr), gum_sstr_load_src(tr));
        (st, "gum_sstr_load"@ + kind_suffix_spec(tr) + "("@ + slot + ")"@)
    } else if is_map_type_spec(v) {
        (st, slot)
    } else {
        (st, ld_op_spec(tr) + "("@ + slot + ")"@)
    }
}

impl<'a> Translator<'a> {
    pub(crate) fn fetch_map_value(&mut self, v: &Type, slot: &str, tr: bool) -> (r: String)
        ensures
            final(self).env() == old(self).env(),
            fetch_map_value_spec(
                old(self).env(),
                old(self).st(),
                v@,
                slot@,
                tr,
            ) == (final(self).st(), r@),
    {
        proof {
            reveal(fetch_map_value_spec);
        }
        if is_str_type(v) {
            self.ensure_helper("gum_sstr_base", gum_sstr_base_helper_src());
            self.ensure_helper(
                cat2("gum_sstr_load", kind_suffix(tr)).as_str(),
                gum_sstr_load_helper_src(tr),
            );
            return cat5("gum_sstr_load", kind_suffix(tr), "(", slot, ")");
        }
        if is_map_type(v) {
            return String::from_str(slot);
        }
        cat4(ld_op(tr), "(", slot, ")")
    }
}

/// `get` and `set` on a mapping.
#[verifier::opaque]
pub open spec fn map_call_spec(g: EnvV, st: StV, cx: CtxV, e: ExprV) -> (StV, Option<Seq<char>>)
    decreases e, 7nat,
{
    match e {
        ExprV::MethodCall { base, method, args } => {
            if !(method == "get"@ || method == "set"@) {
                (st, None)
            } else {
                match map_value_spec(static_type_spec(g, cx, *base)) {
                    Some(v) => {
                        let (st, found) = hashmap_base_slot_expr_spec(g, st, cx, *base);
                        match found {
                            Some(base_slot) => {
                                if args.len() == 0 {
                                    let st = error_spec(
                                        st,
                                        method + " on a mapping takes the key."@,
                                    );
                                    (st, Some(""@))
                                } else {
                                    let (st, key) = translate_at_spec(g, st, cx, args, 0usize);
                                    let slot = "gum_hash_slot("@ + key + ", "@ + base_slot + ")"@;
                                    let tr = hashmap_transient_spec(g, cx, *base);
                                    if method == "get"@ {
                                        let (st, value) = fetch_map_value_spec(g, st, v, slot, tr);
                                        (st, Some(value))
                                    } else if args.len() > 1 {
                                        let (st, val) = translate_at_spec(g, st, cx, args, 1usize);
                                        let (st, code) = store_map_value_spec(
                                            g,
                                            st,
                                            v,
                                            slot,
                                            val,
                                            tr,
                                        );
                                        (st, Some(code))
                                    } else {
                                        (st, None)
                                    }
                                }
                            },
                            None => (st, None),
                        }
                    },
                    None => (st, None),
                }
            }
        },
        _ => (st, None),
    }
}

impl<'a> Translator<'a> {
    pub(crate) fn map_call(&mut self, cx: &Ctx, e: &Expr) -> (r: Option<String>)
        ensures
            final(self).env() == old(self).env(),
            map_call_spec(
                old(self).env(),
                old(self).st(),
                cx@,
                e@,
            ) == (final(self).st(), opt_text(r)),
        decreases e, 7nat,
    {
        proof {
            reveal(map_call_spec);
            reveal_with_fuel(Expr::view, 2);
            reveal(hashmap_base_slot_expr_spec);
            reveal(translate_at_spec);
        }
        match e {
            Expr::MethodCall { base, method, args } => {
                if !(same(method.as_str(), "get") || same(method.as_str(), "set")) {
                    return None;
                }
                match map_value(&self.static_type(cx, base)) {
                    Some(v) => {
                        let found = self.hashmap_base_slot_expr(cx, base);
                        match found {
                            Some(base_slot) => {
                                if args.len() == 0 {
                                    self.note_error(
                                        cat2(method.as_str(), " on a mapping takes the key.")
                                    );
                                    return Some(String::from_str(""));
                                }
                                let key = self.translate_at(cx, args, 0);
                                let slot = cat5(
                                    "gum_hash_slot(",
                                    key.as_str(),
                                    ", ",
                                    base_slot.as_str(),
                                    ")",
                                );
                                let tr = self.hashmap_transient(cx, base);
                                if same(method.as_str(), "get") {
                                    let value = self.fetch_map_value(&v, slot.as_str(), tr);
                                    return Some(value);
                                }
                                if args.len() > 1 {
                                    let val = self.translate_at(cx, args, 1);
                                    let code = self.store_map_value(
                                        &v,
                                        slot.as_str(),
                                        val.as_str(),
                                        tr,
                                    );
                                    return Some(code);
                                }
                                None
                            },
                            None => None,
                        }
                    },
                    None => None,
                }
            },
            _ => None,
        }
    }
}

/// A method of an instance of a generic class.
#[verifier::opaque]
pub open spec fn generic_call_spec(
    g: EnvV,
    st: StV,
    cx: CtxV,
    e: ExprV,
) -> (StV, Option<Seq<char>>)
    decreases e, 7nat,
{
    match e {
        ExprV::MethodCall { base, method, args } => {
            match static_type_spec(g, cx, *base) {
                TypeV::Generic { name: class_name, args: type_args } => {
                    if !g.w.classes.contains_key(class_name) {
                        (st, None)
                    } else {
                        let suffix = generic_suffix_spec(type_args);
                        let (st, a) = args_spec(g, st, cx, args, args.len());
                        if contract_name(g.w, class_name) || !takes_self_spec(
                            g,
                            class_name,
                            method,
                        ) {
                            (
                                st,
                                Some(
                                    class_name
                                    + "_"@
                                    + suffix
                                    + "_"@
                                    + method
                                    + "("@
                                    + join_spec(a, ", "@)
                                    + ")"@
                                ),
                            )
                        } else {
                            let (st, s) = translate_expr_spec(g, st, cx, *base);
                            (
                                st,
                                Some(
                                    class_name
                                    + "_"@
                                    + suffix
                                    + "_"@
                                    + method
                                    + "("@
                                    + join_spec(seq![s] + a, ", "@)
                                    + ")"@
                                ),
                            )
                        }
                    }
                },
                _ => (st, None),
            }
        },
        _ => (st, None),
    }
}

impl<'a> Translator<'a> {
    pub(crate) fn generic_call(&mut self, cx: &Ctx, e: &Expr) -> (r: Option<String>)
        ensures
            final(self).env() == old(self).env(),
            generic_call_spec(
                old(self).env(),
                old(self).st(),
                cx@,
                e@,
            ) == (final(self).st(), opt_text(r)),
        decreases e, 7nat,
    {
        proof {
            reveal(generic_call_spec);
            reveal(translate_expr_spec);
        }
        match e {
            Expr::MethodCall { base, method, args } => {
                match &self.static_type(cx, base) {
                    Type::Generic { name: class_name, args: type_args } => {
                        if !self.layout_engine.type_checker.loaded_classes.has(
                            class_name.as_str()
                        ) {
                            return None;
                        }
                        let suffix = generic_suffix(type_args);
                        let a = self.translate_args(cx, args);
                        if is_contract_name(
                            self.layout_engine.type_checker,
                            class_name.as_str(),
                        ) || !self.takes_self(class_name.as_str(), method.as_str()) {
                            return Some(
                                cat8(
                                    class_name.as_str(),
                                    "_",
                                    suffix.as_str(),
                                    "_",
                                    method.as_str(),
                                    "(",
                                    join(&a, ", ").as_str(),
                                    ")",
                                )
                            );
                        }
                        let s = self.translate_expr(cx, base);
                        Some(
                            cat8(
                                class_name.as_str(),
                                "_",
                                suffix.as_str(),
                                "_",
                                method.as_str(),
                                "(",
                                join(&prepend(s, a), ", ").as_str(),
                                ")",
                            )
                        )
                    },
                    _ => None,
                }
            },
            _ => None,
        }
    }
}

/// A variant, with its payload.
#[verifier::opaque]
pub open spec fn variant_call_spec(
    g: EnvV,
    st: StV,
    cx: CtxV,
    e: ExprV,
) -> (StV, Option<Seq<char>>)
    decreases e, 7nat,
{
    match e {
        ExprV::MethodCall { base, method, args } => {
            match ident_name_spec(*base) {
                Some(name) => {
                    match variant_pos_spec(g, name, method) {
                        Some(idx) => {
                            if !has_payload(g.w, name) {
                                (st, Some(dec(idx as nat)))
                            } else if args.len() == 0 {
                                let st = ensure_spec(st, "make_enum"@, make_enum_src());
                                (st, Some("make_enum("@ + dec(idx as nat) + ", 0)"@))
                            } else {
                                let (st, payload) = translate_at_spec(g, st, cx, args, 0usize);
                                let st = ensure_spec(st, "make_enum"@, make_enum_src());
                                (st, Some("make_enum("@ + dec(idx as nat) + ", "@ + payload + ")"@))
                            }
                        },
                        None => (st, None),
                    }
                },
                None => (st, None),
            }
        },
        _ => (st, None),
    }
}

impl<'a> Translator<'a> {
    pub(crate) fn variant_call(&mut self, cx: &Ctx, e: &Expr) -> (r: Option<String>)
        ensures
            final(self).env() == old(self).env(),
            variant_call_spec(
                old(self).env(),
                old(self).st(),
                cx@,
                e@,
            ) == (final(self).st(), opt_text(r)),
        decreases e, 7nat,
    {
        proof {
            reveal(variant_call_spec);
            reveal_with_fuel(Expr::view, 2);
            reveal(translate_at_spec);
        }
        match e {
            Expr::MethodCall { base, method, args } => {
                match ident_name(base) {
                    Some(name) => {
                        match self.variant_pos(name.as_str(), method.as_str()) {
                            Some(idx) => {
                                if !self.layout_engine.type_checker.enum_has_payload(
                                    name.as_str()
                                ) {
                                    return Some(dec_text(idx));
                                }
                                if args.len() == 0 {
                                    self.ensure_helper("make_enum", make_enum_helper_src());
                                    return Some(cat3("make_enum(", dec_text(idx).as_str(), ", 0)"));
                                }
                                let payload = self.translate_at(cx, args, 0);
                                self.ensure_helper("make_enum", make_enum_helper_src());
                                Some(
                                    cat5(
                                        "make_enum(",
                                        dec_text(idx).as_str(),
                                        ", ",
                                        payload.as_str(),
                                        ")",
                                    )
                                )
                            },
                            None => None,
                        }
                    },
                    None => None,
                }
            },
            _ => None,
        }
    }
}

/// The interface through which `IName(address)` looks at an address.
pub open spec fn interface_cast_spec(g: EnvV, e: ExprV) -> Option<Seq<char>> {
    match e {
        ExprV::FnCall { name, args } => {
            if g.w.interfaces.contains(name) && args.len() == 1 {
                Some(name)
            } else {
                None
            }
        },
        _ => None,
    }
}

impl<'a> Translator<'a> {
    pub(crate) fn interface_cast(&self, e: &Expr) -> (r: Option<String>)
        ensures
            opt_text(r) == interface_cast_spec(self.env(), e@),
    {
        proof {
            reveal_with_fuel(Expr::view, 2);
        }
        match e {
            Expr::FnCall { name, args } => {
                if self.layout_engine.type_checker.loaded_interfaces.contains(
                    name.as_str()
                ) && args.len() == 1 {
                    return Some(name.clone());
                }
                None
            },
            _ => None,
        }
    }
}

#[verifier::opaque]
pub open spec fn cast_target_spec(g: EnvV, st: StV, cx: CtxV, e: ExprV) -> (StV, Seq<char>)
    decreases e, 7nat,
{
    match e {
        ExprV::FnCall { args, .. } => translate_at_spec(g, st, cx, args, 0usize),
        _ => (st, ""@),
    }
}

impl<'a> Translator<'a> {
    pub(crate) fn cast_target(&mut self, cx: &Ctx, e: &Expr) -> (r: String)
        ensures
            final(self).env() == old(self).env(),
            cast_target_spec(old(self).env(), old(self).st(), cx@, e@) == (final(self).st(), r@),
        decreases e, 7nat,
    {
        proof {
            reveal(cast_target_spec);
            reveal(translate_at_spec);
        }
        match e {
            Expr::FnCall { args, .. } => self.translate_at(cx, args, 0),
            _ => String::from_str(""),
        }
    }
}

/// A call of another contract through an interface.
#[verifier::opaque]
pub open spec fn interface_method_spec(
    g: EnvV,
    st: StV,
    cx: CtxV,
    e: ExprV,
) -> (StV, Option<Seq<char>>)
    decreases e, 7nat,
{
    match e {
        ExprV::MethodCall { base, method, args } => {
            match interface_cast_spec(g, *base) {
                Some(iface) => {
                    let (st, target) = cast_target_spec(g, st, cx, *base);
                    let (st, a) = args_spec(g, st, cx, args, args.len());
                    let (st, s) = extcall_wrapper_src_spec(
                        g,
                        st,
                        iface,
                        method,
                        seq![target] + a,
                        cx.try_ok_var is Some,
                    );
                    (st, Some(s))
                },
                None => (st, None),
            }
        },
        _ => (st, None),
    }
}

impl<'a> Translator<'a> {
    pub(crate) fn interface_method(&mut self, cx: &Ctx, e: &Expr) -> (r: Option<String>)
        ensures
            final(self).env() == old(self).env(),
            interface_method_spec(
                old(self).env(),
                old(self).st(),
                cx@,
                e@,
            ) == (final(self).st(), opt_text(r)),
        decreases e, 7nat,
    {
        proof {
            reveal(interface_method_spec);
            reveal(cast_target_spec);
        }
        match e {
            Expr::MethodCall { base, method, args } => {
                match self.interface_cast(base) {
                    Some(iface) => {
                        let target = self.cast_target(cx, base);
                        let a = self.translate_args(cx, args);
                        let s = self.extcall_wrapper_src(
                            iface.as_str(),
                            method.as_str(),
                            &prepend(target, a),
                            cx.try_ok_var.is_some(),
                        );
                        Some(s)
                    },
                    None => None,
                }
            },
            _ => None,
        }
    }
}

/// Whether an expression is the name of a class.
pub open spec fn bare_class_spec(g: EnvV, e: ExprV) -> bool {
    match e {
        ExprV::Identifier(n) => g.w.classes.contains_key(n),
        _ => false,
    }
}

impl<'a> Translator<'a> {
    pub(crate) fn bare_class(&self, e: &Expr) -> (r: bool)
        ensures
            r == bare_class_spec(self.env(), e@),
    {
        match e {
            Expr::Identifier(n) => self.layout_engine.type_checker.loaded_classes.has(n.as_str()),
            _ => false,
        }
    }
}

/// The class of a value, where it is not an interface.
pub open spec fn class_of_value_spec(g: EnvV, cx: CtxV, e: ExprV) -> Option<Seq<char>> {
    match static_type_spec(g, cx, e) {
        TypeV::Primitive(n) => {
            if g.w.classes.contains_key(n) && !g.w.interfaces.contains(n) {
                Some(n)
            } else {
                None
            }
        },
        _ => None,
    }
}

impl<'a> Translator<'a> {
    pub(crate) fn class_of_value(&self, cx: &Ctx, e: &Expr) -> (r: Option<String>)
        ensures
            opt_text(r) == class_of_value_spec(self.env(), cx@, e@),
    {
        match &self.static_type(cx, e) {
            Type::Primitive(n) => {
                if self.layout_engine.type_checker.loaded_classes.has(
                    n.as_str()
                ) && !self.layout_engine.type_checker.loaded_interfaces.contains(n.as_str()) {
                    return Some(n.clone());
                }
                None
            },
            _ => None,
        }
    }
}

/// A method of a class.
#[verifier::opaque]
pub open spec fn class_call_spec(g: EnvV, st: StV, cx: CtxV, e: ExprV) -> (StV, Option<Seq<char>>)
    decreases e, 7nat,
{
    match e {
        ExprV::MethodCall { base, method, args } => {
            match class_of_value_spec(g, cx, *base) {
                Some(class_name) => {
                    if method == "serialize"@ && is_parent_spec(g, class_name, "Serializable"@) {
                        let (st, s) = translate_expr_spec(g, st, cx, *base);
                        (st, Some(class_name + "_serialize("@ + s + ")"@))
                    } else {
                        let (st, a) = args_spec(g, st, cx, args, args.len());
                        let bare = bare_class_spec(g, *base);
                        if contract_name(g.w, class_name) || (
                            bare
                            && (class_name == "Message"@ || class_name == "Block"@)
                        ) {
                            (
                                st,
                                Some(
                                    class_name
                                    + "_"@
                                    + method
                                    + "("@
                                    + join_spec(a, ", "@)
                                    + ")"@
                                ),
                            )
                        } else if !takes_self_spec(g, class_name, method) {
                            if method_of_spec(g, class_name, method) is None {
                                let st = error_spec(
                                    st,
                                    "'"@ + class_name + "."@ + method + "()' is not a method of '"@ + class_name + "'."@,
                                );
                                (st, Some(""@))
                            } else {
                                (
                                    st,
                                    Some(
                                        class_name
                                        + "_"@
                                        + method
                                        + "("@
                                        + join_spec(a, ", "@)
                                        + ")"@
                                    ),
                                )
                            }
                        } else if bare {
                            let (st, c) = translate_construction_spec(
                                g,
                                st,
                                cx,
                                TypeV::Primitive(class_name),
                                args,
                                method,
                            );
                            (st, Some(c))
                        } else {
                            let (st, s) = translate_expr_spec(g, st, cx, *base);
                            (
                                st,
                                Some(
                                    class_name
                                    + "_"@
                                    + method
                                    + "("@
                                    + join_spec(seq![s] + a, ", "@)
                                    + ")"@
                                ),
                            )
                        }
                    }
                },
                None => (st, None),
            }
        },
        _ => (st, None),
    }
}

impl<'a> Translator<'a> {
    pub(crate) fn class_call(&mut self, cx: &Ctx, e: &Expr) -> (r: Option<String>)
        ensures
            final(self).env() == old(self).env(),
            class_call_spec(
                old(self).env(),
                old(self).st(),
                cx@,
                e@,
            ) == (final(self).st(), opt_text(r)),
        decreases e, 7nat,
    {
        proof {
            reveal(class_call_spec);
            reveal(translate_expr_spec);
            reveal(translate_construction_spec);
        }
        match e {
            Expr::MethodCall { base, method, args } => {
                match self.class_of_value(cx, base) {
                    Some(class_name) => {
                        if same(method.as_str(), "serialize") && self.is_parent(
                            class_name.as_str(),
                            "Serializable",
                        ) {
                            let s = self.translate_expr(cx, base);
                            return Some(cat4(class_name.as_str(), "_serialize(", s.as_str(), ")"));
                        }
                        let a = self.translate_args(cx, args);
                        let bare = self.bare_class(base);
                        if is_contract_name(self.layout_engine.type_checker, class_name.as_str()) || (
                            bare
                            && (
                                same(class_name.as_str(), "Message")
                                || same(class_name.as_str(), "Block")
                            )
                        ) {
                            return Some(
                                cat6(
                                    class_name.as_str(),
                                    "_",
                                    method.as_str(),
                                    "(",
                                    join(&a, ", ").as_str(),
                                    ")",
                                )
                            );
                        }
                        if !self.takes_self(class_name.as_str(), method.as_str()) {
                            if self.method_of(class_name.as_str(), method.as_str()).is_none() {
                                self.note_error(
                                    cat7(
                                        "'",
                                        class_name.as_str(),
                                        ".",
                                        method.as_str(),
                                        "()' is not a method of '",
                                        class_name.as_str(),
                                        "'.",
                                    )
                                );
                                return Some(String::from_str(""));
                            }
                            return Some(
                                cat6(
                                    class_name.as_str(),
                                    "_",
                                    method.as_str(),
                                    "(",
                                    join(&a, ", ").as_str(),
                                    ")",
                                )
                            );
                        }
                        if bare {
                            let c = self.translate_construction(
                                cx,
                                &Type::Primitive(class_name),
                                args,
                                method.as_str(),
                            );
                            return Some(c);
                        }
                        let s = self.translate_expr(cx, base);
                        Some(
                            cat6(
                                class_name.as_str(),
                                "_",
                                method.as_str(),
                                "(",
                                join(&prepend(s, a), ", ").as_str(),
                                ")",
                            )
                        )
                    },
                    None => None,
                }
            },
            _ => None,
        }
    }
}

#[verifier::opaque]
pub open spec fn translate_method_call_spec(
    g: EnvV,
    st: StV,
    cx: CtxV,
    e: ExprV,
) -> (StV, Seq<char>)
    decreases e, 8nat,
{
    match e {
        ExprV::MethodCall { base, method, args } => {
            if is_ident_spec(*base, "super"@) {
                translate_super_call_spec(g, st, cx, method, args)
            } else {
                let (st, found) = ancestor_call_spec(g, st, cx, e);
                match found {
                    Some(s) => (st, s),
                    None => {
                        let (st, found) = numeric_call_spec(g, st, cx, e);
                        match found {
                            Some(s) => (st, s),
                            None => {
                                let (st, found) = string_call_spec(g, st, cx, e);
                                match found {
                                    Some(s) => (st, s),
                                    None => {
                                        let (st, found) = account_call_spec(g, st, cx, e);
                                        match found {
                                            Some(s) => (st, s),
                                            None => {
                                                let (st, found) = namespace_call_spec(g, st, cx, e);
                                                match found {
                                                    Some(s) => (st, s),
                                                    None => {
                                                        let (st, found) = array_read_call_spec(
                                                            g,
                                                            st,
                                                            cx,
                                                            e,
                                                        );
                                                        match found {
                                                            Some(s) => (st, s),
                                                            None => {
                                                                let (st, found) = array_write_call_spec(
                                                                    g,
                                                                    st,
                                                                    cx,
                                                                    e,
                                                                );
                                                                match found {
                                                                    Some(s) => (st, s),
                                                                    None => {
                                                                        let (st, found) = map_call_spec(
                                                                            g,
                                                                            st,
                                                                            cx,
                                                                            e,
                                                                        );
                                                                        match found {
                                                                            Some(s) => (st, s),
                                                                            None => {
                                                                                let (st, found) = generic_call_spec(
                                                                                    g,
                                                                                    st,
                                                                                    cx,
                                                                                    e,
                                                                                );
                                                                                match found {
                                                                                    Some(s) => (
                                                                                        st,
                                                                                        s,
                                                                                    ),
                                                                                    None => {
                                                                                        let (st, found) = variant_call_spec(
                                                                                            g,
                                                                                            st,
                                                                                            cx,
                                                                                            e,
                                                                                        );
                                                                                        match found {
                                                                                            Some(s) => (
                                                                                                st,
                                                                                                s,
                                                                                            ),
                                                                                            None => {
                                                                                                let (st, found) = interface_method_spec(
                                                                                                    g,
                                                                                                    st,
                                                                                                    cx,
                                                                                                    e,
                                                                                                );
                                                                                                match found {
                                                                                                    Some(s) => (
                                                                                                        st,
                                                                                                        s,
                                                                                                    ),
                                                                                                    None => {
                                                                                                        let (st, found) = class_call_spec(
                                                                                                            g,
                                                                                                            st,
                                                                                                            cx,
                                                                                                            e,
                                                                                                        );
                                                                                                        match found {
                                                                                                            Some(s) => (
                                                                                                                st,
                                                                                                                s,
                                                                                                            ),
                                                                                                            None => {
                                                                                                                let (st, b) = translate_expr_spec(
                                                                                                                    g,
                                                                                                                    st,
                                                                                                                    cx,
                                                                                                                    *base,
                                                                                                                );
                                                                                                                let (st, a) = args_spec(
                                                                                                                    g,
                                                                                                                    st,
                                                                                                                    cx,
                                                                                                                    args,
                                                                                                                    args.len(),
                                                                                                                );
                                                                                                                (
                                                                                                                    st,
                                                                                                                    b + "_"@ + method + "("@ + join_spec(
                                                                                                                        a,
                                                                                                                        ", "@,
                                                                                                                    ) + ")"@,
                                                                                                                )
                                                                                                            },
                                                                                                        }
                                                                                                    },
                                                                                                }
                                                                                            },
                                                                                        }
                                                                                    },
                                                                                }
                                                                            },
                                                                        }
                                                                    },
                                                                }
                                                            },
                                                        }
                                                    },
                                                }
                                            },
                                        }
                                    },
                                }
                            },
                        }
                    },
                }
            }
        },
        _ => (st, ""@),
    }
}

impl<'a> Translator<'a> {
    pub(crate) fn translate_method_call(&mut self, cx: &Ctx, e: &Expr) -> (r: String)
        ensures
            final(self).env() == old(self).env(),
            translate_method_call_spec(
                old(self).env(),
                old(self).st(),
                cx@,
                e@,
            ) == (final(self).st(), r@),
        decreases e, 8nat,
    {
        proof {
            reveal(translate_method_call_spec);
            reveal(ancestor_call_spec);
            reveal(numeric_call_spec);
            reveal(string_call_spec);
            reveal(account_call_spec);
            reveal(namespace_call_spec);
            reveal(array_read_call_spec);
            reveal(array_write_call_spec);
            reveal(map_call_spec);
            reveal(generic_call_spec);
            reveal(variant_call_spec);
            reveal(interface_method_spec);
            reveal(class_call_spec);
            reveal(translate_expr_spec);
            reveal(translate_super_call_spec);
        }
        match e {
            Expr::MethodCall { base, method, args } => {
                if is_ident(base, "super") {
                    return self.translate_super_call(cx, method.as_str(), args);
                }
                let found = self.ancestor_call(cx, e);
                match found {
                    Some(s) => {
                        return s;
                    },
                    None => {},
                }
                let found = self.numeric_call(cx, e);
                match found {
                    Some(s) => {
                        return s;
                    },
                    None => {},
                }
                let found = self.string_call(cx, e);
                match found {
                    Some(s) => {
                        return s;
                    },
                    None => {},
                }
                let found = self.account_call(cx, e);
                match found {
                    Some(s) => {
                        return s;
                    },
                    None => {},
                }
                let found = self.namespace_call(cx, e);
                match found {
                    Some(s) => {
                        return s;
                    },
                    None => {},
                }
                let found = self.array_read_call(cx, e);
                match found {
                    Some(s) => {
                        return s;
                    },
                    None => {},
                }
                let found = self.array_write_call(cx, e);
                match found {
                    Some(s) => {
                        return s;
                    },
                    None => {},
                }
                let found = self.map_call(cx, e);
                match found {
                    Some(s) => {
                        return s;
                    },
                    None => {},
                }
                let found = self.generic_call(cx, e);
                match found {
                    Some(s) => {
                        return s;
                    },
                    None => {},
                }
                let found = self.variant_call(cx, e);
                match found {
                    Some(s) => {
                        return s;
                    },
                    None => {},
                }
                let found = self.interface_method(cx, e);
                match found {
                    Some(s) => {
                        return s;
                    },
                    None => {},
                }
                let found = self.class_call(cx, e);
                match found {
                    Some(s) => {
                        return s;
                    },
                    None => {},
                }
                let b = self.translate_expr(cx, base);
                let a = self.translate_args(cx, args);
                cat6(b.as_str(), "_", method.as_str(), "(", join(&a, ", ").as_str(), ")")
            },
            _ => String::from_str(""),
        }
    }
}

/// Adds the sizes of the first `n` packed arguments.
pub open spec fn packed_sizes(ts: Seq<TypeV>, n: nat) -> Seq<char>
    decreases n,
{
    if n == 0 {
        Seq::empty()
    } else {
        packed_sizes(ts, (n - 1) as nat) + (match packed_width_spec(ts[n - 1]) {
            Some(w) => "    plen := add(plen, "@ + dec(w as nat) + ")\n"@,
            None => "    plen := add(plen, gum_str_len(a"@ + dec((n - 1) as nat) + "))\n"@,
        })
    }
}

/// Writes the first `n` packed arguments one behind the other.
pub open spec fn packed_writes(ts: Seq<TypeV>, n: nat) -> Seq<char>
    decreases n,
{
    if n == 0 {
        Seq::empty()
    } else {
        let i = dec((n - 1) as nat);
        packed_writes(ts, (n - 1) as nat) + (match packed_width_spec(ts[n - 1]) {
            Some(w) => (if w >= 32 {
                "    mstore(cur, a"@ + i + ")\n"@
            } else {
                "    mstore(cur, shl("@ + dec(((32 - w) * 8) as nat) + ", a"@ + i + "))\n"@
            }) + "    cur := add(cur, "@ + dec(w as nat) + ")\n"@,
            None => "    let n"@ + i + " := gum_str_len(a"@ + i + ")\n    gum_memory_copy(add(a"@ + i
                + ", 32), cur, n"@ + i + ")\n    cur := add(cur, n"@ + i + ")\n"@,
        })
    }
}

/// A function that packs its arguments tightly.
pub open spec fn packed_src(name: Seq<char>, ts: Seq<TypeV>) -> Seq<char> {
    "function "@ + name + "("@ + join_spec(numbered("a"@, ts.len()), ", "@)
        + ") -> ptr {\n    let plen := 0\n"@ + packed_sizes(ts, ts.len())
        + "    ptr := allocate_memory(add(64, plen))\n    mstore(ptr, shl(192, plen))\n    let cur := add(ptr, 32)\n"@
        + packed_writes(ts, ts.len()) + "}\n"@
}

fn packed_text(name: &str, ts: &Vec<Type>) -> (r: String)
    ensures
        r@ == packed_src(name@, types_v(ts@)),
{
    let ghost tv = types_v(ts@);
    let mut sizes = String::new();
    let mut writes = String::new();
    let mut i: usize = 0;
    while i < ts.len()
        invariant
            i <= ts@.len(),
            tv == types_v(ts@),
            sizes@ == packed_sizes(tv, i as nat),
            writes@ == packed_writes(tv, i as nat),
        decreases ts@.len() - i,
    {
        assert(tv[i as int] == ts@[i as int]@);
        let n = dec_text(i);
        match packed_width(&ts[i]) {
            Some(w) => {
                sizes.append(cat3("    plen := add(plen, ", dec_text(w).as_str(), ")\n").as_str());
                let store = if w >= 32 {
                    cat3("    mstore(cur, a", n.as_str(), ")\n")
                } else {
                    cat5(
                        "    mstore(cur, shl(",
                        dec_text((32 - w) * 8).as_str(),
                        ", a",
                        n.as_str(),
                        "))\n",
                    )
                };
                writes.append(
                    cat4(
                        store.as_str(),
                        "    cur := add(cur, ",
                        dec_text(w).as_str(),
                        ")\n",
                    ).as_str(),
                );
            },
            None => {
                sizes.append(
                    cat3("    plen := add(plen, gum_str_len(a", n.as_str(), "))\n").as_str(),
                );
                let copy = cat9(
                    "    let n",
                    n.as_str(),
                    " := gum_str_len(a",
                    n.as_str(),
                    ")\n    gum_memory_copy(add(a",
                    n.as_str(),
                    ", 32), cur, n",
                    n.as_str(),
                    ")\n    cur := add(cur, n",
                );
                writes.append(cat3(copy.as_str(), n.as_str(), ")\n").as_str());
            },
        }
        i += 1;
    }
    let params = join(&numbered_names("a", ts.len()), ", ");
    cat9(
        "function ",
        name,
        "(",
        params.as_str(),
        ") -> ptr {\n    let plen := 0\n",
        sizes.as_str(),
        "    ptr := allocate_memory(add(64, plen))\n    mstore(ptr, shl(192, plen))\n    let cur := add(ptr, 32)\n",
        writes.as_str(),
        "}\n",
    )
}

/// `Abi.encode` and `Abi.encode_packed`: a function that encodes its
/// arguments into a byte string.
#[verifier::opaque]
pub open spec fn translate_abi_encode_spec(
    g: EnvV,
    st: StV,
    cx: CtxV,
    packed: bool,
    args: Seq<ExprV>,
) -> (StV, Seq<char>)
    decreases args, args.len() + 1,
{
    let types = static_types_spec(g, cx, args);
    let (st, a) = args_spec(g, st, cx, args, args.len());
    let (st, id) = next_spec(st);
    if packed {
        let fn_name = "__abi_encode_packed_"@ + dec(id as nat);
        let st = ensure_spec(st, "gum_str_len"@, gum_str_len_src());
        let st = ensure_spec(st, fn_name, packed_src(fn_name, types));
        (st, fn_name + "("@ + join_spec(a, ", "@) + ")"@)
    } else {
        let fn_name = "__abi_encode_"@ + dec(id as nat);
        let (st, pair) = blob_spec(g, st, types);
        let size_src = pair.0;
        let write_src = pair.1;
        let params = join_spec(numbered("a"@, args.len() as usize as nat), ", "@);
        let st = ensure_spec(
            st,
            fn_name,
            "function "@ + fn_name + "("@ + params + ") -> ptr {\n"@ + size_src + "    ptr := allocate_memory(add(32, alen))\n    mstore(ptr, shl(192, alen))\n    let blob := add(ptr, 32)\n"@ + write_src + "}\n"@,
        );
        (st, fn_name + "("@ + join_spec(a, ", "@) + ")"@)
    }
}

impl<'a> Translator<'a> {
    pub(crate) fn translate_abi_encode(
        &mut self,
        cx: &Ctx,
        packed: bool,
        args: &Vec<Expr>,
    ) -> (r: String)
        ensures
            final(self).env() == old(self).env(),
            translate_abi_encode_spec(
                old(self).env(),
                old(self).st(),
                cx@,
                packed,
                exprs_v(args@),
            ) == (final(self).st(), r@),
        decreases args, 1nat,
    {
        proof {
            reveal(translate_abi_encode_spec);
        }
        let types = self.static_types(cx, args);
        let a = self.translate_args(cx, args);
        let id = self.next_literal_id();
        if packed {
            let fn_name = cat2("__abi_encode_packed_", dec_text(id).as_str());
            self.ensure_helper("gum_str_len", gum_str_len_helper_src());
            self.ensure_helper(fn_name.as_str(), packed_text(fn_name.as_str(), &types));
            return cat4(fn_name.as_str(), "(", join(&a, ", ").as_str(), ")");
        }
        let fn_name = cat2("__abi_encode_", dec_text(id).as_str());
        let (size_src, write_src) = self.abi_arg_blob_src(&types);
        let params = join(&numbered_names("a", args.len()), ", ");
        self.ensure_helper(
            fn_name.as_str(),
            cat9(
                "function ",
                fn_name.as_str(),
                "(",
                params.as_str(),
                ") -> ptr {\n",
                size_src.as_str(),
                "    ptr := allocate_memory(add(32, alen))\n    mstore(ptr, shl(192, alen))\n    let blob := add(ptr, 32)\n",
                write_src.as_str(),
                "}\n",
            ),
        );
        cat4(fn_name.as_str(), "(", join(&a, ", ").as_str(), ")")
    }
}

} // verus!
