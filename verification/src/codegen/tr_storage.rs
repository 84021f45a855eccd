//! Storage: which slot an expression stands for, in fields, mappings, arrays and
//! structs.
use crate::ast::{opt_type_v, Expr, ExprV, Type, TypeV};
use crate::codegen::helpers::{
    arr_data_base_helper_src, arr_data_base_src, pk_get_helper_src, pk_get_src,
    pk_read_helper_src, pk_read_src, pk_set_helper_src, pk_set_src, pk_write_helper_src,
    pk_write_src, sarr_base_helper_src, sarr_base_src, sarr_to_mem_helper_src, sarr_to_mem_src,
};
use crate::codegen::layout::{field_in, size_spec};
use crate::codegen::packing::StorageField;
use crate::codegen::tr_expr::{translate_at_spec, translate_expr_spec};
use crate::codegen::tr_types::{ident_name, ident_name_spec, static_type_spec};
use crate::codegen::translator::{
    any_self_spec, ensure_spec, global_self_spec, Ctx, CtxV, EnvV, StV, Translator,
};
use crate::codegen::yul::{
    at_least_one, elem_slots_spec, is_struct_type, kind_suffix, kind_suffix_spec, ld_op,
    ld_op_spec, max_one, opt_text, pack_params, pack_spec, struct_elem_slots, struct_type,
};
use crate::text::{cat2, cat3, cat4, cat5, cat7, cat9, dec, dec_text, same};
use vstd::prelude::*;

verus! {

broadcast use crate::ast::group_views;

/// The contract whose storage a bare name stands for.
pub open spec fn storage_class_spec(g: EnvV, cx: CtxV, name: Seq<char>) -> Option<Seq<char>> {
    if name == "self"@ {
        global_self_spec(cx)
    } else {
        Some(name)
    }
}

impl<'a> Translator<'a> {
    pub(crate) fn storage_class(&self, cx: &Ctx, name: &str) -> (r: Option<String>)
        ensures
            opt_text(r) == storage_class_spec(self.env(), cx@, name@),
    {
        if same(name, "self") {
            cx.global_self()
        } else {
            Some(String::from_str(name))
        }
    }
}

/// The storage field that an expression is: its contract, its name, its place.
pub open spec fn resolve_storage_field_named_spec(
    g: EnvV,
    cx: CtxV,
    e: ExprV,
) -> Option<(Seq<char>, Seq<char>, StorageField)> {
    match e {
        ExprV::PropertyAccess { base, property } => {
            match ident_name_spec(*base) {
                Some(n) => {
                    match storage_class_spec(g, cx, n) {
                        Some(c) => {
                            match field_in(g.lay.storage, c, property) {
                                Some(sf) => Some((c, property, sf)),
                                None => None,
                            }
                        },
                        None => None,
                    }
                },
                None => None,
            }
        },
        _ => None,
    }
}

impl<'a> Translator<'a> {
    pub(crate) fn resolve_storage_field_named(
        &self,
        cx: &Ctx,
        e: &Expr,
    ) -> (r: Option<(String, String, StorageField)>)
        ensures
            (
                match r { Some(x) => Some((x.0@, x.1@, x.2)), None => None }
            ) == resolve_storage_field_named_spec(self.env(), cx@, e@),
    {
        match e {
            Expr::PropertyAccess { base, property } => {
                match ident_name(base) {
                    Some(n) => {
                        match self.storage_class(cx, n.as_str()) {
                            Some(c) => {
                                match self.layout_engine.storage_field(
                                    c.as_str(),
                                    property.as_str(),
                                ) {
                                    Some(sf) => Some((c, property.clone(), sf)),
                                    None => None,
                                }
                            },
                            None => None,
                        }
                    },
                    None => None,
                }
            },
            _ => None,
        }
    }
}

pub open spec fn resolve_storage_field_spec(g: EnvV, cx: CtxV, e: ExprV) -> Option<StorageField> {
    match resolve_storage_field_named_spec(g, cx, e) {
        Some((_, _, sf)) => Some(sf),
        None => None,
    }
}

impl<'a> Translator<'a> {
    pub(crate) fn resolve_storage_field(&self, cx: &Ctx, e: &Expr) -> (r: Option<StorageField>)
        ensures
            r == resolve_storage_field_spec(self.env(), cx@, e@),
    {
        match self.resolve_storage_field_named(cx, e) {
            Some((_, _, sf)) => Some(sf),
            None => None,
        }
    }
}

/// Whether a mapping lives in transient storage.
pub open spec fn hashmap_transient_spec(g: EnvV, cx: CtxV, e: ExprV) -> bool
    decreases e,
{
    match e {
        ExprV::PropertyAccess { .. } => {
            match resolve_storage_field_spec(g, cx, e) {
                Some(sf) => sf.is_transient,
                None => false,
            }
        },
        ExprV::MethodCall { base, method, args } => {
            if method == "get"@ && args.len() > 0 {
                hashmap_transient_spec(g, cx, *base)
            } else {
                false
            }
        },
        ExprV::IndexAccess { base, .. } => hashmap_transient_spec(g, cx, *base),
        _ => false,
    }
}

impl<'a> Translator<'a> {
    pub(crate) fn hashmap_transient(&self, cx: &Ctx, e: &Expr) -> (r: bool)
        ensures
            r == hashmap_transient_spec(self.env(), cx@, e@),
        decreases e,
    {
        proof {
            reveal_with_fuel(Expr::view, 2);
        }
        match e {
            Expr::PropertyAccess { .. } => {
                match self.resolve_storage_field(cx, e) {
                    Some(sf) => sf.is_transient,
                    None => false,
                }
            },
            Expr::MethodCall { base, method, args } => {
                if same(method.as_str(), "get") && args.len() > 0 {
                    return self.hashmap_transient(cx, base);
                }
                false
            },
            Expr::IndexAccess { base, .. } => self.hashmap_transient(cx, base),
            _ => false,
        }
    }
}

/// What a mapping maps to.
pub open spec fn map_value_spec(t: TypeV) -> Option<TypeV> {
    match t {
        TypeV::Generic { name, args } => {
            if name == "HashMap"@ && args.len() == 2 {
                Some(args[1])
            } else {
                None
            }
        },
        _ => None,
    }
}

pub(crate) fn map_value(t: &Type) -> (r: Option<Type>)
    ensures
        opt_type_v(r) == map_value_spec(t@),
{
    proof {
        reveal_with_fuel(Type::view, 2);
    }
    match t {
        Type::Generic { name, args } => {
            if same(name.as_str(), "HashMap") && args.len() == 2 {
                return Some(args[1].clone());
            }
            None
        },
        _ => None,
    }
}

/// The slot of a mapping: of the field itself, or of a mapping inside it.
#[verifier::opaque]
pub open spec fn hashmap_base_slot_expr_spec(
    g: EnvV,
    st: StV,
    cx: CtxV,
    e: ExprV,
) -> (StV, Option<Seq<char>>)
    decreases e, 3nat,
{
    match resolve_storage_field_spec(g, cx, e) {
        Some(sf) => (st, Some(dec(sf.slot as nat))),
        None => {
            match e {
                ExprV::MethodCall { base, method, args } => {
                    if method == "get"@ && args.len() > 0 && map_value_spec(
                        static_type_spec(g, cx, *base)
                    ) is Some {
                        let (st, found) = hashmap_base_slot_expr_spec(g, st, cx, *base);
                        match found {
                            Some(inner) => {
                                let (st, key) = translate_at_spec(g, st, cx, args, 0usize);
                                (st, Some("gum_hash_slot("@ + key + ", "@ + inner + ")"@))
                            },
                            None => (st, None),
                        }
                    } else {
                        (st, None)
                    }
                },
                ExprV::IndexAccess { base, index } => {
                    if map_value_spec(static_type_spec(g, cx, *base)) is Some {
                        let (st, found) = hashmap_base_slot_expr_spec(g, st, cx, *base);
                        match found {
                            Some(inner) => {
                                let (st, key) = translate_expr_spec(g, st, cx, *index);
                                (st, Some("gum_hash_slot("@ + key + ", "@ + inner + ")"@))
                            },
                            None => (st, None),
                        }
                    } else {
                        (st, None)
                    }
                },
                _ => (st, None),
            }
        },
    }
}

impl<'a> Translator<'a> {
    pub(crate) fn hashmap_base_slot_expr(&mut self, cx: &Ctx, e: &Expr) -> (r: Option<String>)
        ensures
            final(self).env() == old(self).env(),
            hashmap_base_slot_expr_spec(
                old(self).env(),
                old(self).st(),
                cx@,
                e@,
            ) == (final(self).st(), opt_text(r)),
        decreases e, 3nat,
    {
        proof {
            reveal(hashmap_base_slot_expr_spec);
            reveal_with_fuel(Expr::view, 2);
            reveal(translate_at_spec);
            reveal(translate_expr_spec);
        }
        match self.resolve_storage_field(cx, e) {
            Some(sf) => {
                return Some(dec_text(sf.slot));
            },
            None => {},
        }
        match e {
            Expr::MethodCall { base, method, args } => {
                if same(method.as_str(), "get") && args.len() > 0 && map_value(
                    &self.static_type(cx, base)
                ).is_some() {
                    let found = self.hashmap_base_slot_expr(cx, base);
                    match found {
                        Some(inner) => {
                            let key = self.translate_at(cx, args, 0);
                            return Some(
                                cat5("gum_hash_slot(", key.as_str(), ", ", inner.as_str(), ")")
                            );
                        },
                        None => {
                            return None;
                        },
                    }
                }
                None
            },
            Expr::IndexAccess { base, index } => {
                if map_value(&self.static_type(cx, base)).is_some() {
                    let found = self.hashmap_base_slot_expr(cx, base);
                    match found {
                        Some(inner) => {
                            let key = self.translate_expr(cx, index);
                            return Some(
                                cat5("gum_hash_slot(", key.as_str(), ", ", inner.as_str(), ")")
                            );
                        },
                        None => {
                            return None;
                        },
                    }
                }
                None
            },
            _ => None,
        }
    }
}

/// The slot of an entry of a mapping, its type, and whether it is transient.
#[verifier::opaque]
pub open spec fn hashmap_entry_slot_spec(
    g: EnvV,
    st: StV,
    cx: CtxV,
    e: ExprV,
) -> (StV, Option<(Seq<char>, TypeV, bool)>)
    decreases e, 3nat,
{
    match e {
        ExprV::IndexAccess { base, index } => {
            match map_value_spec(static_type_spec(g, cx, *base)) {
                Some(v) => {
                    let (st, found) = hashmap_base_slot_expr_spec(g, st, cx, *base);
                    match found {
                        Some(slot) => {
                            let (st, key) = translate_expr_spec(g, st, cx, *index);
                            (
                                st,
                                Some(
                                    (
                                        "gum_hash_slot("@ + key + ", "@ + slot + ")"@,
                                        v,
                                        hashmap_transient_spec(g, cx, *base),
                                    )
                                ),
                            )
                        },
                        None => (st, None),
                    }
                },
                None => (st, None),
            }
        },
        ExprV::MethodCall { base, method, args } => {
            if method == "get"@ && args.len() > 0 {
                match map_value_spec(static_type_spec(g, cx, *base)) {
                    Some(v) => {
                        let (st, found) = hashmap_base_slot_expr_spec(g, st, cx, *base);
                        match found {
                            Some(slot) => {
                                let (st, key) = translate_at_spec(g, st, cx, args, 0usize);
                                (
                                    st,
                                    Some(
                                        (
                                            "gum_hash_slot("@ + key + ", "@ + slot + ")"@,
                                            v,
                                            hashmap_transient_spec(g, cx, *base),
                                        )
                                    ),
                                )
                            },
                            None => (st, None),
                        }
                    },
                    None => (st, None),
                }
            } else {
                (st, None)
            }
        },
        _ => (st, None),
    }
}

impl<'a> Translator<'a> {
    pub(crate) fn hashmap_entry_slot(
        &mut self,
        cx: &Ctx,
        e: &Expr,
    ) -> (r: Option<(String, Type, bool)>)
        ensures
            final(self).env() == old(self).env(),
            hashmap_entry_slot_spec(old(self).env(), old(self).st(), cx@, e@) == (
                final(self).st(),
                (match r { Some(x) => Some((x.0@, x.1@, x.2)), None => None }),
            ),
        decreases e, 3nat,
    {
        proof {
            reveal(hashmap_entry_slot_spec);
            reveal_with_fuel(Expr::view, 2);
            reveal(hashmap_base_slot_expr_spec);
            reveal(translate_expr_spec);
            reveal(translate_at_spec);
        }
        match e {
            Expr::IndexAccess { base, index } => {
                match map_value(&self.static_type(cx, base)) {
                    Some(v) => {
                        let found = self.hashmap_base_slot_expr(cx, base);
                        match found {
                            Some(slot) => {
                                let key = self.translate_expr(cx, index);
                                Some(
                                    (
                                        cat5(
                                            "gum_hash_slot(",
                                            key.as_str(),
                                            ", ",
                                            slot.as_str(),
                                            ")",
                                        ),
                                        v,
                                        self.hashmap_transient(cx, base),
                                    )
                                )
                            },
                            None => None,
                        }
                    },
                    None => None,
                }
            },
            Expr::MethodCall { base, method, args } => {
                if same(method.as_str(), "get") && args.len() > 0 {
                    match map_value(&self.static_type(cx, base)) {
                        Some(v) => {
                            let found = self.hashmap_base_slot_expr(cx, base);
                            match found {
                                Some(slot) => {
                                    let key = self.translate_at(cx, args, 0);
                                    return Some(
                                        (
                                            cat5(
                                                "gum_hash_slot(",
                                                key.as_str(),
                                                ", ",
                                                slot.as_str(),
                                                ")",
                                            ),
                                            v,
                                            self.hashmap_transient(cx, base),
                                        )
                                    );
                                },
                                None => {
                                    return None;
                                },
                            }
                        },
                        None => {
                            return None;
                        },
                    }
                }
                None
            },
            _ => None,
        }
    }
}

/// The slot, the element size and the kind of a storage field that is a
/// dynamic array.
pub open spec fn storage_dyn_array_spec(
    g: EnvV,
    cx: CtxV,
    e: ExprV,
) -> Option<(usize, usize, bool)> {
    match resolve_storage_field_spec(g, cx, e) {
        Some(sf) => {
            match static_type_spec(g, cx, e) {
                TypeV::Array(inner) => Some(
                    (sf.slot, size_spec(g.w, g.lay.sizes, *inner), sf.is_transient)
                ),
                _ => None,
            }
        },
        None => None,
    }
}

impl<'a> Translator<'a> {
    pub(crate) fn storage_dyn_array(
        &self,
        cx: &Ctx,
        e: &Expr,
    ) -> (r: Option<(usize, usize, bool)>)
        ensures
            r == storage_dyn_array_spec(self.env(), cx@, e@),
    {
        match self.resolve_storage_field(cx, e) {
            Some(sf) => {
                match &self.static_type(cx, e) {
                    Type::Array(inner) => Some(
                        (sf.slot, self.layout_engine.size_of(inner), sf.is_transient)
                    ),
                    _ => None,
                }
            },
            None => None,
        }
    }
}

/// The slot, the element size and the kind of a dynamic array in storage, be
/// it a field or the value of a mapping.
#[verifier::opaque]
pub open spec fn dyn_storage_array_spec(
    g: EnvV,
    st: StV,
    cx: CtxV,
    e: ExprV,
) -> (StV, Option<(Seq<char>, usize, bool)>)
    decreases e, 4nat,
{
    match storage_dyn_array_spec(g, cx, e) {
        Some((slot, esz, tr)) => (st, Some((dec(slot as nat), esz, tr))),
        None => {
            let (st, found) = hashmap_entry_slot_spec(g, st, cx, e);
            match found {
                Some((slot, t, tr)) => {
                    match t {
                        TypeV::Array(inner) => (
                            st,
                            Some((slot, size_spec(g.w, g.lay.sizes, *inner), tr)),
                        ),
                        _ => (st, None),
                    }
                },
                None => (st, None),
            }
        },
    }
}

impl<'a> Translator<'a> {
    pub(crate) fn dyn_storage_array(
        &mut self,
        cx: &Ctx,
        e: &Expr,
    ) -> (r: Option<(String, usize, bool)>)
        ensures
            final(self).env() == old(self).env(),
            dyn_storage_array_spec(old(self).env(), old(self).st(), cx@, e@) == (
                final(self).st(),
                (match r { Some(x) => Some((x.0@, x.1, x.2)), None => None }),
            ),
        decreases e, 4nat,
    {
        proof {
            reveal(dyn_storage_array_spec);
            reveal(hashmap_entry_slot_spec);
        }
        match self.storage_dyn_array(cx, e) {
            Some((slot, esz, tr)) => {
                return Some((dec_text(slot), esz, tr));
            },
            None => {},
        }
        let found = self.hashmap_entry_slot(cx, e);
        match found {
            Some((slot, t, tr)) => {
                match &t {
                    Type::Array(inner) => Some((slot, self.layout_engine.size_of(inner), tr)),
                    _ => None,
                }
            },
            None => None,
        }
    }
}

/// The slot, the element size, the length and the kind of a storage field that
/// is a fixed array.
pub open spec fn storage_array_info_spec(
    g: EnvV,
    cx: CtxV,
    e: ExprV,
) -> Option<(usize, usize, usize, bool)> {
    match resolve_storage_field_spec(g, cx, e) {
        Some(sf) => {
            match static_type_spec(g, cx, e) {
                TypeV::FixedArray(inner, n) => Some(
                    (sf.slot, size_spec(g.w, g.lay.sizes, *inner), n, sf.is_transient)
                ),
                _ => None,
            }
        },
        None => None,
    }
}

impl<'a> Translator<'a> {
    pub(crate) fn storage_array_info(
        &self,
        cx: &Ctx,
        e: &Expr,
    ) -> (r: Option<(usize, usize, usize, bool)>)
        ensures
            r == storage_array_info_spec(self.env(), cx@, e@),
    {
        match self.resolve_storage_field(cx, e) {
            Some(sf) => {
                match &self.static_type(cx, e) {
                    Type::FixedArray(inner, n) => Some(
                        (sf.slot, self.layout_engine.size_of(inner), *n, sf.is_transient)
                    ),
                    _ => None,
                }
            },
            None => None,
        }
    }
}

#[verifier::opaque]
pub open spec fn ensure_pack_read_spec(g: EnvV, st: StV, tr: bool) -> StV {
    let st = ensure_spec(st, "pk_read"@ + kind_suffix_spec(tr), pk_read_src(tr));
    let st = ensure_spec(st, "pk_get"@ + kind_suffix_spec(tr), pk_get_src(g.rich, tr));
    st
}

impl<'a> Translator<'a> {
    pub(crate) fn ensure_pack_read(&mut self, tr: bool)
        ensures
            final(self).env() == old(self).env(),
            ensure_pack_read_spec(old(self).env(), old(self).st(), tr) == final(self).st(),
    {
        proof {
            reveal(ensure_pack_read_spec);
        }
        self.ensure_helper(cat2("pk_read", kind_suffix(tr)).as_str(), pk_read_helper_src(tr));
        self.ensure_helper(
            cat2("pk_get", kind_suffix(tr)).as_str(),
            pk_get_helper_src(self.rich_reverts, tr),
        );
    }
}

#[verifier::opaque]
pub open spec fn ensure_pack_write_spec(g: EnvV, st: StV, tr: bool) -> StV {
    let st = ensure_spec(st, "pk_write"@ + kind_suffix_spec(tr), pk_write_src(tr));
    let st = ensure_spec(st, "pk_set"@ + kind_suffix_spec(tr), pk_set_src(g.rich, tr));
    st
}

impl<'a> Translator<'a> {
    pub(crate) fn ensure_pack_write(&mut self, tr: bool)
        ensures
            final(self).env() == old(self).env(),
            ensure_pack_write_spec(old(self).env(), old(self).st(), tr) == final(self).st(),
    {
        proof {
            reveal(ensure_pack_write_spec);
        }
        self.ensure_helper(cat2("pk_write", kind_suffix(tr)).as_str(), pk_write_helper_src(tr));
        self.ensure_helper(
            cat2("pk_set", kind_suffix(tr)).as_str(),
            pk_set_helper_src(self.rich_reverts, tr),
        );
    }
}

#[verifier::opaque]
pub open spec fn storage_array_get_spec(
    g: EnvV,
    st: StV,
    base_slot: usize,
    elem_size: usize,
    len: usize,
    index_expr: Seq<char>,
    tr: bool,
) -> (StV, Seq<char>) {
    let (per, es) = pack_spec(elem_size);
    let st = ensure_pack_read_spec(g, st, tr);
    (
        st,
        "pk_get"@ + kind_suffix_spec(tr) + "("@ + dec(base_slot as nat) + ", "@ + index_expr + ", "@ + dec(len as nat) + ", "@ + dec(per as nat) + ", "@ + dec(es as nat) + ", "@ + dec(
            at_least_one(elem_size) as nat
        ) + ")"@,
    )
}

impl<'a> Translator<'a> {
    pub(crate) fn storage_array_get(
        &mut self,
        base_slot: usize,
        elem_size: usize,
        len: usize,
        index_expr: &str,
        tr: bool,
    ) -> (r: String)
        ensures
            final(self).env() == old(self).env(),
            storage_array_get_spec(
                old(self).env(),
                old(self).st(),
                base_slot,
                elem_size,
                len,
                index_expr@,
                tr,
            ) == (final(self).st(), r@),
    {
        proof {
            reveal(storage_array_get_spec);
        }
        let (per, es) = pack_params(elem_size);
        self.ensure_pack_read(tr);
        cat7(
            cat9(
                "pk_get",
                kind_suffix(tr),
                "(",
                dec_text(base_slot).as_str(),
                ", ",
                index_expr,
                ", ",
                dec_text(len).as_str(),
                ", ",
            ).as_str(),
            dec_text(per).as_str(),
            ", ",
            dec_text(es).as_str(),
            ", ",
            dec_text(max_one(elem_size)).as_str(),
            ")",
        )
    }
}

#[verifier::opaque]
pub open spec fn storage_array_set_spec(
    g: EnvV,
    st: StV,
    base_slot: usize,
    elem_size: usize,
    len: usize,
    index_expr: Seq<char>,
    val: Seq<char>,
    tr: bool,
) -> (StV, Seq<char>) {
    let (per, es) = pack_spec(elem_size);
    let st = ensure_pack_write_spec(g, st, tr);
    (
        st,
        "pk_set"@ + kind_suffix_spec(tr) + "("@ + dec(base_slot as nat) + ", "@ + index_expr + ", "@ + dec(len as nat) + ", "@ + dec(per as nat) + ", "@ + dec(es as nat) + ", "@ + dec(
            at_least_one(elem_size) as nat
        ) + ", "@ + val + ")\n"@,
    )
}

impl<'a> Translator<'a> {
    pub(crate) fn storage_array_set(
        &mut self,
        base_slot: usize,
        elem_size: usize,
        len: usize,
        index_expr: &str,
        val: &str,
        tr: bool,
    ) -> (r: String)
        ensures
            final(self).env() == old(self).env(),
            storage_array_set_spec(
                old(self).env(),
                old(self).st(),
                base_slot,
                elem_size,
                len,
                index_expr@,
                val@,
                tr,
            ) == (final(self).st(), r@),
    {
        proof {
            reveal(storage_array_set_spec);
        }
        let (per, es) = pack_params(elem_size);
        self.ensure_pack_write(tr);
        cat9(
            cat9(
                "pk_set",
                kind_suffix(tr),
                "(",
                dec_text(base_slot).as_str(),
                ", ",
                index_expr,
                ", ",
                dec_text(len).as_str(),
                ", ",
            ).as_str(),
            dec_text(per).as_str(),
            ", ",
            dec_text(es).as_str(),
            ", ",
            dec_text(max_one(elem_size)).as_str(),
            ", ",
            val,
            ")\n",
        )
    }
}

#[verifier::opaque]
pub open spec fn dyn_array_get_spec(
    g: EnvV,
    st: StV,
    len_slot: Seq<char>,
    elem_size: usize,
    index_expr: Seq<char>,
    tr: bool,
) -> (StV, Seq<char>) {
    let (per, es) = pack_spec(elem_size);
    let st = ensure_spec(st, "arr_data_base"@, arr_data_base_src());
    let st = ensure_pack_read_spec(g, st, tr);
    (
        st,
        "pk_get"@ + kind_suffix_spec(tr) + "(arr_data_base("@ + len_slot + "), "@ + index_expr + ", "@ + ld_op_spec(tr) + "("@ + len_slot + "), "@ + dec(per as nat) + ", "@ + dec(es as nat) + ", "@ + dec(
            at_least_one(elem_size) as nat
        ) + ")"@,
    )
}

impl<'a> Translator<'a> {
    pub(crate) fn dyn_array_get(
        &mut self,
        len_slot: &str,
        elem_size: usize,
        index_expr: &str,
        tr: bool,
    ) -> (r: String)
        ensures
            final(self).env() == old(self).env(),
            dyn_array_get_spec(
                old(self).env(),
                old(self).st(),
                len_slot@,
                elem_size,
                index_expr@,
                tr,
            ) == (final(self).st(), r@),
    {
        proof {
            reveal(dyn_array_get_spec);
        }
        let (per, es) = pack_params(elem_size);
        self.ensure_helper("arr_data_base", arr_data_base_helper_src());
        self.ensure_pack_read(tr);
        cat9(
            cat9(
                "pk_get",
                kind_suffix(tr),
                "(arr_data_base(",
                len_slot,
                "), ",
                index_expr,
                ", ",
                ld_op(tr),
                "(",
            ).as_str(),
            len_slot,
            "), ",
            dec_text(per).as_str(),
            ", ",
            dec_text(es).as_str(),
            ", ",
            dec_text(max_one(elem_size)).as_str(),
            ")",
        )
    }
}

#[verifier::opaque]
pub open spec fn dyn_array_set_spec(
    g: EnvV,
    st: StV,
    len_slot: Seq<char>,
    elem_size: usize,
    index_expr: Seq<char>,
    val: Seq<char>,
    tr: bool,
) -> (StV, Seq<char>) {
    let (per, es) = pack_spec(elem_size);
    let st = ensure_spec(st, "arr_data_base"@, arr_data_base_src());
    let st = ensure_pack_write_spec(g, st, tr);
    (
        st,
        "pk_set"@ + kind_suffix_spec(tr) + "(arr_data_base("@ + len_slot + "), "@ + index_expr + ", "@ + ld_op_spec(tr) + "("@ + len_slot + "), "@ + dec(per as nat) + ", "@ + dec(es as nat) + ", "@ + dec(
            at_least_one(elem_size) as nat
        ) + ", "@ + val + ")\n"@,
    )
}

impl<'a> Translator<'a> {
    pub(crate) fn dyn_array_set(
        &mut self,
        len_slot: &str,
        elem_size: usize,
        index_expr: &str,
        val: &str,
        tr: bool,
    ) -> (r: String)
        ensures
            final(self).env() == old(self).env(),
            dyn_array_set_spec(
                old(self).env(),
                old(self).st(),
                len_slot@,
                elem_size,
                index_expr@,
                val@,
                tr,
            ) == (final(self).st(), r@),
    {
        proof {
            reveal(dyn_array_set_spec);
        }
        let (per, es) = pack_params(elem_size);
        self.ensure_helper("arr_data_base", arr_data_base_helper_src());
        self.ensure_pack_write(tr);
        cat3(
            cat9(
                cat9(
                    "pk_set",
                    kind_suffix(tr),
                    "(arr_data_base(",
                    len_slot,
                    "), ",
                    index_expr,
                    ", ",
                    ld_op(tr),
                    "(",
                ).as_str(),
                len_slot,
                "), ",
                dec_text(per).as_str(),
                ", ",
                dec_text(es).as_str(),
                ", ",
                dec_text(max_one(elem_size)).as_str(),
                ", ",
            ).as_str(),
            val,
            ")\n",
        )
    }
}

/// The class that a type is, where it is a struct.
pub open spec fn struct_elem_name_spec(g: EnvV, inner: TypeV) -> Option<Seq<char>> {
    match inner {
        TypeV::Primitive(name) => {
            if struct_type(g.w, inner) {
                Some(name)
            } else {
                None
            }
        },
        _ => None,
    }
}

impl<'a> Translator<'a> {
    pub(crate) fn struct_elem_name(&self, inner: &Type) -> (r: Option<String>)
        ensures
            opt_text(r) == struct_elem_name_spec(self.env(), inner@),
    {
        match inner {
            Type::Primitive(name) => {
                if is_struct_type(self.layout_engine.type_checker, inner) {
                    return Some(name.clone());
                }
                None
            },
            _ => None,
        }
    }
}

/// An array of structs in storage: where its data begins, its length, the
/// struct, the slots of an element, and its kind.
#[verifier::opaque]
pub open spec fn storage_struct_array_spec(
    g: EnvV,
    st: StV,
    cx: CtxV,
    e: ExprV,
) -> (StV, Option<(Seq<char>, Seq<char>, Seq<char>, usize, bool)>) {
    match resolve_storage_field_spec(g, cx, e) {
        Some(sf) => {
            match static_type_spec(g, cx, e) {
                TypeV::Array(inner) => {
                    let st = ensure_spec(st, "arr_data_base"@, arr_data_base_src());
                    match struct_elem_name_spec(g, *inner) {
                        Some(name) => (
                            st,
                            Some(
                                (
                                    "arr_data_base("@ + dec(sf.slot as nat) + ")"@,
                                    ld_op_spec(sf.is_transient) + "("@ + dec(sf.slot as nat) + ")"@,
                                    name,
                                    elem_slots_spec(size_spec(g.w, g.lay.sizes, *inner)),
                                    sf.is_transient,
                                )
                            ),
                        ),
                        None => (st, None),
                    }
                },
                TypeV::FixedArray(inner, n) => {
                    match struct_elem_name_spec(g, *inner) {
                        Some(name) => (
                            st,
                            Some(
                                (
                                    dec(sf.slot as nat),
                                    dec(n as nat),
                                    name,
                                    elem_slots_spec(size_spec(g.w, g.lay.sizes, *inner)),
                                    sf.is_transient,
                                )
                            ),
                        ),
                        None => (st, None),
                    }
                },
                _ => (st, None),
            }
        },
        None => (st, None),
    }
}

impl<'a> Translator<'a> {
    pub(crate) fn storage_struct_array(
        &mut self,
        cx: &Ctx,
        e: &Expr,
    ) -> (r: Option<(String, String, String, usize, bool)>)
        ensures
            final(self).env() == old(self).env(),
            storage_struct_array_spec(old(self).env(), old(self).st(), cx@, e@) == (
                final(self).st(),
                (match r { Some(x) => Some((x.0@, x.1@, x.2@, x.3, x.4)), None => None }),
            ),
    {
        proof {
            reveal(storage_struct_array_spec);
        }
        match self.resolve_storage_field(cx, e) {
            Some(sf) => {
                match &self.static_type(cx, e) {
                    Type::Array(inner) => {
                        self.ensure_helper("arr_data_base", arr_data_base_helper_src());
                        match self.struct_elem_name(inner) {
                            Some(name) => Some(
                                (
                                    cat3("arr_data_base(", dec_text(sf.slot).as_str(), ")"),
                                    cat4(
                                        ld_op(sf.is_transient),
                                        "(",
                                        dec_text(sf.slot).as_str(),
                                        ")",
                                    ),
                                    name,
                                    struct_elem_slots(self.layout_engine.size_of(inner)),
                                    sf.is_transient,
                                )
                            ),
                            None => None,
                        }
                    },
                    Type::FixedArray(inner, n) => {
                        match self.struct_elem_name(inner) {
                            Some(name) => Some(
                                (
                                    dec_text(sf.slot),
                                    dec_text(*n),
                                    name,
                                    struct_elem_slots(self.layout_engine.size_of(inner)),
                                    sf.is_transient,
                                )
                            ),
                            None => None,
                        }
                    },
                    _ => None,
                }
            },
            None => None,
        }
    }
}

/// A copy in memory of a dynamic array in storage; an array of structs has
/// none.
#[verifier::opaque]
pub open spec fn storage_array_to_memory_spec(
    g: EnvV,
    st: StV,
    cx: CtxV,
    e: ExprV,
) -> (StV, Option<Seq<char>>)
    decreases e, 5nat,
{
    let (st, found) = dyn_storage_array_spec(g, st, cx, e);
    match found {
        Some((slot, size, tr)) => {
            let (st, structs) = storage_struct_array_spec(g, st, cx, e);
            if structs is Some {
                (st, None)
            } else {
                let esz = at_least_one(size);
                let (per, es) = pack_spec(esz);
                let name = "sarr_to_mem_"@ + dec(esz as nat) + kind_suffix_spec(tr);
                let st = ensure_spec(st, "arr_data_base"@, arr_data_base_src());
                let st = ensure_pack_read_spec(g, st, tr);
                let st = ensure_spec(st, name, sarr_to_mem_src(name, esz, per, es, tr));
                (st, Some(name + "("@ + slot + ")"@))
            }
        },
        None => (st, None),
    }
}

impl<'a> Translator<'a> {
    pub(crate) fn storage_array_to_memory(&mut self, cx: &Ctx, e: &Expr) -> (r: Option<String>)
        ensures
            final(self).env() == old(self).env(),
            storage_array_to_memory_spec(
                old(self).env(),
                old(self).st(),
                cx@,
                e@,
            ) == (final(self).st(), opt_text(r)),
        decreases e, 5nat,
    {
        proof {
            reveal(storage_array_to_memory_spec);
            reveal(dyn_storage_array_spec);
        }
        let found = self.dyn_storage_array(cx, e);
        match found {
            Some((slot, size, tr)) => {
                let structs = self.storage_struct_array(cx, e);
                if structs.is_some() {
                    return None;
                }
                let esz: usize = max_one(size);
                let (per, es) = pack_params(esz);
                let name = cat3("sarr_to_mem_", dec_text(esz).as_str(), kind_suffix(tr));
                self.ensure_helper("arr_data_base", arr_data_base_helper_src());
                self.ensure_pack_read(tr);
                self.ensure_helper(
                    name.as_str(),
                    sarr_to_mem_helper_src(name.as_str(), esz, per, es, tr),
                );
                Some(cat4(name.as_str(), "(", slot.as_str(), ")"))
            },
            None => None,
        }
    }
}

pub open spec fn field_owner_spec(g: EnvV, cx: CtxV, e: ExprV) -> Option<Seq<char>> {
    match e {
        ExprV::Identifier(n) => {
            if n == "self"@ {
                any_self_spec(cx)
            } else {
                Some(n)
            }
        },
        _ => None,
    }
}

impl<'a> Translator<'a> {
    pub(crate) fn field_owner(&self, cx: &Ctx, e: &Expr) -> (r: Option<String>)
        ensures
            opt_text(r) == field_owner_spec(self.env(), cx@, e@),
    {
        match e {
            Expr::Identifier(n) => {
                if same(n.as_str(), "self") {
                    return cx.any_self();
                }
                Some(n.clone())
            },
            _ => None,
        }
    }
}

/// The storage field that an expression is, whatever class owns it.
pub open spec fn owned_field_spec(g: EnvV, cx: CtxV, e: ExprV) -> Option<StorageField> {
    match e {
        ExprV::PropertyAccess { base, property } => {
            match field_owner_spec(g, cx, *base) {
                Some(c) => field_in(g.lay.storage, c, property),
                None => None,
            }
        },
        _ => None,
    }
}

impl<'a> Translator<'a> {
    pub(crate) fn owned_field(&self, cx: &Ctx, e: &Expr) -> (r: Option<StorageField>)
        ensures
            r == owned_field_spec(self.env(), cx@, e@),
    {
        match e {
            Expr::PropertyAccess { base, property } => {
                match self.field_owner(cx, base) {
                    Some(c) => self.layout_engine.storage_field(c.as_str(), property.as_str()),
                    None => None,
                }
            },
            _ => None,
        }
    }
}

/// Whether an array or a mapping of structs lives in transient storage.
#[verifier::opaque]
pub open spec fn indexed_transient_spec(g: EnvV, st: StV, cx: CtxV, e: ExprV) -> (StV, bool) {
    let (st, found) = storage_struct_array_spec(g, st, cx, e);
    match found {
        Some((_, _, _, _, tr)) => (st, tr),
        None => (st, hashmap_transient_spec(g, cx, e)),
    }
}

impl<'a> Translator<'a> {
    pub(crate) fn indexed_transient(&mut self, cx: &Ctx, e: &Expr) -> (r: bool)
        ensures
            final(self).env() == old(self).env(),
            indexed_transient_spec(
                old(self).env(),
                old(self).st(),
                cx@,
                e@,
            ) == (final(self).st(), r),
    {
        proof {
            reveal(indexed_transient_spec);
        }
        let found = self.storage_struct_array(cx, e);
        match found {
            Some((_, _, _, _, tr)) => tr,
            None => self.hashmap_transient(cx, e),
        }
    }
}

/// Whether a struct lives in transient storage.
#[verifier::opaque]
pub open spec fn struct_base_transient_spec(g: EnvV, st: StV, cx: CtxV, e: ExprV) -> (StV, bool) {
    match owned_field_spec(g, cx, e) {
        Some(sf) => (st, sf.is_transient),
        None => {
            match e {
                ExprV::IndexAccess { base, .. } => indexed_transient_spec(g, st, cx, *base),
                ExprV::MethodCall { base, method, args } => {
                    if method == "get"@ && args.len() > 0 {
                        indexed_transient_spec(g, st, cx, *base)
                    } else {
                        (st, false)
                    }
                },
                _ => (st, false),
            }
        },
    }
}

impl<'a> Translator<'a> {
    pub(crate) fn struct_base_transient(&mut self, cx: &Ctx, e: &Expr) -> (r: bool)
        ensures
            final(self).env() == old(self).env(),
            struct_base_transient_spec(
                old(self).env(),
                old(self).st(),
                cx@,
                e@,
            ) == (final(self).st(), r),
    {
        proof {
            reveal(struct_base_transient_spec);
            reveal_with_fuel(Expr::view, 2);
        }
        match self.owned_field(cx, e) {
            Some(sf) => {
                return sf.is_transient;
            },
            None => {},
        }
        match e {
            Expr::IndexAccess { base, .. } => self.indexed_transient(cx, base),
            Expr::MethodCall { base, method, args } => {
                if same(method.as_str(), "get") && args.len() > 0 {
                    return self.indexed_transient(cx, base);
                }
                false
            },
            _ => false,
        }
    }
}

/// The slot and the class of a struct that is a storage field.
pub open spec fn struct_field_base_spec(g: EnvV, cx: CtxV, e: ExprV) -> Option<(usize, Seq<char>)> {
    match owned_field_spec(g, cx, e) {
        Some(sf) => {
            match struct_elem_name_spec(g, static_type_spec(g, cx, e)) {
                Some(name) => Some((sf.slot, name)),
                None => None,
            }
        },
        None => None,
    }
}

impl<'a> Translator<'a> {
    pub(crate) fn struct_field_base(&self, cx: &Ctx, e: &Expr) -> (r: Option<(usize, String)>)
        ensures
            (
                match r { Some(x) => Some((x.0, x.1@)), None => None }
            ) == struct_field_base_spec(self.env(), cx@, e@),
    {
        match self.owned_field(cx, e) {
            Some(sf) => {
                match self.struct_elem_name(&self.static_type(cx, e)) {
                    Some(name) => Some((sf.slot, name)),
                    None => None,
                }
            },
            None => None,
        }
    }
}

/// The class of the values of a mapping.
pub open spec fn map_struct_spec(g: EnvV, cx: CtxV, e: ExprV) -> Option<Seq<char>> {
    match map_value_spec(static_type_spec(g, cx, e)) {
        Some(v) => {
            match v {
                TypeV::Primitive(name) => {
                    if g.w.classes.contains_key(name) {
                        Some(name)
                    } else {
                        None
                    }
                },
                _ => None,
            }
        },
        None => None,
    }
}

impl<'a> Translator<'a> {
    pub(crate) fn map_struct(&self, cx: &Ctx, e: &Expr) -> (r: Option<String>)
        ensures
            opt_text(r) == map_struct_spec(self.env(), cx@, e@),
    {
        match map_value(&self.static_type(cx, e)) {
            Some(v) => {
                match &v {
                    Type::Primitive(name) => {
                        if self.layout_engine.type_checker.loaded_classes.has(name.as_str()) {
                            return Some(name.clone());
                        }
                        None
                    },
                    _ => None,
                }
            },
            None => None,
        }
    }
}

/// The slot and the class of a struct in storage: a field, an element of an
/// array, or a value of a mapping.
#[verifier::opaque]
pub open spec fn struct_storage_base_spec(
    g: EnvV,
    st: StV,
    cx: CtxV,
    e: ExprV,
) -> (StV, Option<(Seq<char>, Seq<char>)>)
    decreases e, 5nat,
{
    match struct_field_base_spec(g, cx, e) {
        Some((slot, name)) => (st, Some((dec(slot as nat), name))),
        None => {
            match e {
                ExprV::IndexAccess { base, index } => {
                    let (st, found) = storage_struct_array_spec(g, st, cx, *base);
                    match found {
                        Some((data, len, name, es, _)) => {
                            let st = ensure_spec(st, "sarr_base"@, sarr_base_src(g.rich));
                            let (st, idx) = translate_expr_spec(g, st, cx, *index);
                            (
                                st,
                                Some(
                                    (
                                        "sarr_base("@ + data + ", "@ + idx + ", "@ + len + ", "@ + dec(
                                            es as nat
                                        ) + ")"@,
                                        name,
                                    )
                                ),
                            )
                        },
                        None => {
                            match map_struct_spec(g, cx, *base) {
                                Some(name) => {
                                    let (st, found) = hashmap_base_slot_expr_spec(g, st, cx, *base);
                                    match found {
                                        Some(slot) => {
                                            let (st, key) = translate_expr_spec(g, st, cx, *index);
                                            (
                                                st,
                                                Some(
                                                    (
                                                        "gum_hash_slot("@ + key + ", "@ + slot + ")"@,
                                                        name,
                                                    )
                                                ),
                                            )
                                        },
                                        None => (st, None),
                                    }
                                },
                                None => (st, None),
                            }
                        },
                    }
                },
                ExprV::MethodCall { base, method, args } => {
                    if method != "get"@ || args.len() == 0 {
                        (st, None)
                    } else {
                        let (st, found) = storage_struct_array_spec(g, st, cx, *base);
                        match found {
                            Some((data, len, name, es, _)) => {
                                let st = ensure_spec(st, "sarr_base"@, sarr_base_src(g.rich));
                                let (st, idx) = translate_at_spec(g, st, cx, args, 0usize);
                                (
                                    st,
                                    Some(
                                        (
                                            "sarr_base("@ + data + ", "@ + idx + ", "@ + len + ", "@ + dec(
                                                es as nat
                                            ) + ")"@,
                                            name,
                                        )
                                    ),
                                )
                            },
                            None => {
                                match map_struct_spec(g, cx, *base) {
                                    Some(name) => {
                                        let (st, found) = hashmap_base_slot_expr_spec(
                                            g,
                                            st,
                                            cx,
                                            *base,
                                        );
                                        match found {
                                            Some(slot) => {
                                                let (st, key) = translate_at_spec(
                                                    g,
                                                    st,
                                                    cx,
                                                    args,
                                                    0usize,
                                                );
                                                (
                                                    st,
                                                    Some(
                                                        (
                                                            "gum_hash_slot("@ + key + ", "@ + slot + ")"@,
                                                            name,
                                                        )
                                                    ),
                                                )
                                            },
                                            None => (st, None),
                                        }
                                    },
                                    None => (st, None),
                                }
                            },
                        }
                    }
                },
                _ => (st, None),
            }
        },
    }
}

impl<'a> Translator<'a> {
    pub(crate) fn struct_storage_base(
        &mut self,
        cx: &Ctx,
        e: &Expr,
    ) -> (r: Option<(String, String)>)
        ensures
            final(self).env() == old(self).env(),
            struct_storage_base_spec(old(self).env(), old(self).st(), cx@, e@) == (
                final(self).st(),
                (match r { Some(x) => Some((x.0@, x.1@)), None => None }),
            ),
        decreases e, 5nat,
    {
        proof {
            reveal(struct_storage_base_spec);
            reveal_with_fuel(Expr::view, 2);
            reveal(translate_expr_spec);
            reveal(hashmap_base_slot_expr_spec);
            reveal(translate_at_spec);
        }
        match self.struct_field_base(cx, e) {
            Some((slot, name)) => {
                return Some((dec_text(slot), name));
            },
            None => {},
        }
        match e {
            Expr::IndexAccess { base, index } => {
                let found = self.storage_struct_array(cx, base);
                match found {
                    Some((data, len, name, es, _)) => {
                        self.ensure_helper("sarr_base", sarr_base_helper_src(self.rich_reverts));
                        let idx = self.translate_expr(cx, index);
                        return Some(
                            (
                                cat9(
                                    "sarr_base(",
                                    data.as_str(),
                                    ", ",
                                    idx.as_str(),
                                    ", ",
                                    len.as_str(),
                                    ", ",
                                    dec_text(es).as_str(),
                                    ")",
                                ),
                                name,
                            )
                        );
                    },
                    None => {},
                }
                match self.map_struct(cx, base) {
                    Some(name) => {
                        let found = self.hashmap_base_slot_expr(cx, base);
                        match found {
                            Some(slot) => {
                                let key = self.translate_expr(cx, index);
                                Some(
                                    (
                                        cat5(
                                            "gum_hash_slot(",
                                            key.as_str(),
                                            ", ",
                                            slot.as_str(),
                                            ")",
                                        ),
                                        name,
                                    )
                                )
                            },
                            None => None,
                        }
                    },
                    None => None,
                }
            },
            Expr::MethodCall { base, method, args } => {
                if !same(method.as_str(), "get") || args.len() == 0 {
                    return None;
                }
                let found = self.storage_struct_array(cx, base);
                match found {
                    Some((data, len, name, es, _)) => {
                        self.ensure_helper("sarr_base", sarr_base_helper_src(self.rich_reverts));
                        let idx = self.translate_at(cx, args, 0);
                        return Some(
                            (
                                cat9(
                                    "sarr_base(",
                                    data.as_str(),
                                    ", ",
                                    idx.as_str(),
                                    ", ",
                                    len.as_str(),
                                    ", ",
                                    dec_text(es).as_str(),
                                    ")",
                                ),
                                name,
                            )
                        );
                    },
                    None => {},
                }
                match self.map_struct(cx, base) {
                    Some(name) => {
                        let found = self.hashmap_base_slot_expr(cx, base);
                        match found {
                            Some(slot) => {
                                let key = self.translate_at(cx, args, 0);
                                Some(
                                    (
                                        cat5(
                                            "gum_hash_slot(",
                                            key.as_str(),
                                            ", ",
                                            slot.as_str(),
                                            ")",
                                        ),
                                        name,
                                    )
                                )
                            },
                            None => None,
                        }
                    },
                    None => None,
                }
            },
            _ => None,
        }
    }
}

/// The slot of a field of a struct in storage, its offset and its size.
pub open spec fn struct_field_slot_spec(
    g: EnvV,
    base_slot: Seq<char>,
    struct_name: Seq<char>,
    property: Seq<char>,
) -> Option<(Seq<char>, usize, usize)> {
    match field_in(g.lay.structs, struct_name, property) {
        Some(sf) => {
            if sf.slot == 0usize {
                Some((base_slot, sf.offset_in_slot, sf.size))
            } else {
                Some(
                    (
                        "add("@ + base_slot + ", "@ + dec(sf.slot as nat) + ")"@,
                        sf.offset_in_slot,
                        sf.size,
                    )
                )
            }
        },
        None => None,
    }
}

impl<'a> Translator<'a> {
    pub(crate) fn struct_field_slot(
        &self,
        base_slot: &str,
        struct_name: &str,
        property: &str,
    ) -> (r: Option<(String, usize, usize)>)
        ensures
            (
                match r { Some(x) => Some((x.0@, x.1, x.2)), None => None }
            ) == struct_field_slot_spec(self.env(), base_slot@, struct_name@, property@),
    {
        match self.layout_engine.struct_storage_field(struct_name, property) {
            Some(sf) => {
                if sf.slot == 0 {
                    return Some((String::from_str(base_slot), sf.offset_in_slot, sf.size));
                }
                Some(
                    (
                        cat5("add(", base_slot, ", ", dec_text(sf.slot).as_str(), ")"),
                        sf.offset_in_slot,
                        sf.size,
                    )
                )
            },
            None => None,
        }
    }
}

} // verus!
