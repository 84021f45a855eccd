//! Assignment and `delete`: storing into whatever a target stands for.
use crate::ast::{fields_v, Expr, ExprV, FieldV, Type, TypeV};
use crate::codegen::abi::sig_spec;
use crate::codegen::consts::{const_value_spec, immutable_spec};
use crate::codegen::helpers::{
    arr_data_base_helper_src, arr_data_base_src, dpk_clear_helper_src, dpk_clear_src,
    gum_sstr_base_helper_src, gum_sstr_base_src, gum_sstr_clear_helper_src, gum_sstr_clear_src,
};
use crate::codegen::layout::{field_in, mem_field_in};
use crate::codegen::tr_expr::{const_owner_spec, mem_array_addr_spec, translate_expr_spec};
use crate::codegen::tr_field::{
    field_is_str_spec, store_memory_field_spec, store_storage_field_spec,
};
use crate::codegen::tr_methodcall::store_map_value_spec;
use crate::codegen::tr_storage::{
    dyn_array_set_spec, dyn_storage_array_spec, hashmap_base_slot_expr_spec,
    hashmap_entry_slot_spec, hashmap_transient_spec, map_value, map_value_spec,
    resolve_storage_field_named_spec, storage_array_info_spec, storage_array_set_spec,
    struct_base_transient_spec, struct_field_slot_spec, struct_storage_base_spec,
};
use crate::codegen::tr_types::{
    elem_is_inline_spec, fresh_local_bytes_spec, ident_name, ident_name_spec, is_ident,
    is_ident_spec, static_type_spec,
};
use crate::codegen::translator::{
    class_of_spec, ensure_spec, error_spec, global_self_spec, memory_self_spec, next_spec, Ctx,
    CtxV, EnvV, StV, Translator,
};
use crate::codegen::yul::{
    at_least_one, immutable_local, is_str_type, kind_suffix, kind_suffix_spec, ld_op, ld_op_spec,
    max_one, opt_text, pack_params, pack_spec, st_op, st_op_spec, str_type, word_count, words,
    write_packed, write_packed_spec, write_slot_packed, write_slot_spec,
};
use crate::text::{cat2, cat3, cat4, cat5, cat6, cat9, dec, dec_mul, dec_sum, dec_text, same};
use vstd::prelude::*;

verus! {

broadcast use crate::ast::group_views;

/// Assigning a const field: nothing where its value is known, else the variable
/// that the constructor hands to deployment.
pub open spec fn const_store_spec(
    g: EnvV,
    cx: CtxV,
    e: ExprV,
    val_expr: Seq<char>,
) -> Option<Seq<char>> {
    match e {
        ExprV::PropertyAccess { base, property } => {
            match ident_name_spec(*base) {
                Some(n) => {
                    match const_owner_spec(g, cx, n) {
                        Some(owner) => {
                            if immutable_spec(g.w, owner, property) is None {
                                None
                            } else if const_value_spec(g.w, owner, property) is Some {
                                Some(
                                    "// const "@
                                    + owner
                                    + "."@
                                    + property
                                    + " folded at compile time\n"@
                                )
                            } else {
                                Some(("_imm_"@ + property) + " := "@ + val_expr + "\n"@)
                            }
                        },
                        None => None,
                    }
                },
                None => None,
            }
        },
        _ => None,
    }
}

impl<'a> Translator<'a> {
    pub(crate) fn const_store(&self, cx: &Ctx, e: &Expr, val_expr: &str) -> (r: Option<String>)
        ensures
            opt_text(r) == const_store_spec(self.env(), cx@, e@, val_expr@),
    {
        match e {
            Expr::PropertyAccess { base, property } => {
                match ident_name(base) {
                    Some(n) => {
                        match self.const_owner(cx, n.as_str()) {
                            Some(owner) => {
                                if self.layout_engine.immutable_field(
                                    owner.as_str(),
                                    property.as_str(),
                                ).is_none() {
                                    return None;
                                }
                                if self.layout_engine.const_field_value(
                                    owner.as_str(),
                                    property.as_str(),
                                ).is_some() {
                                    return Some(
                                        cat5(
                                            "// const ",
                                            owner.as_str(),
                                            ".",
                                            property.as_str(),
                                            " folded at compile time\n",
                                        )
                                    );
                                }
                                Some(
                                    cat4(
                                        immutable_local(property.as_str()).as_str(),
                                        " := ",
                                        val_expr,
                                        "\n",
                                    )
                                )
                            },
                            None => None,
                        }
                    },
                    None => None,
                }
            },
            _ => None,
        }
    }
}

#[verifier::opaque]
pub open spec fn self_field_store_spec(
    g: EnvV,
    st: StV,
    cx: CtxV,
    e: ExprV,
    val_expr: Seq<char>,
) -> (StV, Option<Seq<char>>) {
    match e {
        ExprV::PropertyAccess { base, property } => {
            if !is_ident_spec(*base, "self"@) {
                (st, None)
            } else {
                match global_self_spec(cx) {
                    Some(c) => {
                        match field_in(g.lay.storage, c, property) {
                            Some(sf) => {
                                let (st, code) = store_storage_field_spec(
                                    g,
                                    st,
                                    c,
                                    property,
                                    sf,
                                    val_expr,
                                );
                                (st, Some(code))
                            },
                            None => (st, None),
                        }
                    },
                    None => {
                        match memory_self_spec(cx) {
                            Some(c) => {
                                match mem_field_in(g.lay.mem, c, property) {
                                    Some(mf) => {
                                        let (st, code) = store_memory_field_spec(
                                            g,
                                            st,
                                            "self"@,
                                            mf,
                                            val_expr,
                                        );
                                        (st, Some(code))
                                    },
                                    None => (st, None),
                                }
                            },
                            None => (st, None),
                        }
                    },
                }
            }
        },
        _ => (st, None),
    }
}

impl<'a> Translator<'a> {
    pub(crate) fn self_field_store(
        &mut self,
        cx: &Ctx,
        e: &Expr,
        val_expr: &str,
    ) -> (r: Option<String>)
        ensures
            final(self).env() == old(self).env(),
            self_field_store_spec(
                old(self).env(),
                old(self).st(),
                cx@,
                e@,
                val_expr@,
            ) == (final(self).st(), opt_text(r)),
    {
        proof {
            reveal(self_field_store_spec);
        }
        match e {
            Expr::PropertyAccess { base, property } => {
                if !is_ident(base, "self") {
                    return None;
                }
                match cx.global_self() {
                    Some(c) => {
                        match self.layout_engine.storage_field(c.as_str(), property.as_str()) {
                            Some(sf) => {
                                let code = self.store_storage_field(
                                    c.as_str(),
                                    property.as_str(),
                                    sf,
                                    val_expr,
                                );
                                return Some(code);
                            },
                            None => {
                                return None;
                            },
                        }
                    },
                    None => {},
                }
                match cx.memory_self() {
                    Some(c) => {
                        match self.layout_engine.memory_field(c.as_str(), property.as_str()) {
                            Some(mf) => {
                                let code = self.store_memory_field("self", mf, val_expr);
                                Some(code)
                            },
                            None => None,
                        }
                    },
                    None => None,
                }
            },
            _ => None,
        }
    }
}

#[verifier::opaque]
pub open spec fn named_field_store_spec(
    g: EnvV,
    st: StV,
    cx: CtxV,
    e: ExprV,
    val_expr: Seq<char>,
) -> (StV, Option<Seq<char>>) {
    match e {
        ExprV::PropertyAccess { base, property } => {
            match ident_name_spec(*base) {
                Some(n) => {
                    match field_in(g.lay.storage, n, property) {
                        Some(sf) => {
                            let (st, code) = store_storage_field_spec(
                                g,
                                st,
                                n,
                                property,
                                sf,
                                val_expr,
                            );
                            (st, Some(code))
                        },
                        None => (st, None),
                    }
                },
                None => (st, None),
            }
        },
        _ => (st, None),
    }
}

impl<'a> Translator<'a> {
    pub(crate) fn named_field_store(
        &mut self,
        cx: &Ctx,
        e: &Expr,
        val_expr: &str,
    ) -> (r: Option<String>)
        ensures
            final(self).env() == old(self).env(),
            named_field_store_spec(
                old(self).env(),
                old(self).st(),
                cx@,
                e@,
                val_expr@,
            ) == (final(self).st(), opt_text(r)),
    {
        proof {
            reveal(named_field_store_spec);
        }
        match e {
            Expr::PropertyAccess { base, property } => {
                match ident_name(base) {
                    Some(n) => {
                        match self.layout_engine.storage_field(n.as_str(), property.as_str()) {
                            Some(sf) => {
                                let code = self.store_storage_field(
                                    n.as_str(),
                                    property.as_str(),
                                    sf,
                                    val_expr,
                                );
                                Some(code)
                            },
                            None => None,
                        }
                    },
                    None => None,
                }
            },
            _ => None,
        }
    }
}

#[verifier::opaque]
pub open spec fn struct_field_store_spec(
    g: EnvV,
    st: StV,
    cx: CtxV,
    e: ExprV,
    val_expr: Seq<char>,
) -> (StV, Option<Seq<char>>) {
    match e {
        ExprV::PropertyAccess { base, property } => {
            let (st, found) = struct_storage_base_spec(g, st, cx, *base);
            match found {
                Some((base_slot, struct_name)) => {
                    match struct_field_slot_spec(g, base_slot, struct_name, property) {
                        Some((slot, off, size)) => {
                            let (st, tr) = struct_base_transient_spec(g, st, cx, *base);
                            if off == 0usize && size >= 32usize {
                                (st, Some(st_op_spec(tr) + "("@ + slot + ", "@ + val_expr + ")\n"@))
                            } else {
                                let merged = write_slot_spec(
                                    ld_op_spec(tr) + "("@ + slot + ")"@,
                                    off,
                                    size,
                                    val_expr,
                                );
                                (st, Some(st_op_spec(tr) + "("@ + slot + ", "@ + merged + ")\n"@))
                            }
                        },
                        None => (st, None),
                    }
                },
                None => (st, None),
            }
        },
        _ => (st, None),
    }
}

impl<'a> Translator<'a> {
    pub(crate) fn struct_field_store(
        &mut self,
        cx: &Ctx,
        e: &Expr,
        val_expr: &str,
    ) -> (r: Option<String>)
        ensures
            final(self).env() == old(self).env(),
            struct_field_store_spec(
                old(self).env(),
                old(self).st(),
                cx@,
                e@,
                val_expr@,
            ) == (final(self).st(), opt_text(r)),
    {
        proof {
            reveal(struct_field_store_spec);
        }
        match e {
            Expr::PropertyAccess { base, property } => {
                let found = self.struct_storage_base(cx, base);
                match found {
                    Some((base_slot, struct_name)) => {
                        match self.struct_field_slot(
                            base_slot.as_str(),
                            struct_name.as_str(),
                            property.as_str(),
                        ) {
                            Some((slot, off, size)) => {
                                let tr = self.struct_base_transient(cx, base);
                                if off == 0 && size >= 32 {
                                    return Some(
                                        cat6(st_op(tr), "(", slot.as_str(), ", ", val_expr, ")\n")
                                    );
                                }
                                let merged = write_slot_packed(
                                    cat4(ld_op(tr), "(", slot.as_str(), ")").as_str(),
                                    off,
                                    size,
                                    val_expr,
                                );
                                Some(
                                    cat6(
                                        st_op(tr),
                                        "(",
                                        slot.as_str(),
                                        ", ",
                                        merged.as_str(),
                                        ")\n",
                                    )
                                )
                            },
                            None => None,
                        }
                    },
                    None => None,
                }
            },
            _ => None,
        }
    }
}

#[verifier::opaque]
pub open spec fn memory_field_store_spec(
    g: EnvV,
    st: StV,
    cx: CtxV,
    e: ExprV,
    val_expr: Seq<char>,
) -> (StV, Option<Seq<char>>) {
    match e {
        ExprV::PropertyAccess { base, property } => {
            match static_type_spec(g, cx, *base) {
                TypeV::Primitive(class_name) => {
                    match mem_field_in(g.lay.mem, class_name, property) {
                        Some(mf) => {
                            let (st, b) = translate_expr_spec(g, st, cx, *base);
                            let (st, code) = store_memory_field_spec(g, st, b, mf, val_expr);
                            (st, Some(code))
                        },
                        None => (st, None),
                    }
                },
                _ => (st, None),
            }
        },
        _ => (st, None),
    }
}

impl<'a> Translator<'a> {
    pub(crate) fn memory_field_store(
        &mut self,
        cx: &Ctx,
        e: &Expr,
        val_expr: &str,
    ) -> (r: Option<String>)
        ensures
            final(self).env() == old(self).env(),
            memory_field_store_spec(
                old(self).env(),
                old(self).st(),
                cx@,
                e@,
                val_expr@,
            ) == (final(self).st(), opt_text(r)),
    {
        proof {
            reveal(memory_field_store_spec);
        }
        match e {
            Expr::PropertyAccess { base, property } => {
                match &self.static_type(cx, base) {
                    Type::Primitive(class_name) => {
                        match self.layout_engine.memory_field(
                            class_name.as_str(),
                            property.as_str(),
                        ) {
                            Some(mf) => {
                                let b = self.translate_expr(cx, base);
                                let code = self.store_memory_field(b.as_str(), mf, val_expr);
                                Some(code)
                            },
                            None => None,
                        }
                    },
                    _ => None,
                }
            },
            _ => None,
        }
    }
}

/// Stores into a property.
#[verifier::opaque]
pub open spec fn translate_property_store_spec(
    g: EnvV,
    st: StV,
    cx: CtxV,
    e: ExprV,
    val_expr: Seq<char>,
) -> (StV, Seq<char>) {
    match e {
        ExprV::PropertyAccess { base, property } => {
            match const_store_spec(g, cx, e, val_expr) {
                Some(s) => (st, s),
                None => {
                    let (st, found) = self_field_store_spec(g, st, cx, e, val_expr);
                    match found {
                        Some(s) => (st, s),
                        None => {
                            let (st, found) = named_field_store_spec(g, st, cx, e, val_expr);
                            match found {
                                Some(s) => (st, s),
                                None => {
                                    let (st, found) = struct_field_store_spec(
                                        g,
                                        st,
                                        cx,
                                        e,
                                        val_expr,
                                    );
                                    match found {
                                        Some(s) => (st, s),
                                        None => {
                                            let (st, found) = memory_field_store_spec(
                                                g,
                                                st,
                                                cx,
                                                e,
                                                val_expr,
                                            );
                                            match found {
                                                Some(s) => (st, s),
                                                None => {
                                                    let st = error_spec(
                                                        st,
                                                        "no known storage or memory offset for '"@ + property + "' on a "@ + sig_spec(
                                                            g.aw,
                                                            static_type_spec(g, cx, *base),
                                                        ) + ", so it cannot be assigned. This is a compiler gap rather than a mistake in your code: please report it."@,
                                                    );
                                                    (st, ""@)
                                                },
                                            }
                                        },
                                    }
                                },
                            }
                        },
                    }
                },
            }
        },
        _ => (st, ""@),
    }
}

impl<'a> Translator<'a> {
    pub(crate) fn translate_property_store(
        &mut self,
        cx: &Ctx,
        e: &Expr,
        val_expr: &str,
    ) -> (r: String)
        ensures
            final(self).env() == old(self).env(),
            translate_property_store_spec(
                old(self).env(),
                old(self).st(),
                cx@,
                e@,
                val_expr@,
            ) == (final(self).st(), r@),
    {
        proof {
            reveal(translate_property_store_spec);
        }
        match e {
            Expr::PropertyAccess { base, property } => {
                match self.const_store(cx, e, val_expr) {
                    Some(s) => {
                        return s;
                    },
                    None => {},
                }
                let found = self.self_field_store(cx, e, val_expr);
                match found {
                    Some(s) => {
                        return s;
                    },
                    None => {},
                }
                let found = self.named_field_store(cx, e, val_expr);
                match found {
                    Some(s) => {
                        return s;
                    },
                    None => {},
                }
                let found = self.struct_field_store(cx, e, val_expr);
                match found {
                    Some(s) => {
                        return s;
                    },
                    None => {},
                }
                let found = self.memory_field_store(cx, e, val_expr);
                match found {
                    Some(s) => {
                        return s;
                    },
                    None => {},
                }
                self.note_error(
                    cat5(
                        "no known storage or memory offset for '",
                        property.as_str(),
                        "' on a ",
                        self.abi_gen.signature_type(&self.static_type(cx, base)).as_str(),
                        ", so it cannot be assigned. This is a compiler gap rather than a mistake in your code: please report it.",
                    )
                );
                String::from_str("")
            },
            _ => String::from_str(""),
        }
    }
}

#[verifier::opaque]
pub open spec fn map_entry_store_spec(
    g: EnvV,
    st: StV,
    cx: CtxV,
    e: ExprV,
    val_expr: Seq<char>,
) -> (StV, Option<Seq<char>>) {
    match e {
        ExprV::IndexAccess { base, index } => {
            match map_value_spec(static_type_spec(g, cx, *base)) {
                Some(v) => {
                    let (st, found) = hashmap_base_slot_expr_spec(g, st, cx, *base);
                    match found {
                        Some(base_slot) => {
                            let (st, idx) = translate_expr_spec(g, st, cx, *index);
                            let (st, code) = store_map_value_spec(
                                g,
                                st,
                                v,
                                "gum_hash_slot("@ + idx + ", "@ + base_slot + ")"@,
                                val_expr,
                                hashmap_transient_spec(g, cx, *base),
                            );
                            (st, Some(code + "\n"@))
                        },
                        None => (st, None),
                    }
                },
                None => (st, None),
            }
        },
        _ => (st, None),
    }
}

impl<'a> Translator<'a> {
    pub(crate) fn map_entry_store(
        &mut self,
        cx: &Ctx,
        e: &Expr,
        val_expr: &str,
    ) -> (r: Option<String>)
        ensures
            final(self).env() == old(self).env(),
            map_entry_store_spec(
                old(self).env(),
                old(self).st(),
                cx@,
                e@,
                val_expr@,
            ) == (final(self).st(), opt_text(r)),
    {
        proof {
            reveal(map_entry_store_spec);
        }
        match e {
            Expr::IndexAccess { base, index } => {
                match map_value(&self.static_type(cx, base)) {
                    Some(v) => {
                        let found = self.hashmap_base_slot_expr(cx, base);
                        match found {
                            Some(base_slot) => {
                                let idx = self.translate_expr(cx, index);
                                let code = self.store_map_value(
                                    &v,
                                    cat5(
                                        "gum_hash_slot(",
                                        idx.as_str(),
                                        ", ",
                                        base_slot.as_str(),
                                        ")",
                                    ).as_str(),
                                    val_expr,
                                    self.hashmap_transient(cx, base),
                                );
                                Some(cat2(code.as_str(), "\n"))
                            },
                            None => None,
                        }
                    },
                    None => None,
                }
            },
            _ => None,
        }
    }
}

#[verifier::opaque]
pub open spec fn storage_element_store_spec(
    g: EnvV,
    st: StV,
    cx: CtxV,
    e: ExprV,
    val_expr: Seq<char>,
) -> (StV, Option<Seq<char>>) {
    match e {
        ExprV::IndexAccess { base, index } => {
            match storage_array_info_spec(g, cx, *base) {
                Some((base_slot, elem_size, len, tr)) => {
                    let (st, idx) = translate_expr_spec(g, st, cx, *index);
                    let (st, code) = storage_array_set_spec(
                        g,
                        st,
                        base_slot,
                        elem_size,
                        len,
                        idx,
                        val_expr,
                        tr,
                    );
                    (st, Some(code))
                },
                None => {
                    let (st, found) = dyn_storage_array_spec(g, st, cx, *base);
                    match found {
                        Some((slot, elem_size, tr)) => {
                            let (st, idx) = translate_expr_spec(g, st, cx, *index);
                            let (st, code) = dyn_array_set_spec(
                                g,
                                st,
                                slot,
                                elem_size,
                                idx,
                                val_expr,
                                tr,
                            );
                            (st, Some(code))
                        },
                        None => (st, None),
                    }
                },
            }
        },
        _ => (st, None),
    }
}

impl<'a> Translator<'a> {
    pub(crate) fn storage_element_store(
        &mut self,
        cx: &Ctx,
        e: &Expr,
        val_expr: &str,
    ) -> (r: Option<String>)
        ensures
            final(self).env() == old(self).env(),
            storage_element_store_spec(
                old(self).env(),
                old(self).st(),
                cx@,
                e@,
                val_expr@,
            ) == (final(self).st(), opt_text(r)),
    {
        proof {
            reveal(storage_element_store_spec);
        }
        match e {
            Expr::IndexAccess { base, index } => {
                match self.storage_array_info(cx, base) {
                    Some((base_slot, elem_size, len, tr)) => {
                        let idx = self.translate_expr(cx, index);
                        let code = self.storage_array_set(
                            base_slot,
                            elem_size,
                            len,
                            idx.as_str(),
                            val_expr,
                            tr,
                        );
                        return Some(code);
                    },
                    None => {},
                }
                let found = self.dyn_storage_array(cx, base);
                match found {
                    Some((slot, elem_size, tr)) => {
                        let idx = self.translate_expr(cx, index);
                        let code = self.dyn_array_set(
                            slot.as_str(),
                            elem_size,
                            idx.as_str(),
                            val_expr,
                            tr,
                        );
                        Some(code)
                    },
                    None => None,
                }
            },
            _ => None,
        }
    }
}

/// Whether the elements of an array hold the value itself.
pub open spec fn element_inline_spec(g: EnvV, cx: CtxV, e: ExprV) -> bool {
    match static_type_spec(g, cx, e) {
        TypeV::Array(inner) => elem_is_inline_spec(g, *inner),
        TypeV::FixedArray(inner, _) => elem_is_inline_spec(g, *inner),
        _ => false,
    }
}

impl<'a> Translator<'a> {
    pub(crate) fn element_inline(&self, cx: &Ctx, e: &Expr) -> (r: bool)
        ensures
            r == element_inline_spec(self.env(), cx@, e@),
    {
        match &self.static_type(cx, e) {
            Type::Array(inner) => self.elem_is_inline(inner),
            Type::FixedArray(inner, _) => self.elem_is_inline(inner),
            _ => false,
        }
    }
}

/// Stores into an element.
#[verifier::opaque]
pub open spec fn translate_index_store_spec(
    g: EnvV,
    st: StV,
    cx: CtxV,
    e: ExprV,
    val_expr: Seq<char>,
) -> (StV, Seq<char>) {
    match e {
        ExprV::IndexAccess { base, index } => {
            let (st, found) = map_entry_store_spec(g, st, cx, e, val_expr);
            match found {
                Some(s) => (st, s),
                None => {
                    let (st, found) = storage_element_store_spec(g, st, cx, e, val_expr);
                    match found {
                        Some(s) => (st, s),
                        None => {
                            let (st, i) = translate_expr_spec(g, st, cx, *index);
                            let (st, pair) = mem_array_addr_spec(g, st, cx, *base, i);
                            let addr = pair.0;
                            let stride = pair.1;
                            let (st, id) = next_spec(st);
                            let av = "__ma_"@ + dec(id as nat);
                            if element_inline_spec(g, cx, *base) {
                                (
                                    st,
                                    "let "@ + av + " := "@ + addr + "\ngum_memory_copy("@ + val_expr + ", "@ + av + ", "@ + dec(
                                        stride as nat
                                    ) + ")\n"@,
                                )
                            } else if stride >= 32usize {
                                (
                                    st,
                                    "let "@ + av + " := "@ + addr + "\nmstore("@ + av + ", "@ + val_expr + ")\n"@,
                                )
                            } else {
                                (
                                    st,
                                    "let "@ + av + " := "@ + addr + "\nmstore("@ + av + ", "@ + write_packed_spec(
                                        "mload("@ + av + ")"@,
                                        0usize,
                                        stride,
                                        val_expr,
                                    ) + ")\n"@,
                                )
                            }
                        },
                    }
                },
            }
        },
        _ => (st, ""@),
    }
}

impl<'a> Translator<'a> {
    pub(crate) fn translate_index_store(
        &mut self,
        cx: &Ctx,
        e: &Expr,
        val_expr: &str,
    ) -> (r: String)
        ensures
            final(self).env() == old(self).env(),
            translate_index_store_spec(
                old(self).env(),
                old(self).st(),
                cx@,
                e@,
                val_expr@,
            ) == (final(self).st(), r@),
    {
        proof {
            reveal(translate_index_store_spec);
        }
        match e {
            Expr::IndexAccess { base, index } => {
                let found = self.map_entry_store(cx, e, val_expr);
                match found {
                    Some(s) => {
                        return s;
                    },
                    None => {},
                }
                let found = self.storage_element_store(cx, e, val_expr);
                match found {
                    Some(s) => {
                        return s;
                    },
                    None => {},
                }
                let i = self.translate_expr(cx, index);
                let (addr, stride) = self.mem_array_addr(cx, base, i.as_str());
                let id = self.next_literal_id();
                let av = cat2("__ma_", dec_text(id).as_str());
                if self.element_inline(cx, base) {
                    return cat3(
                        cat9(
                            "let ",
                            av.as_str(),
                            " := ",
                            addr.as_str(),
                            "\ngum_memory_copy(",
                            val_expr,
                            ", ",
                            av.as_str(),
                            ", ",
                        ).as_str(),
                        dec_text(stride).as_str(),
                        ")\n",
                    );
                }
                if stride >= 32 {
                    return cat9(
                        "let ",
                        av.as_str(),
                        " := ",
                        addr.as_str(),
                        "\nmstore(",
                        av.as_str(),
                        ", ",
                        val_expr,
                        ")\n",
                    );
                }
                cat9(
                    "let ",
                    av.as_str(),
                    " := ",
                    addr.as_str(),
                    "\nmstore(",
                    av.as_str(),
                    ", ",
                    write_packed(
                        cat3("mload(", av.as_str(), ")").as_str(),
                        0,
                        stride,
                        val_expr,
                    ).as_str(),
                    ")\n",
                )
            },
            _ => String::from_str(""),
        }
    }
}

pub open spec fn set_sender_src_spec() -> Seq<char> {
    "function __vm_set_sender(a0) {\n    let p := allocate_memory(36)\n    mstore(p, shl(224, 0x06447d56))\n    mstore(add(p, 4), a0)\n    pop(call(gas(), 0x7109709ECfa91a80626fF3989D68f67F5b1DD12D, 0, p, 36, 0, 0))\n}\n"@
}

pub(crate) fn set_sender_src() -> (r: String)
    ensures
        r@ == set_sender_src_spec(),
{
    String::from_str(
        "function __vm_set_sender(a0) {\n    let p := allocate_memory(36)\n    mstore(p, shl(224, 0x06447d56))\n    mstore(add(p, 4), a0)\n    pop(call(gas(), 0x7109709ECfa91a80626fF3989D68f67F5b1DD12D, 0, p, 36, 0, 0))\n}\n"
    )
}

/// Whether a target is the sender of the calls that follow in a test.
pub open spec fn is_vm_sender_spec(e: ExprV) -> bool {
    match e {
        ExprV::PropertyAccess { base, property } => is_ident_spec(
            *base,
            "Vm"@,
        ) && property == "sender"@,
        _ => false,
    }
}

pub(crate) fn is_vm_sender(e: &Expr) -> (r: bool)
    ensures
        r == is_vm_sender_spec(e@),
{
    match e {
        Expr::PropertyAccess { base, property } => is_ident(base, "Vm") && same(
            property.as_str(),
            "sender",
        ),
        _ => false,
    }
}

/// A statement that stores a value into a target.
#[verifier::opaque]
pub open spec fn store_to_spec(
    g: EnvV,
    st: StV,
    cx: CtxV,
    target: ExprV,
    val_expr: Seq<char>,
) -> (StV, Seq<char>) {
    match target {
        ExprV::Identifier(name) => (st, name + " := "@ + val_expr + "\n"@),
        ExprV::PropertyAccess { .. } => {
            if is_vm_sender_spec(target) {
                let st = ensure_spec(st, "__vm_set_sender"@, set_sender_src_spec());
                (st, "__vm_set_sender("@ + val_expr + ")\n"@)
            } else {
                translate_property_store_spec(g, st, cx, target, val_expr)
            }
        },
        ExprV::IndexAccess { .. } => translate_index_store_spec(g, st, cx, target, val_expr),
        _ => (st, "/* invalid assignment target */\n"@),
    }
}

impl<'a> Translator<'a> {
    pub(crate) fn store_to(&mut self, cx: &Ctx, target: &Expr, val_expr: &str) -> (r: String)
        ensures
            final(self).env() == old(self).env(),
            store_to_spec(
                old(self).env(),
                old(self).st(),
                cx@,
                target@,
                val_expr@,
            ) == (final(self).st(), r@),
    {
        proof {
            reveal(store_to_spec);
        }
        match target {
            Expr::Identifier(name) => cat4(name.as_str(), " := ", val_expr, "\n"),
            Expr::PropertyAccess { .. } => {
                if is_vm_sender(target) {
                    self.ensure_helper("__vm_set_sender", set_sender_src());
                    return cat3("__vm_set_sender(", val_expr, ")\n");
                }
                self.translate_property_store(cx, target, val_expr)
            },
            Expr::IndexAccess { .. } => self.translate_index_store(cx, target, val_expr),
            _ => String::from_str("/* invalid assignment target */\n"),
        }
    }
}

#[verifier::opaque]
pub open spec fn clear_string_spec(
    g: EnvV,
    st: StV,
    slot: Seq<char>,
    tr: bool,
) -> (StV, Seq<char>) {
    let st = ensure_spec(st, "gum_sstr_base"@, gum_sstr_base_src());
    let st = ensure_spec(st, "gum_sstr_clear"@ + kind_suffix_spec(tr), gum_sstr_clear_src(tr));
    (st, "gum_sstr_clear"@ + kind_suffix_spec(tr) + "("@ + slot + ")\n"@)
}

impl<'a> Translator<'a> {
    pub(crate) fn clear_string(&mut self, slot: &str, tr: bool) -> (r: String)
        ensures
            final(self).env() == old(self).env(),
            clear_string_spec(old(self).env(), old(self).st(), slot@, tr) == (final(self).st(), r@),
    {
        proof {
            reveal(clear_string_spec);
        }
        self.ensure_helper("gum_sstr_base", gum_sstr_base_helper_src());
        self.ensure_helper(
            cat2("gum_sstr_clear", kind_suffix(tr)).as_str(),
            gum_sstr_clear_helper_src(tr),
        );
        cat5("gum_sstr_clear", kind_suffix(tr), "(", slot, ")\n")
    }
}

#[verifier::opaque]
pub open spec fn delete_map_string_spec(
    g: EnvV,
    st: StV,
    cx: CtxV,
    e: ExprV,
) -> (StV, Option<Seq<char>>) {
    let (st, found) = hashmap_entry_slot_spec(g, st, cx, e);
    match found {
        Some((slot, t, tr)) => {
            if str_type(t) {
                let (st, code) = clear_string_spec(g, st, slot, tr);
                (st, Some(code))
            } else {
                (st, None)
            }
        },
        None => (st, None),
    }
}

impl<'a> Translator<'a> {
    pub(crate) fn delete_map_string(&mut self, cx: &Ctx, e: &Expr) -> (r: Option<String>)
        ensures
            final(self).env() == old(self).env(),
            delete_map_string_spec(
                old(self).env(),
                old(self).st(),
                cx@,
                e@,
            ) == (final(self).st(), opt_text(r)),
    {
        proof {
            reveal(delete_map_string_spec);
        }
        let found = self.hashmap_entry_slot(cx, e);
        match found {
            Some((slot, t, tr)) => {
                if is_str_type(&t) {
                    let code = self.clear_string(slot.as_str(), tr);
                    return Some(code);
                }
                None
            },
            None => None,
        }
    }
}

#[verifier::opaque]
pub open spec fn delete_dyn_array_spec(
    g: EnvV,
    st: StV,
    cx: CtxV,
    e: ExprV,
) -> (StV, Option<Seq<char>>) {
    let (st, found) = dyn_storage_array_spec(g, st, cx, e);
    match found {
        Some((slot, elem_size, tr)) => {
            let (per, es) = pack_spec(elem_size);
            let st = ensure_spec(st, "arr_data_base"@, arr_data_base_src());
            let st = ensure_spec(st, "dpk_clear"@ + kind_suffix_spec(tr), dpk_clear_src(tr));
            (
                st,
                Some(
                    "dpk_clear"@
                    + kind_suffix_spec(tr)
                    + "("@
                    + slot
                    + ", "@
                    + dec(per as nat)
                    + ", "@
                    + dec(es as nat)
                    + ")\n"@
                ),
            )
        },
        None => (st, None),
    }
}

impl<'a> Translator<'a> {
    pub(crate) fn delete_dyn_array(&mut self, cx: &Ctx, e: &Expr) -> (r: Option<String>)
        ensures
            final(self).env() == old(self).env(),
            delete_dyn_array_spec(
                old(self).env(),
                old(self).st(),
                cx@,
                e@,
            ) == (final(self).st(), opt_text(r)),
    {
        proof {
            reveal(delete_dyn_array_spec);
        }
        let found = self.dyn_storage_array(cx, e);
        match found {
            Some((slot, elem_size, tr)) => {
                let (per, es) = pack_params(elem_size);
                self.ensure_helper("arr_data_base", arr_data_base_helper_src());
                self.ensure_helper(
                    cat2("dpk_clear", kind_suffix(tr)).as_str(),
                    dpk_clear_helper_src(tr),
                );
                Some(
                    cat9(
                        "dpk_clear",
                        kind_suffix(tr),
                        "(",
                        slot.as_str(),
                        ", ",
                        dec_text(per).as_str(),
                        ", ",
                        dec_text(es).as_str(),
                        ")\n",
                    )
                )
            },
            None => None,
        }
    }
}

#[verifier::opaque]
pub open spec fn delete_string_field_spec(
    g: EnvV,
    st: StV,
    cx: CtxV,
    e: ExprV,
) -> (StV, Option<Seq<char>>) {
    match resolve_storage_field_named_spec(g, cx, e) {
        Some((class_name, property, sf)) => {
            if field_is_str_spec(g, class_name, property) {
                let (st, code) = clear_string_spec(g, st, dec(sf.slot as nat), sf.is_transient);
                (st, Some(code))
            } else {
                (st, None)
            }
        },
        None => (st, None),
    }
}

impl<'a> Translator<'a> {
    pub(crate) fn delete_string_field(&mut self, cx: &Ctx, e: &Expr) -> (r: Option<String>)
        ensures
            final(self).env() == old(self).env(),
            delete_string_field_spec(
                old(self).env(),
                old(self).st(),
                cx@,
                e@,
            ) == (final(self).st(), opt_text(r)),
    {
        proof {
            reveal(delete_string_field_spec);
        }
        match self.resolve_storage_field_named(cx, e) {
            Some((class_name, property, sf)) => {
                if self.field_is_str(class_name.as_str(), property.as_str()) {
                    let code = self.clear_string(dec_text(sf.slot).as_str(), sf.is_transient);
                    return Some(code);
                }
                None
            },
            None => None,
        }
    }
}

/// How many slots `n` elements take, `per` to a group of `es` slots.
pub open spec fn group_slots(n: usize, per: usize, es: usize) -> usize {
    let groups: usize = if n % per == 0 {
        n / per
    } else {
        (n / per + 1) as usize
    };
    groups.wrapping_mul(es)
}

/// Zeroes `n` slots from `base` on.
pub open spec fn zero_slots(base: usize, tr: bool, n: nat) -> Seq<char>
    decreases n,
{
    if n == 0 {
        Seq::empty()
    } else {
        zero_slots(base, tr, (n - 1) as nat) + st_op_spec(tr) + "("@ + dec(
            base as nat + (n - 1) as nat,
        ) + ", 0)\n"@
    }
}

fn group_count(n: usize, per: usize, es: usize) -> (r: usize)
    requires
        per > 0,
    ensures
        r == group_slots(n, per, es),
{
    let groups: usize = if n % per == 0 {
        n / per
    } else {
        assert(n / per < usize::MAX) by (nonlinear_arith)
            requires
                per > 0,
                n % per != 0,
                n <= usize::MAX,
        {
            if per == 1 {
                assert(n % per == 0);
            } else {
                assert(n / per <= n / 2);
            }
        }
        n / per + 1
    };
    groups.wrapping_mul(es)
}

fn zero_slots_text(base: usize, tr: bool, n: usize) -> (r: String)
    ensures
        r@ == zero_slots(base, tr, n as nat),
{
    let mut out = String::new();
    let mut i: usize = 0;
    while i < n
        invariant
            i <= n,
            out@ == zero_slots(base, tr, i as nat),
        decreases n - i,
    {
        out.append(st_op(tr));
        out.append("(");
        out.append(dec_sum(base, i).as_str());
        out.append(", 0)\n");
        i += 1;
    }
    out
}

/// Where `x` goes in an ascending list, from position `i` on.
pub open spec fn slot_place(s: Seq<usize>, x: usize, i: int) -> int
    decreases s.len() - i,
{
    if i >= s.len() || s[i] >= x {
        i
    } else {
        slot_place(s, x, i + 1)
    }
}

/// An ascending list with `x` in its place, once.
pub open spec fn add_slot(s: Seq<usize>, x: usize) -> Seq<usize> {
    let i = slot_place(s, x, 0);
    if i < s.len() && s[i] == x {
        s
    } else {
        s.insert(i, x)
    }
}

/// The list with `n` slots from `from` on.
pub open spec fn add_span(s: Seq<usize>, from: usize, n: nat) -> Seq<usize>
    decreases n,
{
    if n == 0 {
        s
    } else {
        add_slot(add_span(s, from, (n - 1) as nat), from.wrapping_add((n - 1) as usize))
    }
}

/// The slots that the first `n` fields of a struct take.
pub open spec fn struct_slots(g: EnvV, name: Seq<char>, fs: Seq<FieldV>, n: nat) -> Seq<usize>
    decreases n,
{
    if n == 0 {
        Seq::empty()
    } else {
        let s = struct_slots(g, name, fs, (n - 1) as nat);
        match field_in(g.lay.structs, name, fs[n - 1].name) {
            Some(sf) => add_span(
                s,
                sf.slot,
                at_least_one(words(sf.offset_in_slot.wrapping_add(sf.size) as nat) as usize) as nat,
            ),
            None => s,
        }
    }
}

proof fn lemma_slot_place(s: Seq<usize>, x: usize, i: int)
    requires
        0 <= i <= s.len(),
    ensures
        i <= slot_place(s, x, i) <= s.len(),
    decreases s.len() - i,
{
    if i < s.len() && s[i] < x {
        lemma_slot_place(s, x, i + 1);
    }
}

fn insert_slot(s: &mut Vec<usize>, x: usize)
    ensures
        final(s)@ == add_slot(old(s)@, x),
{
    let ghost s0 = s@;
    let mut i: usize = 0;
    while i < s.len() && s[i] < x
        invariant
            s@ == s0,
            i <= s@.len(),
            slot_place(s0, x, 0) == slot_place(s0, x, i as int),
        decreases s@.len() - i,
    {
        i += 1;
    }
    if i < s.len() && s[i] == x {
        return;
    }
    s.insert(i, x);
}

impl<'a> Translator<'a> {
    fn slots_of_struct(&self, name: &str) -> (r: Vec<usize>)
        ensures
            r@ == (match class_of_spec(self.env(), name@) {
                Some(c) => struct_slots(self.env(), name@, c.fields, c.fields.len()),
                None => Seq::empty(),
            }),
    {
        let mut out: Vec<usize> = Vec::new();
        let class = match self.class_of(name) {
            Some(c) => c,
            None => {
                return out;
            },
        };
        let ghost g = self.env();
        let ghost fs = fields_v(class.fields@);
        let mut i: usize = 0;
        while i < class.fields.len()
            invariant
                i <= class.fields@.len(),
                g == self.env(),
                fs == fields_v(class.fields@),
                out@ == struct_slots(g, name@, fs, i as nat),
            decreases class.fields@.len() - i,
        {
            let f = &class.fields[i];
            assert(fs[i as int] == f@);
            match self.layout_engine.struct_storage_field(name, f.name.as_str()) {
                Some(sf) => {
                    let span = max_one(word_count(sf.offset_in_slot.wrapping_add(sf.size)));
                    let ghost before = out@;
                    let mut k: usize = 0;
                    while k < span
                        invariant
                            k <= span,
                            out@ == add_span(before, sf.slot, k as nat),
                        decreases span - k,
                    {
                        insert_slot(&mut out, sf.slot.wrapping_add(k));
                        k += 1;
                    }
                },
                None => {},
            }
            i += 1;
        }
        out
    }
}

/// Zeroes the first `n` of the listed slots, counted from the variable `bv`.
pub open spec fn zero_listed(bv: Seq<char>, s: Seq<usize>, tr: bool, n: nat) -> Seq<char>
    decreases n,
{
    if n == 0 {
        Seq::empty()
    } else {
        zero_listed(bv, s, tr, (n - 1) as nat) + st_op_spec(tr) + (if s[n - 1] == 0 {
            "("@ + bv + ", 0)\n"@
        } else {
            "(add("@ + bv + ", "@ + dec(s[n - 1] as nat) + "), 0)\n"@
        })
    }
}

fn zero_listed_text(bv: &str, s: &Vec<usize>, tr: bool) -> (r: String)
    ensures
        r@ == zero_listed(bv@, s@, tr, s@.len()),
{
    let mut out = String::new();
    let mut i: usize = 0;
    while i < s.len()
        invariant
            i <= s@.len(),
            out@ == zero_listed(bv@, s@, tr, i as nat),
        decreases s@.len() - i,
    {
        out.append(st_op(tr));
        if s[i] == 0 {
            out.append(cat3("(", bv, ", 0)\n").as_str());
        } else {
            out.append(cat5("(add(", bv, ", ", dec_text(s[i]).as_str(), "), 0)\n").as_str());
        }
        i += 1;
    }
    out
}

/// Zeroes the first `n` words that `pv` points at.
pub open spec fn zero_words(pv: Seq<char>, n: nat) -> Seq<char>
    decreases n,
{
    if n == 0 {
        Seq::empty()
    } else {
        zero_words(pv, (n - 1) as nat) + "mstore(add("@ + pv + ", "@ + dec((n - 1) as nat * 32)
            + "), 0)\n"@
    }
}

/// Zeroes `bytes` bytes that `pv` points at; a part of a word keeps the rest of it.
pub open spec fn zero_bytes(pv: Seq<char>, bytes: usize) -> Seq<char> {
    let n = bytes as nat / 32;
    let rem = bytes as int % 32;
    let addr = "add("@ + pv + ", "@ + dec(n * 32) + ")"@;
    zero_words(pv, n) + (if rem > 0 {
        "mstore("@ + addr + ", "@ + write_packed_spec(
            "mload("@ + addr + ")"@,
            0,
            rem as usize,
            "0"@,
        ) + ")\n"@
    } else {
        Seq::empty()
    })
}

fn zero_bytes_text(pv: &str, bytes: usize) -> (r: String)
    ensures
        r@ == zero_bytes(pv@, bytes),
{
    let n: usize = bytes / 32;
    let mut out = String::new();
    let mut i: usize = 0;
    while i < n
        invariant
            i <= n,
            out@ == zero_words(pv@, i as nat),
        decreases n - i,
    {
        out.append("mstore(add(");
        out.append(pv);
        out.append(", ");
        out.append(dec_mul(i, 32).as_str());
        out.append("), 0)\n");
        i += 1;
    }
    let rem: usize = bytes % 32;
    let tail = if rem > 0 {
        let addr = cat5("add(", pv, ", ", dec_mul(n, 32).as_str(), ")");
        let load = cat3("mload(", addr.as_str(), ")");
        cat5(
            "mstore(",
            addr.as_str(),
            ", ",
            write_packed(load.as_str(), 0, rem, "0").as_str(),
            ")\n",
        )
    } else {
        String::new()
    };
    cat2(out.as_str(), tail.as_str())
}

pub open spec fn zero_struct(g: EnvV, bv: Seq<char>, name: Seq<char>, tr: bool) -> Seq<char> {
    match class_of_spec(g, name) {
        Some(c) => {
            let s = struct_slots(g, name, c.fields, c.fields.len());
            zero_listed(bv, s, tr, s.len())
        },
        None => Seq::empty(),
    }
}

/// Whether a struct takes any slots.
pub open spec fn has_slots_spec(g: EnvV, name: Seq<char>) -> bool {
    match class_of_spec(g, name) {
        Some(c) => struct_slots(g, name, c.fields, c.fields.len()).len() > 0,
        None => false,
    }
}

impl<'a> Translator<'a> {
    fn zero_struct_text(&self, bv: &str, name: &str, tr: bool) -> (r: String)
        ensures
            r@ == zero_struct(self.env(), bv@, name@, tr),
    {
        let s = self.slots_of_struct(name);
        zero_listed_text(bv, &s, tr)
    }

    fn has_slots(&self, name: &str) -> (r: bool)
        ensures
            r == has_slots_spec(self.env(), name@),
    {
        self.slots_of_struct(name).len() > 0
    }
}

pub open spec fn delete_fixed_array_spec(g: EnvV, cx: CtxV, e: ExprV) -> Option<Seq<char>> {
    match storage_array_info_spec(g, cx, e) {
        Some((base_slot, elem_size, n, tr)) => {
            let (per, es) = pack_spec(elem_size);
            Some(zero_slots(base_slot, tr, group_slots(n, per, es) as nat))
        },
        None => None,
    }
}

impl<'a> Translator<'a> {
    pub(crate) fn delete_fixed_array(&self, cx: &Ctx, e: &Expr) -> (r: Option<String>)
        ensures
            opt_text(r) == delete_fixed_array_spec(self.env(), cx@, e@),
    {
        proof {
            reveal_with_fuel(Expr::view, 2);
        }
        match self.storage_array_info(cx, e) {
            Some((base_slot, elem_size, n, tr)) => {
                let (per, es) = pack_params(elem_size);
                Some(zero_slots_text(base_slot, tr, group_count(n, per, es)))
            },
            None => None,
        }
    }
}

#[verifier::opaque]
pub open spec fn delete_struct_spec(
    g: EnvV,
    st: StV,
    cx: CtxV,
    e: ExprV,
) -> (StV, Option<Seq<char>>) {
    let (st, found) = struct_storage_base_spec(g, st, cx, e);
    match found {
        Some((base_slot, name)) => {
            if !has_slots_spec(g, name) {
                (st, None)
            } else {
                let (st, tr) = struct_base_transient_spec(g, st, cx, e);
                let (st, id) = next_spec(st);
                let bv = "__del_"@ + dec(id as nat);
                (
                    st,
                    Some("let "@ + bv + " := "@ + base_slot + "\n"@ + zero_struct(g, bv, name, tr)),
                )
            }
        },
        None => (st, None),
    }
}

impl<'a> Translator<'a> {
    pub(crate) fn delete_struct(&mut self, cx: &Ctx, e: &Expr) -> (r: Option<String>)
        ensures
            final(self).env() == old(self).env(),
            delete_struct_spec(
                old(self).env(),
                old(self).st(),
                cx@,
                e@,
            ) == (final(self).st(), opt_text(r)),
    {
        proof {
            reveal(delete_struct_spec);
        }
        let found = self.struct_storage_base(cx, e);
        match found {
            Some((base_slot, name)) => {
                if !self.has_slots(name.as_str()) {
                    return None;
                }
                let tr = self.struct_base_transient(cx, e);
                let id = self.next_literal_id();
                let bv = cat2("__del_", dec_text(id).as_str());
                Some(
                    cat6(
                        "let ",
                        bv.as_str(),
                        " := ",
                        base_slot.as_str(),
                        "\n",
                        self.zero_struct_text(bv.as_str(), name.as_str(), tr).as_str(),
                    )
                )
            },
            None => None,
        }
    }
}

/// A local that owns memory has that memory zeroed.
#[verifier::opaque]
pub open spec fn delete_local_spec(
    g: EnvV,
    st: StV,
    cx: CtxV,
    e: ExprV,
) -> (StV, Option<Seq<char>>) {
    match e {
        ExprV::Identifier(_) => {
            match fresh_local_bytes_spec(g, static_type_spec(g, cx, e)) {
                Some(bytes) => {
                    let (st, p) = translate_expr_spec(g, st, cx, e);
                    let (st, id) = next_spec(st);
                    let pv = "__delp_"@ + dec(id as nat);
                    (st, Some("let "@ + pv + " := "@ + p + "\n"@ + zero_bytes(pv, bytes)))
                },
                None => (st, None),
            }
        },
        _ => (st, None),
    }
}

impl<'a> Translator<'a> {
    pub(crate) fn delete_local(&mut self, cx: &Ctx, e: &Expr) -> (r: Option<String>)
        ensures
            final(self).env() == old(self).env(),
            delete_local_spec(
                old(self).env(),
                old(self).st(),
                cx@,
                e@,
            ) == (final(self).st(), opt_text(r)),
    {
        proof {
            reveal(delete_local_spec);
        }
        match e {
            Expr::Identifier(_) => {
                match self.fresh_local_bytes(&self.static_type(cx, e)) {
                    Some(bytes) => {
                        let p = self.translate_expr(cx, e);
                        let id = self.next_literal_id();
                        let pv = cat2("__delp_", dec_text(id).as_str());
                        Some(
                            cat6(
                                "let ",
                                pv.as_str(),
                                " := ",
                                p.as_str(),
                                "\n",
                                zero_bytes_text(pv.as_str(), bytes).as_str(),
                            )
                        )
                    },
                    None => None,
                }
            },
            _ => None,
        }
    }
}

/// Resets a target to the zero value of its type.
#[verifier::opaque]
pub open spec fn translate_delete_spec(
    g: EnvV,
    st: StV,
    cx: CtxV,
    target: ExprV,
) -> (StV, Seq<char>) {
    let (st, found) = delete_map_string_spec(g, st, cx, target);
    match found {
        Some(s) => (st, s),
        None => {
            let (st, found) = delete_dyn_array_spec(g, st, cx, target);
            match found {
                Some(s) => (st, s),
                None => {
                    let (st, found) = delete_string_field_spec(g, st, cx, target);
                    match found {
                        Some(s) => (st, s),
                        None => {
                            match delete_fixed_array_spec(g, cx, target) {
                                Some(s) => (st, s),
                                None => {
                                    let (st, found) = delete_struct_spec(g, st, cx, target);
                                    match found {
                                        Some(s) => (st, s),
                                        None => {
                                            let (st, found) = delete_local_spec(g, st, cx, target);
                                            match found {
                                                Some(s) => (st, s),
                                                None => store_to_spec(g, st, cx, target, "0"@),
                                            }
                                        },
                                    }
                                },
                            }
                        },
                    }
                },
            }
        },
    }
}

impl<'a> Translator<'a> {
    pub(crate) fn translate_delete(&mut self, cx: &Ctx, target: &Expr) -> (r: String)
        ensures
            final(self).env() == old(self).env(),
            translate_delete_spec(
                old(self).env(),
                old(self).st(),
                cx@,
                target@,
            ) == (final(self).st(), r@),
    {
        proof {
            reveal(translate_delete_spec);
        }
        let found = self.delete_map_string(cx, target);
        match found {
            Some(s) => {
                return s;
            },
            None => {},
        }
        let found = self.delete_dyn_array(cx, target);
        match found {
            Some(s) => {
                return s;
            },
            None => {},
        }
        let found = self.delete_string_field(cx, target);
        match found {
            Some(s) => {
                return s;
            },
            None => {},
        }
        match self.delete_fixed_array(cx, target) {
            Some(s) => {
                return s;
            },
            None => {},
        }
        let found = self.delete_struct(cx, target);
        match found {
            Some(s) => {
                return s;
            },
            None => {},
        }
        let found = self.delete_local(cx, target);
        match found {
            Some(s) => {
                return s;
            },
            None => {},
        }
        self.store_to(cx, target, "0")
    }
}

} // verus!
