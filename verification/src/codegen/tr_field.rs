//! Reading and writing fields, in storage and in memory.
use crate::codegen::helpers::{
    bytes_copy_helper_src, bytes_copy_src, gum_sstr_base_helper_src, gum_sstr_base_src,
    gum_sstr_load_helper_src, gum_sstr_load_src, gum_sstr_store_helper_src, gum_sstr_store_src,
    gum_str_len_helper_src, gum_str_len_src,
};
use crate::codegen::packing::{MemoryField, StorageField};
use crate::codegen::tr_types::{sign_extend_read, sign_extend_read_spec};
use crate::codegen::translator::{ensure_spec, field_type_spec, next_spec, EnvV, StV, Translator};
use crate::codegen::yul::{
    is_str_type, kind_suffix, kind_suffix_spec, ld_op, ld_op_spec, read_packed, read_packed_spec,
    read_slot_packed, read_slot_spec, st_op, st_op_spec, str_type, word_count, words,
    write_packed, write_packed_spec, write_slot_packed, write_slot_spec,
};
use crate::text::{cat2, cat3, cat4, cat5, cat6, cat7, dec, dec_mul, dec_sum, dec_text};
use vstd::prelude::*;

verus! {

broadcast use crate::ast::group_views;

pub open spec fn field_is_str_spec(g: EnvV, class_name: Seq<char>, property: Seq<char>) -> bool {
    match field_type_spec(g, class_name, property) {
        Some(t) => str_type(t),
        None => false,
    }
}

impl<'a> Translator<'a> {
    pub(crate) fn field_is_str(&self, class_name: &str, property: &str) -> (r: bool)
        ensures
            r == field_is_str_spec(self.env(), class_name@, property@),
    {
        match self.field_type(class_name, property) {
            Some(t) => is_str_type(&t),
            None => false,
        }
    }
}

/// Loads the first `n` words of a field into memory.
pub open spec fn load_words(slot: usize, tr: bool, n: nat) -> Seq<char>
    decreases n,
{
    if n == 0 {
        Seq::empty()
    } else {
        load_words(slot, tr, (n - 1) as nat) + "    mstore(add(ptr, "@ + dec(
            (n - 1) as nat * 32,
        ) + "), "@ + ld_op_spec(tr) + "("@ + dec(slot as nat + (n - 1) as nat) + "))\n"@
    }
}

/// A function that copies a field of `size` bytes into memory.
pub open spec fn load_field_src(name: Seq<char>, slot: usize, size: usize, tr: bool) -> Seq<char> {
    "function "@ + name + "() -> ptr {\n    ptr := allocate_memory("@ + dec(size as nat) + ")\n"@
        + load_words(slot, tr, words(size as nat)) + "}\n"@
}

fn load_field_text(name: &str, slot: usize, size: usize, tr: bool) -> (r: String)
    ensures
        r@ == load_field_src(name@, slot, size, tr),
{
    let n = word_count(size);
    let mut body = String::new();
    let mut i: usize = 0;
    while i < n
        invariant
            i <= n,
            body@ == load_words(slot, tr, i as nat),
        decreases n - i,
    {
        body.append("    mstore(add(ptr, ");
        body.append(dec_mul(i, 32).as_str());
        body.append("), ");
        body.append(ld_op(tr));
        body.append("(");
        body.append(dec_sum(slot, i).as_str());
        body.append("))\n");
        i += 1;
    }
    cat7(
        "function ",
        name,
        "() -> ptr {\n    ptr := allocate_memory(",
        dec_text(size).as_str(),
        ")\n",
        body.as_str(),
        "}\n",
    )
}

/// Stores the first `n` words that `tmp` points at.
pub open spec fn store_words(slot: usize, tmp: Seq<char>, tr: bool, n: nat) -> Seq<char>
    decreases n,
{
    if n == 0 {
        Seq::empty()
    } else {
        store_words(slot, tmp, tr, (n - 1) as nat) + st_op_spec(tr) + "("@ + dec(
            slot as nat + (n - 1) as nat,
        ) + ", mload(add("@ + tmp + ", "@ + dec((n - 1) as nat * 32) + ")))\n"@
    }
}

fn store_words_text(slot: usize, tmp: &str, tr: bool, n: usize) -> (r: String)
    ensures
        r@ == store_words(slot, tmp@, tr, n as nat),
{
    let mut out = String::new();
    let mut i: usize = 0;
    while i < n
        invariant
            i <= n,
            out@ == store_words(slot, tmp@, tr, i as nat),
        decreases n - i,
    {
        out.append(st_op(tr));
        out.append("(");
        out.append(dec_sum(slot, i).as_str());
        out.append(", mload(add(");
        out.append(tmp);
        out.append(", ");
        out.append(dec_mul(i, 32).as_str());
        out.append(")))\n");
        i += 1;
    }
    out
}

/// The value of a storage field: a string or a wide field as a pointer to a
/// copy in memory, anything else as a word.
#[verifier::opaque]
pub open spec fn load_storage_field_spec(
    g: EnvV,
    st: StV,
    class_name: Seq<char>,
    property: Seq<char>,
    sf: StorageField,
) -> (StV, Seq<char>) {
    let tr = sf.is_transient;
    if field_is_str_spec(g, class_name, property) {
        let st = ensure_spec(st, "gum_sstr_base"@, gum_sstr_base_src());
        let st = ensure_spec(st, "gum_sstr_load"@ + kind_suffix_spec(tr), gum_sstr_load_src(tr));
        (st, "gum_sstr_load"@ + kind_suffix_spec(tr) + "("@ + dec(sf.slot as nat) + ")"@)
    } else if sf.size <= 32usize {
        let raw = read_slot_spec(
            ld_op_spec(tr) + "("@ + dec(sf.slot as nat) + ")"@,
            sf.offset_in_slot,
            sf.size,
        );
        match field_type_spec(g, class_name, property) {
            Some(t) => (st, sign_extend_read_spec(t, raw)),
            None => (st, raw),
        }
    } else {
        let fn_name = "__load_"@ + class_name + "_"@ + dec(
            sf.slot as nat
        ) + "_"@ + flag_text_spec(tr);
        let st = ensure_spec(st, fn_name, load_field_src(fn_name, sf.slot, sf.size, tr));
        (st, fn_name + "()"@)
    }
}

impl<'a> Translator<'a> {
    pub(crate) fn load_storage_field(
        &mut self,
        class_name: &str,
        property: &str,
        sf: StorageField,
    ) -> (r: String)
        ensures
            final(self).env() == old(self).env(),
            load_storage_field_spec(
                old(self).env(),
                old(self).st(),
                class_name@,
                property@,
                sf,
            ) == (final(self).st(), r@),
    {
        proof {
            reveal(load_storage_field_spec);
        }
        let tr = sf.is_transient;
        if self.field_is_str(class_name, property) {
            self.ensure_helper("gum_sstr_base", gum_sstr_base_helper_src());
            self.ensure_helper(
                cat2("gum_sstr_load", kind_suffix(tr)).as_str(),
                gum_sstr_load_helper_src(tr),
            );
            return cat5("gum_sstr_load", kind_suffix(tr), "(", dec_text(sf.slot).as_str(), ")");
        }
        if sf.size <= 32 {
            let raw = read_slot_packed(
                cat4(ld_op(tr), "(", dec_text(sf.slot).as_str(), ")").as_str(),
                sf.offset_in_slot,
                sf.size,
            );
            match self.field_type(class_name, property) {
                Some(t) => {
                    return sign_extend_read(&t, raw.as_str());
                },
                None => {
                    return raw;
                },
            }
        }
        let fn_name = cat6(
            "__load_",
            class_name,
            "_",
            dec_text(sf.slot).as_str(),
            "_",
            flag_text(tr).as_str(),
        );
        self.ensure_helper(
            fn_name.as_str(),
            load_field_text(fn_name.as_str(), sf.slot, sf.size, tr),
        );
        cat2(fn_name.as_str(), "()")
    }
}

pub open spec fn flag_text_spec(b: bool) -> Seq<char> {
    if b {
        "true"@
    } else {
        "false"@
    }
}

pub(crate) fn flag_text(b: bool) -> (r: String)
    ensures
        r@ == flag_text_spec(b),
{
    if b {
        String::from_str("true")
    } else {
        String::from_str("false")
    }
}

/// A statement that stores a value into a storage field.
#[verifier::opaque]
pub open spec fn store_storage_field_spec(
    g: EnvV,
    st: StV,
    class_name: Seq<char>,
    property: Seq<char>,
    sf: StorageField,
    val_expr: Seq<char>,
) -> (StV, Seq<char>) {
    let tr = sf.is_transient;
    if field_is_str_spec(g, class_name, property) {
        let st = ensure_spec(st, "gum_str_len"@, gum_str_len_src());
        let st = ensure_spec(st, "gum_sstr_base"@, gum_sstr_base_src());
        let st = ensure_spec(st, "gum_sstr_store"@ + kind_suffix_spec(tr), gum_sstr_store_src(tr));
        (
            st,
            "gum_sstr_store"@ + kind_suffix_spec(tr) + "("@ + dec(
                sf.slot as nat
            ) + ", "@ + val_expr + ")\n"@,
        )
    } else if sf.size > 32usize {
        let (st, id) = next_spec(st);
        let tmp = "__src_"@ + dec(id as nat);
        (
            st,
            "let "@ + tmp + " := "@ + val_expr + "\n"@ + store_words(
                sf.slot,
                tmp,
                tr,
                words(sf.size as nat) as usize as nat,
            ),
        )
    } else if sf.offset_in_slot == 0usize && sf.size == 32usize {
        (st, st_op_spec(tr) + "("@ + dec(sf.slot as nat) + ", "@ + val_expr + ")\n"@)
    } else {
        let merged = write_slot_spec(
            ld_op_spec(tr) + "("@ + dec(sf.slot as nat) + ")"@,
            sf.offset_in_slot,
            sf.size,
            val_expr,
        );
        (st, st_op_spec(tr) + "("@ + dec(sf.slot as nat) + ", "@ + merged + ")\n"@)
    }
}

impl<'a> Translator<'a> {
    pub(crate) fn store_storage_field(
        &mut self,
        class_name: &str,
        property: &str,
        sf: StorageField,
        val_expr: &str,
    ) -> (r: String)
        ensures
            final(self).env() == old(self).env(),
            store_storage_field_spec(
                old(self).env(),
                old(self).st(),
                class_name@,
                property@,
                sf,
                val_expr@,
            ) == (final(self).st(), r@),
    {
        proof {
            reveal(store_storage_field_spec);
        }
        let tr = sf.is_transient;
        if self.field_is_str(class_name, property) {
            self.ensure_helper("gum_str_len", gum_str_len_helper_src());
            self.ensure_helper("gum_sstr_base", gum_sstr_base_helper_src());
            self.ensure_helper(
                cat2("gum_sstr_store", kind_suffix(tr)).as_str(),
                gum_sstr_store_helper_src(tr),
            );
            return cat7(
                "gum_sstr_store",
                kind_suffix(tr),
                "(",
                dec_text(sf.slot).as_str(),
                ", ",
                val_expr,
                ")\n",
            );
        }
        if sf.size > 32 {
            let id = self.next_literal_id();
            let tmp = cat2("__src_", dec_text(id).as_str());
            return cat6(
                "let ",
                tmp.as_str(),
                " := ",
                val_expr,
                "\n",
                store_words_text(sf.slot, tmp.as_str(), tr, word_count(sf.size)).as_str(),
            );
        }
        if sf.offset_in_slot == 0 && sf.size == 32 {
            return cat6(st_op(tr), "(", dec_text(sf.slot).as_str(), ", ", val_expr, ")\n");
        }
        let merged = write_slot_packed(
            cat4(ld_op(tr), "(", dec_text(sf.slot).as_str(), ")").as_str(),
            sf.offset_in_slot,
            sf.size,
            val_expr,
        );
        cat6(st_op(tr), "(", dec_text(sf.slot).as_str(), ", ", merged.as_str(), ")\n")
    }
}

/// The value of a field in memory; a wide field is a pointer to it.
pub open spec fn load_memory_field_spec(base: Seq<char>, mf: MemoryField) -> Seq<char> {
    if mf.size > 32usize {
        "add("@ + base + ", "@ + dec(mf.offset as nat) + ")"@
    } else {
        read_packed_spec(
            "mload(add("@ + base + ", "@ + dec(mf.offset as nat) + "))"@,
            0usize,
            mf.size,
        )
    }
}

pub(crate) fn load_memory_field(base: &str, mf: MemoryField) -> (r: String)
    ensures
        r@ == load_memory_field_spec(base@, mf),
{
    if mf.size > 32 {
        return cat5("add(", base, ", ", dec_text(mf.offset).as_str(), ")");
    }
    read_packed(
        cat5("mload(add(", base, ", ", dec_text(mf.offset).as_str(), "))").as_str(),
        0,
        mf.size,
    )
}

/// A statement that stores a value into a field in memory.
#[verifier::opaque]
pub open spec fn store_memory_field_spec(
    g: EnvV,
    st: StV,
    base: Seq<char>,
    mf: MemoryField,
    val_expr: Seq<char>,
) -> (StV, Seq<char>) {
    let addr = "add("@ + base + ", "@ + dec(mf.offset as nat) + ")"@;
    if mf.size > 32usize {
        let st = ensure_spec(st, "bytes_copy"@, bytes_copy_src());
        (st, "bytes_copy("@ + addr + ", "@ + val_expr + ", "@ + dec(mf.size as nat) + ")\n"@)
    } else if mf.size == 32usize {
        (st, "mstore("@ + addr + ", "@ + val_expr + ")\n"@)
    } else {
        let merged = write_packed_spec("mload("@ + addr + ")"@, 0usize, mf.size, val_expr);
        (st, "mstore("@ + addr + ", "@ + merged + ")\n"@)
    }
}

impl<'a> Translator<'a> {
    pub(crate) fn store_memory_field(
        &mut self,
        base: &str,
        mf: MemoryField,
        val_expr: &str,
    ) -> (r: String)
        ensures
            final(self).env() == old(self).env(),
            store_memory_field_spec(
                old(self).env(),
                old(self).st(),
                base@,
                mf,
                val_expr@,
            ) == (final(self).st(), r@),
    {
        proof {
            reveal(store_memory_field_spec);
        }
        let addr = cat5("add(", base, ", ", dec_text(mf.offset).as_str(), ")");
        if mf.size > 32 {
            self.ensure_helper("bytes_copy", bytes_copy_helper_src());
            return cat7(
                "bytes_copy(",
                addr.as_str(),
                ", ",
                val_expr,
                ", ",
                dec_text(mf.size).as_str(),
                ")\n",
            );
        }
        if mf.size == 32 {
            return cat5("mstore(", addr.as_str(), ", ", val_expr, ")\n");
        }
        let merged = write_packed(
            cat3("mload(", addr.as_str(), ")").as_str(),
            0,
            mf.size,
            val_expr,
        );
        cat5("mstore(", addr.as_str(), ", ", merged.as_str(), ")\n")
    }
}

} // verus!
