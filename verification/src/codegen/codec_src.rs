//! The Yul source of the functions that carry classes across the ABI.
//!
//! On the wire the fields stand in the order of their declaration, one word
//! each; in memory they are packed. So each field is moved on its own.
use crate::ast::{Type, TypeV};
use crate::codegen::yul::{
    opt_text, read_packed, read_packed_spec, write_packed, write_packed_spec,
};
use crate::text::{cat3, cat5, cat6, cat7, cat9, dec, dec_mul, dec_text};
use vstd::prelude::*;

verus! {

broadcast use crate::ast::group_views;

/// A field of a class whose fields are all one word on the wire.
#[derive(Clone, Copy)]
pub struct AbiStructField {
    pub mem_offset: usize,
    pub width: usize,
    pub is_addr: bool,
    pub enum_variants: Option<usize>,
}

/// A field of a class that has a field of dynamic size.
pub struct AbiDynField {
    pub ty: Type,
    pub mem_offset: usize,
    pub width: usize,
    pub is_addr: bool,
    pub is_dynamic: bool,
    pub enum_variants: Option<usize>,
}

/// The view of an [`AbiDynField`].
pub struct DynFieldV {
    pub ty: TypeV,
    pub mem_offset: usize,
    pub width: usize,
    pub is_addr: bool,
    pub is_dynamic: bool,
    pub enum_variants: Option<usize>,
}

impl AbiDynField {
    pub open spec fn view(&self) -> DynFieldV {
        DynFieldV {
            ty: self.ty@,
            mem_offset: self.mem_offset,
            width: self.width,
            is_addr: self.is_addr,
            is_dynamic: self.is_dynamic,
            enum_variants: self.enum_variants,
        }
    }
}

pub open spec fn dyn_fields_v(s: Seq<AbiDynField>) -> Seq<DynFieldV> {
    Seq::new(s.len(), |i: int| s[i]@)
}

pub open spec fn opt_texts(s: Seq<Option<String>>) -> Seq<Option<Seq<char>>> {
    Seq::new(s.len(), |i: int| opt_text(s[i]))
}

/// A tag that no variant has is refused.
pub open spec fn enum_check_spec(raw: Seq<char>, variants: Option<usize>) -> Seq<char> {
    match variants {
        Some(n) => "    if iszero(lt("@ + raw + ", "@ + dec(n as nat) + ")) { revert(0, 0) }\n"@,
        None => ""@,
    }
}

pub(crate) fn enum_check(raw: &str, variants: Option<usize>) -> (r: String)
    ensures
        r@ == enum_check_spec(raw@, variants),
{
    match variants {
        Some(n) => cat5(
            "    if iszero(lt(",
            raw,
            ", ",
            dec_text(n).as_str(),
            ")) { revert(0, 0) }\n",
        ),
        None => String::from_str(""),
    }
}

pub open spec fn masked_address_spec(raw: Seq<char>, is_addr: bool) -> Seq<char> {
    if is_addr {
        "and("@ + raw + ", 0xffffffffffffffffffffffffffffffffffffffff)"@
    } else {
        raw
    }
}

pub(crate) fn masked_address(raw: &str, is_addr: bool) -> (r: String)
    ensures
        r@ == masked_address_spec(raw@, is_addr),
{
    if is_addr {
        cat3("and(", raw, ", 0xffffffffffffffffffffffffffffffffffffffff)")
    } else {
        String::from_str(raw)
    }
}

/// Stores the word `raw` into a packed field.
pub open spec fn abi_st_field_store_spec(
    raw: Seq<char>,
    mem_offset: usize,
    width: usize,
    is_addr: bool,
    variants: Option<usize>,
) -> Seq<char> {
    let check = enum_check_spec(raw, variants);
    let v = masked_address_spec(raw, is_addr);
    let addr = "add(ptr, "@ + dec(mem_offset as nat) + ")"@;
    if width >= 32usize {
        check + "    mstore("@ + addr + ", "@ + v + ")\n"@
    } else {
        check + "    mstore("@ + addr + ", "@ + write_packed_spec(
            "mload("@ + addr + ")"@,
            0usize,
            width,
            v,
        ) + ")\n"@
    }
}

pub(crate) fn abi_st_field_store(
    raw: &str,
    mem_offset: usize,
    width: usize,
    is_addr: bool,
    variants: Option<usize>,
) -> (r: String)
    ensures
        r@ == abi_st_field_store_spec(raw@, mem_offset, width, is_addr, variants),
{
    let check = enum_check(raw, variants);
    let v = masked_address(raw, is_addr);
    let addr = cat3("add(ptr, ", dec_text(mem_offset).as_str(), ")");
    if width >= 32 {
        return cat6(check.as_str(), "    mstore(", addr.as_str(), ", ", v.as_str(), ")\n");
    }
    cat6(
        check.as_str(),
        "    mstore(",
        addr.as_str(),
        ", ",
        write_packed(cat3("mload(", addr.as_str(), ")").as_str(), 0, width, v.as_str()).as_str(),
        ")\n",
    )
}

/// The `i`-th head word, in calldata or in memory.
pub open spec fn head_word_spec(cd: bool, i: usize) -> Seq<char> {
    if cd {
        "calldataload(add(off, "@ + dec(i as nat * 32) + "))"@
    } else {
        "mload(add(base, add(off, "@ + dec(i as nat * 32) + ")))"@
    }
}

pub(crate) fn head_word(cd: bool, i: usize) -> (r: String)
    ensures
        r@ == head_word_spec(cd, i),
{
    if cd {
        cat3("calldataload(add(off, ", dec_mul(i, 32).as_str(), "))")
    } else {
        cat3("mload(add(base, add(off, ", dec_mul(i, 32).as_str(), ")))")
    }
}

/// The value of a packed field.
pub open spec fn packed_read_spec(mem_offset: usize, width: usize, is_addr: bool) -> Seq<char> {
    let read = read_packed_spec("mload(add(ptr, "@ + dec(mem_offset as nat) + "))"@, 0usize, width);
    masked_address_spec(read, is_addr)
}

pub(crate) fn packed_read(mem_offset: usize, width: usize, is_addr: bool) -> (r: String)
    ensures
        r@ == packed_read_spec(mem_offset, width, is_addr),
{
    let read = read_packed(
        cat3("mload(add(ptr, ", dec_text(mem_offset).as_str(), "))").as_str(),
        0,
        width,
    );
    masked_address(read.as_str(), is_addr)
}

pub open spec fn field_take_spec(cd: bool, i: usize, f: AbiStructField) -> Seq<char> {
    abi_st_field_store_spec(
        head_word_spec(cd, i),
        f.mem_offset,
        f.width,
        f.is_addr,
        f.enum_variants,
    )
}

pub(crate) fn field_take(cd: bool, i: usize, f: AbiStructField) -> (r: String)
    ensures
        r@ == field_take_spec(cd, i, f),
{
    abi_st_field_store(head_word(cd, i).as_str(), f.mem_offset, f.width, f.is_addr, f.enum_variants)
}

pub open spec fn field_put_spec(i: usize, f: AbiStructField) -> Seq<char> {
    "    mstore(add(dst, "@ + dec(i as nat * 32) + "), "@ + packed_read_spec(
        f.mem_offset,
        f.width,
        f.is_addr,
    ) + ")\n"@
}

pub(crate) fn field_put(i: usize, f: AbiStructField) -> (r: String)
    ensures
        r@ == field_put_spec(i, f),
{
    cat5(
        "    mstore(add(dst, ",
        dec_mul(i, 32).as_str(),
        "), ",
        packed_read(f.mem_offset, f.width, f.is_addr).as_str(),
        ")\n",
    )
}

pub open spec fn fields_take(cd: bool, fs: Seq<AbiStructField>, n: nat) -> Seq<char>
    decreases n,
{
    if n == 0 {
        Seq::empty()
    } else {
        fields_take(cd, fs, (n - 1) as nat) + field_take_spec(cd, (n - 1) as usize, fs[n - 1])
    }
}

fn fields_take_text(cd: bool, fs: &Vec<AbiStructField>) -> (r: String)
    ensures
        r@ == fields_take(cd, fs@, fs@.len()),
{
    let mut out = String::new();
    let mut i: usize = 0;
    while i < fs.len()
        invariant
            i <= fs@.len(),
            out@ == fields_take(cd, fs@, i as nat),
        decreases fs@.len() - i,
    {
        out.append(field_take(cd, i, fs[i]).as_str());
        i += 1;
    }
    out
}

pub open spec fn fields_put(fs: Seq<AbiStructField>, n: nat) -> Seq<char>
    decreases n,
{
    if n == 0 {
        Seq::empty()
    } else {
        fields_put(fs, (n - 1) as nat) + field_put_spec((n - 1) as usize, fs[n - 1])
    }
}

fn fields_put_text(fs: &Vec<AbiStructField>) -> (r: String)
    ensures
        r@ == fields_put(fs@, fs@.len()),
{
    let mut out = String::new();
    let mut i: usize = 0;
    while i < fs.len()
        invariant
            i <= fs@.len(),
            out@ == fields_put(fs@, i as nat),
        decreases fs@.len() - i,
    {
        out.append(field_put(i, fs[i]).as_str());
        i += 1;
    }
    out
}

/// Decodes a class from calldata.
pub open spec fn abi_st_cd_helper_src_spec(
    fname: Seq<char>,
    fields: Seq<AbiStructField>,
    packed: usize,
) -> Seq<char> {
    "function "@ + fname + "(off) -> ptr {\n    if lt(calldatasize(), add(off, "@ + dec(
        fields.len() as usize as nat * 32
    ) + ")) { revert(0, 0) }\n    ptr := allocate_memory("@ + dec(packed as nat) + ")\n"@ + fields_take(true, fields, fields.len()) + "}\n"@
}

pub(crate) fn abi_st_cd_helper_src(
    fname: &str,
    fields: &Vec<AbiStructField>,
    packed: usize,
) -> (r: String)
    ensures
        r@ == abi_st_cd_helper_src_spec(fname@, fields@, packed),
{
    cat9(
        "function ",
        fname,
        "(off) -> ptr {\n    if lt(calldatasize(), add(off, ",
        dec_mul(fields.len(), 32).as_str(),
        ")) { revert(0, 0) }\n    ptr := allocate_memory(",
        dec_text(packed).as_str(),
        ")\n",
        fields_take_text(true, fields).as_str(),
        "}\n",
    )
}

/// Decodes a class from memory.
pub open spec fn abi_st_mem_helper_src_spec(
    fname: Seq<char>,
    fields: Seq<AbiStructField>,
    packed: usize,
) -> Seq<char> {
    "function "@ + fname + "(base, off, limit) -> ptr {\n    if lt(limit, add(off, "@ + dec(
        fields.len() as usize as nat * 32
    ) + ")) { revert(0, 0) }\n    ptr := allocate_memory("@ + dec(packed as nat) + ")\n"@ + fields_take(false, fields, fields.len()) + "}\n"@
}

pub(crate) fn abi_st_mem_helper_src(
    fname: &str,
    fields: &Vec<AbiStructField>,
    packed: usize,
) -> (r: String)
    ensures
        r@ == abi_st_mem_helper_src_spec(fname@, fields@, packed),
{
    cat9(
        "function ",
        fname,
        "(base, off, limit) -> ptr {\n    if lt(limit, add(off, ",
        dec_mul(fields.len(), 32).as_str(),
        ")) { revert(0, 0) }\n    ptr := allocate_memory(",
        dec_text(packed).as_str(),
        ")\n",
        fields_take_text(false, fields).as_str(),
        "}\n",
    )
}

/// Encodes a class.
pub open spec fn abi_st_put_helper_src_spec(
    fname: Seq<char>,
    fields: Seq<AbiStructField>,
) -> Seq<char> {
    "function "@ + fname + "(dst, ptr) {\n"@ + fields_put(fields, fields.len()) + "}\n"@
}

pub(crate) fn abi_st_put_helper_src(fname: &str, fields: &Vec<AbiStructField>) -> (r: String)
    ensures
        r@ == abi_st_put_helper_src_spec(fname@, fields@),
{
    cat5("function ", fname, "(dst, ptr) {\n", fields_put_text(fields).as_str(), "}\n")
}

/// Decodes one field; one of dynamic size stands behind an offset.
pub open spec fn dyn_take_spec(
    cd: bool,
    i: usize,
    f: DynFieldV,
    sub: Option<Seq<char>>,
) -> Seq<char> {
    match sub {
        Some(s) => {
            if cd {
                "    let eo"@ + dec(i as nat) + " := calldataload(add(off, "@ + dec(i as nat * 32) + "))\n    if gt(eo"@ + dec(i as nat) + ", calldatasize()) { revert(0, 0) }\n    mstore(add(ptr, "@ + dec(
                    f.mem_offset as nat
                ) + "), "@ + s + "(add(off, eo"@ + dec(i as nat) + ")))\n"@
            } else {
                "    let eo"@ + dec(i as nat) + " := mload(add(base, add(off, "@ + dec(i as nat * 32) + ")))\n    if gt(eo"@ + dec(i as nat) + ", limit) { revert(0, 0) }\n    mstore(add(ptr, "@ + dec(
                    f.mem_offset as nat
                ) + "), "@ + s + "(base, add(off, eo"@ + dec(i as nat) + "), limit))\n"@
            }
        },
        None => abi_st_field_store_spec(
            head_word_spec(cd, i),
            f.mem_offset,
            f.width,
            f.is_addr,
            f.enum_variants,
        ),
    }
}

pub(crate) fn dyn_take(cd: bool, i: usize, f: &AbiDynField, sub: &Option<String>) -> (r: String)
    ensures
        r@ == dyn_take_spec(cd, i, f@, opt_text(*sub)),
{
    match sub {
        Some(s) => {
            if cd {
                return cat5(
                    cat9(
                        "    let eo",
                        dec_text(i).as_str(),
                        " := calldataload(add(off, ",
                        dec_mul(i, 32).as_str(),
                        "))\n    if gt(eo",
                        dec_text(i).as_str(),
                        ", calldatasize()) { revert(0, 0) }\n    mstore(add(ptr, ",
                        dec_text(f.mem_offset).as_str(),
                        "), ",
                    ).as_str(),
                    s.as_str(),
                    "(add(off, eo",
                    dec_text(i).as_str(),
                    ")))\n",
                );
            }
            cat5(
                cat9(
                    "    let eo",
                    dec_text(i).as_str(),
                    " := mload(add(base, add(off, ",
                    dec_mul(i, 32).as_str(),
                    ")))\n    if gt(eo",
                    dec_text(i).as_str(),
                    ", limit) { revert(0, 0) }\n    mstore(add(ptr, ",
                    dec_text(f.mem_offset).as_str(),
                    "), ",
                ).as_str(),
                s.as_str(),
                "(base, add(off, eo",
                dec_text(i).as_str(),
                "), limit))\n",
            )
        },
        None => abi_st_field_store(
            head_word(cd, i).as_str(),
            f.mem_offset,
            f.width,
            f.is_addr,
            f.enum_variants,
        ),
    }
}

/// Encodes one field.
pub open spec fn dyn_put_spec(i: usize, f: DynFieldV, sub: Option<Seq<char>>) -> Seq<char> {
    match sub {
        Some(s) => "    mstore(add(dst, "@ + dec(i as nat * 32) + "), cur)\n    cur := add(cur, "@ + s + "(add(dst, cur), mload(add(ptr, "@ + dec(
            f.mem_offset as nat
        ) + "))))\n"@,
        None => "    mstore(add(dst, "@ + dec(i as nat * 32) + "), "@ + packed_read_spec(
            f.mem_offset,
            f.width,
            f.is_addr,
        ) + ")\n"@,
    }
}

pub(crate) fn dyn_put(i: usize, f: &AbiDynField, sub: &Option<String>) -> (r: String)
    ensures
        r@ == dyn_put_spec(i, f@, opt_text(*sub)),
{
    match sub {
        Some(s) => cat7(
            "    mstore(add(dst, ",
            dec_mul(i, 32).as_str(),
            "), cur)\n    cur := add(cur, ",
            s.as_str(),
            "(add(dst, cur), mload(add(ptr, ",
            dec_text(f.mem_offset).as_str(),
            "))))\n",
        ),
        None => cat5(
            "    mstore(add(dst, ",
            dec_mul(i, 32).as_str(),
            "), ",
            packed_read(f.mem_offset, f.width, f.is_addr).as_str(),
            ")\n",
        ),
    }
}

/// Adds the tail of one field.
pub open spec fn dyn_size_spec(f: DynFieldV, sub: Option<Seq<char>>) -> Seq<char> {
    match sub {
        Some(s) => "    sz := add(sz, "@ + s + "(mload(add(ptr, "@ + dec(
            f.mem_offset as nat
        ) + "))))\n"@,
        None => ""@,
    }
}

pub(crate) fn dyn_size(f: &AbiDynField, sub: &Option<String>) -> (r: String)
    ensures
        r@ == dyn_size_spec(f@, opt_text(*sub)),
{
    match sub {
        Some(s) => cat5(
            "    sz := add(sz, ",
            s.as_str(),
            "(mload(add(ptr, ",
            dec_text(f.mem_offset).as_str(),
            "))))\n",
        ),
        None => String::from_str(""),
    }
}

pub open spec fn dyn_takes(
    cd: bool,
    fs: Seq<DynFieldV>,
    sub: Seq<Option<Seq<char>>>,
    n: nat,
) -> Seq<char>
    decreases n,
{
    if n == 0 {
        Seq::empty()
    } else {
        dyn_takes(cd, fs, sub, (n - 1) as nat) + dyn_take_spec(
            cd,
            (n - 1) as usize,
            fs[n - 1],
            sub[n - 1],
        )
    }
}

fn dyn_takes_text(cd: bool, fs: &Vec<AbiDynField>, sub: &Vec<Option<String>>) -> (r: String)
    requires
        sub@.len() == fs@.len(),
    ensures
        r@ == dyn_takes(cd, dyn_fields_v(fs@), opt_texts(sub@), fs@.len()),
{
    let mut out = String::new();
    let mut i: usize = 0;
    while i < fs.len()
        invariant
            i <= fs@.len(),
            sub@.len() == fs@.len(),
            out@ == dyn_takes(cd, dyn_fields_v(fs@), opt_texts(sub@), i as nat),
        decreases fs@.len() - i,
    {
        out.append(dyn_take(cd, i, &fs[i], &sub[i]).as_str());
        i += 1;
    }
    out
}

pub open spec fn dyn_puts(fs: Seq<DynFieldV>, sub: Seq<Option<Seq<char>>>, n: nat) -> Seq<char>
    decreases n,
{
    if n == 0 {
        Seq::empty()
    } else {
        dyn_puts(fs, sub, (n - 1) as nat) + dyn_put_spec((n - 1) as usize, fs[n - 1], sub[n - 1])
    }
}

fn dyn_puts_text(fs: &Vec<AbiDynField>, sub: &Vec<Option<String>>) -> (r: String)
    requires
        sub@.len() == fs@.len(),
    ensures
        r@ == dyn_puts(dyn_fields_v(fs@), opt_texts(sub@), fs@.len()),
{
    let mut out = String::new();
    let mut i: usize = 0;
    while i < fs.len()
        invariant
            i <= fs@.len(),
            sub@.len() == fs@.len(),
            out@ == dyn_puts(dyn_fields_v(fs@), opt_texts(sub@), i as nat),
        decreases fs@.len() - i,
    {
        out.append(dyn_put(i, &fs[i], &sub[i]).as_str());
        i += 1;
    }
    out
}

pub open spec fn dyn_sizes(fs: Seq<DynFieldV>, sub: Seq<Option<Seq<char>>>, n: nat) -> Seq<char>
    decreases n,
{
    if n == 0 {
        Seq::empty()
    } else {
        dyn_sizes(fs, sub, (n - 1) as nat) + dyn_size_spec(fs[n - 1], sub[n - 1])
    }
}

fn dyn_sizes_text(fs: &Vec<AbiDynField>, sub: &Vec<Option<String>>) -> (r: String)
    requires
        sub@.len() == fs@.len(),
    ensures
        r@ == dyn_sizes(dyn_fields_v(fs@), opt_texts(sub@), fs@.len()),
{
    let mut out = String::new();
    let mut i: usize = 0;
    while i < fs.len()
        invariant
            i <= fs@.len(),
            sub@.len() == fs@.len(),
            out@ == dyn_sizes(dyn_fields_v(fs@), opt_texts(sub@), i as nat),
        decreases fs@.len() - i,
    {
        out.append(dyn_size(&fs[i], &sub[i]).as_str());
        i += 1;
    }
    out
}

/// Decodes a class with a field of dynamic size from calldata.
pub open spec fn dyn_struct_cd_src(
    fname: Seq<char>,
    fs: Seq<DynFieldV>,
    sub: Seq<Option<Seq<char>>>,
    packed: usize,
) -> Seq<char> {
    "function "@ + fname + "(off) -> ptr {\n    if lt(calldatasize(), add(off, "@ + dec(fs.len() * 32)
        + ")) { revert(0, 0) }\n    ptr := allocate_memory("@ + dec(packed as nat) + ")\n"@
        + dyn_takes(true, fs, sub, fs.len()) + "}\n"@
}

pub fn build_dyn_struct_cd(
    fname: &str,
    fields: &Vec<AbiDynField>,
    sub: &Vec<Option<String>>,
    packed: usize,
) -> (r: String)
    requires
        sub@.len() == fields@.len(),
    ensures
        r@ == dyn_struct_cd_src(fname@, dyn_fields_v(fields@), opt_texts(sub@), packed),
{
    cat9(
        "function ",
        fname,
        "(off) -> ptr {\n    if lt(calldatasize(), add(off, ",
        dec_mul(fields.len(), 32).as_str(),
        ")) { revert(0, 0) }\n    ptr := allocate_memory(",
        dec_text(packed).as_str(),
        ")\n",
        dyn_takes_text(true, fields, sub).as_str(),
        "}\n",
    )
}

/// Decodes a class with a field of dynamic size from memory.
pub open spec fn dyn_struct_mem_src(
    fname: Seq<char>,
    fs: Seq<DynFieldV>,
    sub: Seq<Option<Seq<char>>>,
    packed: usize,
) -> Seq<char> {
    "function "@ + fname + "(base, off, limit) -> ptr {\n    if lt(limit, add(off, "@ + dec(
        fs.len() * 32,
    ) + ")) { revert(0, 0) }\n    ptr := allocate_memory("@ + dec(packed as nat) + ")\n"@
        + dyn_takes(false, fs, sub, fs.len()) + "}\n"@
}

pub fn build_dyn_struct_mem(
    fname: &str,
    fields: &Vec<AbiDynField>,
    sub: &Vec<Option<String>>,
    packed: usize,
) -> (r: String)
    requires
        sub@.len() == fields@.len(),
    ensures
        r@ == dyn_struct_mem_src(fname@, dyn_fields_v(fields@), opt_texts(sub@), packed),
{
    cat9(
        "function ",
        fname,
        "(base, off, limit) -> ptr {\n    if lt(limit, add(off, ",
        dec_mul(fields.len(), 32).as_str(),
        ")) { revert(0, 0) }\n    ptr := allocate_memory(",
        dec_text(packed).as_str(),
        ")\n",
        dyn_takes_text(false, fields, sub).as_str(),
        "}\n",
    )
}

/// Encodes a class with a field of dynamic size.
pub open spec fn dyn_struct_put_src(
    fname: Seq<char>,
    fs: Seq<DynFieldV>,
    sub: Seq<Option<Seq<char>>>,
) -> Seq<char> {
    "function "@ + fname + "(dst, ptr) -> written {\n    let cur := "@ + dec(fs.len() * 32) + "\n"@
        + dyn_puts(fs, sub, fs.len()) + "    written := cur\n}\n"@
}

pub fn build_dyn_struct_put(fname: &str, fields: &Vec<AbiDynField>, sub: &Vec<Option<String>>) -> (r:
    String)
    requires
        sub@.len() == fields@.len(),
    ensures
        r@ == dyn_struct_put_src(fname@, dyn_fields_v(fields@), opt_texts(sub@)),
{
    cat7(
        "function ",
        fname,
        "(dst, ptr) -> written {\n    let cur := ",
        dec_mul(fields.len(), 32).as_str(),
        "\n",
        dyn_puts_text(fields, sub).as_str(),
        "    written := cur\n}\n",
    )
}

/// The encoded size of a class with a field of dynamic size.
pub open spec fn dyn_struct_size_src(
    fname: Seq<char>,
    fs: Seq<DynFieldV>,
    sub: Seq<Option<Seq<char>>>,
) -> Seq<char> {
    "function "@ + fname + "(ptr) -> sz {\n    sz := "@ + dec(fs.len() * 32) + "\n"@ + dyn_sizes(
        fs,
        sub,
        fs.len(),
    ) + "}\n"@
}

pub fn build_dyn_struct_size(fname: &str, fields: &Vec<AbiDynField>, sub: &Vec<Option<String>>) -> (r:
    String)
    requires
        sub@.len() == fields@.len(),
    ensures
        r@ == dyn_struct_size_src(fname@, dyn_fields_v(fields@), opt_texts(sub@)),
{
    cat7(
        "function ",
        fname,
        "(ptr) -> sz {\n    sz := ",
        dec_mul(fields.len(), 32).as_str(),
        "\n",
        dyn_sizes_text(fields, sub).as_str(),
        "}\n",
    )
}

} // verus!
