//! Small pieces of Yul: how values are masked, packed and named, and what the
//! types mean to the generated code.
use crate::ast::{types_v, Expr, ExprV, Type, TypeV};
use crate::semantic::{scalar_enum, TypeChecker, WorldV};
use crate::text::{
    begins_char, cat2, cat3, cat4, cat5, cat7, dec, dec_mul, dec_text, dec_u128, hex_spec, hex_text,
    join, join_spec, parse_spec, parse_u128, parse_usize, rep, repeat, rest, same, starts_with_char,
    texts,
};
use tiny_keccak::{Hasher, Keccak};
use vstd::prelude::*;
use vstd::utf8::encode_utf8;

verus! {

pub const PANIC_OVERFLOW: &'static str = "0x11";

pub const PANIC_DIV_ZERO: &'static str = "0x12";

pub const PANIC_OOB: &'static str = "0x32";

pub const PANIC_EMPTY_POP: &'static str = "0x31";

pub const WAD: &'static str = "1000000000000000000";

pub const ADDRESS_MASK: &'static str = "0xffffffffffffffffffffffffffffffffffffffff";

/// What `tiny_keccak::Keccak::v256` returns for `data`: the 32 bytes of its
/// Keccak-256 hash.
pub uninterp spec fn keccak256(data: Seq<u8>) -> Seq<u8>;

/// `tiny_keccak::Keccak::v256`, fed once through `Hasher::update` and read with
/// `Hasher::finalize`. The hash depends on the bytes alone; which bytes they
/// give is left unsaid.
#[verifier::external_body]
pub(crate) fn keccak(data: &[u8]) -> (r: [u8; 32])
    ensures
        r@ == keccak256(data@),
{
    let mut hasher = Keccak::v256();
    let mut out = [0u8; 32];
    hasher.update(data);
    hasher.finalize(&mut out);
    out
}

/// The hash of a text as `0x` and 64 hexadecimal digits.
pub open spec fn keccak_hex_spec(data: Seq<char>) -> Seq<char> {
    "0x"@ + hex_spec(keccak256(encode_utf8(data)))
}

pub fn keccak256_hex(data: &str) -> (r: String)
    ensures
        r@ == keccak_hex_spec(data@),
{
    let h = keccak(data.as_bytes());
    cat2("0x", hex_text(&h).as_str())
}

/// The first four bytes of a hash as `0x` and eight hexadecimal digits.
pub open spec fn selector_spec(hash: Seq<u8>) -> Seq<char> {
    "0x"@ + hex_spec(hash.take(4))
}

/// The selector that a hash begins with.
pub fn selector_text(hash: &[u8]) -> (r: String)
    requires
        hash@.len() >= 4,
    ensures
        r@ == selector_spec(hash@),
{
    let mut first: Vec<u8> = Vec::new();
    first.push(hash[0]);
    first.push(hash[1]);
    first.push(hash[2]);
    first.push(hash[3]);
    assert(first@ =~= hash@.take(4));
    cat2("0x", hex_text(first.as_slice()).as_str())
}

/// The smallest or largest value of an integer type, as the Yul literal that
/// `T.min()` and `T.max()` stand for.
pub open spec fn bound_spec(bits: usize, signed: bool, method: Seq<char>) -> Option<Seq<char>> {
    let nibbles = bits as nat / 4;
    if method == "min"@ && !signed {
        Some("0"@)
    } else if method == "max"@ && !signed {
        Some("0x"@ + rep("f"@, nibbles))
    } else if method == "max"@ && signed {
        Some("0x7"@ + rep("f"@, (nibbles - 1) as nat))
    } else if method == "min"@ && signed {
        Some("sub(0, 0x8"@ + rep("0"@, (nibbles - 1) as nat) + ")"@)
    } else {
        None
    }
}

pub open spec fn opt_text(s: Option<String>) -> Option<Seq<char>> {
    match s {
        Some(s) => Some(s@),
        None => None,
    }
}

pub fn type_bound_literal(bits: usize, signed: bool, method: &str) -> (r: Option<String>)
    requires
        bits >= 4,
    ensures
        opt_text(r) == bound_spec(bits, signed, method@),
{
    let nibbles: usize = bits / 4;
    if same(method, "min") && !signed {
        Some(String::from_str("0"))
    } else if same(method, "max") && !signed {
        Some(cat2("0x", repeat("f", nibbles).as_str()))
    } else if same(method, "max") && signed {
        Some(cat2("0x7", repeat("f", nibbles - 1).as_str()))
    } else if same(method, "min") && signed {
        Some(cat3("sub(0, 0x8", repeat("0", nibbles - 1).as_str(), ")"))
    } else {
        None
    }
}

/// How generated code gives up: with the reason of a Solidity panic, or bare.
pub open spec fn panic_spec(rich: bool, code: Seq<char>) -> Seq<char> {
    if rich {
        "mstore(0, shl(224, 0x4e487b71)) mstore(4, "@ + code + ") revert(0, 0x24)"@
    } else {
        "revert(0, 0)"@
    }
}

pub fn panic_revert(rich: bool, code: &str) -> (r: String)
    ensures
        r@ == panic_spec(rich, code@),
{
    if rich {
        cat3("mstore(0, shl(224, 0x4e487b71)) mstore(4, ", code, ") revert(0, 0x24)")
    } else {
        String::from_str("revert(0, 0)")
    }
}

/// The variable that holds a const field while the constructor runs.
pub fn immutable_local(field: &str) -> (r: String)
    ensures
        r@ == "_imm_"@ + field@,
{
    cat2("_imm_", field)
}

/// The variable that holds a const field in the deployment block.
pub fn immutable_deploy_local(field: &str) -> (r: String)
    ensures
        r@ == "_immv_"@ + field@,
{
    cat2("_immv_", field)
}

/// A mask of `size` one-bytes.
pub open spec fn mask_hex_spec(size: usize) -> Seq<char> {
    "0x"@ + rep("ff"@, size as nat)
}

pub fn mask_hex(size: usize) -> (r: String)
    ensures
        r@ == mask_hex_spec(size),
{
    cat2("0x", repeat("ff", size).as_str())
}

pub open spec fn str_type(t: TypeV) -> bool {
    t == TypeV::Primitive("String"@) || t == TypeV::Primitive("Bytes"@)
}

/// Whether a type is one of the two text types.
pub fn is_str_type(t: &Type) -> (r: bool)
    ensures
        r == str_type(t@),
{
    match t {
        Type::Primitive(n) => same(n.as_str(), "String") || same(n.as_str(), "Bytes"),
        _ => false,
    }
}

/// Whether a type is a struct: a loaded class, other than the address type and
/// the texts.
pub open spec fn struct_type(w: WorldV, t: TypeV) -> bool {
    match t {
        TypeV::Primitive(n) => n != "Account"@ && !str_type(t) && w.classes.contains_key(n),
        _ => false,
    }
}

pub fn is_struct_type(tc: &TypeChecker, t: &Type) -> (r: bool)
    ensures
        r == struct_type(tc.world(), t@),
{
    match t {
        Type::Primitive(n) => !same(n.as_str(), "Account") && !is_str_type(t)
            && tc.loaded_classes.has(n.as_str()),
        _ => false,
    }
}

pub fn is_enum_type(tc: &TypeChecker, t: &Type) -> (r: bool)
    ensures
        r == scalar_enum(tc.world(), t@),
{
    tc.is_scalar_enum(t)
}

/// Whether a type is the 160-bit address type.
pub open spec fn address_type(t: TypeV) -> bool {
    t == TypeV::Primitive("Account"@)
}

pub fn is_address_type(t: &Type) -> (r: bool)
    ensures
        r == address_type(t@),
{
    match t {
        Type::Primitive(n) => same(n.as_str(), "Account"),
        _ => false,
    }
}

pub open spec fn uint_name(n: Seq<char>) -> bool {
    n == "u8"@ || n == "u16"@ || n == "u32"@ || n == "u64"@ || n == "u128"@ || n == "u256"@
}

pub open spec fn sint_name(n: Seq<char>) -> bool {
    n == "i8"@ || n == "i16"@ || n == "i32"@ || n == "i64"@ || n == "i128"@ || n == "i256"@
}

pub open spec fn fixed_name(n: Seq<char>) -> bool {
    n == "f32"@ || n == "f64"@
}

pub fn is_uint_name(n: &str) -> (r: bool)
    ensures
        r == uint_name(n@),
{
    same(n, "u8") || same(n, "u16") || same(n, "u32") || same(n, "u64") || same(n, "u128")
        || same(n, "u256")
}

pub fn is_sint_name(n: &str) -> (r: bool)
    ensures
        r == sint_name(n@),
{
    same(n, "i8") || same(n, "i16") || same(n, "i32") || same(n, "i64") || same(n, "i128")
        || same(n, "i256")
}

pub fn is_fixed_name(n: &str) -> (r: bool)
    ensures
        r == fixed_name(n@),
{
    same(n, "f32") || same(n, "f64")
}

/// Whether a name is that of an integer or fixed-point type.
pub open spec fn numeric_name(n: Seq<char>) -> bool {
    uint_name(n) || sint_name(n) || fixed_name(n)
}

pub fn is_numeric_primitive(n: &str) -> (r: bool)
    ensures
        r == numeric_name(n@),
{
    is_uint_name(n) || is_sint_name(n) || is_fixed_name(n)
}

/// The width in bits of a numeric type, and whether it is signed.
pub open spec fn numeric_spec(n: Seq<char>) -> Option<(usize, bool)> {
    if n == "u8"@ {
        Some((8, false))
    } else if n == "i8"@ {
        Some((8, true))
    } else if n == "u16"@ {
        Some((16, false))
    } else if n == "i16"@ {
        Some((16, true))
    } else if n == "u32"@ {
        Some((32, false))
    } else if n == "i32"@ {
        Some((32, true))
    } else if n == "u64"@ {
        Some((64, false))
    } else if n == "i64"@ {
        Some((64, true))
    } else if n == "u128"@ {
        Some((128, false))
    } else if n == "i128"@ {
        Some((128, true))
    } else if n == "u256"@ {
        Some((256, false))
    } else if n == "i256"@ || n == "f32"@ || n == "f64"@ {
        Some((256, true))
    } else {
        None
    }
}

pub fn numeric_meta(n: &str) -> (r: Option<(usize, bool)>)
    ensures
        r == numeric_spec(n@),
        r matches Some(m) ==> 8 <= m.0 <= 256 && m.0 % 8 == 0,
{
    if same(n, "u8") {
        Some((8, false))
    } else if same(n, "i8") {
        Some((8, true))
    } else if same(n, "u16") {
        Some((16, false))
    } else if same(n, "i16") {
        Some((16, true))
    } else if same(n, "u32") {
        Some((32, false))
    } else if same(n, "i32") {
        Some((32, true))
    } else if same(n, "u64") {
        Some((64, false))
    } else if same(n, "i64") {
        Some((64, true))
    } else if same(n, "u128") {
        Some((128, false))
    } else if same(n, "i128") {
        Some((128, true))
    } else if same(n, "u256") {
        Some((256, false))
    } else if same(n, "i256") || same(n, "f32") || same(n, "f64") {
        Some((256, true))
    } else {
        None
    }
}

pub open spec fn fixed_point(t: TypeV) -> bool {
    match t {
        TypeV::Primitive(n) => fixed_name(n),
        _ => false,
    }
}

pub fn is_fixed_point(t: &Type) -> (r: bool)
    ensures
        r == fixed_point(t@),
{
    match t {
        Type::Primitive(n) => is_fixed_name(n.as_str()),
        _ => false,
    }
}

/// The number of bytes of a fixed-bytes type `b1` to `b32`.
pub open spec fn byte_width_spec(name: Seq<char>) -> Option<usize> {
    if begins_char(name, 'b') {
        match parse_spec(name.drop_first(), usize::MAX as nat) {
            Some(n) => if 1 <= n <= 32 {
                Some(n as usize)
            } else {
                None
            },
            None => None,
        }
    } else {
        None
    }
}

pub fn byte_width(name: &str) -> (r: Option<usize>)
    ensures
        r == byte_width_spec(name@),
        r matches Some(w) ==> 1 <= w <= 32,
{
    if !starts_with_char(name, 'b') {
        return None;
    }
    let digits = rest(name);
    match parse_usize(digits.as_str()) {
        Some(n) => if 1 <= n && n <= 32 {
            Some(n)
        } else {
            None
        },
        None => None,
    }
}

/// Whether a type is one ABI word that needs no codec of its own.
pub open spec fn abi_scalar(t: TypeV) -> bool {
    match t {
        TypeV::Primitive(n) => uint_name(n) || sint_name(n) || n == "bool"@ || n == "Account"@
            || byte_width_spec(n) is Some,
        _ => false,
    }
}

pub fn is_abi_scalar(t: &Type) -> (r: bool)
    ensures
        r == abi_scalar(t@),
{
    match t {
        Type::Primitive(n) => is_uint_name(n.as_str()) || is_sint_name(n.as_str()) || same(
            n.as_str(),
            "bool",
        ) || same(n.as_str(), "Account") || byte_width(n.as_str()).is_some(),
        _ => false,
    }
}

/// The number of bytes a value takes in the tightly packed encoding; `None`
/// for a text, whose length is its own.
pub open spec fn packed_width_spec(t: TypeV) -> Option<usize> {
    match t {
        TypeV::Primitive(n) => match numeric_spec(n) {
            Some(m) => Some((m.0 / 8) as usize),
            None => if n == "bool"@ {
                Some(1)
            } else if n == "Account"@ {
                Some(20)
            } else {
                byte_width_spec(n)
            },
        },
        _ => None,
    }
}

pub fn packed_width(t: &Type) -> (r: Option<usize>)
    ensures
        r == packed_width_spec(t@),
        r matches Some(w) ==> 1 <= w <= 32,
{
    match t {
        Type::Primitive(n) => match numeric_meta(n.as_str()) {
            Some(m) => Some(m.0 / 8),
            None => if same(n.as_str(), "bool") {
                Some(1)
            } else if same(n.as_str(), "Account") {
                Some(20)
            } else {
                byte_width(n.as_str())
            },
        },
        _ => None,
    }
}

pub open spec fn mask_to_width_spec(val: Seq<char>, bits: usize, signed: bool) -> Seq<char> {
    if bits >= 256 {
        val
    } else if signed {
        "signextend("@ + dec((bits / 8 - 1) as nat) + ", "@ + val + ")"@
    } else {
        "and("@ + val + ", "@ + mask_hex_spec((bits / 8) as usize) + ")"@
    }
}

pub fn mask_to_width(val: &str, bits: usize, signed: bool) -> (r: String)
    requires
        bits >= 8,
    ensures
        r@ == mask_to_width_spec(val@, bits, signed),
{
    if bits >= 256 {
        String::from_str(val)
    } else if signed {
        cat5("signextend(", dec_text(bits / 8 - 1).as_str(), ", ", val, ")")
    } else {
        cat5("and(", val, ", ", mask_hex(bits / 8).as_str(), ")")
    }
}

/// A value cut to the width of its type.
pub open spec fn mask_spec(val: Seq<char>, t: TypeV) -> Seq<char> {
    match t {
        TypeV::Primitive(n) => match numeric_spec(n) {
            Some(m) => mask_to_width_spec(val, m.0, m.1),
            None => match byte_width_spec(n) {
                Some(w) => if w == 32 {
                    val
                } else {
                    "shr("@ + dec(((32 - w) * 8) as nat) + ", "@ + val + ")"@
                },
                None => val,
            },
        },
        _ => val,
    }
}

pub fn mask_for_type(val: &str, t: &Type) -> (r: String)
    ensures
        r@ == mask_spec(val@, t@),
{
    match t {
        Type::Primitive(n) => match numeric_meta(n.as_str()) {
            Some(m) => mask_to_width(val, m.0, m.1),
            None => match byte_width(n.as_str()) {
                Some(w) => if w == 32 {
                    String::from_str(val)
                } else {
                    cat5("shr(", dec_text((32 - w) * 8).as_str(), ", ", val, ")")
                },
                None => String::from_str(val),
            },
        },
        _ => String::from_str(val),
    }
}

/// The value of a number literal, where it fits 128 bits.
pub open spec fn literal_spec(e: ExprV) -> Option<nat> {
    match e {
        ExprV::Number(n) => parse_spec(n, u128::MAX as nat),
        _ => None,
    }
}

pub fn literal_u128(e: &Expr) -> (r: Option<u128>)
    ensures
        match r {
            Some(v) => literal_spec(e@) == Some(v as nat),
            None => literal_spec(e@) is None,
        },
{
    match e {
        Expr::Number(n) => parse_u128(n.as_str()),
        _ => None,
    }
}

/// How many 32-byte words `n` bytes take.
pub open spec fn words(n: nat) -> nat {
    (n + 31) / 32
}

pub fn word_count(n: usize) -> (r: usize)
    ensures
        r == words(n as nat),
{
    if n % 32 == 0 {
        n / 32
    } else {
        n / 32 + 1
    }
}

pub open spec fn at_least_one(n: usize) -> usize {
    if n == 0 {
        1
    } else {
        n
    }
}

pub fn max_one(n: usize) -> (r: usize)
    ensures
        r == at_least_one(n),
{
    if n == 0 {
        1
    } else {
        n
    }
}

/// How array elements of `esz` bytes share storage slots: how many to a slot,
/// and how many slots each takes.
pub open spec fn pack_spec(esz: usize) -> (usize, usize) {
    let e = at_least_one(esz);
    if e >= 32 {
        (1, words(e as nat) as usize)
    } else {
        ((32int / e as int) as usize, 1)
    }
}

pub fn pack_params(esz: usize) -> (r: (usize, usize))
    ensures
        r == pack_spec(esz),
        r.0 >= 1,
        r.1 >= 1,
{
    let e = max_one(esz);
    if e >= 32 {
        (1, word_count(e))
    } else {
        assert(32int / e as int >= 1) by (nonlinear_arith)
            requires
                1 <= e < 32,
        ;
        (32 / e, 1)
    }
}

/// How many slots a struct of `size` bytes takes as an array element.
pub open spec fn elem_slots_spec(size: usize) -> usize {
    at_least_one(words(size as nat) as usize)
}

pub fn struct_elem_slots(size: usize) -> (r: usize)
    ensures
        r == elem_slots_spec(size),
{
    max_one(word_count(size))
}

pub open spec fn kind_suffix_spec(tr: bool) -> Seq<char> {
    if tr {
        "_t"@
    } else {
        ""@
    }
}

pub open spec fn ld_op_spec(tr: bool) -> Seq<char> {
    if tr {
        "tload"@
    } else {
        "sload"@
    }
}

pub open spec fn st_op_spec(tr: bool) -> Seq<char> {
    if tr {
        "tstore"@
    } else {
        "sstore"@
    }
}

/// The ending of a helper's name, by the kind of storage it works on.
pub fn kind_suffix(tr: bool) -> (r: &'static str)
    ensures
        r@ == kind_suffix_spec(tr),
{
    if tr {
        "_t"
    } else {
        ""
    }
}

/// The instruction that reads a slot.
pub fn ld_op(tr: bool) -> (r: &'static str)
    ensures
        r@ == ld_op_spec(tr),
{
    if tr {
        "tload"
    } else {
        "sload"
    }
}

/// The instruction that writes a slot.
pub fn st_op(tr: bool) -> (r: &'static str)
    ensures
        r@ == st_op_spec(tr),
{
    if tr {
        "tstore"
    } else {
        "sstore"
    }
}

/// The part of a storage word that starts `offset` bytes from its low end and
/// is `size` bytes wide.
pub open spec fn read_slot_spec(container: Seq<char>, offset: usize, size: usize) -> Seq<char> {
    if size >= 32 && offset == 0 {
        container
    } else if offset == 0 {
        "and("@ + container + ", "@ + mask_hex_spec(size) + ")"@
    } else {
        "and(shr("@ + dec(offset as nat * 8) + ", "@ + container + "), "@ + mask_hex_spec(size) + ")"@
    }
}

pub fn read_slot_packed(container: &str, offset: usize, size: usize) -> (r: String)
    ensures
        r@ == read_slot_spec(container@, offset, size),
{
    if size >= 32 && offset == 0 {
        String::from_str(container)
    } else if offset == 0 {
        cat5("and(", container, ", ", mask_hex(size).as_str(), ")")
    } else {
        cat7(
            "and(shr(",
            dec_mul(offset, 8).as_str(),
            ", ",
            container,
            "), ",
            mask_hex(size).as_str(),
            ")",
        )
    }
}

/// The word `container` with `val` put `shift` bits from its low end, in a
/// field of `size` bytes.
pub open spec fn merge_spec(container: Seq<char>, shift: nat, size: usize, val: Seq<char>) -> Seq<char> {
    "or(and("@ + container + ", not(shl("@ + dec(shift) + ", "@ + mask_hex_spec(size) + "))), shl("@
        + dec(shift) + ", and("@ + val + ", "@ + mask_hex_spec(size) + ")))"@
}

fn merge(container: &str, shift: &str, size: usize, val: &str, Ghost(n): Ghost<nat>) -> (r: String)
    requires
        shift@ == dec(n),
    ensures
        r@ == merge_spec(container@, n, size, val@),
{
    let mask = mask_hex(size);
    let mut o = cat7("or(and(", container, ", not(shl(", shift, ", ", mask.as_str(), "))), shl(");
    o.append(shift);
    o.append(", and(");
    o.append(val);
    o.append(", ");
    o.append(mask.as_str());
    o.append(")))");
    o
}

pub open spec fn write_slot_spec(
    container: Seq<char>,
    offset: usize,
    size: usize,
    val: Seq<char>,
) -> Seq<char> {
    if size >= 32 && offset == 0 {
        val
    } else {
        merge_spec(container, offset as nat * 8, size, val)
    }
}

pub fn write_slot_packed(container: &str, offset: usize, size: usize, val: &str) -> (r: String)
    ensures
        r@ == write_slot_spec(container@, offset, size, val@),
{
    if size >= 32 && offset == 0 {
        String::from_str(val)
    } else {
        let shift = dec_mul(offset, 8);
        merge(container, shift.as_str(), size, val, Ghost(offset as nat * 8))
    }
}

/// The part of a memory word that starts `offset` bytes from its high end and
/// is `size` bytes wide.
pub open spec fn read_packed_spec(container: Seq<char>, offset: usize, size: usize) -> Seq<char> {
    if size >= 32 && offset == 0 {
        container
    } else {
        "and(shr("@ + dec(((32 - offset - size) * 8) as nat) + ", "@ + container + "), "@
            + mask_hex_spec(size) + ")"@
    }
}

pub fn read_packed(container: &str, offset: usize, size: usize) -> (r: String)
    requires
        offset == 0 || offset + size <= 32,
    ensures
        r@ == read_packed_spec(container@, offset, size),
{
    if size >= 32 && offset == 0 {
        String::from_str(container)
    } else {
        cat7(
            "and(shr(",
            dec_text((32 - offset - size) * 8).as_str(),
            ", ",
            container,
            "), ",
            mask_hex(size).as_str(),
            ")",
        )
    }
}

pub open spec fn write_packed_spec(
    container: Seq<char>,
    offset: usize,
    size: usize,
    val: Seq<char>,
) -> Seq<char> {
    if size >= 32 && offset == 0 {
        val
    } else {
        merge_spec(container, ((32 - offset - size) * 8) as nat, size, val)
    }
}

pub fn write_packed(container: &str, offset: usize, size: usize, val: &str) -> (r: String)
    requires
        offset == 0 || offset + size <= 32,
    ensures
        r@ == write_packed_spec(container@, offset, size, val@),
{
    if size >= 32 && offset == 0 {
        String::from_str(val)
    } else {
        let shift = dec_text((32 - offset - size) * 8);
        merge(container, shift.as_str(), size, val, Ghost(((32 - offset - size) * 8) as nat))
    }
}

/// The `i`th 32-byte word of `bytes`, filled up with zeros at its end.
pub open spec fn word_at(bytes: Seq<u8>, i: int) -> Seq<u8> {
    Seq::new(
        32,
        |k: int|
            if i * 32 + k < bytes.len() {
                bytes[i * 32 + k]
            } else {
                0u8
            },
    )
}

/// The stores of the first `n` words of a text.
pub open spec fn word_stores(ptr: Seq<char>, bytes: Seq<u8>, n: nat) -> Seq<char>
    decreases n,
{
    if n == 0 {
        Seq::empty()
    } else {
        word_stores(ptr, bytes, (n - 1) as nat) + ("    mstore(add("@ + ptr + ", "@ + dec(
            (32 + (n - 1) * 32) as nat,
        ) + "), 0x"@ + hex_spec(word_at(bytes, n - 1)) + ")\n"@)
    }
}

/// The code that puts a text literal into memory, its length in the top eight
/// bytes of the first word.
pub open spec fn str_body_spec(ptr: Seq<char>, bytes: Seq<u8>) -> Seq<char> {
    "    "@ + ptr + " := allocate_memory("@ + dec(32 + words(bytes.len()) * 32) + ")\n"@ + (
    "    mstore("@ + ptr + ", shl(192, "@ + dec(bytes.len()) + "))\n"@) + word_stores(
        ptr,
        bytes,
        words(bytes.len()),
    )
}

pub fn str_literal_body_src(ptr: &str, s: &str) -> (r: String)
    ensures
        r@ == str_body_spec(ptr@, encode_utf8(s@)),
{
    let bytes = s.as_bytes();
    let n = word_count(bytes.len());
    let mut out = cat5(
        "    ",
        ptr,
        " := allocate_memory(",
        dec_u128(32 + n as u128 * 32).as_str(),
        ")\n",
    );
    let second = cat5("    mstore(", ptr, ", shl(192, ", dec_text(bytes.len()).as_str(), "))\n");
    out.append(second.as_str());
    let ghost head = out@;
    let mut stores = String::new();
    let mut i: usize = 0;
    while i < n
        invariant
            i <= n,
            n == words(bytes@.len()),
            bytes@ == encode_utf8(s@),
            stores@ == word_stores(ptr@, bytes@, i as nat),
        decreases n - i,
    {
        let mut word: Vec<u8> = Vec::new();
        let mut k: usize = 0;
        while k < 32
            invariant
                k <= 32,
                i < n,
                n == words(bytes@.len()),
                word@ == word_at(bytes@, i as int).take(k as int),
            decreases 32 - k,
        {
            let b: u8 = if k < bytes.len() - i * 32 {
                bytes[i * 32 + k]
            } else {
                0
            };
            word.push(b);
            k += 1;
            assert(word@ =~= word_at(bytes@, i as int).take(k as int));
        }
        assert(word@ =~= word_at(bytes@, i as int));
        let line = cat7(
            "    mstore(add(",
            ptr,
            ", ",
            dec_u128(32 + i as u128 * 32).as_str(),
            "), 0x",
            hex_text(word.as_slice()).as_str(),
            ")\n",
        );
        stores.append(line.as_str());
        i += 1;
    }
    out.append(stores.as_str());
    out
}

/// The name of a type inside the names of its codecs.
pub open spec fn mangle_spec(t: TypeV) -> Seq<char>
    decreases t, 0nat,
{
    match t {
        TypeV::Primitive(n) => n,
        TypeV::Array(i) => "arr_"@ + mangle_spec(*i),
        TypeV::FixedArray(i, n) => "farr"@ + dec(n as nat) + "_"@ + mangle_spec(*i),
        TypeV::Generic { name, args } => name + "_"@ + join_spec(
            mangle_all(args, args.len()),
            "_"@,
        ),
    }
}

pub open spec fn mangle_all(args: Seq<TypeV>, n: nat) -> Seq<Seq<char>>
    decreases args, n,
{
    if n == 0 || n > args.len() {
        Seq::empty()
    } else {
        mangle_all(args, (n - 1) as nat).push(mangle_spec(args[n - 1]))
    }
}

pub fn abi_mangle(t: &Type) -> (r: String)
    ensures
        r@ == mangle_spec(t@),
    decreases t,
{
    match t {
        Type::Primitive(n) => n.clone(),
        Type::Array(i) => cat2("arr_", abi_mangle(i).as_str()),
        Type::FixedArray(i, n) => cat4(
            "farr",
            dec_text(*n).as_str(),
            "_",
            abi_mangle(i).as_str(),
        ),
        Type::Generic { name, args } => {
            let mut parts: Vec<String> = Vec::new();
            let mut k: usize = 0;
            assert(texts(parts@) =~= mangle_all(types_v(args@), 0));
            while k < args.len()
                invariant
                    k <= args@.len(),
                    t is Generic,
                    *args == t->args,
                    texts(parts@) == mangle_all(types_v(args@), k as nat),
                decreases args@.len() - k,
            {
                let m = abi_mangle(&args[k]);
                let ghost before = texts(parts@);
                parts.push(m);
                assert(texts(parts@) =~= before.push(m@));
                assert(types_v(args@)[k as int] == args@[k as int]@);
                k += 1;
            }
            assert(types_v(args@).len() == args@.len());
            cat3(name.as_str(), "_", join(&parts, "_").as_str())
        },
    }
}

} // verus!
