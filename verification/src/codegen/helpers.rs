//! The Yul source of the helper functions that generated code calls.
//!
//! Each helper is emitted at most once per contract, under a fixed name. The
//! contracts give the text itself.
use crate::codegen::yul::{
    kind_suffix, kind_suffix_spec, ld_op, ld_op_spec, panic_revert, panic_spec, st_op, st_op_spec,
    write_packed, write_packed_spec, PANIC_DIV_ZERO, PANIC_EMPTY_POP, PANIC_OOB, PANIC_OVERFLOW,
    WAD,
};
use crate::text::{cat2, cat4, dec, dec_mul, dec_text};
use vstd::prelude::*;

verus! {

pub open spec fn checked_add_src(rich: bool) -> Seq<char> {
    "function checked_add(a, b, max) -> r {\n\
     \x20   r := add(a, b)\n\
     \x20   if or(lt(r, a), gt(r, max)) { "@
        + panic_spec(rich, PANIC_OVERFLOW@)
        + " }\n\
     }\n"@
}

pub fn checked_add_helper_src(rich: bool) -> (r: String)
    ensures
        r@ == checked_add_src(rich),
{
    let mut o = String::from_str("function checked_add(a, b, max) -> r {\n\
     \x20   r := add(a, b)\n\
     \x20   if or(lt(r, a), gt(r, max)) { ");
    o.append(panic_revert(rich, PANIC_OVERFLOW).as_str());
    o.append(" }\n\
     }\n");
    o
}

pub open spec fn checked_sub_src(rich: bool) -> Seq<char> {
    "function checked_sub(a, b) -> r {\n\
     \x20   if lt(a, b) { "@
        + panic_spec(rich, PANIC_OVERFLOW@)
        + " }\n\
     \x20   r := sub(a, b)\n\
     }\n"@
}

pub fn checked_sub_helper_src(rich: bool) -> (r: String)
    ensures
        r@ == checked_sub_src(rich),
{
    let mut o = String::from_str("function checked_sub(a, b) -> r {\n\
     \x20   if lt(a, b) { ");
    o.append(panic_revert(rich, PANIC_OVERFLOW).as_str());
    o.append(" }\n\
     \x20   r := sub(a, b)\n\
     }\n");
    o
}

pub open spec fn checked_mul_src(rich: bool) -> Seq<char> {
    "function checked_mul(a, b, max) -> r {\n\
     \x20   r := mul(a, b)\n\
     \x20   if and(iszero(iszero(a)), iszero(eq(div(r, a), b))) { "@
        + panic_spec(rich, PANIC_OVERFLOW@)
        + " }\n\
     \x20   if gt(r, max) { "@
        + panic_spec(rich, PANIC_OVERFLOW@)
        + " }\n\
     }\n"@
}

pub fn checked_mul_helper_src(rich: bool) -> (r: String)
    ensures
        r@ == checked_mul_src(rich),
{
    let mut o = String::from_str("function checked_mul(a, b, max) -> r {\n\
     \x20   r := mul(a, b)\n\
     \x20   if and(iszero(iszero(a)), iszero(eq(div(r, a), b))) { ");
    o.append(panic_revert(rich, PANIC_OVERFLOW).as_str());
    o.append(" }\n\
     \x20   if gt(r, max) { ");
    o.append(panic_revert(rich, PANIC_OVERFLOW).as_str());
    o.append(" }\n\
     }\n");
    o
}

/// A power by squaring. While bits of the exponent are left, the square of the base is a
/// factor of the result, so that it overflows only where the result does.
pub open spec fn checked_exp_src() -> Seq<char> {
    "function checked_exp(a, b, max) -> r {\n\
     \x20   r := 1\n\
     \x20   for { } b { } {\n\
     \x20       if and(b, 1) { r := checked_mul(r, a, max) }\n\
     \x20       b := shr(1, b)\n\
     \x20       if b { a := checked_mul(a, a, max) }\n\
     \x20   }\n\
     }\n"@
}

pub fn checked_exp_helper_src() -> (r: String)
    ensures
        r@ == checked_exp_src(),
{
    String::from_str("function checked_exp(a, b, max) -> r {\n\
     \x20   r := 1\n\
     \x20   for { } b { } {\n\
     \x20       if and(b, 1) { r := checked_mul(r, a, max) }\n\
     \x20       b := shr(1, b)\n\
     \x20       if b { a := checked_mul(a, a, max) }\n\
     \x20   }\n\
     }\n")
}

pub open spec fn checked_sexp_src() -> Seq<char> {
    "function checked_sexp(a, b, minv, maxv) -> r {\n\
     \x20   r := 1\n\
     \x20   for { } b { } {\n\
     \x20       if and(b, 1) { r := checked_smul(r, a, minv, maxv) }\n\
     \x20       b := shr(1, b)\n\
     \x20       if b { a := checked_smul(a, a, minv, maxv) }\n\
     \x20   }\n\
     }\n"@
}

pub fn checked_sexp_helper_src() -> (r: String)
    ensures
        r@ == checked_sexp_src(),
{
    String::from_str("function checked_sexp(a, b, minv, maxv) -> r {\n\
     \x20   r := 1\n\
     \x20   for { } b { } {\n\
     \x20       if and(b, 1) { r := checked_smul(r, a, minv, maxv) }\n\
     \x20       b := shr(1, b)\n\
     \x20       if b { a := checked_smul(a, a, minv, maxv) }\n\
     \x20   }\n\
     }\n")
}

pub open spec fn checked_sadd_src(rich: bool) -> Seq<char> {
    "function checked_sadd(a, b, minv, maxv) -> r {\n\
     \x20   r := add(a, b)\n\
     \x20   if slt(and(xor(a, r), xor(b, r)), 0) { "@
        + panic_spec(rich, PANIC_OVERFLOW@)
        + " }\n\
     \x20   if or(slt(r, minv), sgt(r, maxv)) { "@
        + panic_spec(rich, PANIC_OVERFLOW@)
        + " }\n\
     }\n"@
}

pub fn checked_sadd_helper_src(rich: bool) -> (r: String)
    ensures
        r@ == checked_sadd_src(rich),
{
    let mut o = String::from_str("function checked_sadd(a, b, minv, maxv) -> r {\n\
     \x20   r := add(a, b)\n\
     \x20   if slt(and(xor(a, r), xor(b, r)), 0) { ");
    o.append(panic_revert(rich, PANIC_OVERFLOW).as_str());
    o.append(" }\n\
     \x20   if or(slt(r, minv), sgt(r, maxv)) { ");
    o.append(panic_revert(rich, PANIC_OVERFLOW).as_str());
    o.append(" }\n\
     }\n");
    o
}

pub open spec fn checked_ssub_src(rich: bool) -> Seq<char> {
    "function checked_ssub(a, b) -> r {\n\
     \x20   r := sub(a, b)\n\
     \x20   if slt(and(xor(a, b), xor(a, r)), 0) { "@
        + panic_spec(rich, PANIC_OVERFLOW@)
        + " }\n\
     }\n"@
}

pub fn checked_ssub_helper_src(rich: bool) -> (r: String)
    ensures
        r@ == checked_ssub_src(rich),
{
    let mut o = String::from_str("function checked_ssub(a, b) -> r {\n\
     \x20   r := sub(a, b)\n\
     \x20   if slt(and(xor(a, b), xor(a, r)), 0) { ");
    o.append(panic_revert(rich, PANIC_OVERFLOW).as_str());
    o.append(" }\n\
     }\n");
    o
}

pub open spec fn checked_ssub_n_src(rich: bool) -> Seq<char> {
    "function checked_ssub_n(a, b, minv, maxv) -> r {\n\
     \x20   r := checked_ssub(a, b)\n\
     \x20   if or(slt(r, minv), sgt(r, maxv)) { "@
        + panic_spec(rich, PANIC_OVERFLOW@)
        + " }\n\
     }\n"@
}

pub fn checked_ssub_n_helper_src(rich: bool) -> (r: String)
    ensures
        r@ == checked_ssub_n_src(rich),
{
    let mut o = String::from_str("function checked_ssub_n(a, b, minv, maxv) -> r {\n\
     \x20   r := checked_ssub(a, b)\n\
     \x20   if or(slt(r, minv), sgt(r, maxv)) { ");
    o.append(panic_revert(rich, PANIC_OVERFLOW).as_str());
    o.append(" }\n\
     }\n");
    o
}

pub open spec fn checked_smul_src(rich: bool) -> Seq<char> {
    "function checked_smul(a, b, minv, maxv) -> r {\n\
     \x20   r := mul(a, b)\n\
     \x20   if iszero(iszero(a)) {\n\
     \x20       if and(eq(a, not(0)), eq(b, 0x8000000000000000000000000000000000000000000000000000000000000000)) { "@
        + panic_spec(rich, PANIC_OVERFLOW@)
        + " }\n\
     \x20       if iszero(eq(sdiv(r, a), b)) { "@
        + panic_spec(rich, PANIC_OVERFLOW@)
        + " }\n\
     \x20   }\n\
     \x20   if or(slt(r, minv), sgt(r, maxv)) { "@
        + panic_spec(rich, PANIC_OVERFLOW@)
        + " }\n\
     }\n"@
}

pub fn checked_smul_helper_src(rich: bool) -> (r: String)
    ensures
        r@ == checked_smul_src(rich),
{
    let mut o = String::from_str("function checked_smul(a, b, minv, maxv) -> r {\n\
     \x20   r := mul(a, b)\n\
     \x20   if iszero(iszero(a)) {\n\
     \x20       if and(eq(a, not(0)), eq(b, 0x8000000000000000000000000000000000000000000000000000000000000000)) { ");
    o.append(panic_revert(rich, PANIC_OVERFLOW).as_str());
    o.append(" }\n\
     \x20       if iszero(eq(sdiv(r, a), b)) { ");
    o.append(panic_revert(rich, PANIC_OVERFLOW).as_str());
    o.append(" }\n\
     \x20   }\n\
     \x20   if or(slt(r, minv), sgt(r, maxv)) { ");
    o.append(panic_revert(rich, PANIC_OVERFLOW).as_str());
    o.append(" }\n\
     }\n");
    o
}

pub open spec fn gum_muldiv_src(rich: bool) -> Seq<char> {
    "function gum_muldiv(x, y, d) -> r {\n\
     \x20   let mm := mulmod(x, y, not(0))\n\
     \x20   let p0 := mul(x, y)\n\
     \x20   let p1 := sub(sub(mm, p0), lt(mm, p0))\n\
     \x20   if iszero(p1) {\n\
     \x20       if iszero(d) { "@
        + panic_spec(rich, PANIC_DIV_ZERO@)
        + " }\n\
     \x20       r := div(p0, d)\n\
     \x20       leave\n\
     \x20   }\n\
     \x20   if iszero(gt(d, p1)) { "@
        + panic_spec(rich, PANIC_OVERFLOW@)
        + " }\n\
     \x20   let rem := mulmod(x, y, d)\n\
     \x20   p1 := sub(p1, gt(rem, p0))\n\
     \x20   p0 := sub(p0, rem)\n\
     \x20   let twos := and(sub(0, d), d)\n\
     \x20   d := div(d, twos)\n\
     \x20   p0 := div(p0, twos)\n\
     \x20   twos := add(div(sub(0, twos), twos), 1)\n\
     \x20   p0 := or(p0, mul(p1, twos))\n\
     \x20   let inv := xor(mul(3, d), 2)\n\
     \x20   inv := mul(inv, sub(2, mul(d, inv)))\n\
     \x20   inv := mul(inv, sub(2, mul(d, inv)))\n\
     \x20   inv := mul(inv, sub(2, mul(d, inv)))\n\
     \x20   inv := mul(inv, sub(2, mul(d, inv)))\n\
     \x20   inv := mul(inv, sub(2, mul(d, inv)))\n\
     \x20   inv := mul(inv, sub(2, mul(d, inv)))\n\
     \x20   r := mul(p0, inv)\n\
     }\n"@
}

pub fn gum_muldiv_helper_src(rich: bool) -> (r: String)
    ensures
        r@ == gum_muldiv_src(rich),
{
    let mut o = String::from_str("function gum_muldiv(x, y, d) -> r {\n\
     \x20   let mm := mulmod(x, y, not(0))\n\
     \x20   let p0 := mul(x, y)\n\
     \x20   let p1 := sub(sub(mm, p0), lt(mm, p0))\n\
     \x20   if iszero(p1) {\n\
     \x20       if iszero(d) { ");
    o.append(panic_revert(rich, PANIC_DIV_ZERO).as_str());
    o.append(" }\n\
     \x20       r := div(p0, d)\n\
     \x20       leave\n\
     \x20   }\n\
     \x20   if iszero(gt(d, p1)) { ");
    o.append(panic_revert(rich, PANIC_OVERFLOW).as_str());
    o.append(" }\n\
     \x20   let rem := mulmod(x, y, d)\n\
     \x20   p1 := sub(p1, gt(rem, p0))\n\
     \x20   p0 := sub(p0, rem)\n\
     \x20   let twos := and(sub(0, d), d)\n\
     \x20   d := div(d, twos)\n\
     \x20   p0 := div(p0, twos)\n\
     \x20   twos := add(div(sub(0, twos), twos), 1)\n\
     \x20   p0 := or(p0, mul(p1, twos))\n\
     \x20   let inv := xor(mul(3, d), 2)\n\
     \x20   inv := mul(inv, sub(2, mul(d, inv)))\n\
     \x20   inv := mul(inv, sub(2, mul(d, inv)))\n\
     \x20   inv := mul(inv, sub(2, mul(d, inv)))\n\
     \x20   inv := mul(inv, sub(2, mul(d, inv)))\n\
     \x20   inv := mul(inv, sub(2, mul(d, inv)))\n\
     \x20   inv := mul(inv, sub(2, mul(d, inv)))\n\
     \x20   r := mul(p0, inv)\n\
     }\n");
    o
}

pub open spec fn gum_wad_signed_spec(fname: Seq<char>, num: Seq<char>, den: Seq<char>, rich: bool) -> Seq<char> {
    "function "@
        + fname
        + "(a, b, minv, maxv) -> r {\n\
     \x20   let neg := xor(slt(a, 0), slt(b, 0))\n\
     \x20   let x := a\n\
     \x20   if slt(a, 0) { x := sub(0, a) }\n\
     \x20   let y := b\n\
     \x20   if slt(b, 0) { y := sub(0, b) }\n\
     \x20   let mag := gum_muldiv("@
        + num
        + ", "@
        + den
        + ")\n\
     \x20   switch neg\n\
     \x20   case 0 { if gt(mag, maxv) { "@
        + panic_spec(rich, PANIC_OVERFLOW@)
        + " } r := mag }\n\
     \x20   default { if gt(mag, minv) { "@
        + panic_spec(rich, PANIC_OVERFLOW@)
        + " } r := sub(0, mag) }\n\
     }\n"@
}

pub fn gum_wad_signed(fname: &str, num: &str, den: &str, rich: bool) -> (r: String)
    ensures
        r@ == gum_wad_signed_spec(fname@, num@, den@, rich),
{
    let mut o = String::from_str("function ");
    o.append(fname);
    o.append("(a, b, minv, maxv) -> r {\n\
     \x20   let neg := xor(slt(a, 0), slt(b, 0))\n\
     \x20   let x := a\n\
     \x20   if slt(a, 0) { x := sub(0, a) }\n\
     \x20   let y := b\n\
     \x20   if slt(b, 0) { y := sub(0, b) }\n\
     \x20   let mag := gum_muldiv(");
    o.append(num);
    o.append(", ");
    o.append(den);
    o.append(")\n\
     \x20   switch neg\n\
     \x20   case 0 { if gt(mag, maxv) { ");
    o.append(panic_revert(rich, PANIC_OVERFLOW).as_str());
    o.append(" } r := mag }\n\
     \x20   default { if gt(mag, minv) { ");
    o.append(panic_revert(rich, PANIC_OVERFLOW).as_str());
    o.append(" } r := sub(0, mag) }\n\
     }\n");
    o
}

pub open spec fn checked_div_src(rich: bool) -> Seq<char> {
    "function checked_div(a, b) -> r {\n\
     \x20   if iszero(b) { "@
        + panic_spec(rich, PANIC_DIV_ZERO@)
        + " }\n\
     \x20   r := div(a, b)\n\
     }\n"@
}

pub fn checked_div_helper_src(rich: bool) -> (r: String)
    ensures
        r@ == checked_div_src(rich),
{
    let mut o = String::from_str("function checked_div(a, b) -> r {\n\
     \x20   if iszero(b) { ");
    o.append(panic_revert(rich, PANIC_DIV_ZERO).as_str());
    o.append(" }\n\
     \x20   r := div(a, b)\n\
     }\n");
    o
}

pub open spec fn checked_sdiv_src(rich: bool) -> Seq<char> {
    "function checked_sdiv(a, b) -> r {\n\
     \x20   if iszero(b) { "@
        + panic_spec(rich, PANIC_DIV_ZERO@)
        + " }\n\
     \x20   r := sdiv(a, b)\n\
     }\n"@
}

pub fn checked_sdiv_helper_src(rich: bool) -> (r: String)
    ensures
        r@ == checked_sdiv_src(rich),
{
    let mut o = String::from_str("function checked_sdiv(a, b) -> r {\n\
     \x20   if iszero(b) { ");
    o.append(panic_revert(rich, PANIC_DIV_ZERO).as_str());
    o.append(" }\n\
     \x20   r := sdiv(a, b)\n\
     }\n");
    o
}

pub open spec fn checked_mod_src(rich: bool) -> Seq<char> {
    "function checked_mod(a, b) -> r {\n\
     \x20   if iszero(b) { "@
        + panic_spec(rich, PANIC_DIV_ZERO@)
        + " }\n\
     \x20   r := mod(a, b)\n\
     }\n"@
}

pub fn checked_mod_helper_src(rich: bool) -> (r: String)
    ensures
        r@ == checked_mod_src(rich),
{
    let mut o = String::from_str("function checked_mod(a, b) -> r {\n\
     \x20   if iszero(b) { ");
    o.append(panic_revert(rich, PANIC_DIV_ZERO).as_str());
    o.append(" }\n\
     \x20   r := mod(a, b)\n\
     }\n");
    o
}

pub open spec fn checked_smod_src(rich: bool) -> Seq<char> {
    "function checked_smod(a, b) -> r {\n\
     \x20   if iszero(b) { "@
        + panic_spec(rich, PANIC_DIV_ZERO@)
        + " }\n\
     \x20   r := smod(a, b)\n\
     }\n"@
}

pub fn checked_smod_helper_src(rich: bool) -> (r: String)
    ensures
        r@ == checked_smod_src(rich),
{
    let mut o = String::from_str("function checked_smod(a, b) -> r {\n\
     \x20   if iszero(b) { ");
    o.append(panic_revert(rich, PANIC_DIV_ZERO).as_str());
    o.append(" }\n\
     \x20   r := smod(a, b)\n\
     }\n");
    o
}

pub open spec fn gum_str_len_src() -> Seq<char> {
    "function gum_str_len(p) -> n {\n\
     \x20   n := and(shr(192, mload(p)), 0xffffffffffffffff)\n\
     }\n"@
}

pub fn gum_str_len_helper_src() -> (r: String)
    ensures
        r@ == gum_str_len_src(),
{
    String::from_str("function gum_str_len(p) -> n {\n\
     \x20   n := and(shr(192, mload(p)), 0xffffffffffffffff)\n\
     }\n")
}

pub open spec fn gum_uint_to_str_src() -> Seq<char> {
    "function gum_uint_to_str(value) -> ptr {\n\
     \x20   let len := 1\n\
     \x20   let tmp := value\n\
     \x20   for { } gt(tmp, 9) { } { tmp := div(tmp, 10) len := add(len, 1) }\n\
     \x20   let padded := and(add(len, 31), not(31))\n\
     \x20   ptr := allocate_memory(add(32, padded))\n\
     \x20   mstore(ptr, shl(192, len))\n\
     \x20   switch value\n\
     \x20   case 0 { mstore8(add(ptr, 32), 48) }\n\
     \x20   default {\n\
     \x20       let cursor := add(add(ptr, 32), len)\n\
     \x20       let v := value\n\
     \x20       for { } gt(v, 0) { } {\n\
     \x20           cursor := sub(cursor, 1)\n\
     \x20           mstore8(cursor, add(48, mod(v, 10)))\n\
     \x20           v := div(v, 10)\n\
     \x20       }\n\
     \x20   }\n\
     }\n"@
}

pub fn gum_uint_to_str_helper_src() -> (r: String)
    ensures
        r@ == gum_uint_to_str_src(),
{
    String::from_str("function gum_uint_to_str(value) -> ptr {\n\
     \x20   let len := 1\n\
     \x20   let tmp := value\n\
     \x20   for { } gt(tmp, 9) { } { tmp := div(tmp, 10) len := add(len, 1) }\n\
     \x20   let padded := and(add(len, 31), not(31))\n\
     \x20   ptr := allocate_memory(add(32, padded))\n\
     \x20   mstore(ptr, shl(192, len))\n\
     \x20   switch value\n\
     \x20   case 0 { mstore8(add(ptr, 32), 48) }\n\
     \x20   default {\n\
     \x20       let cursor := add(add(ptr, 32), len)\n\
     \x20       let v := value\n\
     \x20       for { } gt(v, 0) { } {\n\
     \x20           cursor := sub(cursor, 1)\n\
     \x20           mstore8(cursor, add(48, mod(v, 10)))\n\
     \x20           v := div(v, 10)\n\
     \x20       }\n\
     \x20   }\n\
     }\n")
}

pub open spec fn gum_str_eq_src() -> Seq<char> {
    "function gum_str_eq(a, b) -> r {\n\
     \x20   r := 0\n\
     \x20   let la := gum_str_len(a)\n\
     \x20   if iszero(eq(la, gum_str_len(b))) { leave }\n\
     \x20   r := 1\n\
     \x20   let full := div(la, 32)\n\
     \x20   let i := 0\n\
     \x20   for {} lt(i, full) { i := add(i, 1) } {\n\
     \x20       let off := add(32, mul(i, 32))\n\
     \x20       if iszero(eq(mload(add(a, off)), mload(add(b, off)))) { r := 0 leave }\n\
     \x20   }\n\
     \x20   let rem := mod(la, 32)\n\
     \x20   if rem {\n\
     \x20       let off := add(32, mul(full, 32))\n\
     \x20       let sh := mul(8, sub(32, rem))\n\
     \x20       if iszero(eq(shr(sh, mload(add(a, off))), shr(sh, mload(add(b, off))))) { r := 0 leave }\n\
     \x20   }\n\
     }\n"@
}

pub fn gum_str_eq_helper_src() -> (r: String)
    ensures
        r@ == gum_str_eq_src(),
{
    String::from_str("function gum_str_eq(a, b) -> r {\n\
     \x20   r := 0\n\
     \x20   let la := gum_str_len(a)\n\
     \x20   if iszero(eq(la, gum_str_len(b))) { leave }\n\
     \x20   r := 1\n\
     \x20   let full := div(la, 32)\n\
     \x20   let i := 0\n\
     \x20   for {} lt(i, full) { i := add(i, 1) } {\n\
     \x20       let off := add(32, mul(i, 32))\n\
     \x20       if iszero(eq(mload(add(a, off)), mload(add(b, off)))) { r := 0 leave }\n\
     \x20   }\n\
     \x20   let rem := mod(la, 32)\n\
     \x20   if rem {\n\
     \x20       let off := add(32, mul(full, 32))\n\
     \x20       let sh := mul(8, sub(32, rem))\n\
     \x20       if iszero(eq(shr(sh, mload(add(a, off))), shr(sh, mload(add(b, off))))) { r := 0 leave }\n\
     \x20   }\n\
     }\n")
}

pub open spec fn gum_revert_str_src() -> Seq<char> {
    "function gum_revert_str(sel, s) {\n\
     \x20   let p := mload(0x40)\n\
     \x20   mstore(p, sel)\n\
     \x20   mstore(add(p, 4), 0x20)\n\
     \x20   let len := gum_str_len(s)\n\
     \x20   mstore(add(p, 36), len)\n\
     \x20   let pad := and(add(len, 31), not(31))\n\
     \x20   if pad { mstore(add(p, add(36, pad)), 0) }\n\
     \x20   gum_memory_copy(add(s, 32), add(p, 68), len)\n\
     \x20   revert(p, add(68, pad))\n\
     }\n"@
}

pub fn gum_revert_str_helper_src() -> (r: String)
    ensures
        r@ == gum_revert_str_src(),
{
    String::from_str("function gum_revert_str(sel, s) {\n\
     \x20   let p := mload(0x40)\n\
     \x20   mstore(p, sel)\n\
     \x20   mstore(add(p, 4), 0x20)\n\
     \x20   let len := gum_str_len(s)\n\
     \x20   mstore(add(p, 36), len)\n\
     \x20   let pad := and(add(len, 31), not(31))\n\
     \x20   if pad { mstore(add(p, add(36, pad)), 0) }\n\
     \x20   gum_memory_copy(add(s, 32), add(p, 68), len)\n\
     \x20   revert(p, add(68, pad))\n\
     }\n")
}

pub open spec fn gum_sstr_base_src() -> Seq<char> {
    "function gum_sstr_base(slot) -> b {\n\
     \x20   mstore(0x00, slot)\n\
     \x20   b := keccak256(0x00, 0x20)\n\
     }\n"@
}

pub fn gum_sstr_base_helper_src() -> (r: String)
    ensures
        r@ == gum_sstr_base_src(),
{
    String::from_str("function gum_sstr_base(slot) -> b {\n\
     \x20   mstore(0x00, slot)\n\
     \x20   b := keccak256(0x00, 0x20)\n\
     }\n")
}

pub open spec fn gum_sstr_load_src(tr: bool) -> Seq<char> {
    "function gum_sstr_load"@
        + kind_suffix_spec(tr)
        + "(slot) -> ptr {\n\
     \x20   let s := "@
        + ld_op_spec(tr)
        + "(slot)\n\
     \x20   switch and(s, 1)\n\
     \x20   case 0 {\n\
     \x20       let n := shr(1, and(s, 0xff))\n\
     \x20       ptr := allocate_memory(64)\n\
     \x20       mstore(ptr, shl(192, n))\n\
     \x20       mstore(add(ptr, 32), and(s, not(0xff)))\n\
     \x20   }\n\
     \x20   default {\n\
     \x20       let n := shr(1, s)\n\
     \x20       let padded := and(add(n, 31), not(31))\n\
     \x20       ptr := allocate_memory(add(32, padded))\n\
     \x20       mstore(ptr, shl(192, n))\n\
     \x20       let base := gum_sstr_base(slot)\n\
     \x20       let i := 0\n\
     \x20       for {} lt(mul(i, 32), padded) { i := add(i, 1) } {\n\
     \x20           mstore(add(add(ptr, 32), mul(i, 32)), "@
        + ld_op_spec(tr)
        + "(add(base, i)))\n\
     \x20       }\n\
     \x20   }\n\
     }\n"@
}

pub fn gum_sstr_load_helper_src(tr: bool) -> (r: String)
    ensures
        r@ == gum_sstr_load_src(tr),
{
    let mut o = String::from_str("function gum_sstr_load");
    o.append(kind_suffix(tr));
    o.append("(slot) -> ptr {\n\
     \x20   let s := ");
    o.append(ld_op(tr));
    o.append("(slot)\n\
     \x20   switch and(s, 1)\n\
     \x20   case 0 {\n\
     \x20       let n := shr(1, and(s, 0xff))\n\
     \x20       ptr := allocate_memory(64)\n\
     \x20       mstore(ptr, shl(192, n))\n\
     \x20       mstore(add(ptr, 32), and(s, not(0xff)))\n\
     \x20   }\n\
     \x20   default {\n\
     \x20       let n := shr(1, s)\n\
     \x20       let padded := and(add(n, 31), not(31))\n\
     \x20       ptr := allocate_memory(add(32, padded))\n\
     \x20       mstore(ptr, shl(192, n))\n\
     \x20       let base := gum_sstr_base(slot)\n\
     \x20       let i := 0\n\
     \x20       for {} lt(mul(i, 32), padded) { i := add(i, 1) } {\n\
     \x20           mstore(add(add(ptr, 32), mul(i, 32)), ");
    o.append(ld_op(tr));
    o.append("(add(base, i)))\n\
     \x20       }\n\
     \x20   }\n\
     }\n");
    o
}

pub open spec fn gum_sstr_clear_src(tr: bool) -> Seq<char> {
    "function gum_sstr_clear"@
        + kind_suffix_spec(tr)
        + "(slot) {\n\
     \x20   let old := "@
        + ld_op_spec(tr)
        + "(slot)\n\
     \x20   if and(old, 1) {\n\
     \x20       let oldslots := div(add(shr(1, old), 31), 32)\n\
     \x20       let ob := gum_sstr_base(slot)\n\
     \x20       for { let j := 0 } lt(j, oldslots) { j := add(j, 1) } { "@
        + st_op_spec(tr)
        + "(add(ob, j), 0) }\n\
     \x20   }\n\
     \x20   "@
        + st_op_spec(tr)
        + "(slot, 0)\n\
     }\n"@
}

pub fn gum_sstr_clear_helper_src(tr: bool) -> (r: String)
    ensures
        r@ == gum_sstr_clear_src(tr),
{
    let mut o = String::from_str("function gum_sstr_clear");
    o.append(kind_suffix(tr));
    o.append("(slot) {\n\
     \x20   let old := ");
    o.append(ld_op(tr));
    o.append("(slot)\n\
     \x20   if and(old, 1) {\n\
     \x20       let oldslots := div(add(shr(1, old), 31), 32)\n\
     \x20       let ob := gum_sstr_base(slot)\n\
     \x20       for { let j := 0 } lt(j, oldslots) { j := add(j, 1) } { ");
    o.append(st_op(tr));
    o.append("(add(ob, j), 0) }\n\
     \x20   }\n\
     \x20   ");
    o.append(st_op(tr));
    o.append("(slot, 0)\n\
     }\n");
    o
}

pub open spec fn gum_sstr_store_src(tr: bool) -> Seq<char> {
    "function gum_sstr_store"@
        + kind_suffix_spec(tr)
        + "(slot, ptr) {\n\
     \x20   let old := "@
        + ld_op_spec(tr)
        + "(slot)\n\
     \x20   if and(old, 1) {\n\
     \x20       let oldn := shr(1, old)\n\
     \x20       let oldslots := div(add(oldn, 31), 32)\n\
     \x20       let ob := gum_sstr_base(slot)\n\
     \x20       let j := 0\n\
     \x20       for {} lt(j, oldslots) { j := add(j, 1) } { "@
        + st_op_spec(tr)
        + "(add(ob, j), 0) }\n\
     \x20   }\n\
     \x20   let n := gum_str_len(ptr)\n\
     \x20   switch lt(n, 32)\n\
     \x20   case 1 {\n\
     \x20       let w := and(mload(add(ptr, 32)), not(shr(mul(8, n), not(0))))\n\
     \x20       "@
        + st_op_spec(tr)
        + "(slot, or(w, mul(n, 2)))\n\
     \x20   }\n\
     \x20   default {\n\
     \x20       "@
        + st_op_spec(tr)
        + "(slot, add(mul(n, 2), 1))\n\
     \x20       let base := gum_sstr_base(slot)\n\
     \x20       let full := div(n, 32)\n\
     \x20       let i := 0\n\
     \x20       for {} lt(i, full) { i := add(i, 1) } {\n\
     \x20           "@
        + st_op_spec(tr)
        + "(add(base, i), mload(add(add(ptr, 32), mul(i, 32))))\n\
     \x20       }\n\
     \x20       let rem := mod(n, 32)\n\
     \x20       if rem {\n\
     \x20           let lw := and(mload(add(add(ptr, 32), mul(full, 32))), not(shr(mul(8, rem), not(0))))\n\
     \x20           "@
        + st_op_spec(tr)
        + "(add(base, full), lw)\n\
     \x20       }\n\
     \x20   }\n\
     }\n"@
}

pub fn gum_sstr_store_helper_src(tr: bool) -> (r: String)
    ensures
        r@ == gum_sstr_store_src(tr),
{
    let mut o = String::from_str("function gum_sstr_store");
    o.append(kind_suffix(tr));
    o.append("(slot, ptr) {\n\
     \x20   let old := ");
    o.append(ld_op(tr));
    o.append("(slot)\n\
     \x20   if and(old, 1) {\n\
     \x20       let oldn := shr(1, old)\n\
     \x20       let oldslots := div(add(oldn, 31), 32)\n\
     \x20       let ob := gum_sstr_base(slot)\n\
     \x20       let j := 0\n\
     \x20       for {} lt(j, oldslots) { j := add(j, 1) } { ");
    o.append(st_op(tr));
    o.append("(add(ob, j), 0) }\n\
     \x20   }\n\
     \x20   let n := gum_str_len(ptr)\n\
     \x20   switch lt(n, 32)\n\
     \x20   case 1 {\n\
     \x20       let w := and(mload(add(ptr, 32)), not(shr(mul(8, n), not(0))))\n\
     \x20       ");
    o.append(st_op(tr));
    o.append("(slot, or(w, mul(n, 2)))\n\
     \x20   }\n\
     \x20   default {\n\
     \x20       ");
    o.append(st_op(tr));
    o.append("(slot, add(mul(n, 2), 1))\n\
     \x20       let base := gum_sstr_base(slot)\n\
     \x20       let full := div(n, 32)\n\
     \x20       let i := 0\n\
     \x20       for {} lt(i, full) { i := add(i, 1) } {\n\
     \x20           ");
    o.append(st_op(tr));
    o.append("(add(base, i), mload(add(add(ptr, 32), mul(i, 32))))\n\
     \x20       }\n\
     \x20       let rem := mod(n, 32)\n\
     \x20       if rem {\n\
     \x20           let lw := and(mload(add(add(ptr, 32), mul(full, 32))), not(shr(mul(8, rem), not(0))))\n\
     \x20           ");
    o.append(st_op(tr));
    o.append("(add(base, full), lw)\n\
     \x20       }\n\
     \x20   }\n\
     }\n");
    o
}

pub open spec fn gum_keccak_arr_src() -> Seq<char> {
    "function gum_keccak_arr(p) -> h {\n\
     \x20   h := keccak256(add(p, 32), mload(p))\n\
     }\n"@
}

pub fn gum_keccak_arr_helper_src() -> (r: String)
    ensures
        r@ == gum_keccak_arr_src(),
{
    String::from_str("function gum_keccak_arr(p) -> h {\n\
     \x20   h := keccak256(add(p, 32), mload(p))\n\
     }\n")
}

pub open spec fn gum_keccak_str_src() -> Seq<char> {
    "function gum_keccak_str(p) -> h {\n\
     \x20   h := keccak256(add(p, 32), gum_str_len(p))\n\
     }\n"@
}

pub fn gum_keccak_str_helper_src() -> (r: String)
    ensures
        r@ == gum_keccak_str_src(),
{
    String::from_str("function gum_keccak_str(p) -> h {\n\
     \x20   h := keccak256(add(p, 32), gum_str_len(p))\n\
     }\n")
}

pub open spec fn gum_ecrecover_src() -> Seq<char> {
    "function gum_ecrecover(h, v, r, s) -> a {\n\
     \x20   let p := mload(0x40)\n\
     \x20   mstore(p, h)\n\
     \x20   mstore(add(p, 32), v)\n\
     \x20   mstore(add(p, 64), r)\n\
     \x20   mstore(add(p, 96), s)\n\
     \x20   a := 0\n\
     \x20   if staticcall(gas(), 1, p, 128, add(p, 128), 32) {\n\
     \x20       if eq(returndatasize(), 32) { a := mload(add(p, 128)) }\n\
     \x20   }\n\
     }\n"@
}

pub fn gum_ecrecover_helper_src() -> (r: String)
    ensures
        r@ == gum_ecrecover_src(),
{
    String::from_str("function gum_ecrecover(h, v, r, s) -> a {\n\
     \x20   let p := mload(0x40)\n\
     \x20   mstore(p, h)\n\
     \x20   mstore(add(p, 32), v)\n\
     \x20   mstore(add(p, 64), r)\n\
     \x20   mstore(add(p, 96), s)\n\
     \x20   a := 0\n\
     \x20   if staticcall(gas(), 1, p, 128, add(p, 128), 32) {\n\
     \x20       if eq(returndatasize(), 32) { a := mload(add(p, 128)) }\n\
     \x20   }\n\
     }\n")
}

pub open spec fn gum_pay_src() -> Seq<char> {
    "function gum_pay(to, amount) -> ok {\n\
     \x20   ok := call(gas(), to, amount, 0, 0, 0, 0)\n\
     }\n"@
}

pub fn gum_pay_helper_src() -> (r: String)
    ensures
        r@ == gum_pay_src(),
{
    String::from_str("function gum_pay(to, amount) -> ok {\n\
     \x20   ok := call(gas(), to, amount, 0, 0, 0, 0)\n\
     }\n")
}

pub open spec fn gum_marr_addr_src(rich: bool) -> Seq<char> {
    "function gum_marr_addr(ptr, i, esz) -> a {\n\
     \x20   if iszero(lt(i, div(mload(ptr), esz))) { "@
        + panic_spec(rich, PANIC_OOB@)
        + " }\n\
     \x20   a := add(add(ptr, 32), mul(i, esz))\n\
     }\n"@
}

pub fn gum_marr_addr_helper_src(rich: bool) -> (r: String)
    ensures
        r@ == gum_marr_addr_src(rich),
{
    let mut o = String::from_str("function gum_marr_addr(ptr, i, esz) -> a {\n\
     \x20   if iszero(lt(i, div(mload(ptr), esz))) { ");
    o.append(panic_revert(rich, PANIC_OOB).as_str());
    o.append(" }\n\
     \x20   a := add(add(ptr, 32), mul(i, esz))\n\
     }\n");
    o
}

pub open spec fn gum_farr_addr_src(rich: bool) -> Seq<char> {
    "function gum_farr_addr(ptr, i, n, esz) -> a {\n\
     \x20   if iszero(lt(i, n)) { "@
        + panic_spec(rich, PANIC_OOB@)
        + " }\n\
     \x20   a := add(ptr, mul(i, esz))\n\
     }\n"@
}

pub fn gum_farr_addr_helper_src(rich: bool) -> (r: String)
    ensures
        r@ == gum_farr_addr_src(rich),
{
    let mut o = String::from_str("function gum_farr_addr(ptr, i, n, esz) -> a {\n\
     \x20   if iszero(lt(i, n)) { ");
    o.append(panic_revert(rich, PANIC_OOB).as_str());
    o.append(" }\n\
     \x20   a := add(ptr, mul(i, esz))\n\
     }\n");
    o
}

pub open spec fn gum_abi_arr_cd_src() -> Seq<char> {
    "function gum_abi_arr_cd(off, esz) -> ptr {\n\
     \x20   if lt(calldatasize(), add(off, 32)) { revert(0, 0) }\n\
     \x20   let n := calldataload(off)\n\
     \x20   if gt(n, div(sub(calldatasize(), add(off, 32)), 32)) { revert(0, 0) }\n\
     \x20   ptr := allocate_memory(add(32, and(add(mul(n, esz), 31), not(31))))\n\
     \x20   mstore(ptr, mul(n, esz))\n\
     \x20   let sh := mul(sub(32, esz), 8)\n\
     \x20   let m := shl(sh, sub(shl(mul(esz, 8), 1), 1))\n\
     \x20   for { let i := 0 } lt(i, n) { i := add(i, 1) } {\n\
     \x20       let a := add(add(ptr, 32), mul(i, esz))\n\
     \x20       let v := calldataload(add(add(off, 32), mul(i, 32)))\n\
     \x20       mstore(a, or(and(mload(a), not(m)), and(shl(sh, v), m)))\n\
     \x20   }\n\
     }\n"@
}

pub fn gum_abi_arr_cd_helper_src() -> (r: String)
    ensures
        r@ == gum_abi_arr_cd_src(),
{
    String::from_str("function gum_abi_arr_cd(off, esz) -> ptr {\n\
     \x20   if lt(calldatasize(), add(off, 32)) { revert(0, 0) }\n\
     \x20   let n := calldataload(off)\n\
     \x20   if gt(n, div(sub(calldatasize(), add(off, 32)), 32)) { revert(0, 0) }\n\
     \x20   ptr := allocate_memory(add(32, and(add(mul(n, esz), 31), not(31))))\n\
     \x20   mstore(ptr, mul(n, esz))\n\
     \x20   let sh := mul(sub(32, esz), 8)\n\
     \x20   let m := shl(sh, sub(shl(mul(esz, 8), 1), 1))\n\
     \x20   for { let i := 0 } lt(i, n) { i := add(i, 1) } {\n\
     \x20       let a := add(add(ptr, 32), mul(i, esz))\n\
     \x20       let v := calldataload(add(add(off, 32), mul(i, 32)))\n\
     \x20       mstore(a, or(and(mload(a), not(m)), and(shl(sh, v), m)))\n\
     \x20   }\n\
     }\n")
}

pub open spec fn gum_abi_arr_mem_src() -> Seq<char> {
    "function gum_abi_arr_mem(base, off, limit, esz) -> ptr {\n\
     \x20   if lt(limit, add(off, 32)) { revert(0, 0) }\n\
     \x20   let n := mload(add(base, off))\n\
     \x20   if gt(n, div(sub(limit, add(off, 32)), 32)) { revert(0, 0) }\n\
     \x20   ptr := allocate_memory(add(32, and(add(mul(n, esz), 31), not(31))))\n\
     \x20   mstore(ptr, mul(n, esz))\n\
     \x20   let sh := mul(sub(32, esz), 8)\n\
     \x20   let m := shl(sh, sub(shl(mul(esz, 8), 1), 1))\n\
     \x20   let src := add(add(base, off), 32)\n\
     \x20   for { let i := 0 } lt(i, n) { i := add(i, 1) } {\n\
     \x20       let a := add(add(ptr, 32), mul(i, esz))\n\
     \x20       let v := mload(add(src, mul(i, 32)))\n\
     \x20       mstore(a, or(and(mload(a), not(m)), and(shl(sh, v), m)))\n\
     \x20   }\n\
     }\n"@
}

pub fn gum_abi_arr_mem_helper_src() -> (r: String)
    ensures
        r@ == gum_abi_arr_mem_src(),
{
    String::from_str("function gum_abi_arr_mem(base, off, limit, esz) -> ptr {\n\
     \x20   if lt(limit, add(off, 32)) { revert(0, 0) }\n\
     \x20   let n := mload(add(base, off))\n\
     \x20   if gt(n, div(sub(limit, add(off, 32)), 32)) { revert(0, 0) }\n\
     \x20   ptr := allocate_memory(add(32, and(add(mul(n, esz), 31), not(31))))\n\
     \x20   mstore(ptr, mul(n, esz))\n\
     \x20   let sh := mul(sub(32, esz), 8)\n\
     \x20   let m := shl(sh, sub(shl(mul(esz, 8), 1), 1))\n\
     \x20   let src := add(add(base, off), 32)\n\
     \x20   for { let i := 0 } lt(i, n) { i := add(i, 1) } {\n\
     \x20       let a := add(add(ptr, 32), mul(i, esz))\n\
     \x20       let v := mload(add(src, mul(i, 32)))\n\
     \x20       mstore(a, or(and(mload(a), not(m)), and(shl(sh, v), m)))\n\
     \x20   }\n\
     }\n")
}

pub open spec fn gum_abi_farr_cd_src() -> Seq<char> {
    "function gum_abi_farr_cd(off, n, esz) -> ptr {\n\
     \x20   if lt(calldatasize(), add(off, mul(n, 32))) { revert(0, 0) }\n\
     \x20   ptr := allocate_memory(and(add(mul(n, esz), 31), not(31)))\n\
     \x20   let sh := mul(sub(32, esz), 8)\n\
     \x20   let m := shl(sh, sub(shl(mul(esz, 8), 1), 1))\n\
     \x20   for { let i := 0 } lt(i, n) { i := add(i, 1) } {\n\
     \x20       let a := add(ptr, mul(i, esz))\n\
     \x20       let v := calldataload(add(off, mul(i, 32)))\n\
     \x20       mstore(a, or(and(mload(a), not(m)), and(shl(sh, v), m)))\n\
     \x20   }\n\
     }\n"@
}

pub fn gum_abi_farr_cd_helper_src() -> (r: String)
    ensures
        r@ == gum_abi_farr_cd_src(),
{
    String::from_str("function gum_abi_farr_cd(off, n, esz) -> ptr {\n\
     \x20   if lt(calldatasize(), add(off, mul(n, 32))) { revert(0, 0) }\n\
     \x20   ptr := allocate_memory(and(add(mul(n, esz), 31), not(31)))\n\
     \x20   let sh := mul(sub(32, esz), 8)\n\
     \x20   let m := shl(sh, sub(shl(mul(esz, 8), 1), 1))\n\
     \x20   for { let i := 0 } lt(i, n) { i := add(i, 1) } {\n\
     \x20       let a := add(ptr, mul(i, esz))\n\
     \x20       let v := calldataload(add(off, mul(i, 32)))\n\
     \x20       mstore(a, or(and(mload(a), not(m)), and(shl(sh, v), m)))\n\
     \x20   }\n\
     }\n")
}

pub open spec fn gum_abi_farr_mem_src() -> Seq<char> {
    "function gum_abi_farr_mem(base, off, limit, n, esz) -> ptr {\n\
     \x20   if lt(limit, add(off, mul(n, 32))) { revert(0, 0) }\n\
     \x20   ptr := allocate_memory(and(add(mul(n, esz), 31), not(31)))\n\
     \x20   let sh := mul(sub(32, esz), 8)\n\
     \x20   let m := shl(sh, sub(shl(mul(esz, 8), 1), 1))\n\
     \x20   for { let i := 0 } lt(i, n) { i := add(i, 1) } {\n\
     \x20       let a := add(ptr, mul(i, esz))\n\
     \x20       let v := mload(add(add(base, off), mul(i, 32)))\n\
     \x20       mstore(a, or(and(mload(a), not(m)), and(shl(sh, v), m)))\n\
     \x20   }\n\
     }\n"@
}

pub fn gum_abi_farr_mem_helper_src() -> (r: String)
    ensures
        r@ == gum_abi_farr_mem_src(),
{
    String::from_str("function gum_abi_farr_mem(base, off, limit, n, esz) -> ptr {\n\
     \x20   if lt(limit, add(off, mul(n, 32))) { revert(0, 0) }\n\
     \x20   ptr := allocate_memory(and(add(mul(n, esz), 31), not(31)))\n\
     \x20   let sh := mul(sub(32, esz), 8)\n\
     \x20   let m := shl(sh, sub(shl(mul(esz, 8), 1), 1))\n\
     \x20   for { let i := 0 } lt(i, n) { i := add(i, 1) } {\n\
     \x20       let a := add(ptr, mul(i, esz))\n\
     \x20       let v := mload(add(add(base, off), mul(i, 32)))\n\
     \x20       mstore(a, or(and(mload(a), not(m)), and(shl(sh, v), m)))\n\
     \x20   }\n\
     }\n")
}

pub open spec fn gum_abi_farr_put_src() -> Seq<char> {
    "function gum_abi_farr_put(dst, ptr, n, esz) {\n\
     \x20   let sh := mul(sub(32, esz), 8)\n\
     \x20   let m := sub(shl(mul(esz, 8), 1), 1)\n\
     \x20   for { let i := 0 } lt(i, n) { i := add(i, 1) } {\n\
     \x20       mstore(add(dst, mul(i, 32)), and(shr(sh, mload(add(ptr, mul(i, esz)))), m))\n\
     \x20   }\n\
     }\n"@
}

pub fn gum_abi_farr_put_helper_src() -> (r: String)
    ensures
        r@ == gum_abi_farr_put_src(),
{
    String::from_str("function gum_abi_farr_put(dst, ptr, n, esz) {\n\
     \x20   let sh := mul(sub(32, esz), 8)\n\
     \x20   let m := sub(shl(mul(esz, 8), 1), 1)\n\
     \x20   for { let i := 0 } lt(i, n) { i := add(i, 1) } {\n\
     \x20       mstore(add(dst, mul(i, 32)), and(shr(sh, mload(add(ptr, mul(i, esz)))), m))\n\
     \x20   }\n\
     }\n")
}

pub open spec fn gum_abi_arr_put_src() -> Seq<char> {
    "function gum_abi_arr_put(dst, ptr, esz) -> written {\n\
     \x20   let n := div(mload(ptr), esz)\n\
     \x20   mstore(dst, n)\n\
     \x20   let sh := mul(sub(32, esz), 8)\n\
     \x20   let m := sub(shl(mul(esz, 8), 1), 1)\n\
     \x20   let src := add(ptr, 32)\n\
     \x20   for { let i := 0 } lt(i, n) { i := add(i, 1) } {\n\
     \x20       mstore(add(add(dst, 32), mul(i, 32)), and(shr(sh, mload(add(src, mul(i, esz)))), m))\n\
     \x20   }\n\
     \x20   written := add(32, mul(n, 32))\n\
     }\n"@
}

pub fn gum_abi_arr_put_helper_src() -> (r: String)
    ensures
        r@ == gum_abi_arr_put_src(),
{
    String::from_str("function gum_abi_arr_put(dst, ptr, esz) -> written {\n\
     \x20   let n := div(mload(ptr), esz)\n\
     \x20   mstore(dst, n)\n\
     \x20   let sh := mul(sub(32, esz), 8)\n\
     \x20   let m := sub(shl(mul(esz, 8), 1), 1)\n\
     \x20   let src := add(ptr, 32)\n\
     \x20   for { let i := 0 } lt(i, n) { i := add(i, 1) } {\n\
     \x20       mstore(add(add(dst, 32), mul(i, 32)), and(shr(sh, mload(add(src, mul(i, esz)))), m))\n\
     \x20   }\n\
     \x20   written := add(32, mul(n, 32))\n\
     }\n")
}

pub open spec fn gum_abi_arr_size_src() -> Seq<char> {
    "function gum_abi_arr_size(ptr, esz) -> sz {\n\
     \x20   sz := add(32, mul(div(mload(ptr), esz), 32))\n\
     }\n"@
}

pub fn gum_abi_arr_size_helper_src() -> (r: String)
    ensures
        r@ == gum_abi_arr_size_src(),
{
    String::from_str("function gum_abi_arr_size(ptr, esz) -> sz {\n\
     \x20   sz := add(32, mul(div(mload(ptr), esz), 32))\n\
     }\n")
}

pub open spec fn abi_dynarr_cd_src(fname: Seq<char>, inner_cd: Seq<char>) -> Seq<char> {
    "function "@
        + fname
        + "(off) -> ptr {\n\
     \x20   if lt(calldatasize(), add(off, 32)) { revert(0, 0) }\n\
     \x20   let n := calldataload(off)\n\
     \x20   let base := add(off, 32)\n\
     \x20   if gt(n, div(sub(calldatasize(), base), 32)) { revert(0, 0) }\n\
     \x20   ptr := allocate_memory(add(32, mul(n, 32)))\n\
     \x20   mstore(ptr, mul(n, 32))\n\
     \x20   for { let i := 0 } lt(i, n) { i := add(i, 1) } {\n\
     \x20       let eo := calldataload(add(base, mul(i, 32)))\n\
     \x20       if gt(eo, calldatasize()) { revert(0, 0) }\n\
     \x20       mstore(add(add(ptr, 32), mul(i, 32)), "@
        + inner_cd
        + "(add(base, eo)))\n\
     \x20   }\n\
     }\n"@
}

pub fn abi_dynarr_cd_helper_src(fname: &str, inner_cd: &str) -> (r: String)
    ensures
        r@ == abi_dynarr_cd_src(fname@, inner_cd@),
{
    let mut o = String::from_str("function ");
    o.append(fname);
    o.append("(off) -> ptr {\n\
     \x20   if lt(calldatasize(), add(off, 32)) { revert(0, 0) }\n\
     \x20   let n := calldataload(off)\n\
     \x20   let base := add(off, 32)\n\
     \x20   if gt(n, div(sub(calldatasize(), base), 32)) { revert(0, 0) }\n\
     \x20   ptr := allocate_memory(add(32, mul(n, 32)))\n\
     \x20   mstore(ptr, mul(n, 32))\n\
     \x20   for { let i := 0 } lt(i, n) { i := add(i, 1) } {\n\
     \x20       let eo := calldataload(add(base, mul(i, 32)))\n\
     \x20       if gt(eo, calldatasize()) { revert(0, 0) }\n\
     \x20       mstore(add(add(ptr, 32), mul(i, 32)), ");
    o.append(inner_cd);
    o.append("(add(base, eo)))\n\
     \x20   }\n\
     }\n");
    o
}

pub open spec fn abi_dynarr_mem_src(fname: Seq<char>, inner_mem: Seq<char>) -> Seq<char> {
    "function "@
        + fname
        + "(base, off, limit) -> ptr {\n\
     \x20   if lt(limit, add(off, 32)) { revert(0, 0) }\n\
     \x20   let n := mload(add(base, off))\n\
     \x20   let tbl := add(off, 32)\n\
     \x20   if gt(n, div(sub(limit, tbl), 32)) { revert(0, 0) }\n\
     \x20   ptr := allocate_memory(add(32, mul(n, 32)))\n\
     \x20   mstore(ptr, mul(n, 32))\n\
     \x20   for { let i := 0 } lt(i, n) { i := add(i, 1) } {\n\
     \x20       let eo := mload(add(base, add(tbl, mul(i, 32))))\n\
     \x20       if gt(eo, limit) { revert(0, 0) }\n\
     \x20       mstore(add(add(ptr, 32), mul(i, 32)), "@
        + inner_mem
        + "(base, add(tbl, eo), limit))\n\
     \x20   }\n\
     }\n"@
}

pub fn abi_dynarr_mem_helper_src(fname: &str, inner_mem: &str) -> (r: String)
    ensures
        r@ == abi_dynarr_mem_src(fname@, inner_mem@),
{
    let mut o = String::from_str("function ");
    o.append(fname);
    o.append("(base, off, limit) -> ptr {\n\
     \x20   if lt(limit, add(off, 32)) { revert(0, 0) }\n\
     \x20   let n := mload(add(base, off))\n\
     \x20   let tbl := add(off, 32)\n\
     \x20   if gt(n, div(sub(limit, tbl), 32)) { revert(0, 0) }\n\
     \x20   ptr := allocate_memory(add(32, mul(n, 32)))\n\
     \x20   mstore(ptr, mul(n, 32))\n\
     \x20   for { let i := 0 } lt(i, n) { i := add(i, 1) } {\n\
     \x20       let eo := mload(add(base, add(tbl, mul(i, 32))))\n\
     \x20       if gt(eo, limit) { revert(0, 0) }\n\
     \x20       mstore(add(add(ptr, 32), mul(i, 32)), ");
    o.append(inner_mem);
    o.append("(base, add(tbl, eo), limit))\n\
     \x20   }\n\
     }\n");
    o
}

pub open spec fn abi_dynarr_put_src(fname: Seq<char>, inner_put: Seq<char>) -> Seq<char> {
    "function "@
        + fname
        + "(dst, ptr)"@
        + " -> written {\n\
     \x20   let n := div(mload(ptr), 32)\n\
     \x20   mstore(dst, n)\n\
     \x20   let tbl := add(dst, 32)\n\
     \x20   let cur := mul(n, 32)\n\
     \x20   for { let i := 0 } lt(i, n) { i := add(i, 1) } {\n\
     \x20       mstore(add(tbl, mul(i, 32)), cur)\n\
     \x20       let e := mload(add(add(ptr, 32), mul(i, 32)))\n\
     \x20       cur := add(cur, "@
        + inner_put
        + "(add(tbl, cur), e))\n\
     \x20   }\n\
     \x20   written := add(32, cur)\n\
     }\n"@
}

pub fn abi_dynarr_put_helper_src(fname: &str, inner_put: &str) -> (r: String)
    ensures
        r@ == abi_dynarr_put_src(fname@, inner_put@),
{
    let mut o = String::from_str("function ");
    o.append(fname);
    o.append("(dst, ptr)");
    o.append(" -> written {\n\
     \x20   let n := div(mload(ptr), 32)\n\
     \x20   mstore(dst, n)\n\
     \x20   let tbl := add(dst, 32)\n\
     \x20   let cur := mul(n, 32)\n\
     \x20   for { let i := 0 } lt(i, n) { i := add(i, 1) } {\n\
     \x20       mstore(add(tbl, mul(i, 32)), cur)\n\
     \x20       let e := mload(add(add(ptr, 32), mul(i, 32)))\n\
     \x20       cur := add(cur, ");
    o.append(inner_put);
    o.append("(add(tbl, cur), e))\n\
     \x20   }\n\
     \x20   written := add(32, cur)\n\
     }\n");
    o
}

pub open spec fn abi_dynarr_size_src(fname: Seq<char>, inner_size: Seq<char>) -> Seq<char> {
    "function "@
        + fname
        + "(ptr)"@
        + " -> sz {\n\
     \x20   let n := div(mload(ptr), 32)\n\
     \x20   sz := add(32, mul(n, 32))\n\
     \x20   for { let i := 0 } lt(i, n) { i := add(i, 1) } {\n\
     \x20       sz := add(sz, "@
        + inner_size
        + "(mload(add(add(ptr, 32), mul(i, 32)))))\n\
     \x20   }\n\
     }\n"@
}

pub fn abi_dynarr_size_helper_src(fname: &str, inner_size: &str) -> (r: String)
    ensures
        r@ == abi_dynarr_size_src(fname@, inner_size@),
{
    let mut o = String::from_str("function ");
    o.append(fname);
    o.append("(ptr)");
    o.append(" -> sz {\n\
     \x20   let n := div(mload(ptr), 32)\n\
     \x20   sz := add(32, mul(n, 32))\n\
     \x20   for { let i := 0 } lt(i, n) { i := add(i, 1) } {\n\
     \x20       sz := add(sz, ");
    o.append(inner_size);
    o.append("(mload(add(add(ptr, 32), mul(i, 32)))))\n\
     \x20   }\n\
     }\n");
    o
}

pub open spec fn abi_dynfarr_cd_src(fname: Seq<char>, inner_cd: Seq<char>, n: usize) -> Seq<char> {
    "function "@
        + fname
        + "(off) -> ptr {\n\
     \x20   if lt(calldatasize(), add(off, "@
        + dec(n as nat * 32)
        + ")) { revert(0, 0) }\n\
     \x20   ptr := allocate_memory("@
        + dec(n as nat * 32)
        + ")\n\
     \x20   for { let i := 0 } lt(i, "@
        + dec(n as nat)
        + ") { i := add(i, 1) } {\n\
     \x20       let eo := calldataload(add(off, mul(i, 32)))\n\
     \x20       if gt(eo, calldatasize()) { revert(0, 0) }\n\
     \x20       mstore(add(ptr, mul(i, 32)), "@
        + inner_cd
        + "(add(off, eo)))\n\
     \x20   }\n\
     }\n"@
}

pub fn abi_dynfarr_cd_helper_src(fname: &str, inner_cd: &str, n: usize) -> (r: String)
    ensures
        r@ == abi_dynfarr_cd_src(fname@, inner_cd@, n),
{
    let mut o = String::from_str("function ");
    o.append(fname);
    o.append("(off) -> ptr {\n\
     \x20   if lt(calldatasize(), add(off, ");
    o.append(dec_mul(n, 32).as_str());
    o.append(")) { revert(0, 0) }\n\
     \x20   ptr := allocate_memory(");
    o.append(dec_mul(n, 32).as_str());
    o.append(")\n\
     \x20   for { let i := 0 } lt(i, ");
    o.append(dec_text(n).as_str());
    o.append(") { i := add(i, 1) } {\n\
     \x20       let eo := calldataload(add(off, mul(i, 32)))\n\
     \x20       if gt(eo, calldatasize()) { revert(0, 0) }\n\
     \x20       mstore(add(ptr, mul(i, 32)), ");
    o.append(inner_cd);
    o.append("(add(off, eo)))\n\
     \x20   }\n\
     }\n");
    o
}

pub open spec fn abi_dynfarr_mem_src(fname: Seq<char>, inner_mem: Seq<char>, n: usize) -> Seq<char> {
    "function "@
        + fname
        + "(base, off, limit) -> ptr {\n\
     \x20   if lt(limit, add(off, "@
        + dec(n as nat * 32)
        + ")) { revert(0, 0) }\n\
     \x20   ptr := allocate_memory("@
        + dec(n as nat * 32)
        + ")\n\
     \x20   for { let i := 0 } lt(i, "@
        + dec(n as nat)
        + ") { i := add(i, 1) } {\n\
     \x20       let eo := mload(add(base, add(off, mul(i, 32))))\n\
     \x20       if gt(eo, limit) { revert(0, 0) }\n\
     \x20       mstore(add(ptr, mul(i, 32)), "@
        + inner_mem
        + "(base, add(off, eo), limit))\n\
     \x20   }\n\
     }\n"@
}

pub fn abi_dynfarr_mem_helper_src(fname: &str, inner_mem: &str, n: usize) -> (r: String)
    ensures
        r@ == abi_dynfarr_mem_src(fname@, inner_mem@, n),
{
    let mut o = String::from_str("function ");
    o.append(fname);
    o.append("(base, off, limit) -> ptr {\n\
     \x20   if lt(limit, add(off, ");
    o.append(dec_mul(n, 32).as_str());
    o.append(")) { revert(0, 0) }\n\
     \x20   ptr := allocate_memory(");
    o.append(dec_mul(n, 32).as_str());
    o.append(")\n\
     \x20   for { let i := 0 } lt(i, ");
    o.append(dec_text(n).as_str());
    o.append(") { i := add(i, 1) } {\n\
     \x20       let eo := mload(add(base, add(off, mul(i, 32))))\n\
     \x20       if gt(eo, limit) { revert(0, 0) }\n\
     \x20       mstore(add(ptr, mul(i, 32)), ");
    o.append(inner_mem);
    o.append("(base, add(off, eo), limit))\n\
     \x20   }\n\
     }\n");
    o
}

pub open spec fn abi_dynfarr_put_src(fname: Seq<char>, inner_put: Seq<char>, n: usize) -> Seq<char> {
    "function "@
        + fname
        + "(dst, ptr)"@
        + " -> written {\n\
     \x20   let cur := "@
        + dec(n as nat * 32)
        + "\n\
     \x20   for { let i := 0 } lt(i, "@
        + dec(n as nat)
        + ") { i := add(i, 1) } {\n\
     \x20       mstore(add(dst, mul(i, 32)), cur)\n\
     \x20       cur := add(cur, "@
        + inner_put
        + "(add(dst, cur), mload(add(ptr, mul(i, 32)))))\n\
     \x20   }\n\
     \x20   written := cur\n\
     }\n"@
}

pub fn abi_dynfarr_put_helper_src(fname: &str, inner_put: &str, n: usize) -> (r: String)
    ensures
        r@ == abi_dynfarr_put_src(fname@, inner_put@, n),
{
    let mut o = String::from_str("function ");
    o.append(fname);
    o.append("(dst, ptr)");
    o.append(" -> written {\n\
     \x20   let cur := ");
    o.append(dec_mul(n, 32).as_str());
    o.append("\n\
     \x20   for { let i := 0 } lt(i, ");
    o.append(dec_text(n).as_str());
    o.append(") { i := add(i, 1) } {\n\
     \x20       mstore(add(dst, mul(i, 32)), cur)\n\
     \x20       cur := add(cur, ");
    o.append(inner_put);
    o.append("(add(dst, cur), mload(add(ptr, mul(i, 32)))))\n\
     \x20   }\n\
     \x20   written := cur\n\
     }\n");
    o
}

pub open spec fn abi_dynfarr_size_src(fname: Seq<char>, inner_size: Seq<char>, n: usize) -> Seq<char> {
    "function "@
        + fname
        + "(ptr)"@
        + " -> sz {\n\
     \x20   sz := "@
        + dec(n as nat * 32)
        + "\n\
     \x20   for { let i := 0 } lt(i, "@
        + dec(n as nat)
        + ") { i := add(i, 1) } {\n\
     \x20       sz := add(sz, "@
        + inner_size
        + "(mload(add(ptr, mul(i, 32)))))\n\
     \x20   }\n\
     }\n"@
}

pub fn abi_dynfarr_size_helper_src(fname: &str, inner_size: &str, n: usize) -> (r: String)
    ensures
        r@ == abi_dynfarr_size_src(fname@, inner_size@, n),
{
    let mut o = String::from_str("function ");
    o.append(fname);
    o.append("(ptr)");
    o.append(" -> sz {\n\
     \x20   sz := ");
    o.append(dec_mul(n, 32).as_str());
    o.append("\n\
     \x20   for { let i := 0 } lt(i, ");
    o.append(dec_text(n).as_str());
    o.append(") { i := add(i, 1) } {\n\
     \x20       sz := add(sz, ");
    o.append(inner_size);
    o.append("(mload(add(ptr, mul(i, 32)))))\n\
     \x20   }\n\
     }\n");
    o
}

pub open spec fn abi_statarr_put_src(fname: Seq<char>, inner_put: Seq<char>, wire: usize, packed: usize) -> Seq<char> {
    "function "@
        + fname
        + "(dst, ptr)"@
        + " -> written {\n\
     \x20   let n := div(mload(ptr), "@
        + dec(packed as nat)
        + ")\n\
     \x20   mstore(dst, n)\n\
     \x20   for { let i := 0 } lt(i, n) { i := add(i, 1) } {\n\
     \x20       pop("@
        + inner_put
        + "(add(add(dst, 32), mul(i, "@
        + dec(wire as nat)
        + ")), add(add(ptr, 32), mul(i, "@
        + dec(packed as nat)
        + "))))\n\
     \x20   }\n\
     \x20   written := add(32, mul(n, "@
        + dec(wire as nat)
        + "))\n\
     }\n"@
}

pub fn abi_statarr_put_helper_src(fname: &str, inner_put: &str, wire: usize, packed: usize) -> (r: String)
    ensures
        r@ == abi_statarr_put_src(fname@, inner_put@, wire, packed),
{
    let mut o = String::from_str("function ");
    o.append(fname);
    o.append("(dst, ptr)");
    o.append(" -> written {\n\
     \x20   let n := div(mload(ptr), ");
    o.append(dec_text(packed).as_str());
    o.append(")\n\
     \x20   mstore(dst, n)\n\
     \x20   for { let i := 0 } lt(i, n) { i := add(i, 1) } {\n\
     \x20       pop(");
    o.append(inner_put);
    o.append("(add(add(dst, 32), mul(i, ");
    o.append(dec_text(wire).as_str());
    o.append(")), add(add(ptr, 32), mul(i, ");
    o.append(dec_text(packed).as_str());
    o.append("))))\n\
     \x20   }\n\
     \x20   written := add(32, mul(n, ");
    o.append(dec_text(wire).as_str());
    o.append("))\n\
     }\n");
    o
}

pub open spec fn abi_statfarr_cd_src(fname: Seq<char>, inner_cd: Seq<char>, n: usize, wire: usize, packed: usize) -> Seq<char> {
    "function "@
        + fname
        + "(off) -> ptr {\n\
     \x20   if lt(calldatasize(), add(off, "@
        + dec(n as nat * wire as nat)
        + ")) { revert(0, 0) }\n\
     \x20   ptr := allocate_memory("@
        + dec(n as nat * packed as nat)
        + ")\n\
     \x20   for { let i := 0 } lt(i, "@
        + dec(n as nat)
        + ") { i := add(i, 1) } {\n\
     \x20       let e := "@
        + inner_cd
        + "(add(off, mul(i, "@
        + dec(wire as nat)
        + ")))\n\
     \x20       gum_memory_copy(e, add(ptr, mul(i, "@
        + dec(packed as nat)
        + ")), "@
        + dec(packed as nat)
        + ")\n\
     \x20   }\n\
     }\n"@
}

pub fn abi_statfarr_cd_helper_src(fname: &str, inner_cd: &str, n: usize, wire: usize, packed: usize) -> (r: String)
    ensures
        r@ == abi_statfarr_cd_src(fname@, inner_cd@, n, wire, packed),
{
    let mut o = String::from_str("function ");
    o.append(fname);
    o.append("(off) -> ptr {\n\
     \x20   if lt(calldatasize(), add(off, ");
    o.append(dec_mul(n, wire).as_str());
    o.append(")) { revert(0, 0) }\n\
     \x20   ptr := allocate_memory(");
    o.append(dec_mul(n, packed).as_str());
    o.append(")\n\
     \x20   for { let i := 0 } lt(i, ");
    o.append(dec_text(n).as_str());
    o.append(") { i := add(i, 1) } {\n\
     \x20       let e := ");
    o.append(inner_cd);
    o.append("(add(off, mul(i, ");
    o.append(dec_text(wire).as_str());
    o.append(")))\n\
     \x20       gum_memory_copy(e, add(ptr, mul(i, ");
    o.append(dec_text(packed).as_str());
    o.append(")), ");
    o.append(dec_text(packed).as_str());
    o.append(")\n\
     \x20   }\n\
     }\n");
    o
}

pub open spec fn abi_statfarr_mem_src(fname: Seq<char>, inner_mem: Seq<char>, n: usize, wire: usize, packed: usize) -> Seq<char> {
    "function "@
        + fname
        + "(base, off, limit) -> ptr {\n\
     \x20   if lt(limit, add(off, "@
        + dec(n as nat * wire as nat)
        + ")) { revert(0, 0) }\n\
     \x20   ptr := allocate_memory("@
        + dec(n as nat * packed as nat)
        + ")\n\
     \x20   for { let i := 0 } lt(i, "@
        + dec(n as nat)
        + ") { i := add(i, 1) } {\n\
     \x20       let e := "@
        + inner_mem
        + "(base, add(off, mul(i, "@
        + dec(wire as nat)
        + ")), limit)\n\
     \x20       gum_memory_copy(e, add(ptr, mul(i, "@
        + dec(packed as nat)
        + ")), "@
        + dec(packed as nat)
        + ")\n\
     \x20   }\n\
     }\n"@
}

pub fn abi_statfarr_mem_helper_src(fname: &str, inner_mem: &str, n: usize, wire: usize, packed: usize) -> (r: String)
    ensures
        r@ == abi_statfarr_mem_src(fname@, inner_mem@, n, wire, packed),
{
    let mut o = String::from_str("function ");
    o.append(fname);
    o.append("(base, off, limit) -> ptr {\n\
     \x20   if lt(limit, add(off, ");
    o.append(dec_mul(n, wire).as_str());
    o.append(")) { revert(0, 0) }\n\
     \x20   ptr := allocate_memory(");
    o.append(dec_mul(n, packed).as_str());
    o.append(")\n\
     \x20   for { let i := 0 } lt(i, ");
    o.append(dec_text(n).as_str());
    o.append(") { i := add(i, 1) } {\n\
     \x20       let e := ");
    o.append(inner_mem);
    o.append("(base, add(off, mul(i, ");
    o.append(dec_text(wire).as_str());
    o.append(")), limit)\n\
     \x20       gum_memory_copy(e, add(ptr, mul(i, ");
    o.append(dec_text(packed).as_str());
    o.append(")), ");
    o.append(dec_text(packed).as_str());
    o.append(")\n\
     \x20   }\n\
     }\n");
    o
}

pub open spec fn abi_statfarr_put_src(fname: Seq<char>, inner_put: Seq<char>, n: usize, wire: usize, packed: usize) -> Seq<char> {
    "function "@
        + fname
        + "(dst, ptr)"@
        + " -> written {\n\
     \x20   for { let i := 0 } lt(i, "@
        + dec(n as nat)
        + ") { i := add(i, 1) } {\n\
     \x20       "@
        + inner_put
        + "(add(dst, mul(i, "@
        + dec(wire as nat)
        + ")), add(ptr, mul(i, "@
        + dec(packed as nat)
        + ")))\n\
     \x20   }\n\
     \x20   written := "@
        + dec(n as nat * wire as nat)
        + "\n\
     }\n"@
}

pub fn abi_statfarr_put_helper_src(fname: &str, inner_put: &str, n: usize, wire: usize, packed: usize) -> (r: String)
    ensures
        r@ == abi_statfarr_put_src(fname@, inner_put@, n, wire, packed),
{
    let mut o = String::from_str("function ");
    o.append(fname);
    o.append("(dst, ptr)");
    o.append(" -> written {\n\
     \x20   for { let i := 0 } lt(i, ");
    o.append(dec_text(n).as_str());
    o.append(") { i := add(i, 1) } {\n\
     \x20       ");
    o.append(inner_put);
    o.append("(add(dst, mul(i, ");
    o.append(dec_text(wire).as_str());
    o.append(")), add(ptr, mul(i, ");
    o.append(dec_text(packed).as_str());
    o.append(")))\n\
     \x20   }\n\
     \x20   written := ");
    o.append(dec_mul(n, wire).as_str());
    o.append("\n\
     }\n");
    o
}

pub open spec fn gum_abi_str_mem_src() -> Seq<char> {
    "function gum_abi_str_mem(base, off, limit) -> ptr {\n\
     \x20   if gt(add(off, 32), limit) { revert(0, 0) }\n\
     \x20   let len := mload(add(base, off))\n\
     \x20   if gt(add(add(off, 32), len), limit) { revert(0, 0) }\n\
     \x20   ptr := allocate_memory(add(32, len))\n\
     \x20   mstore(ptr, shl(192, len))\n\
     \x20   gum_memory_copy(add(add(base, off), 32), add(ptr, 32), len)\n\
     }\n"@
}

pub fn gum_abi_str_mem_helper_src() -> (r: String)
    ensures
        r@ == gum_abi_str_mem_src(),
{
    String::from_str("function gum_abi_str_mem(base, off, limit) -> ptr {\n\
     \x20   if gt(add(off, 32), limit) { revert(0, 0) }\n\
     \x20   let len := mload(add(base, off))\n\
     \x20   if gt(add(add(off, 32), len), limit) { revert(0, 0) }\n\
     \x20   ptr := allocate_memory(add(32, len))\n\
     \x20   mstore(ptr, shl(192, len))\n\
     \x20   gum_memory_copy(add(add(base, off), 32), add(ptr, 32), len)\n\
     }\n")
}

pub open spec fn gum_abi_str_cd_src() -> Seq<char> {
    "function gum_abi_str_cd(off) -> ptr {\n\
     \x20   if gt(add(off, 32), calldatasize()) { revert(0, 0) }\n\
     \x20   let len := calldataload(off)\n\
     \x20   if gt(add(add(off, 32), len), calldatasize()) { revert(0, 0) }\n\
     \x20   ptr := allocate_memory(add(32, len))\n\
     \x20   mstore(ptr, shl(192, len))\n\
     \x20   calldatacopy(add(ptr, 32), add(off, 32), len)\n\
     }\n"@
}

pub fn gum_abi_str_cd_helper_src() -> (r: String)
    ensures
        r@ == gum_abi_str_cd_src(),
{
    String::from_str("function gum_abi_str_cd(off) -> ptr {\n\
     \x20   if gt(add(off, 32), calldatasize()) { revert(0, 0) }\n\
     \x20   let len := calldataload(off)\n\
     \x20   if gt(add(add(off, 32), len), calldatasize()) { revert(0, 0) }\n\
     \x20   ptr := allocate_memory(add(32, len))\n\
     \x20   mstore(ptr, shl(192, len))\n\
     \x20   calldatacopy(add(ptr, 32), add(off, 32), len)\n\
     }\n")
}

pub open spec fn gum_abi_str_put_src() -> Seq<char> {
    "function "@
        + "gum_abi_str_put"@
        + "(dst, ptr)"@
        + " -> written {\n\
     \x20   let len := shr(192, mload(ptr))\n\
     \x20   mstore(dst, len)\n\
     \x20   let full := div(len, 32)\n\
     \x20   let i := 0\n\
     \x20   for {} lt(i, full) { i := add(i, 1) } {\n\
     \x20       mstore(add(add(dst, 32), mul(i, 32)), mload(add(add(ptr, 32), mul(i, 32))))\n\
     \x20   }\n\
     \x20   let rem := mod(len, 32)\n\
     \x20   if rem {\n\
     \x20       let lw := and(mload(add(add(ptr, 32), mul(full, 32))), not(shr(mul(8, rem), not(0))))\n\
     \x20       mstore(add(add(dst, 32), mul(full, 32)), lw)\n\
     \x20   }\n\
     \x20   written := add(32, and(add(len, 31), not(31)))\n\
     }\n"@
}

pub fn gum_abi_str_put_helper_src() -> (r: String)
    ensures
        r@ == gum_abi_str_put_src(),
{
    cat4("function ", "gum_abi_str_put", "(dst, ptr)", " -> written {\n\
     \x20   let len := shr(192, mload(ptr))\n\
     \x20   mstore(dst, len)\n\
     \x20   let full := div(len, 32)\n\
     \x20   let i := 0\n\
     \x20   for {} lt(i, full) { i := add(i, 1) } {\n\
     \x20       mstore(add(add(dst, 32), mul(i, 32)), mload(add(add(ptr, 32), mul(i, 32))))\n\
     \x20   }\n\
     \x20   let rem := mod(len, 32)\n\
     \x20   if rem {\n\
     \x20       let lw := and(mload(add(add(ptr, 32), mul(full, 32))), not(shr(mul(8, rem), not(0))))\n\
     \x20       mstore(add(add(dst, 32), mul(full, 32)), lw)\n\
     \x20   }\n\
     \x20   written := add(32, and(add(len, 31), not(31)))\n\
     }\n")
}

pub open spec fn gum_abi_str_size_src() -> Seq<char> {
    "function "@
        + "gum_abi_str_size"@
        + "(ptr)"@
        + " -> sz {\n\
     \x20   sz := add(32, and(add(shr(192, mload(ptr)), 31), not(31)))\n\
     }\n"@
}

pub fn gum_abi_str_size_helper_src() -> (r: String)
    ensures
        r@ == gum_abi_str_size_src(),
{
    cat4("function ", "gum_abi_str_size", "(ptr)", " -> sz {\n\
     \x20   sz := add(32, and(add(shr(192, mload(ptr)), 31), not(31)))\n\
     }\n")
}

pub open spec fn abi_starr_cd_src(fname: Seq<char>, st_cd: Seq<char>, wire: usize, packed: usize) -> Seq<char> {
    "function "@
        + fname
        + "(off) -> ptr {\n\
     \x20   if lt(calldatasize(), add(off, 32)) { revert(0, 0) }\n\
     \x20   let n := calldataload(off)\n\
     \x20   if gt(n, div(sub(calldatasize(), add(off, 32)), "@
        + dec(wire as nat)
        + ")) { revert(0, 0) }\n\
     \x20   ptr := allocate_memory(add(32, mul(n, "@
        + dec(packed as nat)
        + ")))\n\
     \x20   mstore(ptr, mul(n, "@
        + dec(packed as nat)
        + "))\n\
     \x20   for { let i := 0 } lt(i, n) { i := add(i, 1) } {\n\
     \x20       let e := "@
        + st_cd
        + "(add(add(off, 32), mul(i, "@
        + dec(wire as nat)
        + ")))\n\
     \x20       gum_memory_copy(e, add(add(ptr, 32), mul(i, "@
        + dec(packed as nat)
        + ")), "@
        + dec(packed as nat)
        + ")\n\
     \x20   }\n\
     }\n"@
}

pub fn abi_starr_cd_helper_src(fname: &str, st_cd: &str, wire: usize, packed: usize) -> (r: String)
    ensures
        r@ == abi_starr_cd_src(fname@, st_cd@, wire, packed),
{
    let mut o = String::from_str("function ");
    o.append(fname);
    o.append("(off) -> ptr {\n\
     \x20   if lt(calldatasize(), add(off, 32)) { revert(0, 0) }\n\
     \x20   let n := calldataload(off)\n\
     \x20   if gt(n, div(sub(calldatasize(), add(off, 32)), ");
    o.append(dec_text(wire).as_str());
    o.append(")) { revert(0, 0) }\n\
     \x20   ptr := allocate_memory(add(32, mul(n, ");
    o.append(dec_text(packed).as_str());
    o.append(")))\n\
     \x20   mstore(ptr, mul(n, ");
    o.append(dec_text(packed).as_str());
    o.append("))\n\
     \x20   for { let i := 0 } lt(i, n) { i := add(i, 1) } {\n\
     \x20       let e := ");
    o.append(st_cd);
    o.append("(add(add(off, 32), mul(i, ");
    o.append(dec_text(wire).as_str());
    o.append(")))\n\
     \x20       gum_memory_copy(e, add(add(ptr, 32), mul(i, ");
    o.append(dec_text(packed).as_str());
    o.append(")), ");
    o.append(dec_text(packed).as_str());
    o.append(")\n\
     \x20   }\n\
     }\n");
    o
}

pub open spec fn abi_starr_mem_src(fname: Seq<char>, st_mem: Seq<char>, wire: usize, packed: usize) -> Seq<char> {
    "function "@
        + fname
        + "(base, off, limit) -> ptr {\n\
     \x20   if lt(limit, add(off, 32)) { revert(0, 0) }\n\
     \x20   let n := mload(add(base, off))\n\
     \x20   if gt(n, div(sub(limit, add(off, 32)), "@
        + dec(wire as nat)
        + ")) { revert(0, 0) }\n\
     \x20   ptr := allocate_memory(add(32, mul(n, "@
        + dec(packed as nat)
        + ")))\n\
     \x20   mstore(ptr, mul(n, "@
        + dec(packed as nat)
        + "))\n\
     \x20   for { let i := 0 } lt(i, n) { i := add(i, 1) } {\n\
     \x20       let e := "@
        + st_mem
        + "(base, add(add(off, 32), mul(i, "@
        + dec(wire as nat)
        + ")), limit)\n\
     \x20       gum_memory_copy(e, add(add(ptr, 32), mul(i, "@
        + dec(packed as nat)
        + ")), "@
        + dec(packed as nat)
        + ")\n\
     \x20   }\n\
     }\n"@
}

pub fn abi_starr_mem_helper_src(fname: &str, st_mem: &str, wire: usize, packed: usize) -> (r: String)
    ensures
        r@ == abi_starr_mem_src(fname@, st_mem@, wire, packed),
{
    let mut o = String::from_str("function ");
    o.append(fname);
    o.append("(base, off, limit) -> ptr {\n\
     \x20   if lt(limit, add(off, 32)) { revert(0, 0) }\n\
     \x20   let n := mload(add(base, off))\n\
     \x20   if gt(n, div(sub(limit, add(off, 32)), ");
    o.append(dec_text(wire).as_str());
    o.append(")) { revert(0, 0) }\n\
     \x20   ptr := allocate_memory(add(32, mul(n, ");
    o.append(dec_text(packed).as_str());
    o.append(")))\n\
     \x20   mstore(ptr, mul(n, ");
    o.append(dec_text(packed).as_str());
    o.append("))\n\
     \x20   for { let i := 0 } lt(i, n) { i := add(i, 1) } {\n\
     \x20       let e := ");
    o.append(st_mem);
    o.append("(base, add(add(off, 32), mul(i, ");
    o.append(dec_text(wire).as_str());
    o.append(")), limit)\n\
     \x20       gum_memory_copy(e, add(add(ptr, 32), mul(i, ");
    o.append(dec_text(packed).as_str());
    o.append(")), ");
    o.append(dec_text(packed).as_str());
    o.append(")\n\
     \x20   }\n\
     }\n");
    o
}

pub open spec fn abi_starr_put_src(fname: Seq<char>, st_put: Seq<char>, wire: usize, packed: usize) -> Seq<char> {
    "function "@
        + fname
        + "(dst, ptr)"@
        + " -> written {\n\
     \x20   let n := div(mload(ptr), "@
        + dec(packed as nat)
        + ")\n\
     \x20   mstore(dst, n)\n\
     \x20   for { let i := 0 } lt(i, n) { i := add(i, 1) } {\n\
     \x20       "@
        + st_put
        + "(add(add(dst, 32), mul(i, "@
        + dec(wire as nat)
        + ")), add(add(ptr, 32), mul(i, "@
        + dec(packed as nat)
        + ")))\n\
     \x20   }\n\
     \x20   written := add(32, mul(n, "@
        + dec(wire as nat)
        + "))\n\
     }\n"@
}

pub fn abi_starr_put_helper_src(fname: &str, st_put: &str, wire: usize, packed: usize) -> (r: String)
    ensures
        r@ == abi_starr_put_src(fname@, st_put@, wire, packed),
{
    let mut o = String::from_str("function ");
    o.append(fname);
    o.append("(dst, ptr)");
    o.append(" -> written {\n\
     \x20   let n := div(mload(ptr), ");
    o.append(dec_text(packed).as_str());
    o.append(")\n\
     \x20   mstore(dst, n)\n\
     \x20   for { let i := 0 } lt(i, n) { i := add(i, 1) } {\n\
     \x20       ");
    o.append(st_put);
    o.append("(add(add(dst, 32), mul(i, ");
    o.append(dec_text(wire).as_str());
    o.append(")), add(add(ptr, 32), mul(i, ");
    o.append(dec_text(packed).as_str());
    o.append(")))\n\
     \x20   }\n\
     \x20   written := add(32, mul(n, ");
    o.append(dec_text(wire).as_str());
    o.append("))\n\
     }\n");
    o
}

pub open spec fn abi_starr_size_src(fname: Seq<char>, wire: usize, packed: usize) -> Seq<char> {
    "function "@
        + fname
        + "(ptr)"@
        + " -> sz {\n\
     \x20   sz := add(32, mul(div(mload(ptr), "@
        + dec(packed as nat)
        + "), "@
        + dec(wire as nat)
        + "))\n\
     }\n"@
}

pub fn abi_starr_size_helper_src(fname: &str, wire: usize, packed: usize) -> (r: String)
    ensures
        r@ == abi_starr_size_src(fname@, wire, packed),
{
    let mut o = String::from_str("function ");
    o.append(fname);
    o.append("(ptr)");
    o.append(" -> sz {\n\
     \x20   sz := add(32, mul(div(mload(ptr), ");
    o.append(dec_text(packed).as_str());
    o.append("), ");
    o.append(dec_text(wire).as_str());
    o.append("))\n\
     }\n");
    o
}

pub open spec fn gum_bubble_revert_src() -> Seq<char> {
    "function gum_bubble_revert() {\n\
     \x20   returndatacopy(0, 0, returndatasize())\n\
     \x20   revert(0, returndatasize())\n\
     }\n"@
}

pub fn gum_bubble_revert_helper_src() -> (r: String)
    ensures
        r@ == gum_bubble_revert_src(),
{
    String::from_str("function gum_bubble_revert() {\n\
     \x20   returndatacopy(0, 0, returndatasize())\n\
     \x20   revert(0, returndatasize())\n\
     }\n")
}

pub open spec fn gum_create_src() -> Seq<char> {
    "function gum_create(codeptr, value) -> addr {\n\
     \x20   addr := create(value, add(codeptr, 32), gum_str_len(codeptr))\n\
     \x20   if iszero(addr) { gum_bubble_revert() }\n\
     }\n"@
}

pub fn gum_create_helper_src() -> (r: String)
    ensures
        r@ == gum_create_src(),
{
    String::from_str("function gum_create(codeptr, value) -> addr {\n\
     \x20   addr := create(value, add(codeptr, 32), gum_str_len(codeptr))\n\
     \x20   if iszero(addr) { gum_bubble_revert() }\n\
     }\n")
}

pub open spec fn gum_create2_src() -> Seq<char> {
    "function gum_create2(codeptr, value, salt) -> addr {\n\
     \x20   addr := create2(value, add(codeptr, 32), gum_str_len(codeptr), salt)\n\
     \x20   if iszero(addr) { gum_bubble_revert() }\n\
     }\n"@
}

pub fn gum_create2_helper_src() -> (r: String)
    ensures
        r@ == gum_create2_src(),
{
    String::from_str("function gum_create2(codeptr, value, salt) -> addr {\n\
     \x20   addr := create2(value, add(codeptr, 32), gum_str_len(codeptr), salt)\n\
     \x20   if iszero(addr) { gum_bubble_revert() }\n\
     }\n")
}

pub open spec fn gum_create2_address_src() -> Seq<char> {
    "function gum_create2_address(codeptr, salt) -> addr {\n\
     \x20   let h := keccak256(add(codeptr, 32), gum_str_len(codeptr))\n\
     \x20   let p := mload(0x40)\n\
     \x20   mstore8(p, 0xff)\n\
     \x20   mstore(add(p, 1), shl(96, address()))\n\
     \x20   mstore(add(p, 21), salt)\n\
     \x20   mstore(add(p, 53), h)\n\
     \x20   addr := and(keccak256(p, 85), 0xffffffffffffffffffffffffffffffffffffffff)\n\
     }\n"@
}

pub fn gum_create2_address_helper_src() -> (r: String)
    ensures
        r@ == gum_create2_address_src(),
{
    String::from_str("function gum_create2_address(codeptr, salt) -> addr {\n\
     \x20   let h := keccak256(add(codeptr, 32), gum_str_len(codeptr))\n\
     \x20   let p := mload(0x40)\n\
     \x20   mstore8(p, 0xff)\n\
     \x20   mstore(add(p, 1), shl(96, address()))\n\
     \x20   mstore(add(p, 21), salt)\n\
     \x20   mstore(add(p, 53), h)\n\
     \x20   addr := and(keccak256(p, 85), 0xffffffffffffffffffffffffffffffffffffffff)\n\
     }\n")
}

pub open spec fn gum_transfer_src() -> Seq<char> {
    "function gum_transfer(to, amount) {\n\
     \x20   if iszero(call(gas(), to, amount, 0, 0, 0, 0)) {\n\
     \x20       returndatacopy(0, 0, returndatasize())\n\
     \x20       revert(0, returndatasize())\n\
     \x20   }\n\
     }\n"@
}

pub fn gum_transfer_helper_src() -> (r: String)
    ensures
        r@ == gum_transfer_src(),
{
    String::from_str("function gum_transfer(to, amount) {\n\
     \x20   if iszero(call(gas(), to, amount, 0, 0, 0, 0)) {\n\
     \x20       returndatacopy(0, 0, returndatasize())\n\
     \x20       revert(0, returndatasize())\n\
     \x20   }\n\
     }\n")
}

pub open spec fn gum_p256_verify_src() -> Seq<char> {
    "function gum_p256_verify(h, r, s, qx, qy) -> ok {\n\
     \x20   let p := mload(0x40)\n\
     \x20   mstore(p, h)\n\
     \x20   mstore(add(p, 32), r)\n\
     \x20   mstore(add(p, 64), s)\n\
     \x20   mstore(add(p, 96), qx)\n\
     \x20   mstore(add(p, 128), qy)\n\
     \x20   ok := 0\n\
     \x20   if staticcall(gas(), 0x100, p, 160, add(p, 160), 32) {\n\
     \x20       if eq(returndatasize(), 32) { ok := eq(mload(add(p, 160)), 1) }\n\
     \x20   }\n\
     }\n"@
}

pub fn gum_p256_verify_helper_src() -> (r: String)
    ensures
        r@ == gum_p256_verify_src(),
{
    String::from_str("function gum_p256_verify(h, r, s, qx, qy) -> ok {\n\
     \x20   let p := mload(0x40)\n\
     \x20   mstore(p, h)\n\
     \x20   mstore(add(p, 32), r)\n\
     \x20   mstore(add(p, 64), s)\n\
     \x20   mstore(add(p, 96), qx)\n\
     \x20   mstore(add(p, 128), qy)\n\
     \x20   ok := 0\n\
     \x20   if staticcall(gas(), 0x100, p, 160, add(p, 160), 32) {\n\
     \x20       if eq(returndatasize(), 32) { ok := eq(mload(add(p, 160)), 1) }\n\
     \x20   }\n\
     }\n")
}

pub open spec fn gum_delegate_of_src() -> Seq<char> {
    "function gum_delegate_of(a) -> target {\n\
     \x20   target := 0\n\
     \x20   if eq(extcodesize(a), 23) {\n\
     \x20       let p := mload(0x40)\n\
     \x20       mstore(p, 0)\n\
     \x20       extcodecopy(a, p, 0, 23)\n\
     \x20       if eq(shr(232, mload(p)), 0xef0100) {\n\
     \x20           target := and(shr(72, mload(p)), 0xffffffffffffffffffffffffffffffffffffffff)\n\
     \x20       }\n\
     \x20   }\n\
     }\n"@
}

pub fn gum_delegate_of_helper_src() -> (r: String)
    ensures
        r@ == gum_delegate_of_src(),
{
    String::from_str("function gum_delegate_of(a) -> target {\n\
     \x20   target := 0\n\
     \x20   if eq(extcodesize(a), 23) {\n\
     \x20       let p := mload(0x40)\n\
     \x20       mstore(p, 0)\n\
     \x20       extcodecopy(a, p, 0, 23)\n\
     \x20       if eq(shr(232, mload(p)), 0xef0100) {\n\
     \x20           target := and(shr(72, mload(p)), 0xffffffffffffffffffffffffffffffffffffffff)\n\
     \x20       }\n\
     \x20   }\n\
     }\n")
}

pub open spec fn gum_str_concat_src() -> Seq<char> {
    "function gum_str_concat(a, b) -> ptr {\n\
     \x20   let la := gum_str_len(a)\n\
     \x20   let lb := gum_str_len(b)\n\
     \x20   let total := add(la, lb)\n\
     \x20   ptr := allocate_memory(add(32, total))\n\
     \x20   mstore(ptr, shl(192, total))\n\
     \x20   gum_memory_copy(add(a, 32), add(ptr, 32), la)\n\
     \x20   gum_memory_copy(add(b, 32), add(add(ptr, 32), la), lb)\n\
     }\n"@
}

pub fn gum_str_concat_helper_src() -> (r: String)
    ensures
        r@ == gum_str_concat_src(),
{
    String::from_str("function gum_str_concat(a, b) -> ptr {\n\
     \x20   let la := gum_str_len(a)\n\
     \x20   let lb := gum_str_len(b)\n\
     \x20   let total := add(la, lb)\n\
     \x20   ptr := allocate_memory(add(32, total))\n\
     \x20   mstore(ptr, shl(192, total))\n\
     \x20   gum_memory_copy(add(a, 32), add(ptr, 32), la)\n\
     \x20   gum_memory_copy(add(b, 32), add(add(ptr, 32), la), lb)\n\
     }\n")
}

pub open spec fn gum_str_at_src(rich: bool) -> Seq<char> {
    "function gum_str_at(p, i) -> b {\n\
     \x20   if iszero(lt(i, gum_str_len(p))) { "@
        + panic_spec(rich, "0x32"@)
        + " }\n\
     \x20   b := shr(248, mload(add(add(p, 32), i)))\n\
     }\n"@
}

pub fn gum_str_at_helper_src(rich: bool) -> (r: String)
    ensures
        r@ == gum_str_at_src(rich),
{
    let mut o = String::from_str("function gum_str_at(p, i) -> b {\n\
     \x20   if iszero(lt(i, gum_str_len(p))) { ");
    o.append(panic_revert(rich, "0x32").as_str());
    o.append(" }\n\
     \x20   b := shr(248, mload(add(add(p, 32), i)))\n\
     }\n");
    o
}

pub open spec fn gum_str_slice_src(rich: bool) -> Seq<char> {
    "function gum_str_slice(p, s, e) -> ptr {\n\
     \x20   if or(gt(e, gum_str_len(p)), gt(s, e)) { "@
        + panic_spec(rich, "0x32"@)
        + " }\n\
     \x20   let l := sub(e, s)\n\
     \x20   ptr := allocate_memory(add(32, l))\n\
     \x20   mstore(ptr, shl(192, l))\n\
     \x20   gum_memory_copy(add(add(p, 32), s), add(ptr, 32), l)\n\
     }\n"@
}

pub fn gum_str_slice_helper_src(rich: bool) -> (r: String)
    ensures
        r@ == gum_str_slice_src(rich),
{
    let mut o = String::from_str("function gum_str_slice(p, s, e) -> ptr {\n\
     \x20   if or(gt(e, gum_str_len(p)), gt(s, e)) { ");
    o.append(panic_revert(rich, "0x32").as_str());
    o.append(" }\n\
     \x20   let l := sub(e, s)\n\
     \x20   ptr := allocate_memory(add(32, l))\n\
     \x20   mstore(ptr, shl(192, l))\n\
     \x20   gum_memory_copy(add(add(p, 32), s), add(ptr, 32), l)\n\
     }\n");
    o
}

pub open spec fn bytes_copy_src() -> Seq<char> {
    "function bytes_copy(dst, src, len) {\n\
     \x20   let i := 0\n\
     \x20   for {} lt(i, len) { i := add(i, 32) } {\n\
     \x20       mstore(add(dst, i), mload(add(src, i)))\n\
     \x20   }\n\
     }\n"@
}

pub fn bytes_copy_helper_src() -> (r: String)
    ensures
        r@ == bytes_copy_src(),
{
    String::from_str("function bytes_copy(dst, src, len) {\n\
     \x20   let i := 0\n\
     \x20   for {} lt(i, len) { i := add(i, 32) } {\n\
     \x20       mstore(add(dst, i), mload(add(src, i)))\n\
     \x20   }\n\
     }\n")
}

pub open spec fn arr_data_base_src() -> Seq<char> {
    "function arr_data_base(len_slot) -> b {\n\
     \x20   mstore(0, len_slot)\n\
     \x20   b := keccak256(0, 32)\n\
     }\n"@
}

pub fn arr_data_base_helper_src() -> (r: String)
    ensures
        r@ == arr_data_base_src(),
{
    String::from_str("function arr_data_base(len_slot) -> b {\n\
     \x20   mstore(0, len_slot)\n\
     \x20   b := keccak256(0, 32)\n\
     }\n")
}

pub open spec fn pk_read_src(tr: bool) -> Seq<char> {
    "function pk_read"@
        + kind_suffix_spec(tr)
        + "(base, i, per, es, esz) -> v {\n\
     \x20   let s := add(base, mul(div(i, per), es))\n\
     \x20   v := and(shr(mul(mul(mod(i, per), esz), 8), "@
        + ld_op_spec(tr)
        + "(s)), sub(shl(mul(esz, 8), 1), 1))\n\
     }\n"@
}

pub fn pk_read_helper_src(tr: bool) -> (r: String)
    ensures
        r@ == pk_read_src(tr),
{
    let mut o = String::from_str("function pk_read");
    o.append(kind_suffix(tr));
    o.append("(base, i, per, es, esz) -> v {\n\
     \x20   let s := add(base, mul(div(i, per), es))\n\
     \x20   v := and(shr(mul(mul(mod(i, per), esz), 8), ");
    o.append(ld_op(tr));
    o.append("(s)), sub(shl(mul(esz, 8), 1), 1))\n\
     }\n");
    o
}

pub open spec fn pk_write_src(tr: bool) -> Seq<char> {
    "function pk_write"@
        + kind_suffix_spec(tr)
        + "(base, i, per, es, esz, v) {\n\
     \x20   let s := add(base, mul(div(i, per), es))\n\
     \x20   let sh := mul(mul(mod(i, per), esz), 8)\n\
     \x20   let m := sub(shl(mul(esz, 8), 1), 1)\n\
     \x20   "@
        + st_op_spec(tr)
        + "(s, or(and("@
        + ld_op_spec(tr)
        + "(s), not(shl(sh, m))), shl(sh, and(v, m))))\n\
     }\n"@
}

pub fn pk_write_helper_src(tr: bool) -> (r: String)
    ensures
        r@ == pk_write_src(tr),
{
    let mut o = String::from_str("function pk_write");
    o.append(kind_suffix(tr));
    o.append("(base, i, per, es, esz, v) {\n\
     \x20   let s := add(base, mul(div(i, per), es))\n\
     \x20   let sh := mul(mul(mod(i, per), esz), 8)\n\
     \x20   let m := sub(shl(mul(esz, 8), 1), 1)\n\
     \x20   ");
    o.append(st_op(tr));
    o.append("(s, or(and(");
    o.append(ld_op(tr));
    o.append("(s), not(shl(sh, m))), shl(sh, and(v, m))))\n\
     }\n");
    o
}

pub open spec fn sarr_base_src(rich: bool) -> Seq<char> {
    "function sarr_base(base, i, len, es) -> b {\n\
     \x20   if iszero(lt(i, len)) { "@
        + panic_spec(rich, PANIC_OOB@)
        + " }\n\
     \x20   b := add(base, mul(i, es))\n\
     }\n"@
}

pub fn sarr_base_helper_src(rich: bool) -> (r: String)
    ensures
        r@ == sarr_base_src(rich),
{
    let mut o = String::from_str("function sarr_base(base, i, len, es) -> b {\n\
     \x20   if iszero(lt(i, len)) { ");
    o.append(panic_revert(rich, PANIC_OOB).as_str());
    o.append(" }\n\
     \x20   b := add(base, mul(i, es))\n\
     }\n");
    o
}

pub open spec fn dsarr_pop_src(rich: bool, tr: bool) -> Seq<char> {
    "function dsarr_pop"@
        + kind_suffix_spec(tr)
        + "(len_slot, es) {\n\
     \x20   let n := "@
        + ld_op_spec(tr)
        + "(len_slot)\n\
     \x20   if iszero(n) { "@
        + panic_spec(rich, PANIC_EMPTY_POP@)
        + " }\n\
     \x20   n := sub(n, 1)\n\
     \x20   let b := add(arr_data_base(len_slot), mul(n, es))\n\
     \x20   for { let j := 0 } lt(j, es) { j := add(j, 1) } { "@
        + st_op_spec(tr)
        + "(add(b, j), 0) }\n\
     \x20   "@
        + st_op_spec(tr)
        + "(len_slot, n)\n\
     }\n"@
}

pub fn dsarr_pop_helper_src(rich: bool, tr: bool) -> (r: String)
    ensures
        r@ == dsarr_pop_src(rich, tr),
{
    let mut o = String::from_str("function dsarr_pop");
    o.append(kind_suffix(tr));
    o.append("(len_slot, es) {\n\
     \x20   let n := ");
    o.append(ld_op(tr));
    o.append("(len_slot)\n\
     \x20   if iszero(n) { ");
    o.append(panic_revert(rich, PANIC_EMPTY_POP).as_str());
    o.append(" }\n\
     \x20   n := sub(n, 1)\n\
     \x20   let b := add(arr_data_base(len_slot), mul(n, es))\n\
     \x20   for { let j := 0 } lt(j, es) { j := add(j, 1) } { ");
    o.append(st_op(tr));
    o.append("(add(b, j), 0) }\n\
     \x20   ");
    o.append(st_op(tr));
    o.append("(len_slot, n)\n\
     }\n");
    o
}

pub open spec fn pk_get_src(rich: bool, tr: bool) -> Seq<char> {
    "function pk_get"@
        + kind_suffix_spec(tr)
        + "(base, i, len, per, es, esz) -> v {\n\
     \x20   if iszero(lt(i, len)) { "@
        + panic_spec(rich, PANIC_OOB@)
        + " }\n\
     \x20   v := pk_read"@
        + kind_suffix_spec(tr)
        + "(base, i, per, es, esz)\n\
     }\n"@
}

pub fn pk_get_helper_src(rich: bool, tr: bool) -> (r: String)
    ensures
        r@ == pk_get_src(rich, tr),
{
    let mut o = String::from_str("function pk_get");
    o.append(kind_suffix(tr));
    o.append("(base, i, len, per, es, esz) -> v {\n\
     \x20   if iszero(lt(i, len)) { ");
    o.append(panic_revert(rich, PANIC_OOB).as_str());
    o.append(" }\n\
     \x20   v := pk_read");
    o.append(kind_suffix(tr));
    o.append("(base, i, per, es, esz)\n\
     }\n");
    o
}

pub open spec fn pk_set_src(rich: bool, tr: bool) -> Seq<char> {
    "function pk_set"@
        + kind_suffix_spec(tr)
        + "(base, i, len, per, es, esz, v) {\n\
     \x20   if iszero(lt(i, len)) { "@
        + panic_spec(rich, PANIC_OOB@)
        + " }\n\
     \x20   pk_write"@
        + kind_suffix_spec(tr)
        + "(base, i, per, es, esz, v)\n\
     }\n"@
}

pub fn pk_set_helper_src(rich: bool, tr: bool) -> (r: String)
    ensures
        r@ == pk_set_src(rich, tr),
{
    let mut o = String::from_str("function pk_set");
    o.append(kind_suffix(tr));
    o.append("(base, i, len, per, es, esz, v) {\n\
     \x20   if iszero(lt(i, len)) { ");
    o.append(panic_revert(rich, PANIC_OOB).as_str());
    o.append(" }\n\
     \x20   pk_write");
    o.append(kind_suffix(tr));
    o.append("(base, i, per, es, esz, v)\n\
     }\n");
    o
}

pub open spec fn dpk_push_src(tr: bool) -> Seq<char> {
    "function dpk_push"@
        + kind_suffix_spec(tr)
        + "(len_slot, per, es, esz, v) {\n\
     \x20   let n := "@
        + ld_op_spec(tr)
        + "(len_slot)\n\
     \x20   pk_write"@
        + kind_suffix_spec(tr)
        + "(arr_data_base(len_slot), n, per, es, esz, v)\n\
     \x20   "@
        + st_op_spec(tr)
        + "(len_slot, add(n, 1))\n\
     }\n"@
}

pub fn dpk_push_helper_src(tr: bool) -> (r: String)
    ensures
        r@ == dpk_push_src(tr),
{
    let mut o = String::from_str("function dpk_push");
    o.append(kind_suffix(tr));
    o.append("(len_slot, per, es, esz, v) {\n\
     \x20   let n := ");
    o.append(ld_op(tr));
    o.append("(len_slot)\n\
     \x20   pk_write");
    o.append(kind_suffix(tr));
    o.append("(arr_data_base(len_slot), n, per, es, esz, v)\n\
     \x20   ");
    o.append(st_op(tr));
    o.append("(len_slot, add(n, 1))\n\
     }\n");
    o
}

pub open spec fn dpk_pop_src(rich: bool, tr: bool) -> Seq<char> {
    "function dpk_pop"@
        + kind_suffix_spec(tr)
        + "(len_slot, per, es, esz) {\n\
     \x20   let n := "@
        + ld_op_spec(tr)
        + "(len_slot)\n\
     \x20   if iszero(n) { "@
        + panic_spec(rich, PANIC_EMPTY_POP@)
        + " }\n\
     \x20   n := sub(n, 1)\n\
     \x20   pk_write"@
        + kind_suffix_spec(tr)
        + "(arr_data_base(len_slot), n, per, es, esz, 0)\n\
     \x20   if gt(es, 1) {\n\
     \x20       let s := add(arr_data_base(len_slot), mul(n, es))\n\
     \x20       for { let j := 1 } lt(j, es) { j := add(j, 1) } { "@
        + st_op_spec(tr)
        + "(add(s, j), 0) }\n\
     \x20   }\n\
     \x20   "@
        + st_op_spec(tr)
        + "(len_slot, n)\n\
     }\n"@
}

pub fn dpk_pop_helper_src(rich: bool, tr: bool) -> (r: String)
    ensures
        r@ == dpk_pop_src(rich, tr),
{
    let mut o = String::from_str("function dpk_pop");
    o.append(kind_suffix(tr));
    o.append("(len_slot, per, es, esz) {\n\
     \x20   let n := ");
    o.append(ld_op(tr));
    o.append("(len_slot)\n\
     \x20   if iszero(n) { ");
    o.append(panic_revert(rich, PANIC_EMPTY_POP).as_str());
    o.append(" }\n\
     \x20   n := sub(n, 1)\n\
     \x20   pk_write");
    o.append(kind_suffix(tr));
    o.append("(arr_data_base(len_slot), n, per, es, esz, 0)\n\
     \x20   if gt(es, 1) {\n\
     \x20       let s := add(arr_data_base(len_slot), mul(n, es))\n\
     \x20       for { let j := 1 } lt(j, es) { j := add(j, 1) } { ");
    o.append(st_op(tr));
    o.append("(add(s, j), 0) }\n\
     \x20   }\n\
     \x20   ");
    o.append(st_op(tr));
    o.append("(len_slot, n)\n\
     }\n");
    o
}

pub open spec fn dpk_clear_src(tr: bool) -> Seq<char> {
    "function dpk_clear"@
        + kind_suffix_spec(tr)
        + "(len_slot, per, es) {\n\
     \x20   let n := "@
        + ld_op_spec(tr)
        + "(len_slot)\n\
     \x20   let base := arr_data_base(len_slot)\n\
     \x20   let slots := mul(div(add(n, sub(per, 1)), per), es)\n\
     \x20   for { let i := 0 } lt(i, slots) { i := add(i, 1) } { "@
        + st_op_spec(tr)
        + "(add(base, i), 0) }\n\
     \x20   "@
        + st_op_spec(tr)
        + "(len_slot, 0)\n\
     }\n"@
}

pub fn dpk_clear_helper_src(tr: bool) -> (r: String)
    ensures
        r@ == dpk_clear_src(tr),
{
    let mut o = String::from_str("function dpk_clear");
    o.append(kind_suffix(tr));
    o.append("(len_slot, per, es) {\n\
     \x20   let n := ");
    o.append(ld_op(tr));
    o.append("(len_slot)\n\
     \x20   let base := arr_data_base(len_slot)\n\
     \x20   let slots := mul(div(add(n, sub(per, 1)), per), es)\n\
     \x20   for { let i := 0 } lt(i, slots) { i := add(i, 1) } { ");
    o.append(st_op(tr));
    o.append("(add(base, i), 0) }\n\
     \x20   ");
    o.append(st_op(tr));
    o.append("(len_slot, 0)\n\
     }\n");
    o
}

pub open spec fn make_enum_src() -> Seq<char> {
    "function make_enum(tag, payload) -> ptr {\n\
     \x20   ptr := allocate_memory(64)\n\
     \x20   mstore(ptr, tag)\n\
     \x20   mstore(add(ptr, 32), payload)\n\
     }\n"@
}

pub fn make_enum_helper_src() -> (r: String)
    ensures
        r@ == make_enum_src(),
{
    String::from_str("function make_enum(tag, payload) -> ptr {\n\
     \x20   ptr := allocate_memory(64)\n\
     \x20   mstore(ptr, tag)\n\
     \x20   mstore(add(ptr, 32), payload)\n\
     }\n")
}

pub fn gum_wad_mul_helper_src(rich: bool) -> (r: String)
    ensures
        r@ == gum_wad_signed_spec("gum_wad_mul"@, "x, y"@, WAD@, rich),
{
    gum_wad_signed("gum_wad_mul", "x, y", WAD, rich)
}

pub fn gum_wad_div_helper_src(rich: bool) -> (r: String)
    ensures
        r@ == gum_wad_signed_spec("gum_wad_div"@, "x, "@ + WAD@, "y"@, rich),
{
    let num = cat2("x, ", WAD);
    gum_wad_signed("gum_wad_div", num.as_str(), "y", rich)
}

/// How an element that was read from storage lands in its memory cell.
pub open spec fn sarr_write_spec(esz: usize) -> Seq<char> {
    if esz >= 32 {
        "v"@
    } else {
        write_packed_spec("mload(a)"@, 0, esz, "v"@)
    }
}

/// The function that copies a storage array of elements of `esz` bytes, `per`
/// to a slot or each over `es` slots, into memory.
pub open spec fn sarr_to_mem_src(
    name: Seq<char>,
    esz: usize,
    per: usize,
    es: usize,
    tr: bool,
) -> Seq<char> {
    "function "@ + name + "(len_slot) -> ptr {\n\
     \x20   let n := "@ + ld_op_spec(tr) + "(len_slot)\n\
     \x20   ptr := allocate_memory(add(32, mul(n, "@ + dec(esz as nat) + ")))\n\
     \x20   mstore(ptr, mul(n, "@ + dec(esz as nat) + "))\n\
     \x20   let base := arr_data_base(len_slot)\n\
     \x20   for { let i := 0 } lt(i, n) { i := add(i, 1) } {\n\
     \x20       let a := add(add(ptr, 32), mul(i, "@ + dec(esz as nat) + "))\n\
     \x20       let v := pk_read"@ + kind_suffix_spec(tr) + "(base, i, "@ + dec(per as nat) + ", "@
        + dec(es as nat) + ", "@ + dec(esz as nat) + ")\n\
     \x20       mstore(a, "@ + sarr_write_spec(esz) + ")\n\
     \x20   }\n\
     }\n"@
}

pub fn sarr_to_mem_helper_src(name: &str, esz: usize, per: usize, es: usize, tr: bool) -> (r: String)
    ensures
        r@ == sarr_to_mem_src(name@, esz, per, es, tr),
{
    let write = if esz >= 32 {
        String::from_str("v")
    } else {
        write_packed("mload(a)", 0, esz, "v")
    };
    let esz_t = dec_text(esz);
    let mut o = String::from_str("function ");
    o.append(name);
    o.append("(len_slot) -> ptr {\n\
     \x20   let n := ");
    o.append(ld_op(tr));
    o.append("(len_slot)\n\
     \x20   ptr := allocate_memory(add(32, mul(n, ");
    o.append(esz_t.as_str());
    o.append(")))\n\
     \x20   mstore(ptr, mul(n, ");
    o.append(esz_t.as_str());
    o.append("))\n\
     \x20   let base := arr_data_base(len_slot)\n\
     \x20   for { let i := 0 } lt(i, n) { i := add(i, 1) } {\n\
     \x20       let a := add(add(ptr, 32), mul(i, ");
    o.append(esz_t.as_str());
    o.append("))\n\
     \x20       let v := pk_read");
    o.append(kind_suffix(tr));
    o.append("(base, i, ");
    o.append(dec_text(per).as_str());
    o.append(", ");
    o.append(dec_text(es).as_str());
    o.append(", ");
    o.append(esz_t.as_str());
    o.append(")\n\
     \x20       mstore(a, ");
    o.append(write.as_str());
    o.append(")\n\
     \x20   }\n\
     }\n");
    o
}

} // verus!
