//! What holds of the codecs of the ABI: every array of words has them, helpers come once,
//! and the head of an encoding is made of whole words.
use crate::ast::TypeV;
use crate::codegen::abi_laws::law_dynamic_types;
use crate::codegen::tr_codec::{
    abi_dynamic, abi_head_bytes_spec, array_cd_src_spec, array_mem_src_spec, array_put_src_spec,
    ensure_abi_cd_spec, ensure_abi_mem_spec, ensure_abi_put_spec, ensure_abi_struct_arr_cd_spec,
    ensure_abi_struct_arr_mem_spec, ensure_abi_struct_arr_put_spec, ensure_abi_struct_cd_spec,
    ensure_abi_struct_mem_spec, ensure_abi_struct_put_spec, struct_layout,
};
use crate::codegen::translator::{EnvV, StV};
use crate::codegen::yul::{abi_scalar, str_type};
use crate::semantic::{scalar_enum, WorldV};
use vstd::prelude::*;

verus! {

/// The decoder of a type from calldata is there once it has been asked for, under the name
/// that was given, and asking again changes nothing.
pub proof fn law_calldata_decoders_stay(g: EnvV, st: StV, t: TypeV)
    ensures
        ({
            let (after, r) = ensure_abi_cd_spec(g, st, t);
            r matches Some(name) ==> after.thunks.contains_key(name) && ensure_abi_cd_spec(
                g,
                after,
                t,
            ) == (after, r)
        }),
{
    reveal(ensure_abi_cd_spec);
    reveal(ensure_abi_struct_arr_cd_spec);
    reveal(ensure_abi_struct_cd_spec);
}

/// The decoder of a type from memory is there once it has been asked for, under the name
/// that was given, and asking again changes nothing.
pub proof fn law_memory_decoders_stay(g: EnvV, st: StV, t: TypeV)
    ensures
        ({
            let (after, r) = ensure_abi_mem_spec(g, st, t);
            r matches Some(name) ==> after.thunks.contains_key(name) && ensure_abi_mem_spec(
                g,
                after,
                t,
            ) == (after, r)
        }),
{
    reveal(ensure_abi_mem_spec);
    reveal(ensure_abi_struct_arr_mem_spec);
    reveal(ensure_abi_struct_mem_spec);
}

proof fn lemma_words_of(a: usize, b: usize)
    requires
        b % 32 == 0,
    ensures
        a.wrapping_mul(b) % 32 == 0,
        a * b <= usize::MAX ==> a.wrapping_mul(b) == a * b,
{
    let x: int = a * b;
    let m: int = usize::MAX + 1;
    assert(m == 0x1_0000_0000 || m == 0x1_0000_0000_0000_0000);
    let q: int = (b / 32) as int;
    assert(b == 32 * q);
    assert(x == 32 * (a * q)) by (nonlinear_arith)
        requires
            x == a * b,
            b == 32 * q,
    ;
    assert(x >= 0) by (nonlinear_arith)
        requires
            x == a * b,
    ;
    let k: int = x / m;
    assert(x % m == x - m * k);
    let n: int = m / 32;
    assert(m * k == 32 * (n * k)) by (nonlinear_arith)
        requires
            m == 32 * n,
    ;
    assert((x - m * k) % 32 == 0) by (nonlinear_arith)
        requires
            x == 32 * (a * q),
            m * k == 32 * (n * k),
    ;
    assert(a.wrapping_mul(b) == x % m);
}

/// The head of an encoding is made of whole words.
pub proof fn law_heads_are_words(g: EnvV, t: TypeV)
    ensures
        abi_head_bytes_spec(g, t) % 32 == 0,
    decreases t,
{
    match t {
        TypeV::FixedArray(inner, n) => {
            law_heads_are_words(g, *inner);
            lemma_words_of(n, abi_head_bytes_spec(g, *inner));
        },
        TypeV::Primitive(name) => {
            match struct_layout(g, name) {
                Some(f) => lemma_words_of(f.len() as usize, 32),
                None => {},
            }
        },
        _ => {},
    }
}

/// The head of a fixed array of static elements is that of an element as many times as it
/// has elements. The bytes must be countable.
pub proof fn law_heads_multiply(g: EnvV, t: TypeV, n: usize)
    requires
        !abi_dynamic(g.w, t),
        n * abi_head_bytes_spec(g, t) <= usize::MAX,
    ensures
        abi_head_bytes_spec(g, TypeV::FixedArray(Box::new(t), n)) == n * abi_head_bytes_spec(g, t),
{
    law_heads_are_words(g, t);
    law_dynamic_types(g.w, t, n);
    lemma_words_of(n, abi_head_bytes_spec(g, t));
}

/// Whether what an array holds in the end is a word or a text.
pub open spec fn plain_leaves(w: WorldV, t: TypeV) -> bool
    decreases t,
{
    match t {
        TypeV::Array(inner) => plain_leaves(w, *inner),
        TypeV::FixedArray(inner, _) => plain_leaves(w, *inner),
        _ => str_type(t) || (!abi_dynamic(w, t) && (abi_scalar(t) || scalar_enum(w, t))),
    }
}

proof fn lemma_has_cd(g: EnvV, st: StV, t: TypeV)
    requires
        plain_leaves(g.w, t),
        t is Array || t is FixedArray || str_type(t),
    ensures
        ensure_abi_cd_spec(g, st, t).1 is Some,
    decreases t,
{
    reveal(ensure_abi_cd_spec);
    reveal(ensure_abi_struct_arr_cd_spec);
    reveal(ensure_abi_struct_cd_spec);
    reveal(array_cd_src_spec);
    reveal_with_fuel(plain_leaves, 2);
    match t {
        TypeV::Array(inner) => {
            if *inner is Array || *inner is FixedArray || str_type(*inner) {
                lemma_has_cd(g, st, *inner);
            }
        },
        TypeV::FixedArray(inner, _) => {
            if *inner is Array || *inner is FixedArray || str_type(*inner) {
                lemma_has_cd(g, st, *inner);
            }
        },
        _ => {},
    }
}

proof fn lemma_has_mem(g: EnvV, st: StV, t: TypeV)
    requires
        plain_leaves(g.w, t),
        t is Array || t is FixedArray || str_type(t),
    ensures
        ensure_abi_mem_spec(g, st, t).1 is Some,
    decreases t,
{
    reveal(ensure_abi_mem_spec);
    reveal(ensure_abi_struct_arr_mem_spec);
    reveal(ensure_abi_struct_mem_spec);
    reveal(array_mem_src_spec);
    reveal_with_fuel(plain_leaves, 2);
    match t {
        TypeV::Array(inner) => {
            if *inner is Array || *inner is FixedArray || str_type(*inner) {
                lemma_has_mem(g, st, *inner);
            }
        },
        TypeV::FixedArray(inner, _) => {
            if *inner is Array || *inner is FixedArray || str_type(*inner) {
                lemma_has_mem(g, st, *inner);
            }
        },
        _ => {},
    }
}

proof fn lemma_has_put(g: EnvV, st: StV, t: TypeV)
    requires
        plain_leaves(g.w, t),
        t is Array || t is FixedArray || str_type(t),
    ensures
        ensure_abi_put_spec(g, st, t).1 is Some,
    decreases t,
{
    reveal(ensure_abi_put_spec);
    reveal(ensure_abi_struct_arr_put_spec);
    reveal(ensure_abi_struct_put_spec);
    reveal(array_put_src_spec);
    reveal_with_fuel(plain_leaves, 2);
    match t {
        TypeV::Array(inner) => {
            if *inner is Array || *inner is FixedArray || str_type(*inner) {
                lemma_has_put(g, st, *inner);
            }
        },
        TypeV::FixedArray(inner, _) => {
            if *inner is Array || *inner is FixedArray || str_type(*inner) {
                lemma_has_put(g, st, *inner);
            }
        },
        _ => {},
    }
}

/// Every array of words or texts, however deep and whether its parts have a fixed length
/// or not, has a decoder from calldata, a decoder from memory and an encoder.
pub proof fn law_arrays_have_codecs(g: EnvV, st: StV, t: TypeV)
    requires
        plain_leaves(g.w, t),
        t is Array || t is FixedArray || str_type(t),
    ensures
        ensure_abi_cd_spec(g, st, t).1 is Some,
        ensure_abi_mem_spec(g, st, t).1 is Some,
        ensure_abi_put_spec(g, st, t).1 is Some,
{
    lemma_has_cd(g, st, t);
    lemma_has_mem(g, st, t);
    lemma_has_put(g, st, t);
}

} // verus!
