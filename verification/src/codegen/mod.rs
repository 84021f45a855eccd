//! Code generation: from the checked program to Yul and its ABI.
pub mod abi;
pub mod abi_laws;
pub mod arith_laws;
pub mod arith_trees;
pub mod backend;
pub mod call_laws;
pub mod codec_laws;
pub mod codec_src;
pub mod compare_laws;
pub mod consts;
pub mod deploys;
pub mod encoder_laws;
pub mod entry;
pub mod field_laws;
pub mod flow_laws;
pub mod frames;
pub mod generics;
pub mod helpers;
pub mod layout;
pub mod layout_laws;
pub mod memory_laws;
pub mod mutability;
pub mod log_laws;
pub mod mutability_laws;
pub mod object;
pub mod op_laws;
pub mod packing;
pub mod packing_laws;
pub mod scan;
pub mod state_laws;
pub mod stmt_laws;
pub mod tr_binop;
pub mod tr_blob;
pub mod tr_codec;
pub mod tr_construct;
pub mod tr_expr;
pub mod tr_extcall;
pub mod tr_field;
pub mod tr_methodcall;
pub mod tr_storage;
pub mod tr_leave;
pub mod tr_log;
pub mod tr_stmt;
pub mod tr_store;
pub mod tr_types;
pub mod translator;
pub mod word;
pub mod yul;
pub mod yul_num;
pub mod yul_run;
pub mod yul_text;
pub mod yul_tree;

use crate::ast::{types_v, Type, TypeV};
use crate::text::{cat2, cat4, dec, dec_text, join, join_spec, texts};
use vstd::prelude::*;

verus! {

broadcast use crate::ast::group_views;

/// A short name for a concrete type that can stand inside a Yul identifier.
pub open spec fn suffix_spec(t: TypeV) -> Seq<char>
    decreases t, 0nat,
{
    match t {
        TypeV::Primitive(n) => n,
        TypeV::Array(i) => "Arr"@ + suffix_spec(*i),
        TypeV::FixedArray(i, n) => "FArr"@ + suffix_spec(*i) + "x"@ + dec(n as nat),
        TypeV::Generic { name, args } => name + join_spec(suffix_all(args, args.len()), "_"@),
    }
}

pub open spec fn suffix_all(args: Seq<TypeV>, n: nat) -> Seq<Seq<char>>
    decreases args, n,
{
    if n == 0 || n > args.len() {
        Seq::empty()
    } else {
        suffix_all(args, (n - 1) as nat).push(suffix_spec(args[n - 1]))
    }
}

/// The names of several types, joined by underscores.
pub open spec fn generic_suffix_spec(args: Seq<TypeV>) -> Seq<char> {
    join_spec(suffix_all(args, args.len()), "_"@)
}

pub fn type_suffix(t: &Type) -> (r: String)
    ensures
        r@ == suffix_spec(t@),
    decreases t, 1nat,
{
    match t {
        Type::Primitive(n) => n.clone(),
        Type::Array(i) => cat2("Arr", type_suffix(i).as_str()),
        Type::FixedArray(i, n) => cat4(
            "FArr",
            type_suffix(i).as_str(),
            "x",
            dec_text(*n).as_str(),
        ),
        Type::Generic { name, args } => cat2(name.as_str(), generic_suffix(args).as_str()),
    }
}

pub fn generic_suffix(args: &Vec<Type>) -> (r: String)
    ensures
        r@ == generic_suffix_spec(types_v(args@)),
    decreases args, 0nat,
{
    let mut parts: Vec<String> = Vec::new();
    let mut k: usize = 0;
    assert(texts(parts@) =~= suffix_all(types_v(args@), 0));
    while k < args.len()
        invariant
            k <= args@.len(),
            texts(parts@) == suffix_all(types_v(args@), k as nat),
        decreases args@.len() - k,
    {
        let m = type_suffix(&args[k]);
        let ghost before = texts(parts@);
        parts.push(m);
        assert(texts(parts@) =~= before.push(m@));
        k += 1;
    }
    join(&parts, "_")
}

} // verus!
