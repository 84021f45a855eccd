//! How types and signatures are spelled in messages.
use crate::ast::{types_v, FnDecl, FnV, ParamV, Type, TypeV};
use crate::text::{cat3, cat4, cat5, dec, dec_text, join, join_spec, texts};
use vstd::prelude::*;

verus! {

broadcast use crate::ast::group_views;

/// A type as it is written in the source.
pub open spec fn spelled(t: TypeV) -> Seq<char>
    decreases t, 0nat,
{
    match t {
        TypeV::Primitive(n) => n,
        TypeV::Array(i) => "["@ + spelled(*i) + "]"@,
        TypeV::FixedArray(i, n) => "["@ + spelled(*i) + "; "@ + dec(n as nat) + "]"@,
        TypeV::Generic { name, args } => name + "("@ + join_spec(
            spelled_all(args, args.len()),
            ", "@,
        ) + ")"@,
    }
}

pub open spec fn spelled_all(args: Seq<TypeV>, n: nat) -> Seq<Seq<char>>
    decreases args, n,
{
    if n == 0 || n > args.len() {
        Seq::empty()
    } else {
        spelled_all(args, (n - 1) as nat).push(spelled(args[n - 1]))
    }
}

pub fn type_text(t: &Type) -> (r: String)
    ensures
        r@ == spelled(t@),
    decreases t, 1nat,
{
    match t {
        Type::Primitive(n) => n.clone(),
        Type::Array(i) => cat3("[", type_text(i).as_str(), "]"),
        Type::FixedArray(i, n) => cat5(
            "[",
            type_text(i).as_str(),
            "; ",
            dec_text(*n).as_str(),
            "]",
        ),
        Type::Generic { name, args } => cat4(
            name.as_str(),
            "(",
            join(&type_texts(args), ", ").as_str(),
            ")",
        ),
    }
}

fn type_texts(args: &Vec<Type>) -> (r: Vec<String>)
    ensures
        texts(r@) == spelled_all(types_v(args@), args@.len()),
    decreases args, 0nat,
{
    let mut out: Vec<String> = Vec::new();
    let mut i: usize = 0;
    assert(texts(out@) =~= Seq::<Seq<char>>::empty());
    while i < args.len()
        invariant
            i <= args@.len(),
            texts(out@) == spelled_all(types_v(args@), i as nat),
        decreases args@.len() - i,
    {
        let ghost before = texts(out@);
        let x: &Type = &args[i];
        assert(decreases_to!(*args => *x));
        let one = type_text(x);
        let ghost ov = one@;
        out.push(one);
        assert(texts(out@) =~= before.push(ov));
        i += 1;
    }
    out
}

/// A type with its parts named.
pub open spec fn debugged(t: TypeV) -> Seq<char>
    decreases t, 0nat,
{
    match t {
        TypeV::Primitive(n) => "Primitive(\""@ + n + "\")"@,
        TypeV::Array(i) => "Array("@ + debugged(*i) + ")"@,
        TypeV::FixedArray(i, n) => "FixedArray("@ + debugged(*i) + ", "@ + dec(n as nat) + ")"@,
        TypeV::Generic { name, args } => "Generic { name: \""@ + name + "\", args: ["@ + join_spec(
            debugged_all(args, args.len()),
            ", "@,
        ) + "] }"@,
    }
}

pub open spec fn debugged_all(args: Seq<TypeV>, n: nat) -> Seq<Seq<char>>
    decreases args, n,
{
    if n == 0 || n > args.len() {
        Seq::empty()
    } else {
        debugged_all(args, (n - 1) as nat).push(debugged(args[n - 1]))
    }
}

pub fn debug_type(t: &Type) -> (r: String)
    ensures
        r@ == debugged(t@),
    decreases t, 1nat,
{
    match t {
        Type::Primitive(n) => cat3("Primitive(\"", n.as_str(), "\")"),
        Type::Array(i) => cat3("Array(", debug_type(i).as_str(), ")"),
        Type::FixedArray(i, n) => cat5(
            "FixedArray(",
            debug_type(i).as_str(),
            ", ",
            dec_text(*n).as_str(),
            ")",
        ),
        Type::Generic { name, args } => cat5(
            "Generic { name: \"",
            name.as_str(),
            "\", args: [",
            join(&debug_types(args), ", ").as_str(),
            "] }",
        ),
    }
}

fn debug_types(args: &Vec<Type>) -> (r: Vec<String>)
    ensures
        texts(r@) == debugged_all(types_v(args@), args@.len()),
    decreases args, 0nat,
{
    let mut out: Vec<String> = Vec::new();
    let mut i: usize = 0;
    assert(texts(out@) =~= Seq::<Seq<char>>::empty());
    while i < args.len()
        invariant
            i <= args@.len(),
            texts(out@) == debugged_all(types_v(args@), i as nat),
        decreases args@.len() - i,
    {
        let ghost before = texts(out@);
        let x: &Type = &args[i];
        assert(decreases_to!(*args => *x));
        let one = debug_type(x);
        let ghost ov = one@;
        out.push(one);
        assert(texts(out@) =~= before.push(ov));
        i += 1;
    }
    out
}

pub open spec fn param_spelled(ps: Seq<ParamV>) -> Seq<Seq<char>> {
    ps.map_values(|p: ParamV| spelled(p.type_def))
}

/// A method's signature, by which a class is held against an interface.
pub open spec fn signature_spec(f: FnV) -> Seq<char> {
    let head = "fn "@ + f.name + "("@ + join_spec(param_spelled(f.parameters), ", "@) + ")"@;
    match f.return_type {
        Some(t) => head + " -> "@ + spelled(t),
        None => head,
    }
}

pub fn signature_key(f: &FnDecl) -> (r: String)
    ensures
        r@ == signature_spec(f@),
{
    let mut params: Vec<String> = Vec::new();
    let mut i: usize = 0;
    while i < f.parameters.len()
        invariant
            i <= f.parameters@.len(),
            params@.len() == i,
            forall|k: int|
                0 <= k < i ==> (#[trigger] params@[k])@ == spelled(f.parameters@[k].type_def@),
        decreases f.parameters@.len() - i,
    {
        params.push(type_text(&f.parameters[i].type_def));
        i += 1;
    }
    assert(texts(params@) =~= param_spelled(f@.parameters));
    let head = cat5("fn ", f.name.as_str(), "(", join(&params, ", ").as_str(), ")");
    match &f.return_type {
        Some(t) => cat3(head.as_str(), " -> ", type_text(t).as_str()),
        None => head,
    }
}

/// The view of a result that is a type.
pub open spec fn res_type_v(r: Result<Type, String>) -> Result<TypeV, Seq<char>> {
    match r {
        Ok(t) => Ok(t@),
        Err(e) => Err(e@),
    }
}

/// The view of a result that holds nothing but its error.
pub open spec fn res_unit_v(r: Result<(), String>) -> Result<(), Seq<char>> {
    match r {
        Ok(u) => Ok(u),
        Err(e) => Err(e@),
    }
}

} // verus!
