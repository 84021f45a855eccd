//! Calls into other contracts: the wrapper that makes the call, and decoding
//! what comes back.
use crate::ast::{captures_v, clone_opt_type, opt_type_v, types_v, Type, TypeV};
use crate::codegen::abi::{call_selector, sig_spec, AbiGenerator};
use crate::codegen::helpers::{
    gum_abi_str_mem_helper_src, gum_abi_str_mem_src, gum_bubble_revert_helper_src,
    gum_bubble_revert_src,
};
use crate::codegen::tr_blob::{blob_spec, head_total};
use crate::codegen::tr_codec::{
    abi_dynamic, abi_head_bytes_spec, ensure_abi_dyn_struct_mem_spec, ensure_abi_mem_spec,
    ensure_abi_struct_mem_spec,
};
use crate::codegen::translator::{
    ensure_spec, error_spec, method_of_spec, param_types, types_of, EnvV, StV, Translator,
};
use crate::codegen::yul::{
    is_str_type, is_struct_type, mask_for_type, mask_spec, opt_text, str_type, struct_type,
};
use crate::text::{cat2, cat3, cat4, cat5, cat7, cat9, dec, dec_text, join, join_spec, texts};
use vstd::prelude::*;

verus! {

broadcast use crate::ast::group_views;

pub open spec fn gum_exception_helpers_src_spec() -> Seq<char> {
    "function gum_set_exception() {\n        tstore(0xfffffffffffffffffffffffffffffffffffffffffffffffffffffffffffffff, 1)\n    }\n    function gum_check_exception() -> has_err {\n        has_err := tload(0xfffffffffffffffffffffffffffffffffffffffffffffffffffffffffffffff)\n        if has_err { tstore(0xfffffffffffffffffffffffffffffffffffffffffffffffffffffffffffffff, 0) }\n    }\n"@
}

pub(crate) fn gum_exception_helpers_src() -> (r: String)
    ensures
        r@ == gum_exception_helpers_src_spec(),
{
    String::from_str(
        "function gum_set_exception() {\n        tstore(0xfffffffffffffffffffffffffffffffffffffffffffffffffffffffffffffff, 1)\n    }\n    function gum_check_exception() -> has_err {\n        has_err := tload(0xfffffffffffffffffffffffffffffffffffffffffffffffffffffffffffffff)\n        if has_err { tstore(0xfffffffffffffffffffffffffffffffffffffffffffffffffffffffffffffff, 0) }\n    }\n"
    )
}

/// Copies the returned data, at least `min` bytes, and decodes it.
pub open spec fn decode_src_spec(min: Seq<char>, dst: Seq<char>, expr: Seq<char>) -> Seq<char> {
    "    if lt(returndatasize(), "@ + min + ") { revert(0, 0) }\n    let rd := allocate_memory(returndatasize())\n    returndatacopy(rd, 0, returndatasize())\n    "@ + dst + " := "@ + expr + "\n"@
}

pub(crate) fn decode_src(min: &str, dst: &str, expr: &str) -> (r: String)
    ensures
        r@ == decode_src_spec(min@, dst@, expr@),
{
    cat7(
        "    if lt(returndatasize(), ",
        min,
        ") { revert(0, 0) }\n    let rd := allocate_memory(returndatasize())\n    returndatacopy(rd, 0, returndatasize())\n    ",
        dst,
        " := ",
        expr,
        "\n",
    )
}

/// Decodes a returned array.
#[verifier::opaque]
pub open spec fn decode_array_spec(
    g: EnvV,
    st: StV,
    t: TypeV,
    dst: Seq<char>,
) -> (StV, Option<Seq<char>>) {
    if t is Array || t is FixedArray {
        let (st, found) = ensure_abi_mem_spec(g, st, t);
        match found {
            Some(h) => {
                if abi_dynamic(g.w, t) {
                    (
                        st,
                        Some(decode_src_spec("32"@, dst, h + "(rd, mload(rd), returndatasize())"@)),
                    )
                } else {
                    (
                        st,
                        Some(
                            decode_src_spec(
                                dec(abi_head_bytes_spec(g, t) as nat),
                                dst,
                                h + "(rd, 0, returndatasize())"@,
                            )
                        ),
                    )
                }
            },
            None => {
                let st = error_spec(
                    st,
                    "an array of type '"@ + sig_spec(g.aw, t) + "' has no ABI encoding."@,
                );
                (st, None)
            },
        }
    } else {
        (st, None)
    }
}

impl<'a> Translator<'a> {
    pub(crate) fn decode_array(&mut self, t: &Type, dst: &str) -> (r: Option<String>)
        ensures
            final(self).env() == old(self).env(),
            decode_array_spec(
                old(self).env(),
                old(self).st(),
                t@,
                dst@,
            ) == (final(self).st(), opt_text(r)),
    {
        proof {
            reveal(decode_array_spec);
        }
        if matches!(t, Type::Array(..) | Type::FixedArray(..)) {
            let found = self.ensure_abi_mem(t);
            match found {
                Some(h) => {
                    if self.abi_is_dynamic(t) {
                        return Some(
                            decode_src(
                                "32",
                                dst,
                                cat2(h.as_str(), "(rd, mload(rd), returndatasize())").as_str(),
                            )
                        );
                    }
                    return Some(
                        decode_src(
                            dec_text(self.abi_head_bytes(t)).as_str(),
                            dst,
                            cat2(h.as_str(), "(rd, 0, returndatasize())").as_str(),
                        )
                    );
                },
                None => {
                    self.note_error(
                        cat3(
                            "an array of type '",
                            self.abi_gen.signature_type(t).as_str(),
                            "' has no ABI encoding.",
                        )
                    );
                    return None;
                },
            }
        }
        None
    }
}

/// Decodes a returned dynamic tuple.
#[verifier::opaque]
pub open spec fn decode_dyn_struct_spec(
    g: EnvV,
    st: StV,
    t: TypeV,
    dst: Seq<char>,
) -> (StV, Option<Seq<char>>) {
    match t {
        TypeV::Primitive(n) => {
            if struct_type(g.w, t) && abi_dynamic(g.w, t) {
                let (st, found) = ensure_abi_dyn_struct_mem_spec(g, st, n);
                match found {
                    Some(h) => (
                        st,
                        Some(decode_src_spec("32"@, dst, h + "(rd, mload(rd), returndatasize())"@)),
                    ),
                    None => (st, None),
                }
            } else {
                (st, None)
            }
        },
        _ => (st, None),
    }
}

impl<'a> Translator<'a> {
    pub(crate) fn decode_dyn_struct(&mut self, t: &Type, dst: &str) -> (r: Option<String>)
        ensures
            final(self).env() == old(self).env(),
            decode_dyn_struct_spec(
                old(self).env(),
                old(self).st(),
                t@,
                dst@,
            ) == (final(self).st(), opt_text(r)),
    {
        proof {
            reveal(decode_dyn_struct_spec);
        }
        match t {
            Type::Primitive(n) => {
                if is_struct_type(self.layout_engine.type_checker, t) && self.abi_is_dynamic(t) {
                    let found = self.ensure_abi_dyn_struct_mem(n.as_str());
                    match found {
                        Some(h) => {
                            return Some(
                                decode_src(
                                    "32",
                                    dst,
                                    cat2(h.as_str(), "(rd, mload(rd), returndatasize())").as_str(),
                                )
                            );
                        },
                        None => {
                            return None;
                        },
                    }
                }
                None
            },
            _ => None,
        }
    }
}

/// Decodes a returned static tuple.
#[verifier::opaque]
pub open spec fn decode_struct_spec(
    g: EnvV,
    st: StV,
    t: TypeV,
    dst: Seq<char>,
) -> (StV, Option<Seq<char>>) {
    match t {
        TypeV::Primitive(n) => {
            if struct_type(g.w, t) {
                let (st, found) = ensure_abi_struct_mem_spec(g, st, n);
                match found {
                    Some((h, wire)) => (
                        st,
                        Some(
                            decode_src_spec(dec(wire as nat), dst, h + "(rd, 0, returndatasize())"@)
                        ),
                    ),
                    None => (st, None),
                }
            } else {
                (st, None)
            }
        },
        _ => (st, None),
    }
}

impl<'a> Translator<'a> {
    pub(crate) fn decode_struct(&mut self, t: &Type, dst: &str) -> (r: Option<String>)
        ensures
            final(self).env() == old(self).env(),
            decode_struct_spec(
                old(self).env(),
                old(self).st(),
                t@,
                dst@,
            ) == (final(self).st(), opt_text(r)),
    {
        proof {
            reveal(decode_struct_spec);
        }
        match t {
            Type::Primitive(n) => {
                if is_struct_type(self.layout_engine.type_checker, t) {
                    let found = self.ensure_abi_struct_mem(n.as_str());
                    match found {
                        Some((h, wire)) => {
                            return Some(
                                decode_src(
                                    dec_text(wire).as_str(),
                                    dst,
                                    cat2(h.as_str(), "(rd, 0, returndatasize())").as_str(),
                                )
                            );
                        },
                        None => {
                            return None;
                        },
                    }
                }
                None
            },
            _ => None,
        }
    }
}

/// Decodes a returned value that is not one word.
#[verifier::opaque]
pub open spec fn decode_wide_spec(
    g: EnvV,
    st: StV,
    t: TypeV,
    dst: Seq<char>,
) -> (StV, Option<Seq<char>>) {
    if str_type(t) {
        let st = ensure_spec(st, "gum_abi_str_mem"@, gum_abi_str_mem_src());
        (st, Some(decode_src_spec("32"@, dst, "gum_abi_str_mem(rd, mload(rd), returndatasize())"@)))
    } else {
        let (st, found) = decode_array_spec(g, st, t, dst);
        match found {
            Some(s) => (st, Some(s)),
            None => {
                let (st, found) = decode_dyn_struct_spec(g, st, t, dst);
                match found {
                    Some(s) => (st, Some(s)),
                    None => decode_struct_spec(g, st, t, dst),
                }
            },
        }
    }
}

impl<'a> Translator<'a> {
    pub(crate) fn decode_wide(&mut self, t: &Type, dst: &str) -> (r: Option<String>)
        ensures
            final(self).env() == old(self).env(),
            decode_wide_spec(
                old(self).env(),
                old(self).st(),
                t@,
                dst@,
            ) == (final(self).st(), opt_text(r)),
    {
        proof {
            reveal(decode_wide_spec);
        }
        if is_str_type(t) {
            self.ensure_helper("gum_abi_str_mem", gum_abi_str_mem_helper_src());
            return Some(decode_src("32", dst, "gum_abi_str_mem(rd, mload(rd), returndatasize())"));
        }
        let found = self.decode_array(t, dst);
        match found {
            Some(s) => {
                return Some(s);
            },
            None => {},
        }
        let found = self.decode_dyn_struct(t, dst);
        match found {
            Some(s) => {
                return Some(s);
            },
            None => {},
        }
        self.decode_struct(t, dst)
    }
}

/// Decodes the returned data into a variable.
#[verifier::opaque]
pub open spec fn returndata_to_var_spec(
    g: EnvV,
    st: StV,
    t: TypeV,
    dst: Seq<char>,
) -> (StV, Seq<char>) {
    let (st, found) = decode_wide_spec(g, st, t, dst);
    match found {
        Some(s) => (st, s),
        None => (
            st,
            "    if lt(returndatasize(), 32) { revert(0, 0) }\n    returndatacopy(0, 0, 32)\n    "@ + dst + " := "@ + mask_spec(
                "mload(0)"@,
                t,
            ) + "\n"@,
        ),
    }
}

impl<'a> Translator<'a> {
    pub(crate) fn returndata_to_var(&mut self, t: &Type, dst: &str) -> (r: String)
        ensures
            final(self).env() == old(self).env(),
            returndata_to_var_spec(
                old(self).env(),
                old(self).st(),
                t@,
                dst@,
            ) == (final(self).st(), r@),
    {
        proof {
            reveal(returndata_to_var_spec);
        }
        let found = self.decode_wide(t, dst);
        match found {
            Some(s) => s,
            None => cat5(
                "    if lt(returndatasize(), 32) { revert(0, 0) }\n    returndatacopy(0, 0, 32)\n    ",
                dst,
                " := ",
                mask_for_type("mload(0)", t).as_str(),
                "\n",
            ),
        }
    }
}

/// Decodes what an external call returned into `result`.
#[verifier::opaque]
pub open spec fn extcall_return_src_spec(
    g: EnvV,
    st: StV,
    ret_ty: Option<TypeV>,
) -> (StV, Seq<char>) {
    match ret_ty {
        Some(t) => {
            let (st, found) = decode_wide_spec(g, st, t, "result"@);
            match found {
                Some(s) => (st, s),
                None => (
                    st,
                    "    if lt(returndatasize(), 32) { revert(0, 0) }\n    returndatacopy(0, 0, 32)\n    result := mload(0)\n"@,
                ),
            }
        },
        None => (st, ""@),
    }
}

impl<'a> Translator<'a> {
    pub(crate) fn extcall_return_src(&mut self, ret_ty: &Option<Type>) -> (r: String)
        ensures
            final(self).env() == old(self).env(),
            extcall_return_src_spec(
                old(self).env(),
                old(self).st(),
                opt_type_v(*ret_ty),
            ) == (final(self).st(), r@),
    {
        proof {
            reveal(extcall_return_src_spec);
        }
        match ret_ty {
            Some(t) => {
                let found = self.decode_wide(t, "result");
                match found {
                    Some(s) => s,
                    None => String::from_str(
                        "    if lt(returndatasize(), 32) { revert(0, 0) }\n    returndatacopy(0, 0, 32)\n    result := mload(0)\n"
                    ),
                }
            },
            None => String::from_str(""),
        }
    }
}

#[verifier::opaque]
pub open spec fn tuple_array_spec(
    g: EnvV,
    st: StV,
    name: Seq<char>,
    t: TypeV,
    ho: usize,
) -> (StV, Option<Seq<char>>) {
    if t is Array || t is FixedArray {
        let (st, found) = ensure_abi_mem_spec(g, st, t);
        match found {
            Some(h) => {
                if abi_dynamic(g.w, t) {
                    (
                        st,
                        Some(
                            "    "@
                            + name
                            + " := "@
                            + h
                            + "(__wb, mload(add(__wb, "@
                            + dec(ho as nat)
                            + ")), returndatasize())\n"@
                        ),
                    )
                } else {
                    (
                        st,
                        Some(
                            "    "@
                            + name
                            + " := "@
                            + h
                            + "(__wb, "@
                            + dec(ho as nat)
                            + ", returndatasize())\n"@
                        ),
                    )
                }
            },
            None => {
                let st = error_spec(
                    st,
                    "an array of type '"@ + sig_spec(g.aw, t) + "' has no ABI encoding."@,
                );
                (st, None)
            },
        }
    } else {
        (st, None)
    }
}

impl<'a> Translator<'a> {
    pub(crate) fn tuple_array(&mut self, name: &str, t: &Type, ho: usize) -> (r: Option<String>)
        ensures
            final(self).env() == old(self).env(),
            tuple_array_spec(
                old(self).env(),
                old(self).st(),
                name@,
                t@,
                ho,
            ) == (final(self).st(), opt_text(r)),
    {
        proof {
            reveal(tuple_array_spec);
        }
        if matches!(t, Type::Array(..) | Type::FixedArray(..)) {
            let found = self.ensure_abi_mem(t);
            match found {
                Some(h) => {
                    if self.abi_is_dynamic(t) {
                        return Some(
                            cat7(
                                "    ",
                                name,
                                " := ",
                                h.as_str(),
                                "(__wb, mload(add(__wb, ",
                                dec_text(ho).as_str(),
                                ")), returndatasize())\n",
                            )
                        );
                    }
                    return Some(
                        cat7(
                            "    ",
                            name,
                            " := ",
                            h.as_str(),
                            "(__wb, ",
                            dec_text(ho).as_str(),
                            ", returndatasize())\n",
                        )
                    );
                },
                None => {
                    self.note_error(
                        cat3(
                            "an array of type '",
                            self.abi_gen.signature_type(t).as_str(),
                            "' has no ABI encoding.",
                        )
                    );
                    return None;
                },
            }
        }
        None
    }
}

#[verifier::opaque]
pub open spec fn tuple_dyn_struct_spec(
    g: EnvV,
    st: StV,
    name: Seq<char>,
    t: TypeV,
    ho: usize,
) -> (StV, Option<Seq<char>>) {
    match t {
        TypeV::Primitive(n) => {
            if struct_type(g.w, t) && abi_dynamic(g.w, t) {
                let (st, found) = ensure_abi_dyn_struct_mem_spec(g, st, n);
                match found {
                    Some(h) => (
                        st,
                        Some(
                            "    "@
                            + name
                            + " := "@
                            + h
                            + "(__wb, mload(add(__wb, "@
                            + dec(ho as nat)
                            + ")), returndatasize())\n"@
                        ),
                    ),
                    None => (st, None),
                }
            } else {
                (st, None)
            }
        },
        _ => (st, None),
    }
}

impl<'a> Translator<'a> {
    pub(crate) fn tuple_dyn_struct(
        &mut self,
        name: &str,
        t: &Type,
        ho: usize,
    ) -> (r: Option<String>)
        ensures
            final(self).env() == old(self).env(),
            tuple_dyn_struct_spec(
                old(self).env(),
                old(self).st(),
                name@,
                t@,
                ho,
            ) == (final(self).st(), opt_text(r)),
    {
        proof {
            reveal(tuple_dyn_struct_spec);
        }
        match t {
            Type::Primitive(n) => {
                if is_struct_type(self.layout_engine.type_checker, t) && self.abi_is_dynamic(t) {
                    let found = self.ensure_abi_dyn_struct_mem(n.as_str());
                    match found {
                        Some(h) => {
                            return Some(
                                cat7(
                                    "    ",
                                    name,
                                    " := ",
                                    h.as_str(),
                                    "(__wb, mload(add(__wb, ",
                                    dec_text(ho).as_str(),
                                    ")), returndatasize())\n",
                                )
                            );
                        },
                        None => {
                            return None;
                        },
                    }
                }
                None
            },
            _ => None,
        }
    }
}

#[verifier::opaque]
pub open spec fn tuple_struct_spec(
    g: EnvV,
    st: StV,
    name: Seq<char>,
    t: TypeV,
    ho: usize,
) -> (StV, Option<Seq<char>>) {
    match t {
        TypeV::Primitive(n) => {
            if struct_type(g.w, t) {
                let (st, found) = ensure_abi_struct_mem_spec(g, st, n);
                match found {
                    Some((h, _)) => (
                        st,
                        Some(
                            "    "@
                            + name
                            + " := "@
                            + h
                            + "(__wb, "@
                            + dec(ho as nat)
                            + ", returndatasize())\n"@
                        ),
                    ),
                    None => (st, None),
                }
            } else {
                (st, None)
            }
        },
        _ => (st, None),
    }
}

impl<'a> Translator<'a> {
    pub(crate) fn tuple_struct(&mut self, name: &str, t: &Type, ho: usize) -> (r: Option<String>)
        ensures
            final(self).env() == old(self).env(),
            tuple_struct_spec(
                old(self).env(),
                old(self).st(),
                name@,
                t@,
                ho,
            ) == (final(self).st(), opt_text(r)),
    {
        proof {
            reveal(tuple_struct_spec);
        }
        match t {
            Type::Primitive(n) => {
                if is_struct_type(self.layout_engine.type_checker, t) {
                    let found = self.ensure_abi_struct_mem(n.as_str());
                    match found {
                        Some((h, _)) => {
                            return Some(
                                cat7(
                                    "    ",
                                    name,
                                    " := ",
                                    h.as_str(),
                                    "(__wb, ",
                                    dec_text(ho).as_str(),
                                    ", returndatasize())\n",
                                )
                            );
                        },
                        None => {
                            return None;
                        },
                    }
                }
                None
            },
            _ => None,
        }
    }
}

/// Decodes one value of several; its head stands at `ho`.
#[verifier::opaque]
pub open spec fn decode_tuple_field_spec(
    g: EnvV,
    st: StV,
    name: Seq<char>,
    t: TypeV,
    ho: usize,
) -> (StV, Seq<char>) {
    if str_type(t) {
        let st = ensure_spec(st, "gum_abi_str_mem"@, gum_abi_str_mem_src());
        (
            st,
            "    "@ + name + " := gum_abi_str_mem(__wb, mload(add(__wb, "@ + dec(
                ho as nat
            ) + ")), returndatasize())\n"@,
        )
    } else {
        let (st, found) = tuple_array_spec(g, st, name, t, ho);
        match found {
            Some(s) => (st, s),
            None => {
                let (st, found) = tuple_dyn_struct_spec(g, st, name, t, ho);
                match found {
                    Some(s) => (st, s),
                    None => {
                        let (st, found) = tuple_struct_spec(g, st, name, t, ho);
                        match found {
                            Some(s) => (st, s),
                            None => (
                                st,
                                "    "@ + name + " := "@ + mask_spec(
                                    "mload(add(__wb, "@ + dec(ho as nat) + "))"@,
                                    t,
                                ) + "\n"@,
                            ),
                        }
                    },
                }
            },
        }
    }
}

impl<'a> Translator<'a> {
    pub(crate) fn decode_tuple_field(&mut self, name: &str, t: &Type, ho: usize) -> (r: String)
        ensures
            final(self).env() == old(self).env(),
            decode_tuple_field_spec(
                old(self).env(),
                old(self).st(),
                name@,
                t@,
                ho,
            ) == (final(self).st(), r@),
    {
        proof {
            reveal(decode_tuple_field_spec);
        }
        if is_str_type(t) {
            self.ensure_helper("gum_abi_str_mem", gum_abi_str_mem_helper_src());
            return cat5(
                "    ",
                name,
                " := gum_abi_str_mem(__wb, mload(add(__wb, ",
                dec_text(ho).as_str(),
                ")), returndatasize())\n",
            );
        }
        let found = self.tuple_array(name, t, ho);
        match found {
            Some(s) => {
                return s;
            },
            None => {},
        }
        let found = self.tuple_dyn_struct(name, t, ho);
        match found {
            Some(s) => {
                return s;
            },
            None => {},
        }
        let found = self.tuple_struct(name, t, ho);
        match found {
            Some(s) => {
                return s;
            },
            None => {},
        }
        cat5(
            "    ",
            name,
            " := ",
            mask_for_type(
                cat3("mload(add(__wb, ", dec_text(ho).as_str(), "))").as_str(),
                t,
            ).as_str(),
            "\n",
        )
    }
}

/// The types of a list of captured locals.
pub open spec fn capture_types(fs: Seq<(Seq<char>, TypeV)>) -> Seq<TypeV> {
    fs.map_values(|f: (Seq<char>, TypeV)| f.1)
}

/// The names of a list of captured locals.
pub open spec fn capture_names(fs: Seq<(Seq<char>, TypeV)>) -> Seq<Seq<char>> {
    fs.map_values(|f: (Seq<char>, TypeV)| f.0)
}

pub fn types_of_captures(fs: &Vec<(String, Type)>) -> (r: Vec<Type>)
    ensures
        types_v(r@) == capture_types(captures_v(fs@)),
{
    let mut out: Vec<Type> = Vec::new();
    let mut i: usize = 0;
    while i < fs.len()
        invariant
            i <= fs@.len(),
            out@.len() == i,
            forall|k: int| 0 <= k < i ==> (#[trigger] out@[k])@ == fs@[k].1@,
        decreases fs@.len() - i,
    {
        let t = fs[i].1.clone();
        out.push(t);
        i += 1;
    }
    assert(types_v(out@) =~= capture_types(captures_v(fs@)));
    out
}

pub fn names_of_captures(fs: &Vec<(String, Type)>) -> (r: Vec<String>)
    ensures
        texts(r@) == capture_names(captures_v(fs@)),
{
    let mut out: Vec<String> = Vec::new();
    let mut i: usize = 0;
    while i < fs.len()
        invariant
            i <= fs@.len(),
            out@.len() == i,
            forall|k: int| 0 <= k < i ==> (#[trigger] out@[k])@ == fs@[k].0@,
        decreases fs@.len() - i,
    {
        let t = fs[i].0.clone();
        out.push(t);
        i += 1;
    }
    assert(texts(out@) =~= capture_names(captures_v(fs@)));
    out
}

/// Decodes the first `n` values of several.
pub open spec fn tuple_fields(g: EnvV, st: StV, fs: Seq<(Seq<char>, TypeV)>, n: nat) -> (
    StV,
    Seq<char>,
)
    decreases n,
{
    if n == 0 {
        (st, Seq::empty())
    } else {
        let (st, out) = tuple_fields(g, st, fs, (n - 1) as nat);
        let (st, one) = decode_tuple_field_spec(
            g,
            st,
            fs[n - 1].0,
            fs[n - 1].1,
            head_total(g, capture_types(fs), (n - 1) as nat),
        );
        (st, out + one)
    }
}

impl<'a> Translator<'a> {
    fn tuple_fields_text(&mut self, fs: &Vec<(String, Type)>) -> (r: String)
        ensures
            final(self).env() == old(self).env(),
            tuple_fields(old(self).env(), old(self).st(), captures_v(fs@), fs@.len()) == (
                final(self).st(),
                r@,
            ),
    {
        let ghost g = self.env();
        let ghost st0 = self.st();
        let ghost fv = captures_v(fs@);
        let mut out = String::new();
        let mut at: usize = 0;
        let mut i: usize = 0;
        while i < fs.len()
            invariant
                i <= fs@.len(),
                g == old(self).env(),
                st0 == old(self).st(),
                self.env() == g,
                fv == captures_v(fs@),
                at == head_total(g, capture_types(fv), i as nat),
                tuple_fields(g, st0, fv, i as nat) == (self.st(), out@),
            decreases fs@.len() - i,
        {
            assert(capture_types(fv)[i as int] == fs@[i as int].1@);
            out.append(self.decode_tuple_field(fs[i].0.as_str(), &fs[i].1, at).as_str());
            at = at.wrapping_add(self.abi_head_bytes(&fs[i].1));
            i += 1;
        }
        out
    }
}

/// Decodes the returned data into several variables.
#[verifier::opaque]
pub open spec fn returndata_tuple_to_vars_spec(
    g: EnvV,
    st: StV,
    fields: Seq<(Seq<char>, TypeV)>,
) -> (StV, Seq<char>) {
    if fields.len() == 0 {
        (st, ""@)
    } else if fields.len() == 1 {
        returndata_to_var_spec(g, st, fields[0].1, fields[0].0)
    } else {
        let total = head_total(g, capture_types(fields), capture_types(fields).len());
        let (st, body) = tuple_fields(g, st, fields, fields.len());
        (
            st,
            "    if lt(returndatasize(), "@ + dec(
                total as nat
            ) + ") { revert(0, 0) }\n    let __wb := allocate_memory(returndatasize())\n    returndatacopy(__wb, 0, returndatasize())\n"@ + body,
        )
    }
}

impl<'a> Translator<'a> {
    pub(crate) fn returndata_tuple_to_vars(&mut self, fields: &Vec<(String, Type)>) -> (r: String)
        ensures
            final(self).env() == old(self).env(),
            returndata_tuple_to_vars_spec(
                old(self).env(),
                old(self).st(),
                captures_v(fields@),
            ) == (final(self).st(), r@),
    {
        proof {
            reveal(returndata_tuple_to_vars_spec);
        }
        if fields.len() == 0 {
            return String::from_str("");
        }
        if fields.len() == 1 {
            return self.returndata_to_var(&fields[0].1, fields[0].0.as_str());
        }
        let total: usize = self.head_bytes(&types_of_captures(fields));
        let body = self.tuple_fields_text(fields);
        cat4(
            "    if lt(returndatasize(), ",
            dec_text(total).as_str(),
            ") { revert(0, 0) }\n    let __wb := allocate_memory(returndatasize())\n    returndatacopy(__wb, 0, returndatasize())\n",
            body.as_str(),
        )
    }
}

/// The names `a0`, `a1`, ... of `n` parameters, with `prefix` for `a`.
pub open spec fn numbered(prefix: Seq<char>, n: nat) -> Seq<Seq<char>> {
    Seq::new(n, |i: int| prefix + dec(i as nat))
}

pub fn numbered_names(prefix: &str, n: usize) -> (r: Vec<String>)
    ensures
        texts(r@) == numbered(prefix@, n as nat),
{
    let mut out: Vec<String> = Vec::new();
    let mut i: usize = 0;
    while i < n
        invariant
            i <= n,
            out@.len() == i,
            forall|k: int| 0 <= k < i ==> (#[trigger] out@[k])@ == prefix@ + dec(k as nat),
        decreases n - i,
    {
        out.push(cat2(prefix, dec_text(i).as_str()));
        i += 1;
    }
    assert(texts(out@) =~= numbered(prefix@, n as nat));
    out
}

/// The types in which `n` arguments are passed to a method: its own, where it
/// takes that many, else words.
pub open spec fn passed_types(g: EnvV, class: Seq<char>, method: Seq<char>, n: nat) -> Seq<TypeV> {
    match method_of_spec(g, class, method) {
        Some(m) => if m.parameters.len() == n {
            param_types(m.parameters)
        } else {
            Seq::new(n, |i: int| TypeV::Primitive("u256"@))
        },
        None => Seq::new(n, |i: int| TypeV::Primitive("u256"@)),
    }
}

/// The selector of a method, or zero where there is no such method.
pub open spec fn method_selector_spec(g: EnvV, class: Seq<char>, method: Seq<char>) -> Seq<char> {
    match method_of_spec(g, class, method) {
        Some(m) => call_selector(g.w, m.name, m.parameters, false),
        None => "0x00000000"@,
    }
}

pub open spec fn method_return_spec(g: EnvV, class: Seq<char>, method: Seq<char>) -> Option<TypeV> {
    match method_of_spec(g, class, method) {
        Some(m) => m.return_type,
        None => None,
    }
}

impl<'a> Translator<'a> {
    fn method_selector(&self, class: &str, method: &str) -> (r: String)
        ensures
            r@ == method_selector_spec(self.env(), class@, method@),
    {
        match self.method_of(class, method) {
            Some(m) => AbiGenerator::new(self.layout_engine.type_checker).calculate_selector(m),
            None => String::from_str("0x00000000"),
        }
    }

    fn method_return(&self, class: &str, method: &str) -> (r: Option<Type>)
        ensures
            opt_type_v(r) == method_return_spec(self.env(), class@, method@),
    {
        match self.method_of(class, method) {
            Some(m) => clone_opt_type(&m.return_type),
            None => None,
        }
    }

    fn passed_types_of(&self, class: &str, method: &str, n: usize) -> (r: Vec<Type>)
        ensures
            types_v(r@) == passed_types(self.env(), class@, method@, n as nat),
    {
        match self.method_of(class, method) {
            Some(m) => {
                if m.parameters.len() == n {
                    return types_of(&m.parameters);
                }
            },
            None => {},
        }
        let mut out: Vec<Type> = Vec::new();
        let mut i: usize = 0;
        while i < n
            invariant
                i <= n,
                out@.len() == i,
                forall|k: int|
                    0 <= k < i ==> (#[trigger] out@[k])@ == TypeV::Primitive("u256"@),
            decreases n - i,
        {
            out.push(Type::Primitive(String::from_str("u256")));
            i += 1;
        }
        assert(types_v(out@) =~= Seq::new(n as nat, |i: int| TypeV::Primitive("u256"@)));
        out
    }
}

/// A call of another contract: the first argument is the target, the others
/// are what is passed. Within a `try` block a failing call raises the exception
/// flag; elsewhere it is passed on to the caller.
#[verifier::opaque]
pub open spec fn extcall_wrapper_src_spec(
    g: EnvV,
    st: StV,
    iface_name: Seq<char>,
    method: Seq<char>,
    args: Seq<Seq<char>>,
    is_try: bool,
) -> (StV, Seq<char>) {
    if args.len() == 0 {
        let st = error_spec(st, "a call of '"@ + method + "' names no contract to call."@);
        (st, ""@)
    } else {
        let n = (args.len() as usize - 1) as usize;
        let selector = method_selector_spec(g, iface_name, method);
        let types = passed_types(g, iface_name, method, n as nat);
        let ret = method_return_spec(g, iface_name, method);
        let (st, ret_src) = extcall_return_src_spec(g, st, ret);
        let (st, pair) = blob_spec(g, st, types);
        let size_src = pair.0;
        let write_src = pair.1;
        let fn_name = "__extcall_"@ + (
            if is_try { "try_"@ } else { ""@ }
        ) + iface_name + "_"@ + method;
        let st = if is_try {
            let st = ensure_spec(st, "gum_exception_helpers"@, gum_exception_helpers_src_spec());
            st
        } else {
            st
        };
        let st = ensure_spec(st, "gum_bubble_revert"@, gum_bubble_revert_src());
        let params = join_spec(numbered("a"@, n as nat), ", "@);
        let failed = if is_try { "    if iszero(ok) { gum_set_exception() leave }\n"@ } else { "    if iszero(ok) { gum_bubble_revert() }\n"@ };
        let src = "function "@ + fn_name + "(target"@ + (if n == 0usize { ""@ } else { ", "@ }) + params + ")"@ + (
            if ret is Some { " -> result"@ } else { ""@ }
        ) + " {\n"@ + size_src + "    let ptr := allocate_memory(add(4, alen))\n    mstore(ptr, shl(224, "@ + selector + "))\n    let blob := add(ptr, 4)\n"@ + write_src + "    let ok := call(gas(), target, 0, ptr, add(4, alen), 0, 0)\n"@ + failed + ret_src + "}\n"@;
        let st = ensure_spec(st, fn_name, src);
        (st, fn_name + "("@ + join_spec(args, ", "@) + ")"@)
    }
}

impl<'a> Translator<'a> {
    pub(crate) fn extcall_wrapper_src(
        &mut self,
        iface_name: &str,
        method: &str,
        args: &Vec<String>,
        is_try: bool,
    ) -> (r: String)
        ensures
            final(self).env() == old(self).env(),
            extcall_wrapper_src_spec(
                old(self).env(),
                old(self).st(),
                iface_name@,
                method@,
                texts(args@),
                is_try,
            ) == (final(self).st(), r@),
    {
        proof {
            reveal(extcall_wrapper_src_spec);
        }
        if args.len() == 0 {
            self.note_error(cat3("a call of '", method, "' names no contract to call."));
            return String::from_str("");
        }
        let n: usize = args.len() - 1;
        let selector = self.method_selector(iface_name, method);
        let types = self.passed_types_of(iface_name, method, n);
        let ret = self.method_return(iface_name, method);
        let ret_src = self.extcall_return_src(&ret);
        let (size_src, write_src) = self.abi_arg_blob_src(&types);
        let fn_name = cat5("__extcall_", if is_try { "try_" } else { "" }, iface_name, "_", method);
        if is_try {
            self.ensure_helper("gum_exception_helpers", gum_exception_helpers_src());
        }
        self.ensure_helper("gum_bubble_revert", gum_bubble_revert_helper_src());
        let params = join(&numbered_names("a", n), ", ");
        let failed = if is_try { "    if iszero(ok) { gum_set_exception() leave }\n" } else { "    if iszero(ok) { gum_bubble_revert() }\n" };
        let src = cat9(
            cat9(
                "function ",
                fn_name.as_str(),
                "(target",
                if n == 0 { "" } else { ", " },
                params.as_str(),
                ")",
                if ret.is_some() { " -> result" } else { "" },
                " {\n",
                size_src.as_str(),
            ).as_str(),
            "    let ptr := allocate_memory(add(4, alen))\n    mstore(ptr, shl(224, ",
            selector.as_str(),
            "))\n    let blob := add(ptr, 4)\n",
            write_src.as_str(),
            "    let ok := call(gas(), target, 0, ptr, add(4, alen), 0, 0)\n",
            failed,
            ret_src.as_str(),
            "}\n",
        );
        self.ensure_helper(fn_name.as_str(), src);
        cat4(fn_name.as_str(), "(", join(args, ", ").as_str(), ")")
    }
}

} // verus!
