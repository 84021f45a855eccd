//! Entry points: how the arguments of a call and of a deployment are read, and how
//! the dispatcher reaches a function.
use crate::ast::{params_v, types_v, FnDecl, FnV, ParamV, Parameter, Type, TypeV};
use crate::codegen::abi::{
    call_selector, context_type, exported, is_context_param, is_exported, sig_spec,
};
use crate::codegen::consts::{immutable_key, patched_of};
use crate::codegen::frames::{is_frame, is_frame_spec};
use crate::codegen::layout::size_spec;
use crate::codegen::tr_blob::head_total;
use crate::codegen::tr_codec::{
    abi_dynamic, abi_head_bytes_spec, ensure_abi_cd_spec, ensure_abi_dyn_struct_cd_spec,
    ensure_abi_dyn_struct_mem_spec, ensure_abi_mem_spec, ensure_abi_struct_cd_spec,
    ensure_abi_struct_mem_spec,
};
use crate::codegen::translator::{error_spec, EnvV, StV, Translator};
use crate::codegen::yul::{
    address_type, immutable_deploy_local, is_address_type, is_enum_type, is_str_type,
    is_struct_type, keccak256_hex, keccak_hex_spec, mask_for_type, mask_spec, opt_text, str_type,
    struct_type,
};
use crate::semantic::scalar_enum;
use crate::text::{
    cat2, cat3, cat4, cat5, cat6, cat7, cat8, cat9, dec, dec_sum, dec_text, has_text, join,
    join_spec, same, texts,
};
use vstd::prelude::*;

verus! {

broadcast use crate::ast::group_views;

/// How far the code that reads arguments is set in.
pub open spec fn pad_of_spec(cd: bool) -> Seq<char> {
    if cd {
        "          "@
    } else {
        "    "@
    }
}

pub(crate) fn pad_of(cd: bool) -> (r: String)
    ensures
        r@ == pad_of_spec(cd),
{
    if cd {
        String::from_str("          ")
    } else {
        String::from_str("    ")
    }
}

/// One word of the arguments.
pub open spec fn word_of_spec(cd: bool, offset: usize) -> Seq<char> {
    if cd {
        "calldataload("@ + dec(offset as nat) + ")"@
    } else {
        "mload(add(args_mem, "@ + dec(offset as nat) + "))"@
    }
}

pub(crate) fn word_of(cd: bool, offset: usize) -> (r: String)
    ensures
        r@ == word_of_spec(cd, offset),
{
    if cd {
        return cat3("calldataload(", dec_text(offset).as_str(), ")");
    }
    cat3("mload(add(args_mem, ", dec_text(offset).as_str(), "))")
}

/// A parameter that stands for the message or the block takes no argument: it is
/// filled from the call itself.
pub open spec fn take_context_spec(cd: bool, arg: Seq<char>, t: TypeV) -> Option<Seq<char>> {
    match t {
        TypeV::Primitive(name) => {
            if name == "Message"@ {
                Some(
                    pad_of_spec(cd)
                    + "let "@
                    + arg
                    + " := allocate_memory(64)\n"@
                    + pad_of_spec(cd)
                    + "mstore("@
                    + arg
                    + ", caller())\n"@
                    + pad_of_spec(cd)
                    + "mstore(add("@
                    + arg
                    + ", 32), callvalue())\n"@
                )
            } else if name == "Block"@ {
                Some(
                    pad_of_spec(cd)
                    + "let "@
                    + arg
                    + " := allocate_memory(64)\n"@
                    + pad_of_spec(cd)
                    + "mstore("@
                    + arg
                    + ", timestamp())\n"@
                    + pad_of_spec(cd)
                    + "mstore(add("@
                    + arg
                    + ", 32), number())\n"@
                )
            } else {
                None
            }
        },
        _ => None,
    }
}

pub(crate) fn take_context(cd: bool, arg: &str, t: &Type) -> (r: Option<String>)
    ensures
        opt_text(r) == take_context_spec(cd, arg@, t@),
{
    match t {
        Type::Primitive(name) => {
            if same(name.as_str(), "Message") {
                return Some(
                    cat4(
                        cat9(
                            pad_of(cd).as_str(),
                            "let ",
                            arg,
                            " := allocate_memory(64)\n",
                            pad_of(cd).as_str(),
                            "mstore(",
                            arg,
                            ", caller())\n",
                            pad_of(cd).as_str(),
                        ).as_str(),
                        "mstore(add(",
                        arg,
                        ", 32), callvalue())\n",
                    )
                );
            }
            if same(name.as_str(), "Block") {
                return Some(
                    cat4(
                        cat9(
                            pad_of(cd).as_str(),
                            "let ",
                            arg,
                            " := allocate_memory(64)\n",
                            pad_of(cd).as_str(),
                            "mstore(",
                            arg,
                            ", timestamp())\n",
                            pad_of(cd).as_str(),
                        ).as_str(),
                        "mstore(add(",
                        arg,
                        ", 32), number())\n",
                    )
                );
            }
            None
        },
        _ => None,
    }
}

pub open spec fn take_string_spec(cd: bool, arg: Seq<char>, offset: usize) -> Seq<char> {
    if cd {
        "          let "@ + arg + "_head := calldataload("@ + dec(
            offset as nat
        ) + ")\n          let "@ + arg + "_data_offset := add(4, "@ + arg + "_head)\n          let "@ + arg + "_len := calldataload("@ + arg + "_data_offset)\n          let "@ + arg + " := allocate_memory(add(32, "@ + arg + "_len))\n          mstore("@ + arg + ", shl(192, "@ + arg + "_len))\n          calldatacopy(add("@ + arg + ", 32), add("@ + arg + "_data_offset, 32), "@ + arg + "_len)\n"@
    } else {
        "    let "@ + arg + "_head := mload(add(args_mem, "@ + dec(
            offset as nat
        ) + "))\n    if gt(add("@ + arg + "_head, 32), _args_len) { revert(0, 0) }\n    let "@ + arg + "_len := mload(add(args_mem, "@ + arg + "_head))\n    if gt(add(add("@ + arg + "_head, 32), "@ + arg + "_len), _args_len) { revert(0, 0) }\n    let "@ + arg + " := allocate_memory(add(32, "@ + arg + "_len))\n    mstore("@ + arg + ", shl(192, "@ + arg + "_len))\n    gum_memory_copy(add(add(args_mem, "@ + arg + "_head), 32), add("@ + arg + ", 32), "@ + arg + "_len)\n"@
    }
}

pub(crate) fn take_string(cd: bool, arg: &str, offset: usize) -> (r: String)
    ensures
        r@ == take_string_spec(cd, arg@, offset),
{
    if cd {
        return cat3(
            cat9(
                cat9(
                    cat9(
                        "          let ",
                        arg,
                        "_head := calldataload(",
                        dec_text(offset).as_str(),
                        ")\n          let ",
                        arg,
                        "_data_offset := add(4, ",
                        arg,
                        "_head)\n          let ",
                    ).as_str(),
                    arg,
                    "_len := calldataload(",
                    arg,
                    "_data_offset)\n          let ",
                    arg,
                    " := allocate_memory(add(32, ",
                    arg,
                    "_len))\n          mstore(",
                ).as_str(),
                arg,
                ", shl(192, ",
                arg,
                "_len))\n          calldatacopy(add(",
                arg,
                ", 32), add(",
                arg,
                "_data_offset, 32), ",
            ).as_str(),
            arg,
            "_len)\n",
        );
    }
    cat5(
        cat9(
            cat9(
                cat9(
                    "    let ",
                    arg,
                    "_head := mload(add(args_mem, ",
                    dec_text(offset).as_str(),
                    "))\n    if gt(add(",
                    arg,
                    "_head, 32), _args_len) { revert(0, 0) }\n    let ",
                    arg,
                    "_len := mload(add(args_mem, ",
                ).as_str(),
                arg,
                "_head))\n    if gt(add(add(",
                arg,
                "_head, 32), ",
                arg,
                "_len), _args_len) { revert(0, 0) }\n    let ",
                arg,
                " := allocate_memory(add(32, ",
            ).as_str(),
            arg,
            "_len))\n    mstore(",
            arg,
            ", shl(192, ",
            arg,
            "_len))\n    gum_memory_copy(add(add(args_mem, ",
            arg,
            "_head), 32), add(",
        ).as_str(),
        arg,
        ", 32), ",
        arg,
        "_len)\n",
    )
}

/// A value that stands behind an offset.
pub open spec fn behind_spec(
    cd: bool,
    arg: Seq<char>,
    helper: Seq<char>,
    offset: usize,
) -> Seq<char> {
    if cd {
        "          let "@ + arg + " := "@ + helper + "(add(4, calldataload("@ + dec(
            offset as nat
        ) + ")))\n"@
    } else {
        "    let "@ + arg + " := "@ + helper + "(args_mem, mload(add(args_mem, "@ + dec(
            offset as nat
        ) + ")), _args_len)\n"@
    }
}

pub(crate) fn behind(cd: bool, arg: &str, helper: &str, offset: usize) -> (r: String)
    ensures
        r@ == behind_spec(cd, arg@, helper@, offset),
{
    if cd {
        return cat7(
            "          let ",
            arg,
            " := ",
            helper,
            "(add(4, calldataload(",
            dec_text(offset).as_str(),
            ")))\n",
        );
    }
    cat7(
        "    let ",
        arg,
        " := ",
        helper,
        "(args_mem, mload(add(args_mem, ",
        dec_text(offset).as_str(),
        ")), _args_len)\n",
    )
}

/// A value that stands in the head itself.
pub open spec fn inline_spec(
    cd: bool,
    arg: Seq<char>,
    helper: Seq<char>,
    offset: usize,
) -> Seq<char> {
    if cd {
        "          let "@ + arg + " := "@ + helper + "("@ + dec(offset as nat) + ")\n"@
    } else {
        "    let "@ + arg + " := "@ + helper + "(args_mem, "@ + dec(
            offset as nat
        ) + ", _args_len)\n"@
    }
}

pub(crate) fn inline(cd: bool, arg: &str, helper: &str, offset: usize) -> (r: String)
    ensures
        r@ == inline_spec(cd, arg@, helper@, offset),
{
    if cd {
        return cat7("          let ", arg, " := ", helper, "(", dec_text(offset).as_str(), ")\n");
    }
    cat7(
        "    let ",
        arg,
        " := ",
        helper,
        "(args_mem, ",
        dec_text(offset).as_str(),
        ", _args_len)\n",
    )
}

#[verifier::opaque]
pub open spec fn struct_codec_spec(
    g: EnvV,
    st: StV,
    cd: bool,
    name: Seq<char>,
) -> (StV, Option<(Seq<char>, usize)>) {
    if cd {
        ensure_abi_struct_cd_spec(g, st, name)
    } else {
        ensure_abi_struct_mem_spec(g, st, name)
    }
}

impl<'a> Translator<'a> {
    pub(crate) fn struct_codec(&mut self, cd: bool, name: &str) -> (r: Option<(String, usize)>)
        ensures
            final(self).env() == old(self).env(),
            struct_codec_spec(old(self).env(), old(self).st(), cd, name@) == (
                final(self).st(),
                (match r { Some(x) => Some((x.0@, x.1)), None => None }),
            ),
    {
        proof {
            reveal(struct_codec_spec);
        }
        if cd {
            return self.ensure_abi_struct_cd(name);
        }
        self.ensure_abi_struct_mem(name)
    }
}

#[verifier::opaque]
pub open spec fn dyn_struct_codec_spec(
    g: EnvV,
    st: StV,
    cd: bool,
    name: Seq<char>,
) -> (StV, Option<Seq<char>>) {
    if cd {
        ensure_abi_dyn_struct_cd_spec(g, st, name)
    } else {
        ensure_abi_dyn_struct_mem_spec(g, st, name)
    }
}

impl<'a> Translator<'a> {
    pub(crate) fn dyn_struct_codec(&mut self, cd: bool, name: &str) -> (r: Option<String>)
        ensures
            final(self).env() == old(self).env(),
            dyn_struct_codec_spec(
                old(self).env(),
                old(self).st(),
                cd,
                name@,
            ) == (final(self).st(), opt_text(r)),
    {
        proof {
            reveal(dyn_struct_codec_spec);
        }
        if cd {
            return self.ensure_abi_dyn_struct_cd(name);
        }
        self.ensure_abi_dyn_struct_mem(name)
    }
}

/// A struct: a static one stands in the head, a dynamic one behind an offset.
#[verifier::opaque]
pub open spec fn take_struct_spec(
    g: EnvV,
    st: StV,
    cd: bool,
    arg: Seq<char>,
    t: TypeV,
    offset: usize,
) -> (StV, Option<(Seq<char>, usize)>) {
    match t {
        TypeV::Primitive(name) => {
            if !struct_type(g.w, t) {
                (st, None)
            } else if abi_dynamic(g.w, t) {
                let (st, found) = dyn_struct_codec_spec(g, st, cd, name);
                match found {
                    Some(helper) => (
                        st,
                        Some((behind_spec(cd, arg, helper, offset), offset.wrapping_add(32usize))),
                    ),
                    None => (st, None),
                }
            } else {
                let (st, found) = struct_codec_spec(g, st, cd, name);
                match found {
                    Some((helper, wire)) => (
                        st,
                        Some((inline_spec(cd, arg, helper, offset), offset.wrapping_add(wire))),
                    ),
                    None => (st, None),
                }
            }
        },
        _ => (st, None),
    }
}

impl<'a> Translator<'a> {
    pub(crate) fn take_struct(
        &mut self,
        cd: bool,
        arg: &str,
        t: &Type,
        offset: usize,
    ) -> (r: Option<(String, usize)>)
        ensures
            final(self).env() == old(self).env(),
            take_struct_spec(old(self).env(), old(self).st(), cd, arg@, t@, offset) == (
                final(self).st(),
                (match r { Some(x) => Some((x.0@, x.1)), None => None }),
            ),
    {
        proof {
            reveal(take_struct_spec);
        }
        match t {
            Type::Primitive(name) => {
                if !is_struct_type(self.layout_engine.type_checker, t) {
                    return None;
                }
                if self.abi_is_dynamic(t) {
                    let found = self.dyn_struct_codec(cd, name.as_str());
                    match found {
                        Some(helper) => {
                            return Some(
                                (behind(cd, arg, helper.as_str(), offset), offset.wrapping_add(32))
                            );
                        },
                        None => {
                            return None;
                        },
                    }
                }
                let found = self.struct_codec(cd, name.as_str());
                match found {
                    Some((helper, wire)) => Some(
                        (inline(cd, arg, helper.as_str(), offset), offset.wrapping_add(wire))
                    ),
                    None => None,
                }
            },
            _ => None,
        }
    }
}

#[verifier::opaque]
pub open spec fn array_codec_spec(
    g: EnvV,
    st: StV,
    cd: bool,
    t: TypeV,
) -> (StV, Option<Seq<char>>) {
    match t {
        TypeV::Array(_) => {
            if cd {
                ensure_abi_cd_spec(g, st, t)
            } else {
                ensure_abi_mem_spec(g, st, t)
            }
        },
        TypeV::FixedArray(_, _) => {
            if cd {
                ensure_abi_cd_spec(g, st, t)
            } else {
                ensure_abi_mem_spec(g, st, t)
            }
        },
        _ => (st, None),
    }
}

impl<'a> Translator<'a> {
    pub(crate) fn array_codec(&mut self, cd: bool, t: &Type) -> (r: Option<String>)
        ensures
            final(self).env() == old(self).env(),
            array_codec_spec(
                old(self).env(),
                old(self).st(),
                cd,
                t@,
            ) == (final(self).st(), opt_text(r)),
    {
        proof {
            reveal(array_codec_spec);
        }
        match t {
            Type::Array(_) => {
                if cd {
                    return self.ensure_abi_cd(t);
                }
                self.ensure_abi_mem(t)
            },
            Type::FixedArray(_, _) => {
                if cd {
                    return self.ensure_abi_cd(t);
                }
                self.ensure_abi_mem(t)
            },
            _ => None,
        }
    }
}

#[verifier::opaque]
pub open spec fn take_array_spec(
    g: EnvV,
    st: StV,
    cd: bool,
    arg: Seq<char>,
    t: TypeV,
    offset: usize,
) -> (StV, Option<(Seq<char>, usize)>) {
    let (st, found) = array_codec_spec(g, st, cd, t);
    match found {
        Some(helper) => {
            if abi_dynamic(g.w, t) {
                (st, Some((behind_spec(cd, arg, helper, offset), offset.wrapping_add(32usize))))
            } else {
                (
                    st,
                    Some(
                        (
                            inline_spec(cd, arg, helper, offset),
                            offset.wrapping_add(abi_head_bytes_spec(g, t)),
                        )
                    ),
                )
            }
        },
        None => {
            let st = if t is Array || t is FixedArray {
                let st = error_spec(
                    st,
                    "an array of type '"@ + sig_spec(g.aw, t) + "' has no ABI encoding."@,
                );
                st
            } else {
                st
            };
            (st, None)
        },
    }
}

impl<'a> Translator<'a> {
    pub(crate) fn take_array(
        &mut self,
        cd: bool,
        arg: &str,
        t: &Type,
        offset: usize,
    ) -> (r: Option<(String, usize)>)
        ensures
            final(self).env() == old(self).env(),
            take_array_spec(old(self).env(), old(self).st(), cd, arg@, t@, offset) == (
                final(self).st(),
                (match r { Some(x) => Some((x.0@, x.1)), None => None }),
            ),
    {
        proof {
            reveal(take_array_spec);
        }
        let found = self.array_codec(cd, t);
        match found {
            Some(helper) => {
                if self.abi_is_dynamic(t) {
                    return Some(
                        (behind(cd, arg, helper.as_str(), offset), offset.wrapping_add(32))
                    );
                }
                Some(
                    (
                        inline(cd, arg, helper.as_str(), offset),
                        offset.wrapping_add(self.abi_head_bytes(t)),
                    )
                )
            },
            None => {
                if matches!(t, Type::Array(..) | Type::FixedArray(..)) {
                    self.note_error(
                        cat3(
                            "an array of type '",
                            self.abi_gen.signature_type(t).as_str(),
                            "' has no ABI encoding.",
                        )
                    );
                }
                None
            },
        }
    }
}

pub open spec fn masked_word_spec(raw: Seq<char>, t: TypeV) -> Seq<char> {
    if address_type(t) {
        "and("@ + mask_spec(raw, t) + ", 0xffffffffffffffffffffffffffffffffffffffff)"@
    } else {
        mask_spec(raw, t)
    }
}

pub(crate) fn masked_word(raw: &str, t: &Type) -> (r: String)
    ensures
        r@ == masked_word_spec(raw@, t@),
{
    if is_address_type(t) {
        return cat3(
            "and(",
            mask_for_type(raw, t).as_str(),
            ", 0xffffffffffffffffffffffffffffffffffffffff)",
        );
    }
    mask_for_type(raw, t)
}

pub open spec fn take_plain_spec(
    g: EnvV,
    cd: bool,
    arg: Seq<char>,
    t: TypeV,
    offset: usize,
) -> (Seq<char>, usize) {
    if size_spec(g.w, g.lay.sizes, t) <= 32usize {
        (
            pad_of_spec(cd) + "let "@ + arg + " := "@ + masked_word_spec(
                word_of_spec(cd, offset),
                t,
            ) + "\n"@,
            offset.wrapping_add(32usize),
        )
    } else if cd {
        (
            "          let "@ + arg + " := allocate_memory("@ + dec(
                size_spec(g.w, g.lay.sizes, t) as nat
            ) + ")\n          calldatacopy("@ + arg + ", "@ + dec(offset as nat) + ", "@ + dec(size_spec(g.w, g.lay.sizes, t) as nat) + ")\n"@,
            offset.wrapping_add(size_spec(g.w, g.lay.sizes, t)),
        )
    } else {
        (
            "    let "@ + arg + " := add(args_mem, "@ + dec(offset as nat) + ")\n"@,
            offset.wrapping_add(size_spec(g.w, g.lay.sizes, t)),
        )
    }
}

impl<'a> Translator<'a> {
    pub(crate) fn take_plain(
        &self,
        cd: bool,
        arg: &str,
        t: &Type,
        offset: usize,
    ) -> (r: (String, usize))
        ensures
            (r.0@, r.1) == take_plain_spec(self.env(), cd, arg@, t@, offset),
    {
        if self.layout_engine.size_of(t) <= 32 {
            return (
                cat6(
                    pad_of(cd).as_str(),
                    "let ",
                    arg,
                    " := ",
                    masked_word(word_of(cd, offset).as_str(), t).as_str(),
                    "\n",
                ),
                offset.wrapping_add(32),
            );
        }
        if cd {
            return (
                cat3(
                    cat9(
                        "          let ",
                        arg,
                        " := allocate_memory(",
                        dec_text(self.layout_engine.size_of(t)).as_str(),
                        ")\n          calldatacopy(",
                        arg,
                        ", ",
                        dec_text(offset).as_str(),
                        ", ",
                    ).as_str(),
                    dec_text(self.layout_engine.size_of(t)).as_str(),
                    ")\n",
                ),
                offset.wrapping_add(self.layout_engine.size_of(t)),
            );
        }
        (
            cat5("    let ", arg, " := add(args_mem, ", dec_text(offset).as_str(), ")\n"),
            offset.wrapping_add(self.layout_engine.size_of(t)),
        )
    }
}

/// Reads the argument of one parameter: the code, and where the next one
/// stands.
#[verifier::opaque]
pub open spec fn take_arg_spec(
    g: EnvV,
    st: StV,
    cd: bool,
    arg: Seq<char>,
    t: TypeV,
    offset: usize,
) -> (StV, (Seq<char>, usize)) {
    match take_context_spec(cd, arg, t) {
        Some(s) => (st, (s, offset)),
        None => {
            if str_type(t) {
                (st, (take_string_spec(cd, arg, offset), offset.wrapping_add(32usize)))
            } else if scalar_enum(g.w, t) {
                (
                    st,
                    (
                        pad_of_spec(cd) + "let "@ + arg + " := and("@ + word_of_spec(
                            cd,
                            offset,
                        ) + ", 0xff)\n"@,
                        offset.wrapping_add(32usize),
                    ),
                )
            } else {
                let (st, found) = take_struct_spec(g, st, cd, arg, t, offset);
                match found {
                    Some((code, next)) => (st, (code, next)),
                    None => {
                        let (st, found) = take_array_spec(g, st, cd, arg, t, offset);
                        match found {
                            Some((code, next)) => (st, (code, next)),
                            None => (st, take_plain_spec(g, cd, arg, t, offset)),
                        }
                    },
                }
            }
        },
    }
}

impl<'a> Translator<'a> {
    pub(crate) fn take_arg(
        &mut self,
        cd: bool,
        arg: &str,
        t: &Type,
        offset: usize,
    ) -> (r: (String, usize))
        ensures
            final(self).env() == old(self).env(),
            take_arg_spec(
                old(self).env(),
                old(self).st(),
                cd,
                arg@,
                t@,
                offset,
            ) == (final(self).st(), (r.0@, r.1)),
    {
        proof {
            reveal(take_arg_spec);
        }
        match take_context(cd, arg, t) {
            Some(s) => {
                return (s, offset);
            },
            None => {},
        }
        if is_str_type(t) {
            return (take_string(cd, arg, offset), offset.wrapping_add(32));
        }
        if is_enum_type(self.layout_engine.type_checker, t) {
            return (
                cat6(
                    pad_of(cd).as_str(),
                    "let ",
                    arg,
                    " := and(",
                    word_of(cd, offset).as_str(),
                    ", 0xff)\n",
                ),
                offset.wrapping_add(32),
            );
        }
        let found = self.take_struct(cd, arg, t, offset);
        match found {
            Some((code, next)) => {
                return (code, next);
            },
            None => {},
        }
        let found = self.take_array(cd, arg, t, offset);
        match found {
            Some((code, next)) => {
                return (code, next);
            },
            None => {},
        }
        self.take_plain(cd, arg, t, offset)
    }
}

/// Reads the arguments of the first `n` parameters: the code, and where the next
/// argument stands.
pub open spec fn take_args_spec(g: EnvV, st: StV, cd: bool, ps: Seq<ParamV>, n: nat) -> (
    StV,
    Seq<char>,
    usize,
)
    decreases n,
{
    if n == 0 {
        (
            st,
            Seq::empty(),
            if cd {
                4usize
            } else {
                0usize
            },
        )
    } else {
        let (st, out, offset) = take_args_spec(g, st, cd, ps, (n - 1) as nat);
        let (st, pair) = take_arg_spec(
            g,
            st,
            cd,
            "param_"@ + ps[n - 1].name,
            ps[n - 1].type_def,
            offset,
        );
        (st, out + pair.0, pair.1)
    }
}

pub open spec fn taken_spec(g: EnvV, st: StV, cd: bool, ps: Seq<ParamV>) -> (StV, Seq<char>) {
    let (st, out, _) = take_args_spec(g, st, cd, ps, ps.len());
    (st, out)
}

impl<'a> Translator<'a> {
    /// Reads the arguments of the parameters.
    pub(crate) fn take_args(&mut self, cd: bool, ps: &Vec<Parameter>) -> (r: String)
        ensures
            final(self).env() == old(self).env(),
            taken_spec(old(self).env(), old(self).st(), cd, params_v(ps@)) == (
                final(self).st(),
                r@,
            ),
    {
        let ghost g = self.env();
        let ghost st0 = self.st();
        let mut out = String::new();
        let mut offset: usize = if cd {
            4
        } else {
            0
        };
        let mut i: usize = 0;
        while i < ps.len()
            invariant
                i <= ps@.len(),
                self.env() == g,
                take_args_spec(g, st0, cd, params_v(ps@), i as nat) == (self.st(), out@, offset),
            decreases ps@.len() - i,
        {
            let p = &ps[i];
            assert(params_v(ps@)[i as int] == p@);
            let name = cat2("param_", p.name.as_str());
            let (code, next) = self.take_arg(cd, name.as_str(), &p.type_def, offset);
            out.append(code.as_str());
            offset = next;
            i += 1;
        }
        out
    }
}

/// The types of the parameters that an argument is read for.
pub open spec fn wire_types_spec(ps: Seq<ParamV>, n: nat) -> Seq<TypeV>
    decreases n,
{
    if n == 0 {
        Seq::empty()
    } else {
        let out = wire_types_spec(ps, (n - 1) as nat);
        if context_type(ps[n - 1].type_def) {
            out
        } else {
            out.push(ps[n - 1].type_def)
        }
    }
}

pub(crate) fn wire_types(ps: &Vec<Parameter>) -> (r: Vec<Type>)
    ensures
        types_v(r@) == wire_types_spec(params_v(ps@), ps@.len()),
{
    let mut out: Vec<Type> = Vec::new();
    let mut i: usize = 0;
    assert(types_v(out@) =~= Seq::<TypeV>::empty());
    while i < ps.len()
        invariant
            i <= ps@.len(),
            types_v(out@) == wire_types_spec(params_v(ps@), i as nat),
        decreases ps@.len() - i,
    {
        let p = &ps[i];
        let ghost before = types_v(out@);
        assert(params_v(ps@)[i as int] == p@);
        if !is_context_param(&p.type_def) {
            let t = p.type_def.clone();
            let ghost tv = t@;
            out.push(t);
            assert(types_v(out@) =~= before.push(tv));
        }
        i += 1;
    }
    out
}

/// The variables that hold the arguments.
pub open spec fn arg_names_spec(ps: Seq<ParamV>) -> Seq<Seq<char>> {
    ps.map_values(|p: ParamV| "param_"@ + p.name)
}

pub(crate) fn arg_names(ps: &Vec<Parameter>) -> (r: Vec<String>)
    ensures
        texts(r@) == arg_names_spec(params_v(ps@)),
{
    let mut out: Vec<String> = Vec::new();
    let mut i: usize = 0;
    while i < ps.len()
        invariant
            i <= ps@.len(),
            out@.len() == i,
            forall|k: int| 0 <= k < i ==> (#[trigger] out@[k])@ == "param_"@ + ps@[k].name@,
        decreases ps@.len() - i,
    {
        out.push(cat2("param_", ps[i].name.as_str()));
        i += 1;
    }
    assert(texts(out@) =~= arg_names_spec(params_v(ps@)));
    out
}

/// The variables that carry const fields out of the constructor.
pub open spec fn deploy_locals_spec(fs: Seq<Seq<char>>) -> Seq<Seq<char>> {
    fs.map_values(|f: Seq<char>| "_immv_"@ + f)
}

pub(crate) fn deploy_locals(fs: &Vec<String>) -> (r: Vec<String>)
    ensures
        texts(r@) == deploy_locals_spec(texts(fs@)),
{
    let mut out: Vec<String> = Vec::new();
    let mut i: usize = 0;
    while i < fs.len()
        invariant
            i <= fs@.len(),
            out@.len() == i,
            forall|k: int| 0 <= k < i ==> (#[trigger] out@[k])@ == "_immv_"@ + fs@[k]@,
        decreases fs@.len() - i,
    {
        out.push(immutable_deploy_local(fs[i].as_str()));
        i += 1;
    }
    assert(texts(out@) =~= deploy_locals_spec(texts(fs@)));
    out
}

/// Writes the first `n` const fields into the deployed code.
pub open spec fn set_immutables(class: Seq<char>, fs: Seq<Seq<char>>, n: nat) -> Seq<char>
    decreases n,
{
    if n == 0 {
        Seq::empty()
    } else {
        set_immutables(class, fs, (n - 1) as nat) + "    setimmutable(0, \""@ + (class + "_"@ + fs[n
            - 1]) + "\", "@ + ("_immv_"@ + fs[n - 1]) + ")\n"@
    }
}

pub(crate) fn set_immutables_text(class: &str, fs: &Vec<String>) -> (r: String)
    ensures
        r@ == set_immutables(class@, texts(fs@), fs@.len()),
{
    let mut out = String::new();
    let mut i: usize = 0;
    while i < fs.len()
        invariant
            i <= fs@.len(),
            out@ == set_immutables(class@, texts(fs@), i as nat),
        decreases fs@.len() - i,
    {
        out.append("    setimmutable(0, \"");
        out.append(immutable_key(class, fs[i].as_str()).as_str());
        out.append("\", ");
        out.append(immutable_deploy_local(fs[i].as_str()).as_str());
        out.append(")\n");
        i += 1;
    }
    out
}

/// A slot that no field has: the hash of a name.
pub open spec fn hash_slot_spec(key: Seq<char>) -> Seq<char> {
    keccak_hex_spec(key)
}

pub(crate) fn hash_slot(key: &str) -> (r: String)
    ensures
        r@ == hash_slot_spec(key@),
{
    keccak256_hex(key)
}

/// The slot that says whether a `once` function has run.
pub open spec fn once_flag_slot_spec(fn_name: Seq<char>) -> Seq<char> {
    hash_slot_spec("gum.once:"@ + fn_name)
}

pub(crate) fn once_flag_slot(fn_name: &str) -> (r: String)
    ensures
        r@ == once_flag_slot_spec(fn_name@),
{
    hash_slot(cat2("gum.once:", fn_name).as_str())
}

pub open spec fn reentrancy_lock_slot_spec() -> Seq<char> {
    hash_slot_spec("gum.reentrancy"@)
}

pub(crate) fn reentrancy_lock_slot() -> (r: String)
    ensures
        r@ == reentrancy_lock_slot_spec(),
{
    hash_slot("gum.reentrancy")
}

/// Whether a function may be sent ether.
pub open spec fn is_payable_spec(f: FnV) -> bool {
    f.modifiers.contains("payable"@)
}

pub(crate) fn is_payable(f: &FnDecl) -> (r: bool)
    ensures
        r == is_payable_spec(f@),
{
    has_text(&f.modifiers, "payable")
}

pub open spec fn is_unsafe_spec(f: FnV) -> bool {
    f.modifiers.contains("unsafe"@)
}

pub(crate) fn is_unsafe(f: &FnDecl) -> (r: bool)
    ensures
        r == is_unsafe_spec(f@),
{
    has_text(&f.modifiers, "unsafe")
}

/// Whether a function answers a call without data.
pub open spec fn is_receive_spec(f: FnV) -> bool {
    exported(f) && f.name == "receive"@
}

pub(crate) fn is_receive(f: &FnDecl) -> (r: bool)
    ensures
        r == is_receive_spec(f@),
{
    is_exported(f) && same(f.name.as_str(), "receive")
}

/// Whether a function answers a call that names no other.
pub open spec fn is_fallback_spec(f: FnV) -> bool {
    exported(f) && f.name == "fallback"@
}

pub(crate) fn is_fallback(f: &FnDecl) -> (r: bool)
    ensures
        r == is_fallback_spec(f@),
{
    is_exported(f) && same(f.name.as_str(), "fallback")
}

/// Whether a function is reached by its selector: an entry point, or the body of a
/// `try` block.
pub open spec fn is_selector_entry_spec(f: FnV) -> bool {
    is_frame_spec(f) || (exported(f) && !is_receive_spec(f) && !is_fallback_spec(f))
}

pub(crate) fn is_selector_entry(f: &FnDecl) -> (r: bool)
    ensures
        r == is_selector_entry_spec(f@),
{
    is_frame(f) || (is_exported(f) && !is_receive(f) && !is_fallback(f))
}

/// Takes the lock, or reverts where it is taken.
pub open spec fn open_guard_spec(guarded: bool, pad: Seq<char>) -> Seq<char> {
    if guarded {
        pad + "if tload("@ + reentrancy_lock_slot_spec() + ") { revert(0, 0) }\n"@ + pad + "tstore("@ + reentrancy_lock_slot_spec() + ", 1)\n"@
    } else {
        ""@
    }
}

pub(crate) fn open_guard(guarded: bool, pad: &str) -> (r: String)
    ensures
        r@ == open_guard_spec(guarded, pad@),
{
    if guarded {
        return cat8(
            pad,
            "if tload(",
            reentrancy_lock_slot().as_str(),
            ") { revert(0, 0) }\n",
            pad,
            "tstore(",
            reentrancy_lock_slot().as_str(),
            ", 1)\n",
        );
    }
    String::from_str("")
}

pub open spec fn close_guard_spec(guarded: bool, pad: Seq<char>) -> Seq<char> {
    if guarded {
        pad + "tstore("@ + reentrancy_lock_slot_spec() + ", 0)\n"@
    } else {
        ""@
    }
}

pub(crate) fn close_guard(guarded: bool, pad: &str) -> (r: String)
    ensures
        r@ == close_guard_spec(guarded, pad@),
{
    if guarded {
        return cat4(pad, "tstore(", reentrancy_lock_slot().as_str(), ", 0)\n");
    }
    String::from_str("")
}

pub open spec fn reject_value_spec(reject: bool, pad: Seq<char>) -> Seq<char> {
    if reject {
        pad + "if callvalue() { revert(0, 0) }\n"@
    } else {
        ""@
    }
}

pub(crate) fn reject_value(reject: bool, pad: &str) -> (r: String)
    ensures
        r@ == reject_value_spec(reject, pad@),
{
    if reject {
        return cat2(pad, "if callvalue() { revert(0, 0) }\n");
    }
    String::from_str("")
}

/// Runs a function that takes no arguments from the call.
pub open spec fn bare_call_spec(guarded: bool, reject: bool, name: Seq<char>) -> Seq<char> {
    open_guard_spec(
        guarded,
        "          "@,
    ) + reject_value_spec(reject, "          "@) + "          "@ + name + "_impl()\n"@ + close_guard_spec(guarded, "          "@) + "          return(0, 0)\n"@
}

pub(crate) fn bare_call(guarded: bool, reject: bool, name: &str) -> (r: String)
    ensures
        r@ == bare_call_spec(guarded, reject, name@),
{
    cat7(
        open_guard(guarded, "          ").as_str(),
        reject_value(reject, "          ").as_str(),
        "          ",
        name,
        "_impl()\n",
        close_guard(guarded, "          ").as_str(),
        "          return(0, 0)\n",
    )
}

/// A call that is too short for its arguments reverts.
pub open spec fn call_length_spec(head: usize) -> Seq<char> {
    if head > 0usize {
        "          if lt(calldatasize(), "@ + dec(
            4usize as nat
            + head as nat
        ) + ") { revert(0, 0) }\n"@
    } else {
        ""@
    }
}

pub(crate) fn call_length(head: usize) -> (r: String)
    ensures
        r@ == call_length_spec(head),
{
    if head > 0 {
        return cat3(
            "          if lt(calldatasize(), ",
            dec_sum(4, head).as_str(),
            ") { revert(0, 0) }\n",
        );
    }
    String::from_str("")
}

/// The case of the dispatcher that runs a function.
#[verifier::opaque]
pub open spec fn dispatch_case_spec(
    g: EnvV,
    st: StV,
    f: FnV,
    guarded: bool,
    reject: bool,
) -> (StV, Seq<char>) {
    let head = head_total(
        g,
        wire_types_spec(f.parameters, f.parameters.len()),
        wire_types_spec(f.parameters, f.parameters.len()).len(),
    );
    let (st, args) = taken_spec(g, st, true, f.parameters);
    (
        st,
        "      case "@ + call_selector(g.aw, f.name, f.parameters, false) + " /* "@ + f.name + " */ {\n"@ + open_guard_spec(guarded, "          "@) + reject_value_spec(reject, "          "@) + call_length_spec(head) + args + "          "@ + f.name + "_impl("@ + join_spec(
            arg_names_spec(f.parameters),
            ", "@,
        ) + ")\n"@ + close_guard_spec(guarded, "          "@) + "          return(0, 0)\n      }\n"@,
    )
}

impl<'a> Translator<'a> {
    pub(crate) fn dispatch_case(&mut self, f: &FnDecl, guarded: bool, reject: bool) -> (r: String)
        ensures
            final(self).env() == old(self).env(),
            dispatch_case_spec(
                old(self).env(),
                old(self).st(),
                f@,
                guarded,
                reject,
            ) == (final(self).st(), r@),
    {
        proof {
            reveal(dispatch_case_spec);
        }
        let head: usize = self.head_bytes(&wire_types(&f.parameters));
        let args = self.take_args(true, &f.parameters);
        cat8(
            cat9(
                "      case ",
                self.abi_gen.calculate_selector(f).as_str(),
                " /* ",
                f.name.as_str(),
                " */ {\n",
                open_guard(guarded, "          ").as_str(),
                reject_value(reject, "          ").as_str(),
                call_length(head).as_str(),
                args.as_str(),
            ).as_str(),
            "          ",
            f.name.as_str(),
            "_impl(",
            join(&arg_names(&f.parameters), ", ").as_str(),
            ")\n",
            close_guard(guarded, "          ").as_str(),
            "          return(0, 0)\n      }\n",
        )
    }
}

/// Copies the arguments of a deployment to memory: they follow the code.
pub open spec fn args_blob_spec(name: Seq<char>, head: usize) -> Seq<char> {
    if head > 0usize {
        "    // --- Constructor Arguments ---\n    let _prog := datasize(\""@ + name + "\")\n    let _args_len := sub(codesize(), _prog)\n    if lt(_args_len, "@ + dec(
            head as nat
        ) + ") { revert(0, 0) }\n    let args_mem := allocate_memory(_args_len)\n    codecopy(args_mem, _prog, _args_len)\n"@
    } else {
        ""@
    }
}

pub(crate) fn args_blob(name: &str, head: usize) -> (r: String)
    ensures
        r@ == args_blob_spec(name@, head),
{
    if head > 0 {
        return cat5(
            "    // --- Constructor Arguments ---\n    let _prog := datasize(\"",
            name,
            "\")\n    let _args_len := sub(codesize(), _prog)\n    if lt(_args_len, ",
            dec_text(head).as_str(),
            ") { revert(0, 0) }\n    let args_mem := allocate_memory(_args_len)\n    codecopy(args_mem, _prog, _args_len)\n",
        );
    }
    String::from_str("")
}

pub open spec fn immutable_binding_spec(names: Seq<Seq<char>>) -> Seq<char> {
    if names.len() == 0 {
        ""@
    } else {
        "let "@ + join_spec(names, ", "@) + " := "@
    }
}

pub(crate) fn immutable_binding(names: &Vec<String>) -> (r: String)
    ensures
        r@ == immutable_binding_spec(texts(names@)),
{
    if names.len() == 0 {
        return String::from_str("");
    }
    cat3("let ", join(names, ", ").as_str(), " := ")
}

/// Reads the arguments of a deployment and runs the constructor.
#[verifier::opaque]
pub open spec fn constructor_call_spec(
    g: EnvV,
    st: StV,
    name: Seq<char>,
    params: Seq<ParamV>,
) -> (StV, Seq<char>) {
    let head = head_total(
        g,
        wire_types_spec(params, params.len()),
        wire_types_spec(params, params.len()).len(),
    );
    let (st, args) = taken_spec(g, st, false, params);
    let locals = deploy_locals_spec(patched_of(g.w, name));
    (
        st,
        args_blob_spec(name, head) + args + "    "@ + immutable_binding_spec(locals) + name + "_new("@ + join_spec(
            arg_names_spec(params),
            ", "@,
        ) + ")\n"@,
    )
}

impl<'a> Translator<'a> {
    pub(crate) fn constructor_call(&mut self, name: &str, params: &Vec<Parameter>) -> (r: String)
        ensures
            final(self).env() == old(self).env(),
            constructor_call_spec(
                old(self).env(),
                old(self).st(),
                name@,
                params_v(params@),
            ) == (final(self).st(), r@),
    {
        proof {
            reveal(constructor_call_spec);
        }
        let head: usize = self.head_bytes(&wire_types(params));
        let args = self.take_args(false, params);
        let locals = deploy_locals(&self.layout_engine.patched_immutables(name));
        cat8(
            args_blob(name, head).as_str(),
            args.as_str(),
            "    ",
            immutable_binding(&locals).as_str(),
            name,
            "_new(",
            join(&arg_names(params), ", ").as_str(),
            ")\n",
        )
    }
}

/// Returns the code of the contract, with its const fields filled in.
pub open spec fn deploy_tail_spec(g: EnvV, name: Seq<char>) -> Seq<char> {
    "    // Copy runtime code to memory and return it\n    datacopy(0, dataoffset(\""@ + name + "_runtime\"), datasize(\""@ + name + "_runtime\"))\n"@ + set_immutables(
        name,
        patched_of(g.w, name),
        patched_of(g.w, name).len(),
    ) + "    return(0, datasize(\""@ + name + "_runtime\"))\n  }\n"@
}

impl<'a> Translator<'a> {
    pub(crate) fn deploy_tail(&self, name: &str) -> (r: String)
        ensures
            r@ == deploy_tail_spec(self.env(), name@),
    {
        cat9(
            "    // Copy runtime code to memory and return it\n    datacopy(0, dataoffset(\"",
            name,
            "_runtime\"), datasize(\"",
            name,
            "_runtime\"))\n",
            set_immutables_text(name, &self.layout_engine.patched_immutables(name)).as_str(),
            "    return(0, datasize(\"",
            name,
            "_runtime\"))\n  }\n",
        )
    }
}

/// Copies a value into a byte array.
pub open spec fn serialize_src_spec(class_name: Seq<char>, size: usize) -> Seq<char> {
    "      function "@ + class_name + "_serialize(self) -> ptr {\n          ptr := allocate_memory("@ + dec(
        32usize as nat
        + size as nat
    ) + ")\n          mstore(ptr, "@ + dec(size as nat) + ")\n          bytes_copy(add(ptr, 32), self, "@ + dec(size as nat) + ")\n      }\n\n"@
}

pub(crate) fn serialize_src(class_name: &str, size: usize) -> (r: String)
    ensures
        r@ == serialize_src_spec(class_name@, size),
{
    cat9(
        "      function ",
        class_name,
        "_serialize(self) -> ptr {\n          ptr := allocate_memory(",
        dec_sum(32, size).as_str(),
        ")\n          mstore(ptr, ",
        dec_text(size).as_str(),
        ")\n          bytes_copy(add(ptr, 32), self, ",
        dec_text(size).as_str(),
        ")\n      }\n\n",
    )
}

/// Who called, and what was sent along. In the frame of a `try` block that is what the
/// frame was told.
pub open spec fn message_fns_spec(framed: bool) -> Seq<char> {
    if framed {
        "      function Message_sender() -> ret {\n          ret := caller()\n          let frame := mload(0x60)\n          if frame { ret := mload(frame) }\n      }\n\n      function Message_value() -> ret {\n          ret := callvalue()\n          let frame := mload(0x60)\n          if frame { ret := mload(add(frame, 32)) }\n      }\n\n"@
    } else {
        "      function Message_sender() -> ret {\n          ret := caller()\n      }\n\n      function Message_value() -> ret {\n          ret := callvalue()\n      }\n\n"@
    }
}

pub(crate) fn message_fns(framed: bool) -> (r: String)
    ensures
        r@ == message_fns_spec(framed),
{
    if framed {
        return String::from_str(
            "      function Message_sender() -> ret {\n          ret := caller()\n          let frame := mload(0x60)\n          if frame { ret := mload(frame) }\n      }\n\n      function Message_value() -> ret {\n          ret := callvalue()\n          let frame := mload(0x60)\n          if frame { ret := mload(add(frame, 32)) }\n      }\n\n"
        );
    }
    String::from_str(
        "      function Message_sender() -> ret {\n          ret := caller()\n      }\n\n      function Message_value() -> ret {\n          ret := callvalue()\n      }\n\n"
    )
}

/// What the message and the block answer.
pub open spec fn context_fns_spec(framed: bool) -> Seq<char> {
    message_fns_spec(
        framed
    ) + "      function Message_address() -> ret {\n          ret := address()\n      }\n\n      function Block_timestamp() -> ret {\n          ret := timestamp()\n      }\n\n      function Block_number() -> ret {\n          ret := number()\n      }\n\n"@
}

pub(crate) fn context_fns(framed: bool) -> (r: String)
    ensures
        r@ == context_fns_spec(framed),
{
    cat2(
        message_fns(framed).as_str(),
        "      function Message_address() -> ret {\n          ret := address()\n      }\n\n      function Block_timestamp() -> ret {\n          ret := timestamp()\n      }\n\n      function Block_number() -> ret {\n          ret := number()\n      }\n\n",
    )
}

/// What every contract needs.
pub open spec fn memory_fns_spec() -> Seq<char> {
    "      function allocate_memory(size) -> ptr {\n          ptr := mload(0x40)\n          if iszero(ptr) { ptr := 0x80 }\n          mstore(0x40, add(ptr, size))\n      }\n\n      function gum_hash_slot(key, slot) -> hash_ptr {\n          mstore(0x00, key)\n          mstore(0x20, slot)\n          hash_ptr := keccak256(0x00, 0x40)\n      }\n\n      function gum_memory_copy(src, dst, size) {\n          mcopy(dst, src, size)\n      }\n"@
}

pub(crate) fn memory_fns() -> (r: String)
    ensures
        r@ == memory_fns_spec(),
{
    String::from_str(
        "      function allocate_memory(size) -> ptr {\n          ptr := mload(0x40)\n          if iszero(ptr) { ptr := 0x80 }\n          mstore(0x40, add(ptr, size))\n      }\n\n      function gum_hash_slot(key, slot) -> hash_ptr {\n          mstore(0x00, key)\n          mstore(0x20, slot)\n          hash_ptr := keccak256(0x00, 0x40)\n      }\n\n      function gum_memory_copy(src, dst, size) {\n          mcopy(dst, src, size)\n      }\n"
    )
}

} // verus!
