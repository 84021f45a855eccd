//! The Yul object of a contract: its deployment code, its dispatcher, its
//! functions, and the objects of the contracts that it deploys.
use crate::ast::{
    body_v, clone_opt_type, method_named, methods_v, params_v, types_v, ClassDecl, ClassV, DeclV,
    FnDecl, FnV, ParamV, Parameter, Type, TypeV,
};
use crate::codegen::{generic_suffix, generic_suffix_spec};
use crate::codegen::abi::{abi_spec, event_entry_spec, exported, is_exported, EntryV};
use crate::codegen::consts::patched_of;
use crate::codegen::deploys::methods_deploy;
use crate::codegen::entry::{
    bare_call, bare_call_spec, constructor_call_spec, context_fns_spec, deploy_tail_spec,
    dispatch_case_spec, is_fallback, is_fallback_spec, is_payable, is_payable_spec, is_receive,
    is_receive_spec, is_selector_entry, is_selector_entry_spec, is_unsafe, is_unsafe_spec,
    memory_fns_spec, once_flag_slot, once_flag_slot_spec, reentrancy_lock_slot,
    reentrancy_lock_slot_spec, serialize_src, serialize_src_spec,
};
use crate::codegen::frames::scoped_fns;
use crate::codegen::generics::{instantiations, specialized, specialized_spec};
use crate::codegen::layout::{size_spec, LayV};
use crate::codegen::mutability::{
    body_calls, effects, external_calls, is_read_only, known_call, makes_external_call, read_only,
    Mut,
};
use crate::codegen::mutability_laws::law_calls_cover_bodies;
use crate::codegen::tr_codec::require_bytes_copy_spec;
use crate::codegen::tr_construct::{names_of, param_names, suffixed, suffixed_spec};
use crate::codegen::tr_expr::prepend;
use crate::codegen::tr_stmt::inner_spec;
use crate::codegen::translator::{
    declare_spec, entry_spec, helper_spec, start_spec, Ctx, CtxV, EnvV, SelfCtx, StV, Translator,
};
use crate::codegen::yul::immutable_local;
use crate::names::{sorted, NameMap, NameSet};
use crate::semantic::WorldV;
use crate::text::{
    cat2, cat3, cat5, cat7, cat8, has_text, indent, indent_spec, join, join_spec, lines,
    lines_spec, opt_pos, same, texts,
};
use vstd::prelude::*;

verus! {

broadcast use crate::ast::group_views;

/// What a build knows of the program.
pub struct BuildV {
    pub w: WorldV,
    pub lay: LayV,
    /// The declarations of the program.
    pub ds: Seq<DeclV>,
    /// Whether some statement can hand control to another contract.
    pub ext: bool,
    /// Whether a failing check says why it fails.
    pub rich: bool,
}

/// Whether the lock is held while a function runs: only where it hands control
/// away and changes something that a second entry could read.
pub open spec fn guarded(
    ext: bool,
    calls: Map<Seq<char>, bool>,
    muts: Map<Seq<char>, Mut>,
    f: FnV,
) -> bool {
    ext && known_call(calls, f.name) && !is_unsafe_spec(f) && !read_only(f, muts)
}

fn is_guarded(ext: bool, calls: &NameMap<bool>, muts: &NameMap<Mut>, f: &FnDecl) -> (r: bool)
    ensures
        r == guarded(ext, calls@, muts@, f@),
{
    ext && makes_external_call(f, calls) && !is_unsafe(f) && !is_read_only(f, muts)
}

/// Where the first function of the given kind stands, from position `i` on.
pub open spec fn special_from(ms: Seq<FnV>, receive: bool, i: int) -> Option<int>
    decreases ms.len() - i,
{
    if i >= ms.len() {
        None
    } else if receive && is_receive_spec(ms[i]) || !receive && is_fallback_spec(ms[i]) {
        Some(i)
    } else {
        special_from(ms, receive, i + 1)
    }
}

fn find_special(ms: &Vec<FnDecl>, receive: bool) -> (r: Option<usize>)
    ensures
        opt_pos(r) == special_from(methods_v(ms@), receive, 0),
        r matches Some(i) ==> i < ms@.len(),
{
    let mut i: usize = 0;
    while i < ms.len()
        invariant
            i <= ms@.len(),
            special_from(methods_v(ms@), receive, 0) == special_from(
                methods_v(ms@),
                receive,
                i as int,
            ),
        decreases ms@.len() - i,
    {
        assert(methods_v(ms@)[i as int] == ms@[i as int]@);
        let hit = if receive {
            is_receive(&ms[i])
        } else {
            is_fallback(&ms[i])
        };
        if hit {
            return Some(i);
        }
        i += 1;
    }
    None
}

/// Whether some entry point may be sent ether.
pub open spec fn any_payable(ms: Seq<FnV>) -> bool {
    exists|i: int| 0 <= i < ms.len() && #[trigger] payable_entry(ms[i])
}

pub open spec fn payable_entry(f: FnV) -> bool {
    exported(f) && is_payable_spec(f)
}

fn has_payable(ms: &Vec<FnDecl>) -> (r: bool)
    ensures
        r == any_payable(methods_v(ms@)),
{
    let mut i: usize = 0;
    while i < ms.len()
        invariant
            i <= ms@.len(),
            forall|k: int| 0 <= k < i ==> !payable_entry(#[trigger] methods_v(ms@)[k]),
        decreases ms@.len() - i,
    {
        assert(methods_v(ms@)[i as int] == ms@[i as int]@);
        if is_exported(&ms[i]) && is_payable(&ms[i]) {
            assert(payable_entry(methods_v(ms@)[i as int]));
            return true;
        }
        i += 1;
    }
    false
}

/// A call of the function at position `at` that takes no arguments, or nothing.
pub open spec fn bare_at(
    ext: bool,
    calls: Map<Seq<char>, bool>,
    muts: Map<Seq<char>, Mut>,
    ms: Seq<FnV>,
    at: int,
) -> Seq<char> {
    let f = ms[at];
    bare_call_spec(
        guarded(ext, calls, muts, f),
        any_payable(ms) && !is_payable_spec(f),
        f.name,
    )
}

/// What refuses every call with ether, where no function takes any.
pub open spec fn value_test(ms: Seq<FnV>) -> Seq<char> {
    if any_payable(ms) {
        Seq::empty()
    } else {
        "      if callvalue() { revert(0, 0) }\n"@
    }
}

/// How a call is met before its selector is read.
pub open spec fn preamble(
    ext: bool,
    calls: Map<Seq<char>, bool>,
    muts: Map<Seq<char>, Mut>,
    ms: Seq<FnV>,
) -> Seq<char> {
    let receive = special_from(ms, true, 0);
    let fallback = special_from(ms, false, 0);
    let empty = match receive {
        Some(i) => "      if iszero(calldatasize()) {\n"@ + bare_at(ext, calls, muts, ms, i)
            + "      }\n"@,
        None => match fallback {
            Some(i) => "      if iszero(calldatasize()) {\n"@ + bare_at(ext, calls, muts, ms, i)
                + "      }\n"@,
            None => Seq::empty(),
        },
    };
    let short = match fallback {
        Some(i) => "      if lt(calldatasize(), 4) {\n"@ + bare_at(ext, calls, muts, ms, i)
            + "      }\n"@,
        None => "      if lt(calldatasize(), 4) { revert(0, 0) }\n"@,
    };
    value_test(ms) + empty + short + "      let selector := shr(224, calldataload(0))\n"@
        + "      switch selector\n"@
}

/// What runs where no selector fits.
pub open spec fn default_case(
    ext: bool,
    calls: Map<Seq<char>, bool>,
    muts: Map<Seq<char>, Mut>,
    ms: Seq<FnV>,
) -> Seq<char> {
    match special_from(ms, false, 0) {
        Some(i) => "      default {\n"@ + bare_at(ext, calls, muts, ms, i) + "      }\n\n"@,
        None => "      default { revert(0, 0) }\n\n"@,
    }
}

fn bare_text(
    ext: bool,
    calls: &NameMap<bool>,
    muts: &NameMap<Mut>,
    ms: &Vec<FnDecl>,
    at: usize,
) -> (r: String)
    requires
        at < ms@.len(),
    ensures
        r@ == bare_at(ext, calls@, muts@, methods_v(ms@), at as int),
{
    let f = &ms[at];
    assert(methods_v(ms@)[at as int] == f@);
    bare_call(
        is_guarded(ext, calls, muts, f),
        has_payable(ms) && !is_payable(f),
        f.name.as_str(),
    )
}

pub(crate) fn preamble_text(
    ext: bool,
    calls: &NameMap<bool>,
    muts: &NameMap<Mut>,
    ms: &Vec<FnDecl>,
) -> (r: String)
    ensures
        r@ == preamble(ext, calls@, muts@, methods_v(ms@)),
{
    let receive = find_special(ms, true);
    let fallback = find_special(ms, false);
    let empty = match receive {
        Some(i) => cat3(
            "      if iszero(calldatasize()) {\n",
            bare_text(ext, calls, muts, ms, i).as_str(),
            "      }\n",
        ),
        None => match fallback {
            Some(i) => cat3(
                "      if iszero(calldatasize()) {\n",
                bare_text(ext, calls, muts, ms, i).as_str(),
                "      }\n",
            ),
            None => String::new(),
        },
    };
    let short = match fallback {
        Some(i) => cat3(
            "      if lt(calldatasize(), 4) {\n",
            bare_text(ext, calls, muts, ms, i).as_str(),
            "      }\n",
        ),
        None => String::from_str("      if lt(calldatasize(), 4) { revert(0, 0) }\n"),
    };
    let value = if has_payable(ms) {
        String::new()
    } else {
        String::from_str("      if callvalue() { revert(0, 0) }\n")
    };
    cat5(
        value.as_str(),
        empty.as_str(),
        short.as_str(),
        "      let selector := shr(224, calldataload(0))\n",
        "      switch selector\n",
    )
}

pub(crate) fn default_text(
    ext: bool,
    calls: &NameMap<bool>,
    muts: &NameMap<Mut>,
    ms: &Vec<FnDecl>,
) -> (r: String)
    ensures
        r@ == default_case(ext, calls@, muts@, methods_v(ms@)),
{
    match find_special(ms, false) {
        Some(i) => cat3(
            "      default {\n",
            bare_text(ext, calls, muts, ms, i).as_str(),
            "      }\n\n",
        ),
        None => String::from_str("      default { revert(0, 0) }\n\n"),
    }
}

/// The cases of the first `n` functions that are reached by their selectors.
pub open spec fn cases_spec(
    g: EnvV,
    st: StV,
    ext: bool,
    calls: Map<Seq<char>, bool>,
    muts: Map<Seq<char>, Mut>,
    ms: Seq<FnV>,
    n: nat,
) -> (StV, Seq<char>)
    decreases n,
{
    if n == 0 {
        (st, Seq::empty())
    } else {
        let (st, out) = cases_spec(g, st, ext, calls, muts, ms, (n - 1) as nat);
        let f = ms[n - 1];
        if is_selector_entry_spec(f) {
            let (st, one) = dispatch_case_spec(
                g,
                st,
                f,
                guarded(ext, calls, muts, f),
                any_payable(ms) && !is_payable_spec(f),
            );
            (st, out + one)
        } else {
            (st, out)
        }
    }
}

/// The locals of a function are its parameters.
pub open spec fn declare_all(cx: CtxV, ps: Seq<ParamV>, n: nat) -> CtxV
    decreases n,
{
    if n == 0 {
        cx
    } else {
        declare_spec(declare_all(cx, ps, (n - 1) as nat), ps[n - 1].name, ps[n - 1].type_def)
    }
}

pub(crate) fn declare_params(cx: &mut Ctx, ps: &Vec<Parameter>)
    ensures
        final(cx)@ == declare_all(old(cx)@, params_v(ps@), ps@.len()),
{
    let ghost c0 = cx@;
    let mut i: usize = 0;
    while i < ps.len()
        invariant
            i <= ps@.len(),
            cx@ == declare_all(c0, params_v(ps@), i as nat),
        decreases ps@.len() - i,
    {
        assert(params_v(ps@)[i as int] == ps@[i as int]@);
        cx.declare(ps[i].name.as_str(), &ps[i].type_def);
        i += 1;
    }
}

/// A `once` function sets its flag, or reverts where it is set.
pub open spec fn once_check(f: FnV) -> Seq<char> {
    if f.modifiers.contains("once"@) {
        "          if sload("@ + once_flag_slot_spec(f.name) + ") { revert(0, 0) }\n          sstore("@
            + once_flag_slot_spec(f.name) + ", 1)\n"@
    } else {
        Seq::empty()
    }
}

/// The function that the dispatcher runs: a `return` in it ends the call.
pub open spec fn impl_fn(g: EnvV, st: StV, class: Seq<char>, f: FnV, locked: bool) -> (
    StV,
    Seq<char>,
) {
    let lock = if locked {
        Some(reentrancy_lock_slot_spec())
    } else {
        None
    };
    let cx0 = CtxV {
        self_ctx: Some((class, true)),
        return_type: f.return_type,
        ..entry_spec(lock)
    };
    let cx = declare_all(cx0, f.parameters, f.parameters.len());
    let (st, _, body) = inner_spec(g, st, cx, "          "@, f.body, f.body.len());
    (
        st,
        "      function "@ + f.name + "_impl("@ + join_spec(param_names(f.parameters), ", "@)
            + ") {\n"@ + once_check(f) + body + "      }\n\n"@,
    )
}

/// The functions of the contract that the dispatcher runs.
pub open spec fn impls_spec(
    g: EnvV,
    st: StV,
    ext: bool,
    calls: Map<Seq<char>, bool>,
    muts: Map<Seq<char>, Mut>,
    class: Seq<char>,
    ms: Seq<FnV>,
    n: nat,
) -> (StV, Seq<char>)
    decreases n,
{
    if n == 0 {
        (st, Seq::empty())
    } else {
        let (st, out) = impls_spec(g, st, ext, calls, muts, class, ms, (n - 1) as nat);
        let f = ms[n - 1];
        if f.name == "new"@ {
            (st, out)
        } else {
            let (st, one) = impl_fn(
                g,
                st,
                class,
                f,
                guarded(ext, calls, muts, f) && exported(f),
            );
            (st, out + one)
        }
    }
}

/// What a method returns in Yul: its value, and the const fields that a
/// constructor sets.
pub open spec fn method_rets(g: EnvV, class: Seq<char>, ctor: bool, f: FnV) -> Seq<Seq<char>> {
    (if f.return_type is Some {
        seq!["ret"@]
    } else {
        Seq::empty()
    }) + (if ctor {
        patched_of(g.w, class).map_values(|x: Seq<char>| "_imm_"@ + x)
    } else {
        Seq::empty()
    })
}

/// A method as an internal function: a value in memory is handed to it as `self`.
pub open spec fn method_fn(
    g: EnvV,
    st: StV,
    class: Seq<char>,
    suffix: Seq<char>,
    is_global: bool,
    f: FnV,
) -> (StV, Seq<char>) {
    let ctor = is_global && f.name == "new"@;
    let cx0 = CtxV {
        return_type: f.return_type,
        in_constructor: ctor,
        ..helper_spec(Some((class, is_global)))
    };
    let cx = declare_all(cx0, f.parameters, f.parameters.len());
    let params = if !is_global && f.has_self {
        seq!["self"@] + param_names(f.parameters)
    } else {
        param_names(f.parameters)
    };
    let rets = method_rets(g, class, ctor, f);
    let (st, _, body) = inner_spec(g, st, cx, "          "@, f.body, f.body.len());
    (
        st,
        "      function "@ + suffixed_spec(class, suffix, f.name) + "("@ + join_spec(params, ", "@)
            + (if rets.len() == 0 {
            ") {\n"@
        } else {
            ") -> "@ + join_spec(rets, ", "@) + " {\n"@
        }) + body + "      }\n\n"@,
    )
}

pub open spec fn methods_spec(
    g: EnvV,
    st: StV,
    class: Seq<char>,
    suffix: Seq<char>,
    is_global: bool,
    ms: Seq<FnV>,
    n: nat,
) -> (StV, Seq<char>)
    decreases n,
{
    if n == 0 {
        (st, Seq::empty())
    } else {
        let (st, out) = methods_spec(g, st, class, suffix, is_global, ms, (n - 1) as nat);
        let (st, one) = method_fn(g, st, class, suffix, is_global, ms[n - 1]);
        (st, out + one)
    }
}

/// The methods of a generic class, once for each of the first `n` generic types
/// that the program uses.
pub open spec fn instances_spec(
    g: EnvV,
    st: StV,
    class: Seq<char>,
    c: ClassV,
    insts: Seq<TypeV>,
    n: nat,
) -> (StV, Seq<char>)
    decreases n,
{
    if n == 0 {
        (st, Seq::empty())
    } else {
        let (st, out) = instances_spec(g, st, class, c, insts, (n - 1) as nat);
        match insts[n - 1] {
            TypeV::Generic { name, args } => if name == class {
                let ms = specialized_spec(c, args);
                let (st, one) = methods_spec(
                    g,
                    st,
                    class,
                    generic_suffix_spec(args),
                    c.is_global,
                    ms,
                    ms.len(),
                );
                (st, out + one)
            } else {
                (st, out)
            },
            _ => (st, out),
        }
    }
}

/// The functions of one class.
pub open spec fn class_fns(g: EnvV, st: StV, name: Seq<char>, c: ClassV, insts: Seq<TypeV>) -> (
    StV,
    Seq<char>,
) {
    let (st, out) = if c.generic_params.len() == 0 {
        methods_spec(g, st, name, ""@, c.is_global, c.methods, c.methods.len())
    } else {
        instances_spec(g, st, name, c, insts, insts.len())
    };
    if c.parents.contains("Serializable"@) {
        let st = require_bytes_copy_spec(g, st);
        (
            st,
            out + serialize_src_spec(
                name,
                size_spec(g.w, g.lay.sizes, TypeV::Primitive(name)),
            ),
        )
    } else {
        (st, out)
    }
}

/// Whether the functions of a class stand in the object of a contract.
pub open spec fn has_fns(w: WorldV, contract: Seq<char>, name: Seq<char>) -> bool {
    w.classes.contains_key(name) && !w.interfaces.contains(name) && name != "Message"@ && name
        != "Block"@ && (w.classes[name].is_global ==> name == contract)
}

/// The functions of the first `n` classes, in the order in which they were
/// registered; `own` is the contract.
pub open spec fn classes_spec(
    g: EnvV,
    st: StV,
    own: ClassV,
    insts: Seq<TypeV>,
    n: nat,
) -> (StV, Seq<char>)
    decreases n,
{
    if n == 0 {
        (st, Seq::empty())
    } else {
        let (st, out) = classes_spec(g, st, own, insts, (n - 1) as nat);
        let name = g.w.class_order[n - 1];
        if has_fns(g.w, own.name, name) {
            let c = if name == own.name {
                own
            } else {
                g.w.classes[name]
            };
            let (st, one) = class_fns(g, st, name, c, insts);
            (st, out + one)
        } else {
            (st, out)
        }
    }
}

/// Texts, each line of them set in, one after the other.
pub open spec fn set_in(parts: Seq<Seq<char>>, n: nat) -> Seq<char>
    decreases n,
{
    if n == 0 {
        Seq::empty()
    } else {
        set_in(parts, (n - 1) as nat) + indent_spec("      "@, parts[n - 1])
    }
}

/// The lines of an object, set in where they are not empty.
pub open spec fn nest_lines(ls: Seq<Seq<char>>, n: nat) -> Seq<char>
    decreases n,
{
    if n == 0 {
        Seq::empty()
    } else {
        nest_lines(ls, (n - 1) as nat) + (if ls[n - 1].len() == 0 {
            "\n"@
        } else {
            "    "@ + ls[n - 1] + "\n"@
        })
    }
}

pub open spec fn nest_spec(s: Seq<char>) -> Seq<char> {
    nest_lines(lines_spec(s), lines_spec(s).len())
}

pub(crate) fn nest(s: &str) -> (r: String)
    ensures
        r@ == nest_spec(s@),
{
    let ls = lines(s);
    let mut out = String::new();
    let mut i: usize = 0;
    while i < ls.len()
        invariant
            i <= ls@.len(),
            out@ == nest_lines(texts(ls@), i as nat),
        decreases ls@.len() - i,
    {
        if ls[i].as_str().unicode_len() == 0 {
            out.append("\n");
        } else {
            out.append(cat3("    ", ls[i].as_str(), "\n").as_str());
        }
        i += 1;
    }
    out
}

pub(crate) fn set_in_text(parts: &Vec<String>) -> (r: String)
    ensures
        r@ == set_in(texts(parts@), parts@.len()),
{
    let mut out = String::new();
    let mut i: usize = 0;
    while i < parts.len()
        invariant
            i <= parts@.len(),
            out@ == set_in(texts(parts@), i as nat),
        decreases parts@.len() - i,
    {
        out.append(indent("      ", parts[i].as_str()).as_str());
        i += 1;
    }
    out
}

impl<'a> Translator<'a> {
    pub(crate) fn cases_text(
        &mut self,
        ext: bool,
        calls: &NameMap<bool>,
        muts: &NameMap<Mut>,
        ms: &Vec<FnDecl>,
    ) -> (r: String)
        ensures
            final(self).env() == old(self).env(),
            cases_spec(
                old(self).env(),
                old(self).st(),
                ext,
                calls@,
                muts@,
                methods_v(ms@),
                ms@.len(),
            ) == (final(self).st(), r@),
    {
        let ghost g = self.env();
        let ghost st0 = self.st();
        let payable = has_payable(ms);
        let mut out = String::new();
        let mut i: usize = 0;
        while i < ms.len()
            invariant
                i <= ms@.len(),
                self.env() == g,
                payable == any_payable(methods_v(ms@)),
                cases_spec(g, st0, ext, calls@, muts@, methods_v(ms@), i as nat) == (
                    self.st(),
                    out@,
                ),
            decreases ms@.len() - i,
        {
            let f = &ms[i];
            assert(methods_v(ms@)[i as int] == f@);
            if is_selector_entry(f) {
                let one = self.dispatch_case(
                    f,
                    is_guarded(ext, calls, muts, f),
                    payable && !is_payable(f),
                );
                out.append(one.as_str());
            }
            i += 1;
        }
        out
    }

    fn impl_text(&mut self, class: &str, f: &FnDecl, locked: bool) -> (r: String)
        ensures
            final(self).env() == old(self).env(),
            impl_fn(old(self).env(), old(self).st(), class@, f@, locked) == (
                final(self).st(),
                r@,
            ),
    {
        let this = SelfCtx { class_name: String::from_str(class), is_global: true };
        let lock = if locked {
            Some(reentrancy_lock_slot())
        } else {
            None
        };
        let mut cx = Ctx::entry(lock).with_self(Some(&this)).with_return_type(
            clone_opt_type(&f.return_type),
        );
        declare_params(&mut cx, &f.parameters);
        assert(body_v(f.body@).len() == f.body@.len());
        let body = self.translate_inner(&mut cx, "          ", &f.body);
        let once = if has_text(&f.modifiers, "once") {
            let slot = once_flag_slot(f.name.as_str());
            cat5(
                "          if sload(",
                slot.as_str(),
                ") { revert(0, 0) }\n          sstore(",
                slot.as_str(),
                ", 1)\n",
            )
        } else {
            String::new()
        };
        cat8(
            "      function ",
            f.name.as_str(),
            "_impl(",
            join(&names_of(&f.parameters), ", ").as_str(),
            ") {\n",
            once.as_str(),
            body.as_str(),
            "      }\n\n",
        )
    }

    pub(crate) fn impls_text(
        &mut self,
        ext: bool,
        calls: &NameMap<bool>,
        muts: &NameMap<Mut>,
        class: &str,
        ms: &Vec<FnDecl>,
    ) -> (r: String)
        ensures
            final(self).env() == old(self).env(),
            impls_spec(
                old(self).env(),
                old(self).st(),
                ext,
                calls@,
                muts@,
                class@,
                methods_v(ms@),
                ms@.len(),
            ) == (final(self).st(), r@),
    {
        let ghost g = self.env();
        let ghost st0 = self.st();
        let mut out = String::new();
        let mut i: usize = 0;
        while i < ms.len()
            invariant
                i <= ms@.len(),
                self.env() == g,
                impls_spec(g, st0, ext, calls@, muts@, class@, methods_v(ms@), i as nat) == (
                    self.st(),
                    out@,
                ),
            decreases ms@.len() - i,
        {
            let f = &ms[i];
            assert(methods_v(ms@)[i as int] == f@);
            if !same(f.name.as_str(), "new") {
                let one = self.impl_text(
                    class,
                    f,
                    is_guarded(ext, calls, muts, f) && is_exported(f),
                );
                out.append(one.as_str());
            }
            i += 1;
        }
        out
    }

    fn rets_of(&self, class: &str, ctor: bool, f: &FnDecl) -> (r: Vec<String>)
        ensures
            texts(r@) == method_rets(self.env(), class@, ctor, f@),
    {
        let mut out: Vec<String> = Vec::new();
        if f.return_type.is_some() {
            out.push(String::from_str("ret"));
        }
        let ghost head = texts(out@);
        assert(head =~= (if f@.return_type is Some {
            seq!["ret"@]
        } else {
            Seq::empty()
        }));
        if ctor {
            let fs = self.layout_engine.patched_immutables(class);
            let ghost tail = texts(fs@).map_values(|x: Seq<char>| "_imm_"@ + x);
            let mut i: usize = 0;
            assert(texts(out@) =~= head + tail.take(0));
            while i < fs.len()
                invariant
                    i <= fs@.len(),
                    tail == texts(fs@).map_values(|x: Seq<char>| "_imm_"@ + x),
                    texts(out@) == head + tail.take(i as int),
                decreases fs@.len() - i,
            {
                let ghost before = texts(out@);
                let x = immutable_local(fs[i].as_str());
                let ghost xv = x@;
                out.push(x);
                assert(texts(out@) =~= before.push(xv));
                assert(tail.take(i as int).push(tail[i as int]) =~= tail.take(i + 1));
                assert(texts(out@) =~= head + tail.take(i + 1));
                i += 1;
            }
            assert(tail.take(fs@.len() as int) =~= tail);
        } else {
            assert(head + Seq::<Seq<char>>::empty() =~= head);
        }
        out
    }

    fn method_text(
        &mut self,
        class: &str,
        suffix: &str,
        is_global: bool,
        f: &FnDecl,
    ) -> (r: String)
        ensures
            final(self).env() == old(self).env(),
            method_fn(old(self).env(), old(self).st(), class@, suffix@, is_global, f@) == (
                final(self).st(),
                r@,
            ),
    {
        let this = SelfCtx { class_name: String::from_str(class), is_global };
        let ctor = is_global && same(f.name.as_str(), "new");
        let mut cx = Ctx::helper(Some(&this)).with_return_type(
            clone_opt_type(&f.return_type),
        ).in_constructor(ctor);
        declare_params(&mut cx, &f.parameters);
        let names = names_of(&f.parameters);
        let params = if !is_global && f.has_self {
            prepend(String::from_str("self"), names)
        } else {
            names
        };
        let rets = self.rets_of(class, ctor, f);
        assert(body_v(f.body@).len() == f.body@.len());
        let body = self.translate_inner(&mut cx, "          ", &f.body);
        let results = if rets.len() == 0 {
            String::from_str(") {\n")
        } else {
            cat3(") -> ", join(&rets, ", ").as_str(), " {\n")
        };
        cat7(
            "      function ",
            suffixed(class, suffix, f.name.as_str()).as_str(),
            "(",
            join(&params, ", ").as_str(),
            results.as_str(),
            body.as_str(),
            "      }\n\n",
        )
    }

    /// The methods of a class as internal functions.
    pub(crate) fn compile_class_methods(
        &mut self,
        class: &str,
        suffix: &str,
        is_global: bool,
        ms: &Vec<FnDecl>,
    ) -> (r: String)
        ensures
            final(self).env() == old(self).env(),
            methods_spec(
                old(self).env(),
                old(self).st(),
                class@,
                suffix@,
                is_global,
                methods_v(ms@),
                ms@.len(),
            ) == (final(self).st(), r@),
    {
        let ghost g = self.env();
        let ghost st0 = self.st();
        let mut out = String::new();
        let mut i: usize = 0;
        while i < ms.len()
            invariant
                i <= ms@.len(),
                self.env() == g,
                methods_spec(g, st0, class@, suffix@, is_global, methods_v(ms@), i as nat) == (
                    self.st(),
                    out@,
                ),
            decreases ms@.len() - i,
        {
            assert(methods_v(ms@)[i as int] == ms@[i as int]@);
            let one = self.method_text(class, suffix, is_global, &ms[i]);
            out.append(one.as_str());
            i += 1;
        }
        out
    }

    fn instances_text(&mut self, class: &str, c: &ClassDecl, insts: &Vec<Type>) -> (r: String)
        ensures
            final(self).env() == old(self).env(),
            instances_spec(
                old(self).env(),
                old(self).st(),
                class@,
                c@,
                types_v(insts@),
                insts@.len(),
            ) == (final(self).st(), r@),
    {
        let ghost g = self.env();
        let ghost st0 = self.st();
        let mut out = String::new();
        let mut i: usize = 0;
        while i < insts.len()
            invariant
                i <= insts@.len(),
                self.env() == g,
                instances_spec(g, st0, class@, c@, types_v(insts@), i as nat) == (
                    self.st(),
                    out@,
                ),
            decreases insts@.len() - i,
        {
            let t = &insts[i];
            proof {
                assert(types_v(insts@)[i as int] == t@);
                reveal_with_fuel(Type::view, 2);
            }
            match t {
                Type::Generic { name, args } => {
                    if same(name.as_str(), class) {
                        let ms = specialized(c, args);
                        assert(methods_v(ms@).len() == ms@.len());
                        let one = self.compile_class_methods(
                            class,
                            generic_suffix(args).as_str(),
                            c.is_global,
                            &ms,
                        );
                        out.append(one.as_str());
                    }
                },
                _ => {},
            }
            i += 1;
        }
        out
    }

    fn class_text(&mut self, name: &str, c: &ClassDecl, insts: &Vec<Type>) -> (r: String)
        ensures
            final(self).env() == old(self).env(),
            class_fns(old(self).env(), old(self).st(), name@, c@, types_v(insts@)) == (
                final(self).st(),
                r@,
            ),
    {
        let out = if c.generic_params.len() == 0 {
            self.compile_class_methods(name, "", c.is_global, &c.methods)
        } else {
            self.instances_text(name, c, insts)
        };
        if has_text(&c.parents, "Serializable") {
            self.require_bytes_copy();
            let size = self.layout_engine.size_of(&Type::Primitive(String::from_str(name)));
            return cat2(out.as_str(), serialize_src(name, size).as_str());
        }
        out
    }

    pub(crate) fn classes_text(&mut self, own: &ClassDecl, insts: &Vec<Type>) -> (r: String)
        ensures
            final(self).env() == old(self).env(),
            classes_spec(
                old(self).env(),
                old(self).st(),
                own@,
                types_v(insts@),
                old(self).env().w.class_order.len(),
            ) == (final(self).st(), r@),
    {
        let ghost g = self.env();
        let ghost st0 = self.st();
        let tc = self.layout_engine.type_checker;
        let mut out = String::new();
        let mut i: usize = 0;
        while i < tc.class_order.len()
            invariant
                i <= tc.class_order@.len(),
                self.env() == g,
                g.w == tc.world(),
                classes_spec(g, st0, own@, types_v(insts@), i as nat) == (
                    self.st(),
                    out@,
                ),
            decreases tc.class_order@.len() - i,
        {
            let name = tc.class_order[i].as_str();
            assert(g.w.class_order[i as int] == name@);
            match tc.loaded_classes.get(name) {
                Some(c) => {
                    assert(g.w.classes[name@] == c@);
                    if !tc.loaded_interfaces.contains(name) && !same(name, "Message") && !same(
                        name,
                        "Block",
                    ) && (!c.is_global || same(name, own.name.as_str())) {
                        let one = if same(name, own.name.as_str()) {
                            self.class_text(name, own, insts)
                        } else {
                            self.class_text(name, c, insts)
                        };
                        out.append(one.as_str());
                    }
                },
                None => {},
            }
            i += 1;
        }
        out
    }
}

/// The texts of the helpers, in the order of their names.
pub open spec fn thunk_texts(st: StV) -> Seq<Seq<char>> {
    sorted(st.thunks.dom()).map_values(|k: Seq<char>| st.thunks[k])
}

/// The recorded events as entries of the ABI, in the order of their names.
pub open spec fn event_entries(st: StV) -> Seq<EntryV> {
    sorted(st.events.dom()).map_values(|k: Seq<char>| event_entry_spec(k, st.events[k].inputs))
}

/// The names of functions.
pub open spec fn fn_names(ms: Seq<FnV>, n: nat) -> Set<Seq<char>>
    decreases n,
{
    if n == 0 {
        Set::empty()
    } else {
        fn_names(ms, (n - 1) as nat).insert(ms[n - 1].name)
    }
}

pub(crate) fn names_set(ms: &Vec<FnDecl>) -> (r: NameSet)
    ensures
        r@ == fn_names(methods_v(ms@), ms@.len()),
{
    let mut out = NameSet::new();
    let mut i: usize = 0;
    while i < ms.len()
        invariant
            i <= ms@.len(),
            out@ == fn_names(methods_v(ms@), i as nat),
        decreases ms@.len() - i,
    {
        assert(methods_v(ms@)[i as int] == ms@[i as int]@);
        out.insert(ms[i].name.clone());
        i += 1;
    }
    out
}

/// What the translator of a contract knows.
pub open spec fn contract_env(b: BuildV, c: ClassV) -> EnvV {
    EnvV {
        w: b.w,
        aw: b.w,
        lay: b.lay,
        top: fn_names(c.methods, c.methods.len()),
        free: Set::empty(),
        rich: b.rich,
    }
}

/// The methods among which the constructor is looked for.
pub open spec fn loaded_methods(b: BuildV, c: ClassV) -> Seq<FnV> {
    if b.w.classes.contains_key(c.name) {
        b.w.classes[c.name].methods
    } else {
        c.methods
    }
}

/// Runs the constructor, where there is one.
pub open spec fn constructor_part(b: BuildV, g: EnvV, st: StV, c: ClassV) -> (StV, Seq<char>) {
    match method_named(loaded_methods(b, c), "new"@) {
        Some(f) => constructor_call_spec(g, st, c.name, f.parameters),
        None => (st, Seq::empty()),
    }
}

/// The contract with its `try` blocks moved into functions of their own; with `all`,
/// those functions too.
pub open spec fn with_frames(g: EnvV, c: ClassV, all: bool) -> ClassV {
    let (fr, ms) = scoped_fns(g, c.name, c.methods, c.methods.len());
    ClassV {
        methods: if all {
            ms + fr.thunks
        } else {
            ms
        },
        ..c
    }
}

/// What stands in the way of its `try` blocks.
pub open spec fn frame_errors(g: EnvV, c: ClassV) -> Seq<Seq<char>> {
    scoped_fns(g, c.name, c.methods, c.methods.len()).0.errors
}

/// Whether it has any.
pub open spec fn has_frames(g: EnvV, c: ClassV) -> bool {
    scoped_fns(g, c.name, c.methods, c.methods.len()).0.thunks.len() > 0
}

/// The functions that both the deployment code and the contract itself hold. `own` is
/// the contract, `full` the same with the bodies of its `try` blocks.
pub open spec fn shared_fns(
    b: BuildV,
    g: EnvV,
    st: StV,
    own: ClassV,
    full: ClassV,
    framed: bool,
    calls: Map<Seq<char>, bool>,
    muts: Map<Seq<char>, Mut>,
) -> (StV, Seq<char>) {
    let (st, impls) = impls_spec(
        g,
        st,
        b.ext,
        calls,
        muts,
        full.name,
        full.methods,
        full.methods.len(),
    );
    let insts = instantiations(b.w, b.ds);
    let (st, classes) = classes_spec(g, st, own, insts, b.w.class_order.len());
    let thunks = thunk_texts(st);
    (
        StV { thunks: Map::empty(), ..st },
        impls + context_fns_spec(framed) + classes + set_in(thunks, thunks.len())
            + memory_fns_spec(),
    )
}

/// The object of a contract, given the objects of those that it deploys; its
/// errors where something in it has no translation.
pub open spec fn own_object(b: BuildV, c: ClassV, nested: Seq<char>) -> Result<
    (Seq<char>, Seq<EntryV>),
    Seq<char>,
> {
    let g = contract_env(b, c);
    let own = with_frames(g, c, false);
    let full = with_frames(g, c, true);
    let muts = effects(b.w, full);
    let calls = external_calls(b.w, full);
    let (st, ctor) = constructor_part(b, g, start_spec(), c);
    let (st, cases) = cases_spec(g, st, b.ext, calls, muts, full.methods, full.methods.len());
    let (st, shared) = shared_fns(b, g, st, own, full, has_frames(g, c), calls, muts);
    let errors = frame_errors(g, c) + st.errors;
    if errors.len() > 0 {
        Err(join_spec(errors, "\n"@))
    } else {
        Ok(
            (
                "object \""@ + c.name + "\" {\n  code {\n    // --- Deployment Code ---\n"@ + ctor
                    + shared + deploy_tail_spec(g, c.name) + nested + "  object \""@ + c.name
                    + "_runtime\" {\n    code {\n      // --- Function Dispatcher ---\n"@ + preamble(
                    b.ext,
                    calls,
                    muts,
                    full.methods,
                ) + cases + default_case(b.ext, calls, muts, full.methods) + shared + "    }\n"@
                    + nested + "  }\n}\n"@,
                abi_spec(b.w, b.ds, full, muts) + event_entries(st),
            ),
        )
    }
}

/// Why a contract cannot be built: it would hold its own code.
pub open spec fn cycle_error(stack: Seq<Seq<char>>) -> Seq<char> {
    "Deployment cycle: "@ + join_spec(stack, " -> "@)
        + ". A contract's creation code is embedded in whatever deploys it, so this would be infinitely large. Deploy one of them from outside, and pass its address in."@
}

/// The object of a contract within at most `d` further levels; `stack` holds the
/// contracts around it, from the outermost on.
pub open spec fn object_spec(b: BuildV, c: ClassV, stack: Seq<Seq<char>>, d: nat) -> Result<
    (Seq<char>, Seq<EntryV>),
    Seq<char>,
>
    decreases d, 0nat,
{
    if stack.contains(c.name) || d == 0 {
        Err(cycle_error(stack.push(c.name)))
    } else {
        let names = methods_deploy(b.w, c.methods, c.methods.len());
        match nested_spec(b, names, stack.push(c.name), names.len(), (d - 1) as nat) {
            Ok(nested) => own_object(b, c, nested),
            Err(e) => Err(e),
        }
    }
}

/// The objects of the first `n` of the named contracts.
pub open spec fn nested_spec(
    b: BuildV,
    names: Seq<Seq<char>>,
    stack: Seq<Seq<char>>,
    n: nat,
    d: nat,
) -> Result<Seq<char>, Seq<char>>
    decreases d, n,
{
    if n == 0 || n > names.len() {
        Ok(Seq::empty())
    } else {
        match nested_spec(b, names, stack, (n - 1) as nat, d) {
            Ok(out) => if b.w.classes.contains_key(names[n - 1]) {
                match object_spec(b, b.w.classes[names[n - 1]], stack, d) {
                    Ok(o) => Ok(out + nest_spec(o.0)),
                    Err(e) => Err(e),
                }
            } else {
                Err("new "@ + names[n - 1] + "(...): no such contract"@)
            },
            Err(e) => Err(e),
        }
    }
}

/// How deep contracts can stand inside each other without one standing twice.
pub open spec fn nesting(w: WorldV) -> nat {
    w.classes.dom().len() + 2
}

/// An entry point that can hand control to another contract takes the lock, unless it is
/// `unsafe` or reads only.
pub proof fn law_reentrant_entries_are_guarded(w: WorldV, c: ClassV, i: int)
    requires
        0 <= i < c.methods.len(),
        body_calls(
            w,
            c,
            c.methods[i].body,
            external_calls(w, c),
            c.methods[i].body.len(),
        ),
        !is_unsafe_spec(c.methods[i]),
        !read_only(c.methods[i], effects(w, c)),
    ensures
        guarded(true, external_calls(w, c), effects(w, c), c.methods[i]),
{
    law_calls_cover_bodies(w, c, i);
}

} // verus!
