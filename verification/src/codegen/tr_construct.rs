//! Making things: deploying contracts, constructing values, calling functions
//! that belong to a type.
use crate::ast::{exprs_v, params_v, types_v, Expr, ExprV, ParamV, Parameter, Type, TypeV};
use crate::codegen::{generic_suffix, generic_suffix_spec};
use crate::codegen::abi::{context_type, is_context_param};
use crate::codegen::helpers::{
    gum_bubble_revert_helper_src, gum_bubble_revert_src, gum_create2_address_helper_src,
    gum_create2_address_src, gum_create2_helper_src, gum_create2_src, gum_create_helper_src,
    gum_create_src, gum_str_len_helper_src, gum_str_len_src,
};
use crate::codegen::layout::size_spec;
use crate::codegen::mutability::{contract_name, is_contract_name};
use crate::codegen::tr_blob::blob_spec;
use crate::codegen::tr_expr::{args_spec, prepend, translate_expr_spec};
use crate::codegen::tr_extcall::{numbered, numbered_names};
use crate::codegen::translator::{
    ensure_spec, method_of_spec, param_types, types_of, Ctx, CtxV, EnvV, StV, Translator,
};
use crate::codegen::yul::{bound_spec, numeric_meta, numeric_spec, opt_text, type_bound_literal};
use crate::text::{
    cat2, cat3, cat4, cat5, cat6, cat7, cat9, clone_texts, dec, dec_text, join, join_spec, same,
    texts,
};
use vstd::prelude::*;

verus! {

broadcast use crate::ast::group_views;

/// What is passed to a constructor: the arguments, except those that the callee
/// makes up itself, with their types.
pub open spec fn deploy_args(
    g: EnvV,
    st: StV,
    cx: CtxV,
    args: Seq<ExprV>,
    ps: Seq<TypeV>,
    n: nat,
) -> (StV, (Seq<Seq<char>>, Seq<TypeV>))
    decreases args, n,
{
    if n == 0 || n > args.len() {
        (st, (Seq::empty(), Seq::empty()))
    } else {
        let (st, out) = deploy_args(g, st, cx, args, ps, (n - 1) as nat);
        let t = if n <= ps.len() {
            ps[n - 1]
        } else {
            TypeV::Primitive("u256"@)
        };
        if context_type(t) {
            (st, out)
        } else {
            let (st, one) = translate_expr_spec(g, st, cx, args[n - 1]);
            (st, (out.0.push(one), out.1.push(t)))
        }
    }
}

/// The types that a class's constructor takes.
pub open spec fn ctor_types_spec(g: EnvV, name: Seq<char>) -> Seq<TypeV> {
    match method_of_spec(g, name, "new"@) {
        Some(m) => param_types(m.parameters),
        None => Seq::empty(),
    }
}

impl<'a> Translator<'a> {
    fn ctor_types(&self, name: &str) -> (r: Vec<Type>)
        ensures
            types_v(r@) == ctor_types_spec(self.env(), name@),
    {
        match self.method_of(name, "new") {
            Some(m) => types_of(&m.parameters),
            None => {
                let out: Vec<Type> = Vec::new();
                assert(types_v(out@) =~= Seq::<TypeV>::empty());
                out
            },
        }
    }

    fn translate_deploy_args(&mut self, cx: &Ctx, args: &Vec<Expr>, ps: &Vec<Type>) -> (r: (
        Vec<String>,
        Vec<Type>,
    ))
        ensures
            final(self).env() == old(self).env(),
            deploy_args(
                old(self).env(),
                old(self).st(),
                cx@,
                exprs_v(args@),
                types_v(ps@),
                args@.len(),
            ) == (final(self).st(), (texts(r.0@), types_v(r.1@))),
        decreases args, 0nat,
    {
        let ghost g = self.env();
        let ghost st0 = self.st();
        let ghost av = exprs_v(args@);
        let ghost pv = types_v(ps@);
        let mut out: Vec<String> = Vec::new();
        let mut types: Vec<Type> = Vec::new();
        let mut i: usize = 0;
        assert(texts(out@) =~= Seq::<Seq<char>>::empty());
        assert(types_v(types@) =~= Seq::<TypeV>::empty());
        while i < args.len()
            invariant
                i <= args@.len(),
                g == old(self).env(),
                st0 == old(self).st(),
                self.env() == g,
                av == exprs_v(args@),
                pv == types_v(ps@),
                deploy_args(g, st0, cx@, av, pv, i as nat) == (
                    self.st(),
                    (texts(out@), types_v(types@)),
                ),
            decreases args@.len() - i,
        {
            let ghost before = texts(out@);
            let ghost tb = types_v(types@);
            let x: &Expr = &args[i];
            proof {
                reveal(translate_expr_spec);
                assert(decreases_to!(*args => *x));
                assert(av[i as int] == x@);
            }
            let t = if i < ps.len() {
                ps[i].clone()
            } else {
                Type::Primitive(String::from_str("u256"))
            };
            if !is_context_param(&t) {
                let one = self.translate_expr(cx, x);
                let ghost ov = one@;
                let ghost tv = t@;
                out.push(one);
                types.push(t);
                assert(texts(out@) =~= before.push(ov));
                assert(types_v(types@) =~= tb.push(tv));
            }
            i += 1;
        }
        (out, types)
    }
}

/// Deploys a contract whose creation code is embedded in this one.
#[verifier::opaque]
pub open spec fn translate_contract_deploy_spec(
    g: EnvV,
    st: StV,
    cx: CtxV,
    name: Seq<char>,
    args: Seq<ExprV>,
) -> (StV, Seq<char>)
    decreases args, args.len() + 1,
{
    let (st, pair) = deploy_args(g, st, cx, args, ctor_types_spec(g, name), args.len());
    let exprs = pair.0;
    let types = pair.1;
    let (st, pair) = blob_spec(g, st, types);
    let size_src = pair.0;
    let write_src = pair.1;
    let st = ensure_spec(st, "gum_bubble_revert"@, gum_bubble_revert_src());
    let key = "__deploy_"@ + name;
    let names = join_spec(numbered("a"@, types.len() as usize as nat), ", "@);
    let st = ensure_spec(
        st,
        key,
        "function "@ + key + "("@ + names + ") -> addr {\n    let size := datasize(\""@ + name + "\")\n"@ + size_src + "    let ptr := allocate_memory(add(size, alen))\n    datacopy(ptr, dataoffset(\""@ + name + "\"), size)\n    let blob := add(ptr, size)\n"@ + write_src + "    addr := create(0, ptr, add(size, alen))\n    if iszero(addr) { gum_bubble_revert() }\n}\n"@,
    );
    (st, key + "("@ + join_spec(exprs, ", "@) + ")"@)
}

impl<'a> Translator<'a> {
    pub(crate) fn translate_contract_deploy(
        &mut self,
        cx: &Ctx,
        name: &str,
        args: &Vec<Expr>,
    ) -> (r: String)
        ensures
            final(self).env() == old(self).env(),
            translate_contract_deploy_spec(
                old(self).env(),
                old(self).st(),
                cx@,
                name@,
                exprs_v(args@),
            ) == (final(self).st(), r@),
        decreases args, 1nat,
    {
        proof {
            reveal(translate_contract_deploy_spec);
        }
        let (exprs, types) = self.translate_deploy_args(cx, args, &self.ctor_types(name));
        let (size_src, write_src) = self.abi_arg_blob_src(&types);
        self.ensure_helper("gum_bubble_revert", gum_bubble_revert_helper_src());
        let key = cat2("__deploy_", name);
        let names = join(&numbered_names("a", types.len()), ", ");
        self.ensure_helper(
            key.as_str(),
            cat5(
                cat9(
                    "function ",
                    key.as_str(),
                    "(",
                    names.as_str(),
                    ") -> addr {\n    let size := datasize(\"",
                    name,
                    "\")\n",
                    size_src.as_str(),
                    "    let ptr := allocate_memory(add(size, alen))\n    datacopy(ptr, dataoffset(\"",
                ).as_str(),
                name,
                "\"), size)\n    let blob := add(ptr, size)\n",
                write_src.as_str(),
                "    addr := create(0, ptr, add(size, alen))\n    if iszero(addr) { gum_bubble_revert() }\n}\n",
            ),
        );
        cat4(key.as_str(), "(", join(&exprs, ", ").as_str(), ")")
    }
}

/// The class that a type names, and the suffix of its instance.
pub open spec fn constructed_class_spec(t: TypeV) -> Option<(Seq<char>, Seq<char>)> {
    match t {
        TypeV::Primitive(n) => Some((n, ""@)),
        TypeV::Generic { name, args } => Some((name, generic_suffix_spec(args))),
        _ => None,
    }
}

pub(crate) fn constructed_class(t: &Type) -> (r: Option<(String, String)>)
    ensures
        (match r { Some(x) => Some((x.0@, x.1@)), None => None }) == constructed_class_spec(t@),
{
    match t {
        Type::Primitive(n) => Some((n.clone(), String::from_str(""))),
        Type::Generic { name, args } => Some((name.clone(), generic_suffix(args))),
        _ => None,
    }
}

/// The name of a method of an instance of a class.
pub open spec fn suffixed_spec(
    class_name: Seq<char>,
    suffix: Seq<char>,
    method: Seq<char>,
) -> Seq<char> {
    if suffix == ""@ {
        class_name + "_"@ + method
    } else {
        class_name + "_"@ + suffix + "_"@ + method
    }
}

pub(crate) fn suffixed(class_name: &str, suffix: &str, method: &str) -> (r: String)
    ensures
        r@ == suffixed_spec(class_name@, suffix@, method@),
{
    if same(suffix, "") {
        return cat3(class_name, "_", method);
    }
    cat5(class_name, "_", suffix, "_", method)
}

/// The names of the parameters of a function.
pub open spec fn param_names(ps: Seq<ParamV>) -> Seq<Seq<char>> {
    ps.map_values(|p: ParamV| p.name)
}

pub(crate) fn names_of(ps: &Vec<Parameter>) -> (r: Vec<String>)
    ensures
        texts(r@) == param_names(params_v(ps@)),
{
    let mut out: Vec<String> = Vec::new();
    let mut i: usize = 0;
    while i < ps.len()
        invariant
            i <= ps@.len(),
            out@.len() == i,
            forall|k: int| 0 <= k < i ==> (#[trigger] out@[k])@ == ps@[k].name@,
        decreases ps@.len() - i,
    {
        out.push(ps[i].name.clone());
        i += 1;
    }
    assert(texts(out@) =~= param_names(params_v(ps@)));
    out
}

/// The memory that a value of a constructed type owns.
pub open spec fn own_bytes_spec(g: EnvV, class_name: Seq<char>, t: TypeV) -> usize {
    match t {
        TypeV::Primitive(_) => size_spec(g.w, g.lay.sizes, t),
        _ => size_spec(g.w, g.lay.sizes, TypeV::Primitive(class_name)),
    }
}

impl<'a> Translator<'a> {
    pub(crate) fn own_bytes(&self, class_name: &str, t: &Type) -> (r: usize)
        ensures
            r == own_bytes_spec(self.env(), class_name@, t@),
    {
        match t {
            Type::Primitive(_) => self.layout_engine.size_of(t),
            _ => self.layout_engine.size_of(&Type::Primitive(String::from_str(class_name))),
        }
    }
}

/// The contract that a type is.
pub open spec fn deployed_name_spec(g: EnvV, t: TypeV) -> Option<Seq<char>> {
    match t {
        TypeV::Primitive(name) => {
            if contract_name(g.w, name) {
                Some(name)
            } else {
                None
            }
        },
        _ => None,
    }
}

impl<'a> Translator<'a> {
    pub(crate) fn deployed_name(&self, t: &Type) -> (r: Option<String>)
        ensures
            opt_text(r) == deployed_name_spec(self.env(), t@),
    {
        match t {
            Type::Primitive(name) => {
                if is_contract_name(self.layout_engine.type_checker, name.as_str()) {
                    return Some(name.clone());
                }
                None
            },
            _ => None,
        }
    }
}

/// The parameters of a constructor; an interface has none to call.
pub open spec fn constructor_of_spec(
    g: EnvV,
    class_name: Seq<char>,
    ctor_name: Seq<char>,
) -> Option<Seq<Seq<char>>> {
    if g.w.interfaces.contains(class_name) {
        None
    } else {
        match method_of_spec(g, class_name, ctor_name) {
            Some(m) => Some(param_names(m.parameters)),
            None => None,
        }
    }
}

impl<'a> Translator<'a> {
    pub(crate) fn constructor_of(
        &self,
        class_name: &str,
        ctor_name: &str,
    ) -> (r: Option<Vec<String>>)
        ensures
            (
                match r { Some(x) => Some(texts(x@)), None => None }
            ) == constructor_of_spec(self.env(), class_name@, ctor_name@),
    {
        if self.layout_engine.type_checker.loaded_interfaces.contains(class_name) {
            return None;
        }
        match self.method_of(class_name, ctor_name) {
            Some(m) => Some(names_of(&m.parameters)),
            None => None,
        }
    }
}

/// Allocates a value and runs its constructor.
pub open spec fn constructor_src_spec(
    key: Seq<char>,
    params: Seq<Seq<char>>,
    bytes: usize,
    ctor_fn: Seq<char>,
) -> Seq<char> {
    "function "@ + key + "("@ + join_spec(params, ", "@) + ") -> selfp {\n    selfp := allocate_memory("@ + dec(bytes as nat) + ")\n    "@ + ctor_fn + "("@ + join_spec(
        seq!["selfp"@] + params,
        ", "@,
    ) + ")\n}\n"@
}

pub(crate) fn constructor_src(
    key: &str,
    params: &Vec<String>,
    bytes: usize,
    ctor_fn: &str,
) -> (r: String)
    ensures
        r@ == constructor_src_spec(key@, texts(params@), bytes, ctor_fn@),
{
    cat3(
        cat9(
            "function ",
            key,
            "(",
            join(params, ", ").as_str(),
            ") -> selfp {\n    selfp := allocate_memory(",
            dec_text(bytes).as_str(),
            ")\n    ",
            ctor_fn,
            "(",
        ).as_str(),
        join(&prepend(String::from_str("selfp"), clone_texts(params)), ", ").as_str(),
        ")\n}\n",
    )
}

/// A new value: a contract is deployed; a class with a constructor has it run;
/// anything else is memory alone.
#[verifier::opaque]
pub open spec fn translate_construction_spec(
    g: EnvV,
    st: StV,
    cx: CtxV,
    t: TypeV,
    args: Seq<ExprV>,
    ctor_name: Seq<char>,
) -> (StV, Seq<char>)
    decreases args, args.len() + 2,
{
    match deployed_name_spec(g, t) {
        Some(name) => translate_contract_deploy_spec(g, st, cx, name, args),
        None => {
            match constructed_class_spec(t) {
                Some((class_name, suffix)) => {
                    match constructor_of_spec(g, class_name, ctor_name) {
                        Some(params) => {
                            let (st, exprs) = args_spec(g, st, cx, args, args.len());
                            let key = if suffix == ""@ { ("__ctor_"@ + ctor_name + "_"@ + class_name) } else { (
                                "__ctor_"@
                                + ctor_name
                                + "_"@
                                + class_name
                                + "_"@
                                + suffix
                            ) };
                            let st = ensure_spec(
                                st,
                                key,
                                constructor_src_spec(
                                    key,
                                    params,
                                    own_bytes_spec(g, class_name, t),
                                    suffixed_spec(class_name, suffix, ctor_name),
                                ),
                            );
                            (st, key + "("@ + join_spec(exprs, ", "@) + ")"@)
                        },
                        None => (
                            st,
                            "allocate_memory("@ + dec(size_spec(g.w, g.lay.sizes, t) as nat) + ")"@,
                        ),
                    }
                },
                None => (
                    st,
                    "allocate_memory("@ + dec(size_spec(g.w, g.lay.sizes, t) as nat) + ")"@,
                ),
            }
        },
    }
}

impl<'a> Translator<'a> {
    pub(crate) fn translate_construction(
        &mut self,
        cx: &Ctx,
        t: &Type,
        args: &Vec<Expr>,
        ctor_name: &str,
    ) -> (r: String)
        ensures
            final(self).env() == old(self).env(),
            translate_construction_spec(
                old(self).env(),
                old(self).st(),
                cx@,
                t@,
                exprs_v(args@),
                ctor_name@,
            ) == (final(self).st(), r@),
        decreases args, 2nat,
    {
        proof {
            reveal(translate_construction_spec);
            reveal(translate_contract_deploy_spec);
        }
        match self.deployed_name(t) {
            Some(name) => {
                return self.translate_contract_deploy(cx, name.as_str(), args);
            },
            None => {},
        }
        match constructed_class(t) {
            Some((class_name, suffix)) => {
                match self.constructor_of(class_name.as_str(), ctor_name) {
                    Some(params) => {
                        let exprs = self.translate_args(cx, args);
                        let key = if same(suffix.as_str(), "") { cat4("__ctor_", ctor_name, "_", class_name.as_str()) } else { cat6(
                            "__ctor_",
                            ctor_name,
                            "_",
                            class_name.as_str(),
                            "_",
                            suffix.as_str(),
                        ) };
                        self.ensure_helper(
                            key.as_str(),
                            constructor_src(
                                key.as_str(),
                                &params,
                                self.own_bytes(class_name.as_str(), t),
                                suffixed(class_name.as_str(), suffix.as_str(), ctor_name).as_str(),
                            ),
                        );
                        cat4(key.as_str(), "(", join(&exprs, ", ").as_str(), ")")
                    },
                    None => cat3(
                        "allocate_memory(",
                        dec_text(self.layout_engine.size_of(t)).as_str(),
                        ")",
                    ),
                }
            },
            None => cat3("allocate_memory(", dec_text(self.layout_engine.size_of(t)).as_str(), ")"),
        }
    }
}

/// Creating contracts from raw bytecode.
#[verifier::opaque]
pub open spec fn account_op_spec(
    g: EnvV,
    st: StV,
    method: Seq<char>,
    a: Seq<Seq<char>>,
) -> (StV, Option<Seq<char>>) {
    if method == "create"@ && a.len() == 2 {
        let st = ensure_spec(st, "gum_str_len"@, gum_str_len_src());
        let st = ensure_spec(st, "gum_bubble_revert"@, gum_bubble_revert_src());
        let st = ensure_spec(st, "gum_create"@, gum_create_src());
        (st, Some("gum_create("@ + a[0] + ", "@ + a[1] + ")"@))
    } else if method == "create2"@ && a.len() == 3 {
        let st = ensure_spec(st, "gum_str_len"@, gum_str_len_src());
        let st = ensure_spec(st, "gum_bubble_revert"@, gum_bubble_revert_src());
        let st = ensure_spec(st, "gum_create2"@, gum_create2_src());
        (st, Some("gum_create2("@ + a[0] + ", "@ + a[1] + ", "@ + a[2] + ")"@))
    } else if method == "create2_address"@ && a.len() == 2 {
        let st = ensure_spec(st, "gum_str_len"@, gum_str_len_src());
        let st = ensure_spec(st, "gum_create2_address"@, gum_create2_address_src());
        (st, Some("gum_create2_address("@ + a[0] + ", "@ + a[1] + ")"@))
    } else {
        (st, None)
    }
}

impl<'a> Translator<'a> {
    pub(crate) fn account_op(&mut self, method: &str, a: &Vec<String>) -> (r: Option<String>)
        ensures
            final(self).env() == old(self).env(),
            account_op_spec(
                old(self).env(),
                old(self).st(),
                method@,
                texts(a@),
            ) == (final(self).st(), opt_text(r)),
    {
        proof {
            reveal(account_op_spec);
        }
        if same(method, "create") && a.len() == 2 {
            self.ensure_helper("gum_str_len", gum_str_len_helper_src());
            self.ensure_helper("gum_bubble_revert", gum_bubble_revert_helper_src());
            self.ensure_helper("gum_create", gum_create_helper_src());
            return Some(cat5("gum_create(", a[0].as_str(), ", ", a[1].as_str(), ")"));
        }
        if same(method, "create2") && a.len() == 3 {
            self.ensure_helper("gum_str_len", gum_str_len_helper_src());
            self.ensure_helper("gum_bubble_revert", gum_bubble_revert_helper_src());
            self.ensure_helper("gum_create2", gum_create2_helper_src());
            return Some(
                cat7("gum_create2(", a[0].as_str(), ", ", a[1].as_str(), ", ", a[2].as_str(), ")")
            );
        }
        if same(method, "create2_address") && a.len() == 2 {
            self.ensure_helper("gum_str_len", gum_str_len_helper_src());
            self.ensure_helper("gum_create2_address", gum_create2_address_helper_src());
            return Some(cat5("gum_create2_address(", a[0].as_str(), ", ", a[1].as_str(), ")"));
        }
        None
    }
}

#[verifier::opaque]
pub open spec fn account_static_call_spec(
    g: EnvV,
    st: StV,
    cx: CtxV,
    e: ExprV,
) -> (StV, Option<Seq<char>>)
    decreases e, 7nat,
{
    match e {
        ExprV::StaticCall { type_def, method, args } => {
            if !is_prim_spec(type_def, "Account"@) {
                (st, None)
            } else {
                let (st, a) = args_spec(g, st, cx, args, args.len());
                account_op_spec(g, st, method, a)
            }
        },
        _ => (st, None),
    }
}

impl<'a> Translator<'a> {
    pub(crate) fn account_static_call(&mut self, cx: &Ctx, e: &Expr) -> (r: Option<String>)
        ensures
            final(self).env() == old(self).env(),
            account_static_call_spec(
                old(self).env(),
                old(self).st(),
                cx@,
                e@,
            ) == (final(self).st(), opt_text(r)),
        decreases e, 7nat,
    {
        proof {
            reveal(account_static_call_spec);
        }
        match e {
            Expr::StaticCall { type_def, method, args } => {
                if !is_prim(type_def, "Account") {
                    return None;
                }
                let a = self.translate_args(cx, args);
                self.account_op(method.as_str(), &a)
            },
            _ => None,
        }
    }
}

pub open spec fn is_prim_spec(t: TypeV, name: Seq<char>) -> bool {
    match t {
        TypeV::Primitive(n) => n == name,
        _ => false,
    }
}

pub(crate) fn is_prim(t: &Type, name: &str) -> (r: bool)
    ensures
        r == is_prim_spec(t@, name@),
{
    match t {
        Type::Primitive(n) => same(n.as_str(), name),
        _ => false,
    }
}

/// The smallest or the largest value of a numeric type.
pub open spec fn bound_call_spec(t: TypeV, method: Seq<char>) -> Option<Seq<char>> {
    match t {
        TypeV::Primitive(n) => {
            match numeric_spec(n) {
                Some((bits, signed)) => bound_spec(bits, signed, method),
                None => None,
            }
        },
        _ => None,
    }
}

pub(crate) fn bound_call(t: &Type, method: &str) -> (r: Option<String>)
    ensures
        opt_text(r) == bound_call_spec(t@, method@),
{
    match t {
        Type::Primitive(n) => {
            match numeric_meta(n.as_str()) {
                Some((bits, signed)) => type_bound_literal(bits, signed, method),
                None => None,
            }
        },
        _ => None,
    }
}

pub open spec fn takes_self_spec(g: EnvV, class_name: Seq<char>, method: Seq<char>) -> bool {
    match method_of_spec(g, class_name, method) {
        Some(m) => m.has_self,
        None => false,
    }
}

impl<'a> Translator<'a> {
    pub(crate) fn takes_self(&self, class_name: &str, method: &str) -> (r: bool)
        ensures
            r == takes_self_spec(self.env(), class_name@, method@),
    {
        match self.method_of(class_name, method) {
            Some(m) => m.has_self,
            None => false,
        }
    }
}

/// A call on a type: an associated function, or a named constructor.
#[verifier::opaque]
pub open spec fn translate_static_call_spec(
    g: EnvV,
    st: StV,
    cx: CtxV,
    e: ExprV,
) -> (StV, Seq<char>)
    decreases e, 8nat,
{
    match e {
        ExprV::StaticCall { type_def, method, args } => {
            let (st, found) = account_static_call_spec(g, st, cx, e);
            match found {
                Some(s) => (st, s),
                None => {
                    if args.len() == 0 {
                        match bound_call_spec(type_def, method) {
                            Some(v) => (st, v),
                            None => class_static_call_spec(g, st, cx, type_def, method, args),
                        }
                    } else {
                        class_static_call_spec(g, st, cx, type_def, method, args)
                    }
                },
            }
        },
        _ => (st, ""@),
    }
}

impl<'a> Translator<'a> {
    pub(crate) fn translate_static_call(&mut self, cx: &Ctx, e: &Expr) -> (r: String)
        ensures
            final(self).env() == old(self).env(),
            translate_static_call_spec(
                old(self).env(),
                old(self).st(),
                cx@,
                e@,
            ) == (final(self).st(), r@),
        decreases e, 8nat,
    {
        proof {
            reveal(translate_static_call_spec);
            reveal_with_fuel(Expr::view, 2);
            reveal(account_static_call_spec);
            reveal(class_static_call_spec);
        }
        match e {
            Expr::StaticCall { type_def, method, args } => {
                let found = self.account_static_call(cx, e);
                match found {
                    Some(s) => {
                        return s;
                    },
                    None => {},
                }
                if args.len() == 0 {
                    match bound_call(type_def, method.as_str()) {
                        Some(v) => {
                            return v;
                        },
                        None => {
                            return self.class_static_call(cx, type_def, method.as_str(), args);
                        },
                    }
                }
                self.class_static_call(cx, type_def, method.as_str(), args)
            },
            _ => String::from_str(""),
        }
    }
}

#[verifier::opaque]
pub open spec fn class_static_call_spec(
    g: EnvV,
    st: StV,
    cx: CtxV,
    type_def: TypeV,
    method: Seq<char>,
    args: Seq<ExprV>,
) -> (StV, Seq<char>)
    decreases args, args.len() + 3,
{
    match constructed_class_spec(type_def) {
        Some((class_name, suffix)) => {
            if !g.w.classes.contains_key(class_name) {
                (st, "revert(0, 0)"@)
            } else if takes_self_spec(g, class_name, method) {
                translate_construction_spec(g, st, cx, type_def, args, method)
            } else {
                let (st, a) = args_spec(g, st, cx, args, args.len());
                (st, suffixed_spec(class_name, suffix, method) + "("@ + join_spec(a, ", "@) + ")"@)
            }
        },
        None => (st, "revert(0, 0)"@),
    }
}

impl<'a> Translator<'a> {
    pub(crate) fn class_static_call(
        &mut self,
        cx: &Ctx,
        type_def: &Type,
        method: &str,
        args: &Vec<Expr>,
    ) -> (r: String)
        ensures
            final(self).env() == old(self).env(),
            class_static_call_spec(
                old(self).env(),
                old(self).st(),
                cx@,
                type_def@,
                method@,
                exprs_v(args@),
            ) == (final(self).st(), r@),
        decreases args, 3nat,
    {
        proof {
            reveal(class_static_call_spec);
            reveal(translate_construction_spec);
        }
        match constructed_class(type_def) {
            Some((class_name, suffix)) => {
                if !self.layout_engine.type_checker.loaded_classes.has(class_name.as_str()) {
                    return String::from_str("revert(0, 0)");
                }
                if self.takes_self(class_name.as_str(), method) {
                    return self.translate_construction(cx, type_def, args, method);
                }
                let a = self.translate_args(cx, args);
                cat4(
                    suffixed(class_name.as_str(), suffix.as_str(), method).as_str(),
                    "(",
                    join(&a, ", ").as_str(),
                    ")",
                )
            },
            None => String::from_str("revert(0, 0)"),
        }
    }
}

} // verus!
