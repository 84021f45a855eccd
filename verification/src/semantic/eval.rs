//! The types of expressions.
use crate::ast::{
    exprs_v, field_named, fields_v, find_field, find_method, find_variant, method_named,
    methods_v, opt_type_v, params_v, segs_v, types_v, variant_named, variants_v, Expr, ExprV,
    FStringSegment, SegV, Type, TypeV,
};
use crate::codegen::generics::{bind_args, bound_args, subst_spec, substitute_type};
use crate::codegen::mutability::contract_name;
use crate::codegen::yul::{
    is_numeric_primitive, is_sint_name, is_str_type, is_struct_type, is_uint_name, numeric_name,
    sint_name, str_type, struct_type, uint_name,
};
use crate::semantic::{lookup_spec, super_name, SemV, TypeChecker};
use crate::semantic::assign::{is_assignable_spec, is_parent_spec};
use crate::semantic::spell::{debug_type, debugged, res_type_v, res_unit_v, spelled, type_text};
use crate::text::{
    begins_char, cat2, cat3, cat4, cat5, cat6, cat7, cat8, dec, dec_text, same, starts_with_char,
};
use vstd::prelude::*;

verus! {

broadcast use crate::ast::group_views;

/// The type of a name that a scope knows.
pub open spec fn symbol_type_spec(g: SemV, name: Seq<char>) -> Option<TypeV> {
    match lookup_spec(g.sc, name) {
        Some(s) => Some(s.type_def),
        None => None,
    }
}

/// The type without a name of its own: that of what has no value, or whose type is
/// not known.
pub open spec fn no_type() -> TypeV {
    TypeV::Primitive("unknown"@)
}

pub open spec fn or_unknown(t: Option<TypeV>) -> TypeV {
    match t {
        Some(t) => t,
        None => no_type(),
    }
}

/// Whether a class that is no contract has a method that takes `self`.
pub open spec fn takes_self_spec(g: SemV, class: Seq<char>, method: Seq<char>) -> bool {
    g.w.classes.contains_key(class) && !g.w.classes[class].is_global && (match method_named(
        g.w.classes[class].methods,
        method,
    ) {
        Some(m) => m.has_self,
        None => false,
    })
}

/// What a method of a class returns; `None` where there is no such method.
pub open spec fn returns_spec(g: SemV, class: Seq<char>, method: Seq<char>) -> Option<TypeV> {
    if g.w.classes.contains_key(class) {
        match method_named(g.w.classes[class].methods, method) {
            Some(m) => Some(or_unknown(m.return_type)),
            None => None,
        }
    } else {
        None
    }
}

/// What a method of a generic class returns, with its type parameters filled in.
pub open spec fn generic_returns_spec(
    g: SemV,
    class: Seq<char>,
    args: Seq<TypeV>,
    method: Seq<char>,
) -> Option<TypeV> {
    if g.w.classes.contains_key(class) {
        let c = g.w.classes[class];
        match method_named(c.methods, method) {
            Some(m) => Some(
                match m.return_type {
                    Some(t) => subst_spec(
                        bind_args(c.generic_params, args, c.generic_params.len()),
                        t,
                    ),
                    None => no_type(),
                },
            ),
            None => None,
        }
    } else {
        None
    }
}

/// How many arguments the constructor of a class takes; `None` where it has none.
pub open spec fn arity_spec(g: SemV, class: Seq<char>) -> Option<usize> {
    if g.w.classes.contains_key(class) {
        match method_named(g.w.classes[class].methods, "new"@) {
            Some(m) => Some(m.parameters.len() as usize),
            None => None,
        }
    } else {
        None
    }
}

pub open spec fn class_field_spec(g: SemV, class: Seq<char>, field: Seq<char>) -> Option<TypeV> {
    if g.w.classes.contains_key(class) {
        match field_named(g.w.classes[class].fields, field) {
            Some(f) => Some(f.type_def),
            None => None,
        }
    } else {
        None
    }
}

/// Whether an enum has a variant, and what it carries.
pub open spec fn payload_spec(g: SemV, name: Seq<char>, variant: Seq<char>) -> Option<
    Option<TypeV>,
> {
    if g.w.enums.contains_key(name) {
        match variant_named(g.w.enums[name].variants, variant) {
            Some(v) => Some(
                if v.parameters.len() == 0 {
                    None
                } else {
                    Some(v.parameters[0].type_def)
                },
            ),
            None => None,
        }
    } else {
        None
    }
}

pub open spec fn fn_returns_spec(g: SemV, name: Seq<char>) -> Option<TypeV> {
    if g.w.fn_types.contains_key(name) {
        Some(g.w.fn_types[name])
    } else {
        None
    }
}

pub open spec fn opt_opt_type(t: Option<Option<Type>>) -> Option<Option<TypeV>> {
    match t {
        Some(t) => Some(opt_type_v(t)),
        None => None,
    }
}

impl TypeChecker {
    pub(crate) fn symbol_type(&self, name: &str) -> (r: Option<Type>)
        ensures
            opt_type_v(r) == symbol_type_spec(self.sem(), name@),
    {
        match self.lookup_symbol(name) {
            Some(s) => Some(s.type_def.clone()),
            None => None,
        }
    }

    fn takes_self(&self, class: &str, method: &str) -> (r: bool)
        ensures
            r == takes_self_spec(self.sem(), class@, method@),
    {
        match self.loaded_classes.get(class) {
            Some(c) => {
                assert(self.world().classes[class@] == c@);
                match find_method(&c.methods, method) {
                    Some(i) => {
                        assert(methods_v(c.methods@)[i as int] == c.methods@[i as int]@);
                        !c.is_global && c.methods[i].has_self
                    },
                    None => false,
                }
            },
            None => false,
        }
    }

    fn returns_of(&self, class: &str, method: &str) -> (r: Option<Type>)
        ensures
            opt_type_v(r) == returns_spec(self.sem(), class@, method@),
    {
        match self.loaded_classes.get(class) {
            Some(c) => match find_method(&c.methods, method) {
                Some(i) => {
                    assert(methods_v(c.methods@)[i as int] == c.methods@[i as int]@);
                    match &c.methods[i].return_type {
                        Some(t) => Some(t.clone()),
                        None => Some(Type::Primitive(String::from_str("unknown"))),
                    }
                },
                None => None,
            },
            None => None,
        }
    }

    fn generic_returns(&self, class: &str, args: &Vec<Type>, method: &str) -> (r: Option<Type>)
        ensures
            opt_type_v(r) == generic_returns_spec(self.sem(), class@, types_v(args@), method@),
    {
        match self.loaded_classes.get(class) {
            Some(c) => match find_method(&c.methods, method) {
                Some(i) => {
                    assert(methods_v(c.methods@)[i as int] == c.methods@[i as int]@);
                    match &c.methods[i].return_type {
                        Some(t) => {
                            let subst = bound_args(&c.generic_params, args);
                            Some(substitute_type(t, &subst))
                        },
                        None => Some(Type::Primitive(String::from_str("unknown"))),
                    }
                },
                None => None,
            },
            None => None,
        }
    }

    fn constructor_arity(&self, class: &str) -> (r: Option<usize>)
        ensures
            r == arity_spec(self.sem(), class@),
    {
        match self.loaded_classes.get(class) {
            Some(c) => match find_method(&c.methods, "new") {
                Some(i) => {
                    assert(methods_v(c.methods@)[i as int] == c.methods@[i as int]@);
                    Some(c.methods[i].parameters.len())
                },
                None => None,
            },
            None => None,
        }
    }

    pub(crate) fn class_field(&self, class: &str, field: &str) -> (r: Option<Type>)
        ensures
            opt_type_v(r) == class_field_spec(self.sem(), class@, field@),
    {
        match self.loaded_classes.get(class) {
            Some(c) => match find_field(&c.fields, field) {
                Some(i) => {
                    assert(fields_v(c.fields@)[i as int] == c.fields@[i as int]@);
                    Some(c.fields[i].type_def.clone())
                },
                None => None,
            },
            None => None,
        }
    }

    pub(crate) fn payload_of(&self, name: &str, variant: &str) -> (r: Option<Option<Type>>)
        ensures
            opt_opt_type(r) == payload_spec(self.sem(), name@, variant@),
    {
        match self.loaded_enums.get(name) {
            Some(e) => match find_variant(&e.variants, variant) {
                Some(i) => {
                    assert(variants_v(e.variants@)[i as int] == e.variants@[i as int]@);
                    let ps = &e.variants[i].parameters;
                    if ps.len() == 0 {
                        Some(None)
                    } else {
                        assert(params_v(ps@)[0] == ps@[0]@);
                        Some(Some(ps[0].type_def.clone()))
                    }
                },
                None => None,
            },
            None => None,
        }
    }

    fn fn_returns(&self, name: &str) -> (r: Option<Type>)
        ensures
            opt_type_v(r) == fn_returns_spec(self.sem(), name@),
    {
        match self.function_return_types.get(name) {
            Some(t) => Some(t.clone()),
            None => None,
        }
    }

    pub(crate) fn is_contract_class(&self, name: &str) -> (r: bool)
        ensures
            r == contract_name(self.sem().w, name@),
    {
        match self.loaded_classes.get(name) {
            Some(c) => c.is_global,
            None => false,
        }
    }
}

pub open spec fn is_name_spec(e: ExprV, name: Seq<char>) -> bool {
    match e {
        ExprV::Identifier(n) => n == name,
        _ => false,
    }
}

pub(crate) fn is_name(e: &Expr, name: &str) -> (r: bool)
    ensures
        r == is_name_spec(e@, name@),
{
    match e {
        Expr::Identifier(n) => same(n.as_str(), name),
        _ => false,
    }
}

pub open spec fn unsigned_type_spec(t: TypeV) -> bool {
    match t {
        TypeV::Primitive(n) => begins_char(n, 'u'),
        _ => false,
    }
}

pub(crate) fn unsigned_type(t: &Type) -> (r: bool)
    ensures
        r == unsigned_type_spec(t@),
{
    match t {
        Type::Primitive(n) => starts_with_char(n.as_str(), 'u'),
        _ => false,
    }
}

pub open spec fn numeric_type_spec(t: TypeV) -> bool {
    match t {
        TypeV::Primitive(n) => numeric_name(n),
        _ => false,
    }
}

pub(crate) fn numeric_type(t: &Type) -> (r: bool)
    ensures
        r == numeric_type_spec(t@),
{
    match t {
        Type::Primitive(n) => is_numeric_primitive(n.as_str()),
        _ => false,
    }
}

pub open spec fn bool_type_spec(t: TypeV) -> bool {
    match t {
        TypeV::Primitive(n) => n == "bool"@,
        _ => false,
    }
}

pub(crate) fn bool_type(t: &Type) -> (r: bool)
    ensures
        r == bool_type_spec(t@),
{
    match t {
        Type::Primitive(n) => same(n.as_str(), "bool"),
        _ => false,
    }
}

pub open spec fn eval_identifier_spec(g: SemV, name: Seq<char>) -> Result<TypeV, Seq<char>> {
    match symbol_type_spec(g, name) {
        Some(t) => Ok(t),
        None => {
            if name == "true"@ || name == "false"@ {
                Ok(TypeV::Primitive("bool"@))
            } else if g.w.enums.contains_key(name) || g.w.classes.contains_key(name) {
                Ok(TypeV::Primitive(name))
            } else {
                Err("Undefined identifier: "@ + name)
            }
        },
    }
}

impl TypeChecker {
    pub(crate) fn eval_identifier(&self, name: &str) -> (r: Result<Type, String>)
        ensures
            res_type_v(r) == eval_identifier_spec(self.sem(), name@),
    {
        match self.symbol_type(name) {
            Some(t) => {
                return Ok(t);
            },
            None => {},
        }
        if same(name, "true") || same(name, "false") {
            return Ok(Type::Primitive(String::from_str("bool")));
        }
        if self.loaded_enums.has(name) || self.loaded_classes.has(name) {
            return Ok(Type::Primitive(String::from_str(name)));
        }
        Err(cat2("Undefined identifier: ", name))
    }
}

/// A call of a function; a class with one argument is a cast.
pub open spec fn eval_call_spec(
    g: SemV,
    name: Seq<char>,
    args: Seq<ExprV>,
) -> Result<TypeV, Seq<char>> {
    if args.len() == 1 && g.w.classes.contains_key(name) {
        Ok(TypeV::Primitive(name))
    } else {
        match fn_returns_spec(g, name) {
            Some(t) => Ok(t),
            None => Ok(TypeV::Primitive("unknown"@)),
        }
    }
}

impl TypeChecker {
    pub(crate) fn eval_call(&self, name: &str, args: &Vec<Expr>) -> (r: Result<Type, String>)
        ensures
            res_type_v(r) == eval_call_spec(self.sem(), name@, exprs_v(args@)),
    {
        if args.len() == 1 && self.loaded_classes.has(name) {
            return Ok(Type::Primitive(String::from_str(name)));
        }
        match self.fn_returns(name) {
            Some(t) => Ok(t),
            None => Ok(Type::Primitive(String::from_str("unknown"))),
        }
    }
}

/// A new value; a new contract is known by its address.
pub open spec fn eval_instantiation_spec(
    g: SemV,
    type_def: TypeV,
    args: Seq<ExprV>,
) -> Result<TypeV, Seq<char>> {
    match type_def {
        TypeV::Primitive(name) => {
            if !g.w.classes.contains_key(name) {
                Ok(type_def)
            } else {
                let n = args.len() as usize;
                match arity_spec(g, name) {
                    Some(want) => {
                        if want != n {
                            Err(
                                "Constructor for '"@
                                + name
                                + "' expects "@
                                + dec(want as nat)
                                + " arguments, but "@
                                + dec(n as nat)
                                + " were provided."@
                            )
                        } else {
                            Ok(
                                if contract_name(g.w, name) { TypeV::Primitive(
                                    "Account"@
                                ) } else { type_def }
                            )
                        }
                    },
                    None => {
                        if n > 0usize {
                            Err(
                                "Class '"@
                                + name
                                + "' has no 'fn new()' constructor, but arguments were provided."@
                            )
                        } else {
                            Ok(
                                if contract_name(g.w, name) { TypeV::Primitive(
                                    "Account"@
                                ) } else { type_def }
                            )
                        }
                    },
                }
            }
        },
        _ => Ok(type_def),
    }
}

impl TypeChecker {
    pub(crate) fn eval_instantiation(
        &self,
        type_def: &Type,
        args: &Vec<Expr>,
    ) -> (r: Result<Type, String>)
        ensures
            res_type_v(r) == eval_instantiation_spec(self.sem(), type_def@, exprs_v(args@)),
    {
        match type_def {
            Type::Primitive(name) => {
                if !self.loaded_classes.has(name.as_str()) {
                    return Ok(type_def.clone());
                }
                let n: usize = args.len();
                match self.constructor_arity(name.as_str()) {
                    Some(want) => {
                        if want != n {
                            return Err(
                                cat7(
                                    "Constructor for '",
                                    name.as_str(),
                                    "' expects ",
                                    dec_text(want).as_str(),
                                    " arguments, but ",
                                    dec_text(n).as_str(),
                                    " were provided.",
                                )
                            );
                        }
                        return Ok(
                            if self.is_contract_class(name.as_str()) { Type::Primitive(
                                String::from_str("Account")
                            ) } else { type_def.clone() }
                        );
                    },
                    None => {},
                }
                if n > 0 {
                    return Err(
                        cat3(
                            "Class '",
                            name.as_str(),
                            "' has no 'fn new()' constructor, but arguments were provided.",
                        )
                    );
                }
                Ok(
                    if self.is_contract_class(name.as_str()) { Type::Primitive(
                        String::from_str("Account")
                    ) } else { type_def.clone() }
                )
            },
            _ => Ok(type_def.clone()),
        }
    }
}

/// What `super.method()` returns: it reaches the version that a method
/// replaced.
pub open spec fn eval_super_call_spec(g: SemV, method: Seq<char>) -> Result<TypeV, Seq<char>> {
    match symbol_type_spec(g, "self"@) {
        Some(t) => {
            match t {
                TypeV::Primitive(class_name) => {
                    if !g.w.classes.contains_key(class_name) {
                        Err("Unknown class '"@ + class_name + "'"@)
                    } else {
                        match returns_spec(g, class_name, "super_"@ + method) {
                            Some(u) => Ok(u),
                            None => Err(
                                "super."@
                                + method
                                + "() has nothing to call: '"@
                                + class_name
                                + "' does not override an inherited '"@
                                + method
                                + "'. super reaches the version a method replaced, so it only means something inside that override."@
                            ),
                        }
                    }
                },
                _ => Err(
                    "super."@
                    + method
                    + "() is only available inside a method: there is no parent to call without a self."@
                ),
            }
        },
        None => Err(
            "super."@
            + method
            + "() is only available inside a method: there is no parent to call without a self."@
        ),
    }
}

impl TypeChecker {
    pub(crate) fn eval_super_call(&self, method: &str) -> (r: Result<Type, String>)
        ensures
            res_type_v(r) == eval_super_call_spec(self.sem(), method@),
    {
        match self.symbol_type("self") {
            Some(t) => {
                match &t {
                    Type::Primitive(class_name) => {
                        if !self.loaded_classes.has(class_name.as_str()) {
                            return Err(cat3("Unknown class '", class_name.as_str(), "'"));
                        }
                        match self.returns_of(class_name.as_str(), super_name(method).as_str()) {
                            Some(u) => Ok(u),
                            None => Err(
                                cat7(
                                    "super.",
                                    method,
                                    "() has nothing to call: '",
                                    class_name.as_str(),
                                    "' does not override an inherited '",
                                    method,
                                    "'. super reaches the version a method replaced, so it only means something inside that override.",
                                )
                            ),
                        }
                    },
                    _ => Err(
                        cat3(
                            "super.",
                            method,
                            "() is only available inside a method: there is no parent to call without a self.",
                        )
                    ),
                }
            },
            None => Err(
                cat3(
                    "super.",
                    method,
                    "() is only available inside a method: there is no parent to call without a self.",
                )
            ),
        }
    }
}

/// A method of a mapping or of a generic class.
pub open spec fn generic_method_spec(g: SemV, t: TypeV, method: Seq<char>) -> Option<TypeV> {
    match t {
        TypeV::Generic { name, args } => {
            if name == "HashMap"@ && args.len() == 2 {
                if method == "get"@ {
                    Some(args[1])
                } else if method == "set"@ {
                    Some(TypeV::Primitive("unknown"@))
                } else {
                    generic_returns_spec(g, name, args, method)
                }
            } else {
                generic_returns_spec(g, name, args, method)
            }
        },
        _ => None,
    }
}

impl TypeChecker {
    pub(crate) fn generic_method(&self, t: &Type, method: &str) -> (r: Option<Type>)
        ensures
            opt_type_v(r) == generic_method_spec(self.sem(), t@, method@),
    {
        proof {
            reveal_with_fuel(Type::view, 2);
        }
        match t {
            Type::Generic { name, args } => {
                if same(name.as_str(), "HashMap") && args.len() == 2 {
                    if same(method, "get") {
                        return Some(args[1].clone());
                    }
                    if same(method, "set") {
                        return Some(Type::Primitive(String::from_str("unknown")));
                    }
                    return self.generic_returns(name.as_str(), args, method);
                }
                self.generic_returns(name.as_str(), args, method)
            },
            _ => None,
        }
    }
}

pub open spec fn numeric_method_spec(t: TypeV, method: Seq<char>) -> Option<TypeV> {
    match t {
        TypeV::Primitive(n) => {
            if !numeric_name(n) {
                None
            } else if method == "saturate"@ {
                Some(t)
            } else if method == "as_bytes"@ || method == "as_bits"@ {
                Some(TypeV::Array(Box::new(TypeV::Primitive("u8"@))))
            } else if method == "to_string"@ && uint_name(n) {
                Some(TypeV::Primitive("String"@))
            } else {
                None
            }
        },
        _ => None,
    }
}

pub(crate) fn numeric_method(t: &Type, method: &str) -> (r: Option<Type>)
    ensures
        opt_type_v(r) == numeric_method_spec(t@, method@),
{
    proof {
        reveal_with_fuel(Type::view, 2);
    }
    match t {
        Type::Primitive(n) => {
            if !is_numeric_primitive(n.as_str()) {
                return None;
            }
            if same(method, "saturate") {
                return Some(t.clone());
            }
            if same(method, "as_bytes") || same(method, "as_bits") {
                return Some(Type::Array(Box::new(Type::Primitive(String::from_str("u8")))));
            }
            if same(method, "to_string") && is_uint_name(n.as_str()) {
                return Some(Type::Primitive(String::from_str("String")));
            }
            None
        },
        _ => None,
    }
}

/// The amount that is sent: one unsigned integer.
pub open spec fn pay_amount_spec(
    g: SemV,
    args: Seq<ExprV>,
    method: Seq<char>,
) -> Result<(), Seq<char>>
    decreases args, args.len() + 1,
{
    if args.len() != 1 {
        Err("Account."@ + method + "() expects 1 argument (the amount)"@)
    } else {
        uints_spec(
            g,
            args,
            0usize as nat,
            "Account."@ + method + "() amount must be an unsigned integer, got "@,
            args.len(),
        )
    }
}

impl TypeChecker {
    pub(crate) fn pay_amount(&self, args: &Vec<Expr>, method: &str) -> (r: Result<(), String>)
        ensures
            res_unit_v(r) == pay_amount_spec(self.sem(), exprs_v(args@), method@),
        decreases args, 1nat,
    {
        if args.len() != 1 {
            return Err(cat3("Account.", method, "() expects 1 argument (the amount)"));
        }
        self.eval_uints(
            args,
            0,
            cat3("Account.", method, "() amount must be an unsigned integer, got ").as_str(),
        )
    }
}

/// What an account answers.
pub open spec fn account_method_spec(
    g: SemV,
    class_name: Seq<char>,
    method: Seq<char>,
    args: Seq<ExprV>,
) -> Option<Result<TypeV, Seq<char>>>
    decreases args, args.len() + 2,
{
    if class_name != "Account"@ {
        None
    } else if method == "balance"@ {
        Some(Ok(TypeV::Primitive("u256"@)))
    } else if method == "pay"@ {
        match pay_amount_spec(g, args, method) {
            Ok(_) => Some(Ok(TypeV::Primitive("bool"@))),
            Err(e) => Some(Err(e)),
        }
    } else if method == "transfer"@ {
        match pay_amount_spec(g, args, method) {
            Ok(_) => Some(Ok(TypeV::Primitive("unknown"@))),
            Err(e) => Some(Err(e)),
        }
    } else if method == "delegated_to"@ {
        Some(Ok(TypeV::Primitive("Account"@)))
    } else if method == "is_delegated"@ {
        Some(Ok(TypeV::Primitive("bool"@)))
    } else {
        None
    }
}

impl TypeChecker {
    pub(crate) fn account_method(
        &self,
        class_name: &str,
        method: &str,
        args: &Vec<Expr>,
    ) -> (r: Option<Result<Type, String>>)
        ensures
            (
                match r { Some(x) => Some(res_type_v(x)), None => None }
            ) == account_method_spec(self.sem(), class_name@, method@, exprs_v(args@)),
        decreases args, 2nat,
    {
        if !same(class_name, "Account") {
            return None;
        }
        if same(method, "balance") {
            return Some(Ok(Type::Primitive(String::from_str("u256"))));
        }
        if same(method, "pay") {
            match self.pay_amount(args, method) {
                Ok(_) => {
                    return Some(Ok(Type::Primitive(String::from_str("bool"))));
                },
                Err(e) => {
                    return Some(Err(e));
                },
            }
        }
        if same(method, "transfer") {
            match self.pay_amount(args, method) {
                Ok(_) => {
                    return Some(Ok(Type::Primitive(String::from_str("unknown"))));
                },
                Err(e) => {
                    return Some(Err(e));
                },
            }
        }
        if same(method, "delegated_to") {
            return Some(Ok(Type::Primitive(String::from_str("Account"))));
        }
        if same(method, "is_delegated") {
            return Some(Ok(Type::Primitive(String::from_str("bool"))));
        }
        None
    }
}

pub open spec fn create_shape_spec(method: Seq<char>) -> Seq<char> {
    if method == "create"@ {
        "(code, value)"@
    } else if method == "create2"@ {
        "(code, value, salt)"@
    } else {
        "(code, salt)"@
    }
}

pub(crate) fn create_shape(method: &str) -> (r: String)
    ensures
        r@ == create_shape_spec(method@),
{
    if same(method, "create") {
        return String::from_str("(code, value)");
    }
    if same(method, "create2") {
        return String::from_str("(code, value, salt)");
    }
    String::from_str("(code, salt)")
}

/// Deploys raw code, or says where it would stand.
pub open spec fn create_method_spec(
    g: SemV,
    method: Seq<char>,
    args: Seq<ExprV>,
) -> Result<TypeV, Seq<char>>
    decreases args, args.len() + 2,
{
    let want = if method == "create2"@ { 3usize } else { 2usize };
    if args.len() != want {
        Err(
            "Account."@
            + method
            + "() expects "@
            + dec(want as nat)
            + " arguments "@
            + create_shape_spec(method)
            + ", got "@
            + dec((args.len() as usize) as nat)
        )
    } else {
        match type_of_spec(g, args[0]) {
            Ok(code) => {
                if !str_type(code) {
                    Err(
                        "Account."@
                        + method
                        + "() needs the creation bytecode as Bytes, got "@
                        + debugged(code)
                    )
                } else {
                    match uints_spec(
                        g,
                        args,
                        1usize as nat,
                        "Account."@ + method + "() expects unsigned integers after the code, got "@,
                        args.len(),
                    ) {
                        Ok(_) => Ok(TypeV::Primitive("Account"@)),
                        Err(e) => Err(e),
                    }
                }
            },
            Err(e) => Err(e),
        }
    }
}

impl TypeChecker {
    pub(crate) fn create_method(
        &self,
        method: &str,
        args: &Vec<Expr>,
    ) -> (r: Result<Type, String>)
        ensures
            res_type_v(r) == create_method_spec(self.sem(), method@, exprs_v(args@)),
        decreases args, 2nat,
    {
        let want: usize = if same(method, "create2") { 3 } else { 2 };
        if args.len() != want {
            return Err(
                cat8(
                    "Account.",
                    method,
                    "() expects ",
                    dec_text(want).as_str(),
                    " arguments ",
                    create_shape(method).as_str(),
                    ", got ",
                    dec_text(args.len()).as_str(),
                )
            );
        }
        assert(decreases_to!(*args => args@[0]));
        let code = match self.type_of(&args[0]) {
            Ok(t) => t,
            Err(e) => {
                return Err(e);
            },
        };
        if !is_str_type(&code) {
            return Err(
                cat4(
                    "Account.",
                    method,
                    "() needs the creation bytecode as Bytes, got ",
                    debug_type(&code).as_str(),
                )
            );
        }
        match self.eval_uints(
            args,
            1,
            cat3("Account.", method, "() expects unsigned integers after the code, got ").as_str(),
        ) {
            Ok(_) => {},
            Err(e) => {
                return Err(e);
            },
        }
        Ok(Type::Primitive(String::from_str("Account")))
    }
}

pub open spec fn verify_p256_spec(g: SemV, args: Seq<ExprV>) -> Result<TypeV, Seq<char>>
    decreases args, args.len() + 2,
{
    if args.len() != 5 {
        Err(
            "Crypto.verify_p256() expects 5 arguments (hash, r, s, qx, qy), got "@
            + dec((args.len() as usize) as nat)
        )
    } else {
        match uints_spec(
            g,
            args,
            0usize as nat,
            "Crypto.verify_p256() arguments must be unsigned integers, got "@,
            args.len(),
        ) {
            Ok(_) => Ok(TypeV::Primitive("bool"@)),
            Err(e) => Err(e),
        }
    }
}

impl TypeChecker {
    pub(crate) fn verify_p256(&self, args: &Vec<Expr>) -> (r: Result<Type, String>)
        ensures
            res_type_v(r) == verify_p256_spec(self.sem(), exprs_v(args@)),
        decreases args, 2nat,
    {
        if args.len() != 5 {
            return Err(
                cat2(
                    "Crypto.verify_p256() expects 5 arguments (hash, r, s, qx, qy), got ",
                    dec_text(args.len()).as_str(),
                )
            );
        }
        match self.eval_uints(
            args,
            0,
            "Crypto.verify_p256() arguments must be unsigned integers, got ",
        ) {
            Ok(_) => {},
            Err(e) => {
                return Err(e);
            },
        }
        Ok(Type::Primitive(String::from_str("bool")))
    }
}

pub open spec fn string_method_spec(
    g: SemV,
    class_name: Seq<char>,
    method: Seq<char>,
    args: Seq<ExprV>,
) -> Option<Result<TypeV, Seq<char>>>
    decreases args, args.len() + 2,
{
    if !(class_name == "String"@ || class_name == "Bytes"@) {
        None
    } else if method == "concat"@ {
        if args.len() != 1 {
            Some(
                Err(
                    class_name
                    + ".concat() expects 1 argument, got "@
                    + dec((args.len() as usize) as nat)
                )
            )
        } else {
            match type_of_spec(g, args[0]) {
                Ok(other) => {
                    if str_type(other) {
                        Some(Ok(TypeV::Primitive(class_name)))
                    } else {
                        Some(
                            Err(
                                class_name
                                + ".concat() expects a String or Bytes argument, got "@
                                + debugged(other)
                            )
                        )
                    }
                },
                Err(e) => Some(Err(e)),
            }
        }
    } else if method == "slice"@ {
        if args.len() != 2 {
            Some(
                Err(
                    class_name
                    + ".slice() expects 2 arguments (start, end), got "@
                    + dec((args.len() as usize) as nat)
                )
            )
        } else {
            match uints_spec(
                g,
                args,
                0usize as nat,
                class_name + ".slice() bounds must be unsigned integers, got "@,
                args.len(),
            ) {
                Ok(_) => Some(Ok(TypeV::Primitive(class_name))),
                Err(e) => Some(Err(e)),
            }
        }
    } else {
        None
    }
}

impl TypeChecker {
    pub(crate) fn string_method(
        &self,
        class_name: &str,
        method: &str,
        args: &Vec<Expr>,
    ) -> (r: Option<Result<Type, String>>)
        ensures
            (
                match r { Some(x) => Some(res_type_v(x)), None => None }
            ) == string_method_spec(self.sem(), class_name@, method@, exprs_v(args@)),
        decreases args, 2nat,
    {
        if !(same(class_name, "String") || same(class_name, "Bytes")) {
            return None;
        }
        if same(method, "concat") {
            if args.len() != 1 {
                return Some(
                    Err(
                        cat3(
                            class_name,
                            ".concat() expects 1 argument, got ",
                            dec_text(args.len()).as_str(),
                        )
                    )
                );
            }
            assert(decreases_to!(*args => args@[0]));
            match self.type_of(&args[0]) {
                Ok(other) => {
                    if is_str_type(&other) {
                        return Some(Ok(Type::Primitive(String::from_str(class_name))));
                    }
                    return Some(
                        Err(
                            cat3(
                                class_name,
                                ".concat() expects a String or Bytes argument, got ",
                                debug_type(&other).as_str(),
                            )
                        )
                    );
                },
                Err(e) => {
                    return Some(Err(e));
                },
            }
        }
        if same(method, "slice") {
            if args.len() != 2 {
                return Some(
                    Err(
                        cat3(
                            class_name,
                            ".slice() expects 2 arguments (start, end), got ",
                            dec_text(args.len()).as_str(),
                        )
                    )
                );
            }
            match self.eval_uints(
                args,
                0,
                cat2(class_name, ".slice() bounds must be unsigned integers, got ").as_str(),
            ) {
                Ok(_) => {
                    return Some(Ok(Type::Primitive(String::from_str(class_name))));
                },
                Err(e) => {
                    return Some(Err(e));
                },
            }
        }
        None
    }
}

pub open spec fn class_method_spec(
    g: SemV,
    class_name: Seq<char>,
    method: Seq<char>,
) -> Result<TypeV, Seq<char>> {
    match returns_spec(g, class_name, method) {
        Some(t) => Ok(t),
        None => {
            if method == "serialize"@ && is_parent_spec(g, class_name, "Serializable"@) {
                Ok(TypeV::Array(Box::new(TypeV::Primitive("u8"@))))
            } else {
                Err("Method '"@ + method + "' not found on class '"@ + class_name + "'"@)
            }
        },
    }
}

impl TypeChecker {
    pub(crate) fn class_method(&self, class_name: &str, method: &str) -> (r: Result<Type, String>)
        ensures
            res_type_v(r) == class_method_spec(self.sem(), class_name@, method@),
    {
        proof {
            reveal_with_fuel(Type::view, 2);
        }
        match self.returns_of(class_name, method) {
            Some(t) => {
                return Ok(t);
            },
            None => {},
        }
        if same(method, "serialize") && self.is_parent(class_name, "Serializable") {
            return Ok(Type::Array(Box::new(Type::Primitive(String::from_str("u8")))));
        }
        Err(cat5("Method '", method, "' not found on class '", class_name, "'"))
    }
}

/// A variant with its payload.
pub open spec fn variant_method_spec(
    g: SemV,
    name: Seq<char>,
    variant: Seq<char>,
    args: Seq<ExprV>,
) -> Result<TypeV, Seq<char>>
    decreases args, args.len() + 2,
{
    match payload_spec(g, name, variant) {
        Some(p) => {
            match p {
                Some(want) => {
                    if args.len() != 1 {
                        Err(
                            "Enum variant '"@
                            + name
                            + "."@
                            + variant
                            + "' expects 1 payload argument"@
                        )
                    } else {
                        match type_of_spec(g, args[0]) {
                            Ok(t) => {
                                if !is_assignable_spec(g, want, t) {
                                    Err(
                                        "Type mismatch in enum payload for '"@
                                        + name
                                        + "."@
                                        + variant
                                        + "'. Expected "@
                                        + debugged(want)
                                        + ", got "@
                                        + debugged(t)
                                    )
                                } else {
                                    Ok(TypeV::Primitive(name))
                                }
                            },
                            Err(e) => Err(e),
                        }
                    }
                },
                None => Ok(TypeV::Primitive(name)),
            }
        },
        None => Err("Variant '"@ + variant + "' not found on enum '"@ + name + "'"@),
    }
}

impl TypeChecker {
    pub(crate) fn variant_method(
        &self,
        name: &str,
        variant: &str,
        args: &Vec<Expr>,
    ) -> (r: Result<Type, String>)
        ensures
            res_type_v(r) == variant_method_spec(self.sem(), name@, variant@, exprs_v(args@)),
        decreases args, 2nat,
    {
        match self.payload_of(name, variant) {
            Some(p) => {
                match p {
                    Some(want) => {
                        if args.len() != 1 {
                            return Err(
                                cat5(
                                    "Enum variant '",
                                    name,
                                    ".",
                                    variant,
                                    "' expects 1 payload argument",
                                )
                            );
                        }
                        assert(decreases_to!(*args => args@[0]));
                        let t = match self.type_of(&args[0]) {
                            Ok(t) => t,
                            Err(e) => {
                                return Err(e);
                            },
                        };
                        if !self.is_assignable(&want, &t) {
                            return Err(
                                cat8(
                                    "Type mismatch in enum payload for '",
                                    name,
                                    ".",
                                    variant,
                                    "'. Expected ",
                                    debug_type(&want).as_str(),
                                    ", got ",
                                    debug_type(&t).as_str(),
                                )
                            );
                        }
                        Ok(Type::Primitive(String::from_str(name)))
                    },
                    None => Ok(Type::Primitive(String::from_str(name))),
                }
            },
            None => Err(cat5("Variant '", variant, "' not found on enum '", name, "'")),
        }
    }
}

pub open spec fn push_value_spec(
    g: SemV,
    inner: TypeV,
    args: Seq<ExprV>,
) -> Result<TypeV, Seq<char>>
    decreases args, args.len() + 3,
{
    if struct_type(g.w, inner) {
        if args.len() > 0 {
            Err(
                "push() on an array of struct '"@
                + spelled(inner)
                + "' takes no argument: gum has no struct copy. Append a zeroed element with arr.push(), then set its fields, arr[arr.length - 1].field = v."@
            )
        } else {
            Ok(TypeV::Primitive("unknown"@))
        }
    } else if args.len() != 1 {
        Err("push() expects 1 argument (the value), got "@ + dec((args.len() as usize) as nat))
    } else {
        match type_of_spec(g, args[0]) {
            Ok(v) => {
                if !is_assignable_spec(g, inner, v) {
                    Err(
                        "push() type mismatch: array holds "@
                        + debugged(inner)
                        + ", got "@
                        + debugged(v)
                    )
                } else {
                    Ok(TypeV::Primitive("unknown"@))
                }
            },
            Err(e) => Err(e),
        }
    }
}

impl TypeChecker {
    pub(crate) fn push_value(&self, inner: &Type, args: &Vec<Expr>) -> (r: Result<Type, String>)
        ensures
            res_type_v(r) == push_value_spec(self.sem(), inner@, exprs_v(args@)),
        decreases args, 3nat,
    {
        if is_struct_type(self, inner) {
            if args.len() > 0 {
                return Err(
                    cat3(
                        "push() on an array of struct '",
                        type_text(inner).as_str(),
                        "' takes no argument: gum has no struct copy. Append a zeroed element with arr.push(), then set its fields, arr[arr.length - 1].field = v.",
                    )
                );
            }
            return Ok(Type::Primitive(String::from_str("unknown")));
        }
        if args.len() != 1 {
            return Err(
                cat2("push() expects 1 argument (the value), got ", dec_text(args.len()).as_str())
            );
        }
        assert(decreases_to!(*args => args@[0]));
        let v = match self.type_of(&args[0]) {
            Ok(t) => t,
            Err(e) => {
                return Err(e);
            },
        };
        if !self.is_assignable(inner, &v) {
            return Err(
                cat4(
                    "push() type mismatch: array holds ",
                    debug_type(inner).as_str(),
                    ", got ",
                    debug_type(&v).as_str(),
                )
            );
        }
        Ok(Type::Primitive(String::from_str("unknown")))
    }
}

/// What an array answers.
pub open spec fn array_method_spec(
    g: SemV,
    inner: TypeV,
    method: Seq<char>,
    args: Seq<ExprV>,
) -> Option<Result<TypeV, Seq<char>>>
    decreases args, args.len() + 4,
{
    if method == "push"@ {
        Some(push_value_spec(g, inner, args))
    } else if method == "pop"@ {
        if args.len() > 0 {
            Some(Err("pop() takes no arguments, got "@ + dec((args.len() as usize) as nat)))
        } else {
            Some(Ok(inner))
        }
    } else if method == "len"@ {
        if args.len() > 0 {
            Some(Err("len() takes no arguments, got "@ + dec((args.len() as usize) as nat)))
        } else {
            Some(Ok(TypeV::Primitive("u256"@)))
        }
    } else if method == "get"@ {
        if args.len() != 1 {
            Some(
                Err(
                    "get() expects 1 argument (the index), got "@
                    + dec((args.len() as usize) as nat)
                )
            )
        } else {
            match uints_spec(
                g,
                args,
                0usize as nat,
                "get() index must be an unsigned integer, got "@,
                args.len(),
            ) {
                Ok(_) => Some(Ok(inner)),
                Err(e) => Some(Err(e)),
            }
        }
    } else {
        None
    }
}

impl TypeChecker {
    pub(crate) fn array_method(
        &self,
        inner: &Type,
        method: &str,
        args: &Vec<Expr>,
    ) -> (r: Option<Result<Type, String>>)
        ensures
            (
                match r { Some(x) => Some(res_type_v(x)), None => None }
            ) == array_method_spec(self.sem(), inner@, method@, exprs_v(args@)),
        decreases args, 4nat,
    {
        if same(method, "push") {
            return Some(self.push_value(inner, args));
        }
        if same(method, "pop") {
            if args.len() > 0 {
                return Some(
                    Err(cat2("pop() takes no arguments, got ", dec_text(args.len()).as_str()))
                );
            }
            return Some(Ok(inner.clone()));
        }
        if same(method, "len") {
            if args.len() > 0 {
                return Some(
                    Err(cat2("len() takes no arguments, got ", dec_text(args.len()).as_str()))
                );
            }
            return Some(Ok(Type::Primitive(String::from_str("u256"))));
        }
        if same(method, "get") {
            if args.len() != 1 {
                return Some(
                    Err(
                        cat2(
                            "get() expects 1 argument (the index), got ",
                            dec_text(args.len()).as_str(),
                        )
                    )
                );
            }
            match self.eval_uints(args, 0, "get() index must be an unsigned integer, got ") {
                Ok(_) => {
                    return Some(Ok(inner.clone()));
                },
                Err(e) => {
                    return Some(Err(e));
                },
            }
        }
        None
    }
}

/// A method on a value whose type has a name.
pub open spec fn named_method_spec(
    g: SemV,
    class_name: Seq<char>,
    bare_account: bool,
    method: Seq<char>,
    args: Seq<ExprV>,
) -> Option<Result<TypeV, Seq<char>>>
    decreases args, args.len() + 5,
{
    match account_method_spec(g, class_name, method, args) {
        Some(x) => Some(x),
        None => {
            if bare_account && (
                method == "create"@
                || method == "create2"@
                || method == "create2_address"@
            ) {
                Some(create_method_spec(g, method, args))
            } else if class_name == "Crypto"@ && method == "verify_p256"@ {
                Some(verify_p256_spec(g, args))
            } else {
                match string_method_spec(g, class_name, method, args) {
                    Some(x) => Some(x),
                    None => declared_method_spec(g, class_name, method, args),
                }
            }
        },
    }
}

impl TypeChecker {
    pub(crate) fn named_method(
        &self,
        class_name: &str,
        bare_account: bool,
        method: &str,
        args: &Vec<Expr>,
    ) -> (r: Option<Result<Type, String>>)
        ensures
            (match r { Some(x) => Some(res_type_v(x)), None => None }) == named_method_spec(
                self.sem(),
                class_name@,
                bare_account,
                method@,
                exprs_v(args@),
            ),
        decreases args, 5nat,
    {
        match self.account_method(class_name, method, args) {
            Some(x) => {
                return Some(x);
            },
            None => {},
        }
        if bare_account && (
            same(method, "create")
            || same(method, "create2")
            || same(method, "create2_address")
        ) {
            return Some(self.create_method(method, args));
        }
        if same(class_name, "Crypto") && same(method, "verify_p256") {
            return Some(self.verify_p256(args));
        }
        match self.string_method(class_name, method, args) {
            Some(x) => {
                return Some(x);
            },
            None => {},
        }
        self.declared_method(class_name, method, args)
    }
}

pub open spec fn declared_method_spec(
    g: SemV,
    class_name: Seq<char>,
    method: Seq<char>,
    args: Seq<ExprV>,
) -> Option<Result<TypeV, Seq<char>>>
    decreases args, args.len() + 3,
{
    if g.w.classes.contains_key(class_name) {
        Some(class_method_spec(g, class_name, method))
    } else if g.w.enums.contains_key(class_name) {
        Some(variant_method_spec(g, class_name, method, args))
    } else {
        None
    }
}

impl TypeChecker {
    pub(crate) fn declared_method(
        &self,
        class_name: &str,
        method: &str,
        args: &Vec<Expr>,
    ) -> (r: Option<Result<Type, String>>)
        ensures
            (
                match r { Some(x) => Some(res_type_v(x)), None => None }
            ) == declared_method_spec(self.sem(), class_name@, method@, exprs_v(args@)),
        decreases args, 3nat,
    {
        if self.loaded_classes.has(class_name) {
            return Some(self.class_method(class_name, method));
        }
        if self.loaded_enums.has(class_name) {
            return Some(self.variant_method(class_name, method, args));
        }
        None
    }
}

/// Whether an expression is the code of an account.
pub open spec fn is_code_of_account_spec(g: SemV, e: ExprV) -> bool
    decreases e, 8nat,
{
    match e {
        ExprV::PropertyAccess { base, property } => {
            if property != "code"@ {
                false
            } else {
                match type_of_spec(g, *base) {
                    Ok(t) => {
                        match t {
                            TypeV::Primitive(n) => n == "Account"@,
                            _ => false,
                        }
                    },
                    Err(_) => false,
                }
            }
        },
        _ => false,
    }
}

impl TypeChecker {
    pub(crate) fn is_code_of_account(&self, e: &Expr) -> (r: bool)
        ensures
            r == is_code_of_account_spec(self.sem(), e@),
        decreases e, 8nat,
    {
        proof {
            reveal_with_fuel(Expr::view, 2);
        }
        match e {
            Expr::PropertyAccess { base, property } => {
                if !same(property.as_str(), "code") {
                    return false;
                }
                match self.type_of(base) {
                    Ok(t) => {
                        match &t {
                            Type::Primitive(n) => same(n.as_str(), "Account"),
                            _ => false,
                        }
                    },
                    Err(_) => false,
                }
            },
            _ => false,
        }
    }
}

/// Whether a call on the bare name of a class makes an instance: that of a function
/// which takes `self`.
pub open spec fn builds_spec(g: SemV, base: ExprV, method: Seq<char>) -> bool {
    match base {
        ExprV::Identifier(n) => symbol_type_spec(g, n) is None && takes_self_spec(g, n, method),
        _ => false,
    }
}

impl TypeChecker {
    pub(crate) fn builds(&self, base: &Expr, method: &str) -> (r: bool)
        ensures
            r == builds_spec(self.sem(), base@, method@),
    {
        match base {
            Expr::Identifier(n) => self.symbol_type(n.as_str()).is_none() && self.takes_self(
                n.as_str(),
                method,
            ),
            _ => false,
        }
    }
}

pub open spec fn eval_method_call_spec(g: SemV, e: ExprV) -> Result<TypeV, Seq<char>>
    decreases e, 8nat,
{
    match e {
        ExprV::MethodCall { base, method, args } => {
            if is_name_spec(*base, "super"@) {
                eval_super_call_spec(g, method)
            } else if is_name_spec(*base, "Abi"@) && (
                method == "encode"@
                || method == "encode_packed"@
            ) {
                Ok(TypeV::Primitive("Bytes"@))
            } else if method == "len"@ && is_code_of_account_spec(g, *base) {
                Ok(TypeV::Primitive("u256"@))
            } else {
                match type_of_spec(g, *base) {
                    Ok(t) => {
                        if builds_spec(g, *base, method) {
                            Ok(t)
                        } else {
                            match generic_method_spec(g, t, method) {
                                Some(u) => Ok(u),
                                None => {
                                    match numeric_method_spec(t, method) {
                                        Some(u) => Ok(u),
                                        None => {
                                            match t {
                                                TypeV::Primitive(class_name) => {
                                                    match named_method_spec(
                                                        g,
                                                        class_name,
                                                        is_name_spec(*base, "Account"@),
                                                        method,
                                                        args,
                                                    ) {
                                                        Some(x) => x,
                                                        None => Err(
                                                            "Cannot call method '"@
                                                            + method
                                                            + "' on type "@
                                                            + debugged(t)
                                                        ),
                                                    }
                                                },
                                                TypeV::Array(inner) => {
                                                    match array_method_spec(
                                                        g,
                                                        *inner,
                                                        method,
                                                        args,
                                                    ) {
                                                        Some(x) => x,
                                                        None => Err(
                                                            "Cannot call method '"@
                                                            + method
                                                            + "' on type "@
                                                            + debugged(t)
                                                        ),
                                                    }
                                                },
                                                _ => Err(
                                                    "Cannot call method '"@
                                                    + method
                                                    + "' on type "@
                                                    + debugged(t)
                                                ),
                                            }
                                        },
                                    }
                                },
                            }
                        }
                    },
                    Err(e) => Err(e),
                }
            }
        },
        _ => Ok(TypeV::Primitive("unknown"@)),
    }
}

impl TypeChecker {
    pub(crate) fn eval_method_call(&self, e: &Expr) -> (r: Result<Type, String>)
        ensures
            res_type_v(r) == eval_method_call_spec(self.sem(), e@),
        decreases e, 8nat,
    {
        proof {
            reveal_with_fuel(Expr::view, 2);
        }
        match e {
            Expr::MethodCall { base, method, args } => {
                if is_name(base, "super") {
                    return self.eval_super_call(method.as_str());
                }
                if is_name(base, "Abi") && (
                    same(method.as_str(), "encode")
                    || same(method.as_str(), "encode_packed")
                ) {
                    return Ok(Type::Primitive(String::from_str("Bytes")));
                }
                if same(method.as_str(), "len") && self.is_code_of_account(base) {
                    return Ok(Type::Primitive(String::from_str("u256")));
                }
                let t = match self.type_of(base) {
                    Ok(t) => t,
                    Err(e) => {
                        return Err(e);
                    },
                };
                if self.builds(base, method.as_str()) {
                    return Ok(t);
                }
                match self.generic_method(&t, method.as_str()) {
                    Some(u) => {
                        return Ok(u);
                    },
                    None => {},
                }
                match numeric_method(&t, method.as_str()) {
                    Some(u) => {
                        return Ok(u);
                    },
                    None => {},
                }
                match &t {
                    Type::Primitive(class_name) => {
                        match self.named_method(
                            class_name.as_str(),
                            is_name(base, "Account"),
                            method.as_str(),
                            args,
                        ) {
                            Some(x) => x,
                            None => Err(
                                cat4(
                                    "Cannot call method '",
                                    method.as_str(),
                                    "' on type ",
                                    debug_type(&t).as_str(),
                                )
                            ),
                        }
                    },
                    Type::Array(inner) => {
                        match self.array_method(inner, method.as_str(), args) {
                            Some(x) => x,
                            None => Err(
                                cat4(
                                    "Cannot call method '",
                                    method.as_str(),
                                    "' on type ",
                                    debug_type(&t).as_str(),
                                )
                            ),
                        }
                    },
                    _ => Err(
                        cat4(
                            "Cannot call method '",
                            method.as_str(),
                            "' on type ",
                            debug_type(&t).as_str(),
                        )
                    ),
                }
            },
            _ => Ok(Type::Primitive(String::from_str("unknown"))),
        }
    }
}

pub open spec fn named_property_spec(
    g: SemV,
    name: Seq<char>,
    property: Seq<char>,
    t: TypeV,
) -> Result<TypeV, Seq<char>> {
    if g.w.classes.contains_key(name) {
        match class_field_spec(g, name, property) {
            Some(u) => Ok(u),
            None => Err("Property '"@ + property + "' not found on class '"@ + name + "'"@),
        }
    } else if g.w.enums.contains_key(name) {
        match payload_spec(g, name, property) {
            Some(p) => {
                if p is Some {
                    Err("Enum variant '"@ + name + "."@ + property + "' requires a payload"@)
                } else {
                    Ok(TypeV::Primitive(name))
                }
            },
            None => Err("Variant '"@ + property + "' not found on enum '"@ + name + "'"@),
        }
    } else {
        Err("Cannot access property '"@ + property + "' on type "@ + debugged(t))
    }
}

impl TypeChecker {
    pub(crate) fn named_property(
        &self,
        name: &str,
        property: &str,
        t: &Type,
    ) -> (r: Result<Type, String>)
        ensures
            res_type_v(r) == named_property_spec(self.sem(), name@, property@, t@),
    {
        if self.loaded_classes.has(name) {
            match self.class_field(name, property) {
                Some(u) => {
                    return Ok(u);
                },
                None => {
                    return Err(cat5("Property '", property, "' not found on class '", name, "'"));
                },
            }
        }
        if self.loaded_enums.has(name) {
            match self.payload_of(name, property) {
                Some(p) => {
                    if p.is_some() {
                        return Err(
                            cat5("Enum variant '", name, ".", property, "' requires a payload")
                        );
                    }
                    return Ok(Type::Primitive(String::from_str(name)));
                },
                None => {
                    return Err(cat5("Variant '", property, "' not found on enum '", name, "'"));
                },
            }
        }
        Err(cat4("Cannot access property '", property, "' on type ", debug_type(t).as_str()))
    }
}

pub open spec fn eval_property_spec(g: SemV, e: ExprV) -> Result<TypeV, Seq<char>>
    decreases e, 8nat,
{
    match e {
        ExprV::PropertyAccess { base, property } => {
            if is_name_spec(*base, "Vm"@) && property == "sender"@ {
                Ok(TypeV::Primitive("Account"@))
            } else {
                match type_of_spec(g, *base) {
                    Ok(t) => {
                        match t {
                            TypeV::Primitive(name) => named_property_spec(g, name, property, t),
                            TypeV::Generic { .. } => Err(
                                "Cannot access property '"@
                                + property
                                + "' on type "@
                                + debugged(t)
                            ),
                            _ => {
                                if property == "length"@ {
                                    Ok(TypeV::Primitive("u256"@))
                                } else {
                                    Err(
                                        "Cannot access property '"@
                                        + property
                                        + "' on type "@
                                        + debugged(t)
                                    )
                                }
                            },
                        }
                    },
                    Err(e) => Err(e),
                }
            }
        },
        _ => Ok(TypeV::Primitive("unknown"@)),
    }
}

impl TypeChecker {
    pub(crate) fn eval_property(&self, e: &Expr) -> (r: Result<Type, String>)
        ensures
            res_type_v(r) == eval_property_spec(self.sem(), e@),
        decreases e, 8nat,
    {
        match e {
            Expr::PropertyAccess { base, property } => {
                if is_name(base, "Vm") && same(property.as_str(), "sender") {
                    return Ok(Type::Primitive(String::from_str("Account")));
                }
                let t = match self.type_of(base) {
                    Ok(t) => t,
                    Err(e) => {
                        return Err(e);
                    },
                };
                match &t {
                    Type::Primitive(name) => self.named_property(
                        name.as_str(),
                        property.as_str(),
                        &t,
                    ),
                    Type::Generic { .. } => Err(
                        cat4(
                            "Cannot access property '",
                            property.as_str(),
                            "' on type ",
                            debug_type(&t).as_str(),
                        )
                    ),
                    _ => {
                        if same(property.as_str(), "length") {
                            return Ok(Type::Primitive(String::from_str("u256")));
                        }
                        Err(
                            cat4(
                                "Cannot access property '",
                                property.as_str(),
                                "' on type ",
                                debug_type(&t).as_str(),
                            )
                        )
                    },
                }
            },
            _ => Ok(Type::Primitive(String::from_str("unknown"))),
        }
    }
}

pub open spec fn eval_index_spec(g: SemV, e: ExprV) -> Result<TypeV, Seq<char>>
    decreases e, 8nat,
{
    match e {
        ExprV::IndexAccess { base, index } => {
            match type_of_spec(g, *base) {
                Ok(t) => {
                    match t {
                        TypeV::Primitive(_) => {
                            if !str_type(t) {
                                Err("Cannot index into type "@ + debugged(t))
                            } else {
                                match type_of_spec(g, *index) {
                                    Ok(i) => {
                                        if !unsigned_type_spec(i) {
                                            Err(
                                                "Index into a "@
                                                + debugged(t)
                                                + " must be an unsigned integer, got "@
                                                + debugged(i)
                                            )
                                        } else {
                                            Ok(TypeV::Primitive("u8"@))
                                        }
                                    },
                                    Err(e) => Err(e),
                                }
                            }
                        },
                        TypeV::Generic { name, args } => {
                            if name == "HashMap"@ && args.len() == 2 {
                                match type_of_spec(g, *index) {
                                    Ok(k) => {
                                        if !is_assignable_spec(g, args[0], k) {
                                            Err(
                                                "Invalid key type for HashMap. Expected "@
                                                + debugged(args[0])
                                                + ", got "@
                                                + debugged(k)
                                            )
                                        } else {
                                            Ok(args[1])
                                        }
                                    },
                                    Err(e) => Err(e),
                                }
                            } else {
                                Err("Cannot index into type "@ + debugged(t))
                            }
                        },
                        TypeV::Array(inner) => Ok(*inner),
                        TypeV::FixedArray(inner, _) => Ok(*inner),
                    }
                },
                Err(e) => Err(e),
            }
        },
        _ => Ok(TypeV::Primitive("unknown"@)),
    }
}

impl TypeChecker {
    pub(crate) fn eval_index(&self, e: &Expr) -> (r: Result<Type, String>)
        ensures
            res_type_v(r) == eval_index_spec(self.sem(), e@),
        decreases e, 8nat,
    {
        proof {
            reveal_with_fuel(Type::view, 2);
            reveal_with_fuel(Expr::view, 2);
        }
        match e {
            Expr::IndexAccess { base, index } => {
                let t = match self.type_of(base) {
                    Ok(t) => t,
                    Err(e) => {
                        return Err(e);
                    },
                };
                match &t {
                    Type::Primitive(_) => {
                        if !is_str_type(&t) {
                            return Err(cat2("Cannot index into type ", debug_type(&t).as_str()));
                        }
                        let i = match self.type_of(index) {
                            Ok(t) => t,
                            Err(e) => {
                                return Err(e);
                            },
                        };
                        if !unsigned_type(&i) {
                            return Err(
                                cat4(
                                    "Index into a ",
                                    debug_type(&t).as_str(),
                                    " must be an unsigned integer, got ",
                                    debug_type(&i).as_str(),
                                )
                            );
                        }
                        Ok(Type::Primitive(String::from_str("u8")))
                    },
                    Type::Generic { name, args } => {
                        if same(name.as_str(), "HashMap") && args.len() == 2 {
                            let k = match self.type_of(index) {
                                Ok(t) => t,
                                Err(e) => {
                                    return Err(e);
                                },
                            };
                            if !self.is_assignable(&args[0], &k) {
                                return Err(
                                    cat4(
                                        "Invalid key type for HashMap. Expected ",
                                        debug_type(&args[0]).as_str(),
                                        ", got ",
                                        debug_type(&k).as_str(),
                                    )
                                );
                            }
                            return Ok(args[1].clone());
                        }
                        Err(cat2("Cannot index into type ", debug_type(&t).as_str()))
                    },
                    Type::Array(inner) => Ok((**inner).clone()),
                    Type::FixedArray(inner, _) => Ok((**inner).clone()),
                }
            },
            _ => Ok(Type::Primitive(String::from_str("unknown"))),
        }
    }
}

pub open spec fn eval_binary_spec(g: SemV, e: ExprV) -> Result<TypeV, Seq<char>>
    decreases e, 8nat,
{
    match e {
        ExprV::BinaryOp { left, operator, right } => {
            match type_of_spec(g, *left) {
                Ok(l) => {
                    match type_of_spec(g, *right) {
                        Ok(x) => {
                            if operator == "+"@ || operator == "-"@ || operator == "*"@ || operator == "/"@ || operator == "%"@ || operator == "**"@ {
                                if !numeric_type_spec(l) || !numeric_type_spec(x) {
                                    Err(
                                        "Binary operator '"@
                                        + operator
                                        + "' requires numeric types. Found "@
                                        + debugged(l)
                                        + " and "@
                                        + debugged(x)
                                    )
                                } else {
                                    Ok(l)
                                }
                            } else if operator == "=="@ || operator == "!="@ || operator == "<"@ || operator == "<="@ || operator == ">"@ || operator == ">="@ {
                                if !is_assignable_spec(g, l, x) && !is_assignable_spec(g, x, l) {
                                    Err("Cannot compare "@ + debugged(l) + " and "@ + debugged(x))
                                } else {
                                    Ok(TypeV::Primitive("bool"@))
                                }
                            } else if operator == "&&"@ || operator == "||"@ {
                                if !bool_type_spec(l) || !bool_type_spec(x) {
                                    Err(
                                        "Logical operator '"@
                                        + operator
                                        + "' requires bool types. Found "@
                                        + debugged(l)
                                        + " and "@
                                        + debugged(x)
                                    )
                                } else {
                                    Ok(TypeV::Primitive("bool"@))
                                }
                            } else {
                                Ok(l)
                            }
                        },
                        Err(e) => Err(e),
                    }
                },
                Err(e) => Err(e),
            }
        },
        _ => Ok(TypeV::Primitive("unknown"@)),
    }
}

impl TypeChecker {
    pub(crate) fn eval_binary(&self, e: &Expr) -> (r: Result<Type, String>)
        ensures
            res_type_v(r) == eval_binary_spec(self.sem(), e@),
        decreases e, 8nat,
    {
        match e {
            Expr::BinaryOp { left, operator, right } => {
                let l = match self.type_of(left) {
                    Ok(t) => t,
                    Err(e) => {
                        return Err(e);
                    },
                };
                let x = match self.type_of(right) {
                    Ok(t) => t,
                    Err(e) => {
                        return Err(e);
                    },
                };
                if same(operator.as_str(), "+") || same(operator.as_str(), "-") || same(operator.as_str(), "*") || same(operator.as_str(), "/") || same(operator.as_str(), "%") || same(
                    operator.as_str(),
                    "**",
                ) {
                    if !numeric_type(&l) || !numeric_type(&x) {
                        return Err(
                            cat6(
                                "Binary operator '",
                                operator.as_str(),
                                "' requires numeric types. Found ",
                                debug_type(&l).as_str(),
                                " and ",
                                debug_type(&x).as_str(),
                            )
                        );
                    }
                    return Ok(l);
                }
                if same(
                    operator.as_str(),
                    "==",
                ) || same(operator.as_str(), "!=") || same(operator.as_str(), "<") || same(operator.as_str(), "<=") || same(operator.as_str(), ">") || same(operator.as_str(), ">=") {
                    if !self.is_assignable(&l, &x) && !self.is_assignable(&x, &l) {
                        return Err(
                            cat4(
                                "Cannot compare ",
                                debug_type(&l).as_str(),
                                " and ",
                                debug_type(&x).as_str(),
                            )
                        );
                    }
                    return Ok(Type::Primitive(String::from_str("bool")));
                }
                if same(operator.as_str(), "&&") || same(operator.as_str(), "||") {
                    if !bool_type(&l) || !bool_type(&x) {
                        return Err(
                            cat6(
                                "Logical operator '",
                                operator.as_str(),
                                "' requires bool types. Found ",
                                debug_type(&l).as_str(),
                                " and ",
                                debug_type(&x).as_str(),
                            )
                        );
                    }
                    return Ok(Type::Primitive(String::from_str("bool")));
                }
                Ok(l)
            },
            _ => Ok(Type::Primitive(String::from_str("unknown"))),
        }
    }
}

pub open spec fn negated_spec(t: TypeV) -> TypeV {
    match t {
        TypeV::Primitive(n) => {
            if uint_name(n) || sint_name(n) {
                TypeV::Primitive("i256"@)
            } else {
                t
            }
        },
        _ => t,
    }
}

pub(crate) fn negated(t: &Type) -> (r: Type)
    ensures
        r@ == negated_spec(t@),
{
    match t {
        Type::Primitive(n) => {
            if is_uint_name(n.as_str()) || is_sint_name(n.as_str()) {
                return Type::Primitive(String::from_str("i256"));
            }
            t.clone()
        },
        _ => t.clone(),
    }
}

/// The type of an expression, or why it has none.
pub open spec fn type_of_spec(g: SemV, e: ExprV) -> Result<TypeV, Seq<char>>
    decreases e, 9nat,
{
    match e {
        ExprV::Number(_) => Ok(TypeV::Primitive("u256"@)),
        ExprV::StringLiteral(_) => Ok(TypeV::Primitive("String"@)),
        ExprV::Identifier(name) => eval_identifier_spec(g, name),
        ExprV::FnCall { name, args } => eval_call_spec(g, name, args),
        ExprV::Instantiation { type_def, args } => eval_instantiation_spec(g, type_def, args),
        ExprV::StaticCall { type_def, .. } => Ok(type_def),
        ExprV::MethodCall { .. } => eval_method_call_spec(g, e),
        ExprV::PropertyAccess { .. } => eval_property_spec(g, e),
        ExprV::IndexAccess { .. } => eval_index_spec(g, e),
        ExprV::BinaryOp { .. } => eval_binary_spec(g, e),
        ExprV::FString(segs) => {
            match segs_spec(g, segs, segs.len()) {
                Ok(_) => Ok(TypeV::Primitive("String"@)),
                Err(e) => Err(e),
            }
        },
        ExprV::Neg(inner) => {
            match type_of_spec(g, *inner) {
                Ok(t) => Ok(negated_spec(t)),
                Err(e) => Err(e),
            }
        },
        ExprV::Not(inner) => {
            match type_of_spec(g, *inner) {
                Ok(t) => {
                    if !bool_type_spec(t) {
                        Err("Logical NOT ('!') requires a bool operand, found "@ + debugged(t))
                    } else {
                        Ok(TypeV::Primitive("bool"@))
                    }
                },
                Err(e) => Err(e),
            }
        },
        ExprV::ArrayLiteral(xs) => {
            if xs.len() == 0 {
                Ok(TypeV::FixedArray(Box::new(TypeV::Primitive("u256"@)), 0usize))
            } else {
                match type_of_spec(g, xs[0]) {
                    Ok(first) => {
                        match shared_spec(g, xs, first, xs.len()) {
                            Ok(_) => {
                                let n = xs.len() as usize;
                                Ok(TypeV::FixedArray(Box::new(first), n))
                            },
                            Err(e) => Err(e),
                        }
                    },
                    Err(e) => Err(e),
                }
            }
        },
    }
}

impl TypeChecker {
    #[verifier::rlimit(30)]
    pub(crate) fn type_of(&self, e: &Expr) -> (r: Result<Type, String>)
        ensures
            res_type_v(r) == type_of_spec(self.sem(), e@),
        decreases e, 9nat,
    {
        proof {
            reveal_with_fuel(Type::view, 2);
            reveal_with_fuel(Expr::view, 2);
        }
        match e {
            Expr::Number(_) => Ok(Type::Primitive(String::from_str("u256"))),
            Expr::StringLiteral(_) => Ok(Type::Primitive(String::from_str("String"))),
            Expr::Identifier(name) => self.eval_identifier(name.as_str()),
            Expr::FnCall { name, args } => self.eval_call(name.as_str(), args),
            Expr::Instantiation { type_def, args } => self.eval_instantiation(type_def, args),
            Expr::StaticCall { type_def, .. } => Ok(type_def.clone()),
            Expr::MethodCall { .. } => self.eval_method_call(e),
            Expr::PropertyAccess { .. } => self.eval_property(e),
            Expr::IndexAccess { .. } => self.eval_index(e),
            Expr::BinaryOp { .. } => self.eval_binary(e),
            Expr::FString(segs) => {
                match self.eval_segs(segs) {
                    Ok(_) => {},
                    Err(e) => {
                        return Err(e);
                    },
                }
                Ok(Type::Primitive(String::from_str("String")))
            },
            Expr::Neg(inner) => {
                let t = match self.type_of(inner) {
                    Ok(t) => t,
                    Err(e) => {
                        return Err(e);
                    },
                };
                Ok(negated(&t))
            },
            Expr::Not(inner) => {
                let t = match self.type_of(inner) {
                    Ok(t) => t,
                    Err(e) => {
                        return Err(e);
                    },
                };
                if !bool_type(&t) {
                    return Err(
                        cat2(
                            "Logical NOT ('!') requires a bool operand, found ",
                            debug_type(&t).as_str(),
                        )
                    );
                }
                Ok(Type::Primitive(String::from_str("bool")))
            },
            Expr::ArrayLiteral(xs) => {
                if xs.len() == 0 {
                    return Ok(
                        Type::FixedArray(Box::new(Type::Primitive(String::from_str("u256"))), 0)
                    );
                }
                assert(decreases_to!(*xs => xs@[0]));
                let first = match self.type_of(&xs[0]) {
                    Ok(t) => t,
                    Err(e) => {
                        return Err(e);
                    },
                };
                match self.eval_shared(xs, &first) {
                    Ok(_) => {},
                    Err(e) => {
                        return Err(e);
                    },
                }
                let n: usize = xs.len();
                Ok(Type::FixedArray(Box::new(first), n))
            },
        }
    }
}

/// Whether the expressions from `from` on, among the first `n`, are unsigned
/// integers; `lead` begins the message where one is not.
pub open spec fn uints_spec(g: SemV, args: Seq<ExprV>, from: nat, lead: Seq<char>, n: nat) -> Result<
    (),
    Seq<char>,
>
    decreases args, n,
{
    if n <= from || n > args.len() {
        Ok(())
    } else {
        match uints_spec(g, args, from, lead, (n - 1) as nat) {
            Ok(_) => match type_of_spec(g, args[n - 1]) {
                Ok(t) => if unsigned_type_spec(t) {
                    Ok(())
                } else {
                    Err(lead + debugged(t))
                },
                Err(e) => Err(e),
            },
            Err(e) => Err(e),
        }
    }
}

/// Whether the first `n` elements can stand in an array whose first element has
/// the type `t`.
pub open spec fn shared_spec(g: SemV, args: Seq<ExprV>, t: TypeV, n: nat) -> Result<(), Seq<char>>
    decreases args, n,
{
    if n <= 1 || n > args.len() {
        Ok(())
    } else {
        match shared_spec(g, args, t, (n - 1) as nat) {
            Ok(_) => match type_of_spec(g, args[n - 1]) {
                Ok(u) => if is_assignable_spec(g, t, u) {
                    Ok(())
                } else {
                    Err(
                        "Array literal elements must share a type. Expected "@ + debugged(t)
                            + ", found "@ + debugged(u),
                    )
                },
                Err(e) => Err(e),
            },
            Err(e) => Err(e),
        }
    }
}

/// Whether the first `n` parts of a text with gaps have types.
pub open spec fn segs_spec(g: SemV, segs: Seq<SegV>, n: nat) -> Result<(), Seq<char>>
    decreases segs, n,
{
    if n == 0 || n > segs.len() {
        Ok(())
    } else {
        match segs_spec(g, segs, (n - 1) as nat) {
            Ok(_) => match segs[n - 1] {
                SegV::Interp(e) => match type_of_spec(g, e) {
                    Ok(_) => Ok(()),
                    Err(x) => Err(x),
                },
                SegV::Literal(_) => Ok(()),
            },
            Err(e) => Err(e),
        }
    }
}

proof fn lemma_uints_err(g: SemV, args: Seq<ExprV>, from: nat, lead: Seq<char>, n: nat, m: nat)
    requires
        n <= m <= args.len(),
        uints_spec(g, args, from, lead, n) is Err,
    ensures
        uints_spec(g, args, from, lead, m) == uints_spec(g, args, from, lead, n),
    decreases m - n,
{
    if n < m {
        lemma_uints_err(g, args, from, lead, n, (m - 1) as nat);
    }
}

proof fn lemma_shared_err(g: SemV, args: Seq<ExprV>, t: TypeV, n: nat, m: nat)
    requires
        n <= m <= args.len(),
        shared_spec(g, args, t, n) is Err,
    ensures
        shared_spec(g, args, t, m) == shared_spec(g, args, t, n),
    decreases m - n,
{
    if n < m {
        lemma_shared_err(g, args, t, n, (m - 1) as nat);
    }
}

proof fn lemma_segs_err(g: SemV, segs: Seq<SegV>, n: nat, m: nat)
    requires
        n <= m <= segs.len(),
        segs_spec(g, segs, n) is Err,
    ensures
        segs_spec(g, segs, m) == segs_spec(g, segs, n),
    decreases m - n,
{
    if n < m {
        lemma_segs_err(g, segs, n, (m - 1) as nat);
    }
}

impl TypeChecker {
    fn eval_uints(&self, args: &Vec<Expr>, from: usize, lead: &str) -> (r: Result<(), String>)
        ensures
            res_unit_v(r) == uints_spec(
                self.sem(),
                exprs_v(args@),
                from as nat,
                lead@,
                args@.len(),
            ),
        decreases args, 0nat,
    {
        let ghost g = self.sem();
        let ghost av = exprs_v(args@);
        let mut i: usize = from;
        while i < args.len()
            invariant
                from <= i,
                g == self.sem(),
                av == exprs_v(args@),
                i <= args@.len() || i == from,
                uints_spec(g, av, from as nat, lead@, i as nat) is Ok,
            decreases args@.len() - i,
        {
            let x: &Expr = &args[i];
            proof {
                assert(decreases_to!(*args => *x));
                assert(av[i as int] == x@);
            }
            let ghost out = uints_spec(g, av, from as nat, lead@, (i + 1) as nat);
            match self.type_of(x) {
                Ok(t) => {
                    if !unsigned_type(&t) {
                        proof {
                            lemma_uints_err(g, av, from as nat, lead@, (i + 1) as nat, av.len());
                        }
                        return Err(cat2(lead, debug_type(&t).as_str()));
                    }
                },
                Err(e) => {
                    proof {
                        lemma_uints_err(g, av, from as nat, lead@, (i + 1) as nat, av.len());
                    }
                    return Err(e);
                },
            }
            i += 1;
        }
        Ok(())
    }

    fn eval_shared(&self, args: &Vec<Expr>, t: &Type) -> (r: Result<(), String>)
        ensures
            res_unit_v(r) == shared_spec(self.sem(), exprs_v(args@), t@, args@.len()),
        decreases args, 0nat,
    {
        let ghost g = self.sem();
        let ghost av = exprs_v(args@);
        if args.len() == 0 {
            return Ok(());
        }
        let mut i: usize = 1;
        while i < args.len()
            invariant
                1 <= i <= args@.len(),
                g == self.sem(),
                av == exprs_v(args@),
                shared_spec(g, av, t@, i as nat) is Ok,
            decreases args@.len() - i,
        {
            let x: &Expr = &args[i];
            proof {
                assert(decreases_to!(*args => *x));
                assert(av[i as int] == x@);
            }
            match self.type_of(x) {
                Ok(u) => {
                    if !self.is_assignable(t, &u) {
                        proof {
                            lemma_shared_err(g, av, t@, (i + 1) as nat, av.len());
                        }
                        return Err(
                            cat4(
                                "Array literal elements must share a type. Expected ",
                                debug_type(t).as_str(),
                                ", found ",
                                debug_type(&u).as_str(),
                            ),
                        );
                    }
                },
                Err(e) => {
                    proof {
                        lemma_shared_err(g, av, t@, (i + 1) as nat, av.len());
                    }
                    return Err(e);
                },
            }
            i += 1;
        }
        Ok(())
    }

    fn eval_segs(&self, segs: &Vec<FStringSegment>) -> (r: Result<(), String>)
        ensures
            res_unit_v(r) == segs_spec(self.sem(), segs_v(segs@), segs@.len()),
        decreases segs, 0nat,
    {
        let ghost g = self.sem();
        let ghost sv = segs_v(segs@);
        let mut i: usize = 0;
        while i < segs.len()
            invariant
                i <= segs@.len(),
                g == self.sem(),
                sv == segs_v(segs@),
                segs_spec(g, sv, i as nat) is Ok,
            decreases segs@.len() - i,
        {
            let s: &FStringSegment = &segs[i];
            proof {
                assert(decreases_to!(*segs => *s));
                assert(sv[i as int] == s@);
            }
            match s {
                FStringSegment::Interp(x) => {
                    match self.type_of(x) {
                        Ok(_) => {},
                        Err(e) => {
                            proof {
                                lemma_segs_err(g, sv, (i + 1) as nat, sv.len());
                            }
                            return Err(e);
                        },
                    }
                },
                FStringSegment::Literal(_) => {},
            }
            i += 1;
        }
        Ok(())
    }
}

} // verus!
