//! The types that code generation gives to expressions.
use crate::ast::{exprs_v, find_method, method_named, types_v, Expr, ExprV, Type, TypeV};
use crate::codegen::generics::{bind_args, bound_args, subst_spec, substitute_type};
use crate::codegen::layout::size_spec;
use crate::codegen::translator::{
    any_self_spec, class_of_spec, field_type_spec, fn_type_spec, local_type_spec, method_of_spec,
    variant_pos_spec, Ctx, CtxV, EnvV, Translator,
};
use crate::codegen::yul::{
    is_numeric_primitive, is_str_type, is_struct_type, numeric_meta, numeric_name, numeric_spec,
    opt_text, str_type, struct_type,
};
use crate::semantic::payload_enum;
use crate::text::{
    begins_char, cat5, dec, dec_text, has_text, parse_spec, parse_usize, rest, same,
    starts_with_char,
};
use vstd::prelude::*;

verus! {

broadcast use crate::ast::group_views;

/// Whether an expression is the bare name `name`.
pub open spec fn is_ident_spec(e: ExprV, name: Seq<char>) -> bool {
    match e {
        ExprV::Identifier(n) => n == name,
        _ => false,
    }
}

pub(crate) fn is_ident(e: &Expr, name: &str) -> (r: bool)
    ensures
        r == is_ident_spec(e@, name@),
{
    match e {
        Expr::Identifier(n) => same(n.as_str(), name),
        _ => false,
    }
}

/// The name that an expression is, where it is a bare name.
pub open spec fn ident_name_spec(e: ExprV) -> Option<Seq<char>> {
    match e {
        ExprV::Identifier(n) => Some(n),
        _ => None,
    }
}

pub(crate) fn ident_name(e: &Expr) -> (r: Option<String>)
    ensures
        opt_text(r) == ident_name_spec(e@),
{
    match e {
        Expr::Identifier(n) => Some(n.clone()),
        _ => None,
    }
}

/// Whether a class names `ancestor` as a parent.
pub open spec fn is_parent_spec(g: EnvV, class_name: Seq<char>, ancestor: Seq<char>) -> bool {
    match class_of_spec(g, class_name) {
        Some(c) => c.parents.contains(ancestor),
        None => false,
    }
}

impl<'a> Translator<'a> {
    pub(crate) fn is_parent(&self, class_name: &str, ancestor: &str) -> (r: bool)
        ensures
            r == is_parent_spec(self.env(), class_name@, ancestor@),
    {
        match self.class_of(class_name) {
            Some(c) => has_text(&c.parents, ancestor),
            None => false,
        }
    }
}

/// The class of `self`, where `name` is `self`.
pub open spec fn self_class_spec(g: EnvV, cx: CtxV, name: Seq<char>) -> Option<Seq<char>> {
    if name == "self"@ {
        any_self_spec(cx)
    } else {
        None
    }
}

impl<'a> Translator<'a> {
    pub(crate) fn self_class(&self, cx: &Ctx, name: &str) -> (r: Option<String>)
        ensures
            opt_text(r) == self_class_spec(self.env(), cx@, name@),
    {
        if same(name, "self") {
            cx.any_self()
        } else {
            None
        }
    }
}

pub open spec fn ident_type_spec(g: EnvV, cx: CtxV, name: Seq<char>) -> TypeV {
    match self_class_spec(g, cx, name) {
        Some(c) => TypeV::Primitive(c),
        None => {
            match local_type_spec(cx, name) {
                Some(t) => t,
                None => {
                    if name == "true"@ || name == "false"@ {
                        TypeV::Primitive("bool"@)
                    } else if g.w.classes.contains_key(name) || g.w.enums.contains_key(name) {
                        TypeV::Primitive(name)
                    } else {
                        TypeV::Primitive("unknown"@)
                    }
                },
            }
        },
    }
}

impl<'a> Translator<'a> {
    pub(crate) fn ident_type(&self, cx: &Ctx, name: &str) -> (r: Type)
        ensures
            r@ == ident_type_spec(self.env(), cx@, name@),
    {
        match self.self_class(cx, name) {
            Some(c) => {
                return Type::Primitive(c);
            },
            None => {},
        }
        match cx.local_type(name) {
            Some(t) => {
                return t;
            },
            None => {},
        }
        if same(name, "true") || same(name, "false") {
            return Type::Primitive(String::from_str("bool"));
        }
        if self.layout_engine.type_checker.loaded_classes.has(
            name
        ) || self.layout_engine.type_checker.loaded_enums.has(name) {
            return Type::Primitive(String::from_str(name));
        }
        Type::Primitive(String::from_str("unknown"))
    }
}

/// An array has a length.
pub open spec fn length_type_spec(property: Seq<char>) -> TypeV {
    if property == "length"@ {
        TypeV::Primitive("u256"@)
    } else {
        TypeV::Primitive("unknown"@)
    }
}

pub(crate) fn length_type(property: &str) -> (r: Type)
    ensures
        r@ == length_type_spec(property@),
{
    if same(property, "length") {
        return Type::Primitive(String::from_str("u256"));
    }
    Type::Primitive(String::from_str("unknown"))
}

pub open spec fn property_type_spec(g: EnvV, t: TypeV, property: Seq<char>) -> TypeV {
    match t {
        TypeV::Primitive(class_name) => {
            if class_name == "Account"@ && property == "code"@ {
                TypeV::Primitive("AccountCode"@)
            } else {
                match field_type_spec(g, class_name, property) {
                    Some(f) => f,
                    None => {
                        if is_parent_spec(
                            g,
                            class_name,
                            property,
                        ) && g.w.classes.contains_key(property) {
                            TypeV::Primitive(property)
                        } else if g.w.enums.contains_key(class_name) {
                            TypeV::Primitive(class_name)
                        } else {
                            TypeV::Primitive("unknown"@)
                        }
                    },
                }
            }
        },
        TypeV::Array(_) => length_type_spec(property),
        TypeV::FixedArray(_, _) => length_type_spec(property),
        TypeV::Generic { .. } => TypeV::Primitive("unknown"@),
    }
}

impl<'a> Translator<'a> {
    pub(crate) fn property_type(&self, t: &Type, property: &str) -> (r: Type)
        ensures
            r@ == property_type_spec(self.env(), t@, property@),
    {
        match t {
            Type::Primitive(class_name) => {
                if same(class_name.as_str(), "Account") && same(property, "code") {
                    return Type::Primitive(String::from_str("AccountCode"));
                }
                match self.field_type(class_name.as_str(), property) {
                    Some(f) => {
                        return f;
                    },
                    None => {},
                }
                if self.is_parent(
                    class_name.as_str(),
                    property,
                ) && self.layout_engine.type_checker.loaded_classes.has(property) {
                    return Type::Primitive(String::from_str(property));
                }
                if self.layout_engine.type_checker.loaded_enums.has(class_name.as_str()) {
                    return Type::Primitive(class_name.clone());
                }
                Type::Primitive(String::from_str("unknown"))
            },
            Type::Array(_) => length_type(property),
            Type::FixedArray(_, _) => length_type(property),
            Type::Generic { .. } => Type::Primitive(String::from_str("unknown")),
        }
    }
}

pub open spec fn index_type_spec(t: TypeV) -> TypeV {
    match t {
        TypeV::Generic { name, args } => {
            if name == "HashMap"@ && args.len() == 2 {
                args[1]
            } else {
                TypeV::Primitive("unknown"@)
            }
        },
        TypeV::Array(inner) => *inner,
        TypeV::FixedArray(inner, _) => *inner,
        TypeV::Primitive(_) => TypeV::Primitive("unknown"@),
    }
}

pub(crate) fn index_type(t: &Type) -> (r: Type)
    ensures
        r@ == index_type_spec(t@),
{
    proof {
        reveal_with_fuel(Type::view, 2);
    }
    match t {
        Type::Generic { name, args } => {
            if same(name.as_str(), "HashMap") && args.len() == 2 {
                return args[1].clone();
            }
            Type::Primitive(String::from_str("unknown"))
        },
        Type::Array(inner) => (**inner).clone(),
        Type::FixedArray(inner, _) => (**inner).clone(),
        Type::Primitive(_) => Type::Primitive(String::from_str("unknown")),
    }
}

/// What a method says it returns.
pub open spec fn declared_type_spec(g: EnvV, class_name: Seq<char>, method: Seq<char>) -> TypeV {
    match method_of_spec(g, class_name, method) {
        Some(m) => {
            match m.return_type {
                Some(t) => t,
                None => TypeV::Primitive("unknown"@),
            }
        },
        None => TypeV::Primitive("unknown"@),
    }
}

impl<'a> Translator<'a> {
    pub(crate) fn declared_type(&self, class_name: &str, method: &str) -> (r: Type)
        ensures
            r@ == declared_type_spec(self.env(), class_name@, method@),
    {
        match self.method_of(class_name, method) {
            Some(m) => {
                match &m.return_type {
                    Some(t) => t.clone(),
                    None => Type::Primitive(String::from_str("unknown")),
                }
            },
            None => Type::Primitive(String::from_str("unknown")),
        }
    }
}

/// What a method of a generic class says it returns, for the arguments it is made for.
pub open spec fn made_type_spec(
    g: EnvV,
    class: Seq<char>,
    args: Seq<TypeV>,
    method: Seq<char>,
) -> TypeV {
    match class_of_spec(g, class) {
        Some(c) => match method_named(c.methods, method) {
            Some(m) => match m.return_type {
                Some(t) => subst_spec(bind_args(c.generic_params, args, c.generic_params.len()), t),
                None => TypeV::Primitive("unknown"@),
            },
            None => TypeV::Primitive("unknown"@),
        },
        None => TypeV::Primitive("unknown"@),
    }
}

impl<'a> Translator<'a> {
    fn made_type(&self, class: &str, args: &Vec<Type>, method: &str) -> (r: Type)
        ensures
            r@ == made_type_spec(self.env(), class@, types_v(args@), method@),
    {
        match self.class_of(class) {
            Some(c) => match find_method(&c.methods, method) {
                Some(i) => match &c.methods[i].return_type {
                    Some(t) => substitute_type(t, &bound_args(&c.generic_params, args)),
                    None => Type::Primitive(String::from_str("unknown")),
                },
                None => Type::Primitive(String::from_str("unknown")),
            },
            None => Type::Primitive(String::from_str("unknown")),
        }
    }
}

pub open spec fn method_type_spec(g: EnvV, t: TypeV, method: Seq<char>) -> TypeV {
    match t {
        TypeV::Generic { name, args } => {
            if name == "HashMap"@ && args.len() == 2 && method == "get"@ {
                args[1]
            } else {
                made_type_spec(g, name, args, method)
            }
        },
        TypeV::Primitive(class_name) => {
            if (
                class_name == "String"@
                || class_name == "Bytes"@
            ) && (method == "concat"@ || method == "slice"@) {
                t
            } else if method == "to_string"@ && numeric_name(class_name) {
                TypeV::Primitive("String"@)
            } else if variant_pos_spec(g, class_name, method) is Some {
                t
            } else {
                declared_type_spec(g, class_name, method)
            }
        },
        TypeV::Array(inner) => {
            if method == "get"@ || method == "pop"@ {
                *inner
            } else if method == "len"@ {
                TypeV::Primitive("u256"@)
            } else {
                TypeV::Primitive("unknown"@)
            }
        },
        TypeV::FixedArray(_, _) => TypeV::Primitive("unknown"@),
    }
}

impl<'a> Translator<'a> {
    pub(crate) fn method_type(&self, t: &Type, method: &str) -> (r: Type)
        ensures
            r@ == method_type_spec(self.env(), t@, method@),
    {
        proof {
            reveal_with_fuel(Type::view, 2);
        }
        match t {
            Type::Generic { name, args } => {
                if same(name.as_str(), "HashMap") && args.len() == 2 && same(method, "get") {
                    return args[1].clone();
                }
                self.made_type(name.as_str(), args, method)
            },
            Type::Primitive(class_name) => {
                if (
                    same(class_name.as_str(), "String")
                    || same(class_name.as_str(), "Bytes")
                ) && (same(method, "concat") || same(method, "slice")) {
                    return t.clone();
                }
                if same(method, "to_string") && is_numeric_primitive(class_name.as_str()) {
                    return Type::Primitive(String::from_str("String"));
                }
                if self.variant_pos(class_name.as_str(), method).is_some() {
                    return t.clone();
                }
                self.declared_type(class_name.as_str(), method)
            },
            Type::Array(inner) => {
                if same(method, "get") || same(method, "pop") {
                    return (**inner).clone();
                }
                if same(method, "len") {
                    return Type::Primitive(String::from_str("u256"));
                }
                Type::Primitive(String::from_str("unknown"))
            },
            Type::FixedArray(_, _) => Type::Primitive(String::from_str("unknown")),
        }
    }
}

pub open spec fn call_type_spec(g: EnvV, name: Seq<char>, args: Seq<ExprV>) -> TypeV {
    if args.len() == 1 && g.w.classes.contains_key(name) {
        TypeV::Primitive(name)
    } else {
        match fn_type_spec(g, name) {
            Some(t) => t,
            None => TypeV::Primitive("unknown"@),
        }
    }
}

impl<'a> Translator<'a> {
    pub(crate) fn call_type(&self, name: &str, args: &Vec<Expr>) -> (r: Type)
        ensures
            r@ == call_type_spec(self.env(), name@, exprs_v(args@)),
    {
        if args.len() == 1 && self.layout_engine.type_checker.loaded_classes.has(name) {
            return Type::Primitive(String::from_str(name));
        }
        match self.fn_type(name) {
            Some(t) => t,
            None => Type::Primitive(String::from_str("unknown")),
        }
    }
}

pub open spec fn neg_type_spec(t: TypeV) -> TypeV {
    match t {
        TypeV::Primitive(n) => {
            if numeric_spec(n) is Some {
                TypeV::Primitive("i256"@)
            } else {
                t
            }
        },
        _ => t,
    }
}

pub(crate) fn neg_type(t: &Type) -> (r: Type)
    ensures
        r@ == neg_type_spec(t@),
{
    match t {
        Type::Primitive(n) => {
            if numeric_meta(n.as_str()).is_some() {
                return Type::Primitive(String::from_str("i256"));
            }
            t.clone()
        },
        _ => t.clone(),
    }
}

/// The type of the first element; without one, a word.
pub open spec fn first_type_spec(g: EnvV, cx: CtxV, xs: Seq<ExprV>) -> TypeV
    decreases xs,
{
    if xs.len() == 0 {
        TypeV::Primitive("u256"@)
    } else {
        static_type_spec(g, cx, xs[0])
    }
}

impl<'a> Translator<'a> {
    pub(crate) fn first_type(&self, cx: &Ctx, xs: &Vec<Expr>) -> (r: Type)
        ensures
            r@ == first_type_spec(self.env(), cx@, exprs_v(xs@)),
        decreases xs,
    {
        if xs.len() == 0 {
            return Type::Primitive(String::from_str("u256"));
        }
        assert(decreases_to!(*xs => xs@[0]));
        self.static_type(cx, &xs[0])
    }
}

/// Whether a call on the bare name of a class makes an instance: that of a function
/// which takes `self`.
pub open spec fn builds_spec(g: EnvV, base: ExprV, t: TypeV, method: Seq<char>) -> bool {
    match base {
        ExprV::Identifier(n) => {
            match t {
                TypeV::Primitive(c) => {
                    if n != c {
                        false
                    } else {
                        match class_of_spec(g, c) {
                            Some(d) => {
                                if d.is_global {
                                    false
                                } else {
                                    match method_of_spec(g, c, method) {
                                        Some(m) => m.has_self,
                                        None => false,
                                    }
                                }
                            },
                            None => false,
                        }
                    }
                },
                _ => false,
            }
        },
        _ => false,
    }
}

impl<'a> Translator<'a> {
    pub(crate) fn builds(&self, base: &Expr, t: &Type, method: &str) -> (r: bool)
        ensures
            r == builds_spec(self.env(), base@, t@, method@),
    {
        match base {
            Expr::Identifier(n) => {
                match t {
                    Type::Primitive(c) => {
                        if !same(n.as_str(), c.as_str()) {
                            return false;
                        }
                        match self.class_of(c.as_str()) {
                            Some(d) => {
                                if d.is_global {
                                    return false;
                                }
                                match self.method_of(c.as_str(), method) {
                                    Some(m) => m.has_self,
                                    None => false,
                                }
                            },
                            None => false,
                        }
                    },
                    _ => false,
                }
            },
            _ => false,
        }
    }
}

/// The type of an expression as far as code generation needs it; `unknown`
/// where it cannot tell.
pub open spec fn static_type_spec(g: EnvV, cx: CtxV, e: ExprV) -> TypeV
    decreases e,
{
    match e {
        ExprV::Number(_) => TypeV::Primitive("u256"@),
        ExprV::StringLiteral(_) => TypeV::Primitive("String"@),
        ExprV::Identifier(name) => ident_type_spec(g, cx, name),
        ExprV::PropertyAccess { base, property } => property_type_spec(
            g,
            static_type_spec(g, cx, *base),
            property,
        ),
        ExprV::IndexAccess { base, .. } => index_type_spec(static_type_spec(g, cx, *base)),
        ExprV::BinaryOp { left, operator, .. } => {
            if operator == "=="@ || operator == "!="@ || operator == "<"@ || operator == "<="@ || operator == ">"@ || operator == ">="@ || operator == "&&"@ || operator == "||"@ {
                TypeV::Primitive("bool"@)
            } else {
                static_type_spec(g, cx, *left)
            }
        },
        ExprV::MethodCall { base, method, .. } => {
            if is_ident_spec(*base, "Abi"@) && (method == "encode"@ || method == "encode_packed"@) {
                TypeV::Primitive("Bytes"@)
            } else {
                let t = static_type_spec(g, cx, *base);
                if builds_spec(g, *base, t, method) {
                    t
                } else {
                    method_type_spec(g, t, method)
                }
            }
        },
        ExprV::FnCall { name, args } => call_type_spec(g, name, args),
        ExprV::Instantiation { type_def, .. } => type_def,
        ExprV::StaticCall { type_def, .. } => type_def,
        ExprV::FString(_) => TypeV::Primitive("String"@),
        ExprV::Neg(inner) => neg_type_spec(static_type_spec(g, cx, *inner)),
        ExprV::Not(_) => TypeV::Primitive("bool"@),
        ExprV::ArrayLiteral(xs) => TypeV::FixedArray(
            Box::new(first_type_spec(g, cx, xs)),
            (xs.len() as usize),
        ),
    }
}

impl<'a> Translator<'a> {
    pub(crate) fn static_type(&self, cx: &Ctx, e: &Expr) -> (r: Type)
        ensures
            r@ == static_type_spec(self.env(), cx@, e@),
        decreases e,
    {
        proof {
            reveal_with_fuel(Expr::view, 2);
        }
        match e {
            Expr::Number(_) => Type::Primitive(String::from_str("u256")),
            Expr::StringLiteral(_) => Type::Primitive(String::from_str("String")),
            Expr::Identifier(name) => self.ident_type(cx, name.as_str()),
            Expr::PropertyAccess { base, property } => self.property_type(
                &self.static_type(cx, base),
                property.as_str(),
            ),
            Expr::IndexAccess { base, .. } => index_type(&self.static_type(cx, base)),
            Expr::BinaryOp { left, operator, .. } => {
                if same(
                    operator.as_str(),
                    "==",
                ) || same(operator.as_str(), "!=") || same(operator.as_str(), "<") || same(operator.as_str(), "<=") || same(operator.as_str(), ">") || same(operator.as_str(), ">=") || same(operator.as_str(), "&&") || same(operator.as_str(), "||") {
                    return Type::Primitive(String::from_str("bool"));
                }
                self.static_type(cx, left)
            },
            Expr::MethodCall { base, method, .. } => {
                if is_ident(base, "Abi") && (
                    same(method.as_str(), "encode")
                    || same(method.as_str(), "encode_packed")
                ) {
                    return Type::Primitive(String::from_str("Bytes"));
                }
                let t = self.static_type(cx, base);
                if self.builds(base, &t, method.as_str()) {
                    return t;
                }
                self.method_type(&t, method.as_str())
            },
            Expr::FnCall { name, args } => self.call_type(name.as_str(), args),
            Expr::Instantiation { type_def, .. } => type_def.clone(),
            Expr::StaticCall { type_def, .. } => type_def.clone(),
            Expr::FString(_) => Type::Primitive(String::from_str("String")),
            Expr::Neg(inner) => neg_type(&self.static_type(cx, inner)),
            Expr::Not(_) => Type::Primitive(String::from_str("bool")),
            Expr::ArrayLiteral(xs) => Type::FixedArray(Box::new(self.first_type(cx, xs)), xs.len()),
        }
    }
}

/// The memory that a local of the type owns; `None` where it is one word.
pub open spec fn fresh_local_bytes_spec(g: EnvV, t: TypeV) -> Option<usize> {
    match t {
        TypeV::FixedArray(_, _) => Some(size_spec(g.w, g.lay.sizes, t)),
        TypeV::Array(_) => Some(size_spec(g.w, g.lay.sizes, t)),
        TypeV::Primitive(n) => {
            if n == "String"@ || n == "Bytes"@ {
                Some(32usize)
            } else if struct_type(g.w, t) || payload_enum(g.w, t) {
                Some(size_spec(g.w, g.lay.sizes, t))
            } else {
                None
            }
        },
        TypeV::Generic { name, .. } => {
            if g.w.classes.contains_key(name) {
                Some(size_spec(g.w, g.lay.sizes, TypeV::Primitive(name)))
            } else {
                None
            }
        },
    }
}

impl<'a> Translator<'a> {
    pub(crate) fn fresh_local_bytes(&self, t: &Type) -> (r: Option<usize>)
        ensures
            r == fresh_local_bytes_spec(self.env(), t@),
    {
        match t {
            Type::FixedArray(_, _) => Some(self.layout_engine.size_of(t)),
            Type::Array(_) => Some(self.layout_engine.size_of(t)),
            Type::Primitive(n) => {
                if same(n.as_str(), "String") || same(n.as_str(), "Bytes") {
                    return Some(32);
                }
                if is_struct_type(
                    self.layout_engine.type_checker,
                    t,
                ) || self.layout_engine.type_checker.is_payload_enum(t) {
                    return Some(self.layout_engine.size_of(t));
                }
                None
            },
            Type::Generic { name, .. } => {
                if self.layout_engine.type_checker.loaded_classes.has(name.as_str()) {
                    return Some(self.layout_engine.size_of(&Type::Primitive(name.clone())));
                }
                None
            },
        }
    }
}

/// Whether the elements of a memory array hold the value itself.
pub open spec fn elem_is_inline_spec(g: EnvV, t: TypeV) -> bool {
    (t is FixedArray) || struct_type(g.w, t)
}

impl<'a> Translator<'a> {
    pub(crate) fn elem_is_inline(&self, t: &Type) -> (r: bool)
        ensures
            r == elem_is_inline_spec(self.env(), t@),
    {
        matches!(t, Type::FixedArray(..)) || is_struct_type(self.layout_engine.type_checker, t)
    }
}

/// How far apart the elements of a memory array stand.
pub open spec fn mem_elem_stride_spec(g: EnvV, inner: TypeV) -> usize {
    if str_type(inner) {
        32usize
    } else {
        size_spec(g.w, g.lay.sizes, inner)
    }
}

impl<'a> Translator<'a> {
    pub(crate) fn mem_elem_stride(&self, inner: &Type) -> (r: usize)
        ensures
            r == mem_elem_stride_spec(self.env(), inner@),
    {
        if is_str_type(inner) {
            32
        } else {
            self.layout_engine.size_of(inner)
        }
    }
}

/// Whether a memory array is dynamic, and how far apart its elements stand.
pub open spec fn array_elem_info_spec(g: EnvV, cx: CtxV, base: ExprV) -> (bool, usize) {
    match static_type_spec(g, cx, base) {
        TypeV::Array(inner) => (true, mem_elem_stride_spec(g, *inner)),
        TypeV::FixedArray(inner, _) => (false, mem_elem_stride_spec(g, *inner)),
        _ => (false, 32usize),
    }
}

impl<'a> Translator<'a> {
    pub(crate) fn array_elem_info(&self, cx: &Ctx, base: &Expr) -> (r: (bool, usize))
        ensures
            r == array_elem_info_spec(self.env(), cx@, base@),
    {
        match &self.static_type(cx, base) {
            Type::Array(inner) => (true, self.mem_elem_stride(inner)),
            Type::FixedArray(inner, _) => (false, self.mem_elem_stride(inner)),
            _ => (false, 32),
        }
    }
}

pub open spec fn elem_type_of_spec(g: EnvV, cx: CtxV, iterable: ExprV) -> TypeV {
    match static_type_spec(g, cx, iterable) {
        TypeV::Array(inner) => *inner,
        TypeV::FixedArray(inner, _) => *inner,
        _ => TypeV::Primitive("u256"@),
    }
}

impl<'a> Translator<'a> {
    pub(crate) fn elem_type_of(&self, cx: &Ctx, iterable: &Expr) -> (r: Type)
        ensures
            r@ == elem_type_of_spec(self.env(), cx@, iterable@),
    {
        match &self.static_type(cx, iterable) {
            Type::Array(inner) => (**inner).clone(),
            Type::FixedArray(inner, _) => (**inner).clone(),
            _ => Type::Primitive(String::from_str("u256")),
        }
    }
}

/// The width that the name of a signed type gives.
pub open spec fn signed_bits_spec(n: Seq<char>) -> Option<usize> {
    if begins_char(n, 'i') {
        match parse_spec(n.drop_first(), usize::MAX as nat) {
            Some(b) => Some(b as usize),
            None => None,
        }
    } else {
        None
    }
}

pub fn signed_bits(n: &str) -> (r: Option<usize>)
    ensures
        r == signed_bits_spec(n@),
{
    if starts_with_char(n, 'i') {
        parse_usize(rest(n).as_str())
    } else {
        None
    }
}

/// What is read of a signed type narrower than a word has its sign spread.
pub open spec fn sign_extend_read_spec(ty: TypeV, raw: Seq<char>) -> Seq<char> {
    match ty {
        TypeV::Primitive(n) => {
            match signed_bits_spec(n) {
                Some(bits) => {
                    if bits >= 8usize && bits < 256usize {
                        "signextend("@ + dec(((bits / 8 - 1) as usize) as nat) + ", "@ + raw + ")"@
                    } else {
                        raw
                    }
                },
                None => raw,
            }
        },
        _ => raw,
    }
}

pub(crate) fn sign_extend_read(ty: &Type, raw: &str) -> (r: String)
    ensures
        r@ == sign_extend_read_spec(ty@, raw@),
{
    match ty {
        Type::Primitive(n) => {
            match signed_bits(n.as_str()) {
                Some(bits) => {
                    if bits >= 8 && bits < 256 {
                        return cat5(
                            "signextend(",
                            dec_text((bits / 8 - 1)).as_str(),
                            ", ",
                            raw,
                            ")",
                        );
                    }
                    String::from_str(raw)
                },
                None => String::from_str(raw),
            }
        },
        _ => String::from_str(raw),
    }
}

} // verus!
