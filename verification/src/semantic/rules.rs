//! What holds of every class: which types its fields and its entry points may have,
//! where its const fields are assigned, and how its special functions are declared.
use crate::ast::{
    body_v, fields_v, find_method, method_named, methods_v, types_v, ClassDecl, ClassV, FieldV,
    FnDecl, FnV, Spanned, SpannedV, Statement, Type, TypeV,
};
use crate::codegen::abi::{context_type, exported, is_context_param, is_exported};
use crate::codegen::yul::{
    byte_width, byte_width_spec, is_sint_name, is_str_type, is_uint_name, opt_text, sint_name,
    str_type, uint_name,
};
use crate::semantic::{has_payload, scalar_enum, SemV, TypeChecker};
use crate::semantic::flow::{
    assigns, assigns_field, definite, definitely_assigns, reads, reads_field,
};
use crate::semantic::spell::{debug_type, debugged, spelled, type_text};
use crate::text::{cat3, cat5, cat7, cat9, has_text, join, join_spec, same, texts};
use vstd::prelude::*;

verus! {

broadcast use crate::ast::group_views;

pub open spec fn named_payload_spec(g: SemV, t: TypeV) -> Option<Seq<char>> {
    match t {
        TypeV::Primitive(n) => {
            if has_payload(g.w, n) {
                Some(n)
            } else {
                None
            }
        },
        _ => None,
    }
}

impl TypeChecker {
    pub(crate) fn named_payload(&self, t: &Type) -> (r: Option<String>)
        ensures
            opt_text(r) == named_payload_spec(self.sem(), t@),
    {
        match t {
            Type::Primitive(n) => {
                if self.enum_has_payload(n.as_str()) {
                    return Some(n.clone());
                }
                None
            },
            _ => None,
        }
    }
}

/// The enum with payloads that a type holds.
pub open spec fn payload_in_spec(g: SemV, t: TypeV) -> Option<Seq<char>> {
    match t {
        TypeV::Primitive(_) => named_payload_spec(g, t),
        TypeV::Array(inner) => named_payload_spec(g, *inner),
        TypeV::FixedArray(inner, _) => named_payload_spec(g, *inner),
        TypeV::Generic { args, .. } => payload_arg_spec(g, args, 0),
    }
}

impl TypeChecker {
    pub(crate) fn payload_in(&self, t: &Type) -> (r: Option<String>)
        ensures
            opt_text(r) == payload_in_spec(self.sem(), t@),
    {
        match t {
            Type::Primitive(_) => self.named_payload(t),
            Type::Array(inner) => self.named_payload(inner),
            Type::FixedArray(inner, _) => self.named_payload(inner),
            Type::Generic { args, .. } => self.payload_arg(args),
        }
    }
}

/// An enum with payloads lives in memory only, so no field can hold one.
pub open spec fn payload_field_spec(
    g: SemV,
    class_name: Seq<char>,
    field: Seq<char>,
    t: TypeV,
) -> Option<Seq<char>> {
    match payload_in_spec(g, t) {
        Some(en) => Some(
            "Semantic Error: enum '"@
            + en
            + "' has a variant carrying a payload, so it has no storage layout and cannot be the type of field '"@
            + field
            + "' in '"@
            + class_name
            + "'. Such an enum lives in memory only: use it as a local, and store its parts separately."@
        ),
        None => None,
    }
}

impl TypeChecker {
    pub(crate) fn payload_field(
        &self,
        class_name: &str,
        field: &str,
        t: &Type,
    ) -> (r: Option<String>)
        ensures
            opt_text(r) == payload_field_spec(self.sem(), class_name@, field@, t@),
    {
        match self.payload_in(t) {
            Some(en) => Some(
                cat7(
                    "Semantic Error: enum '",
                    en.as_str(),
                    "' has a variant carrying a payload, so it has no storage layout and cannot be the type of field '",
                    field,
                    "' in '",
                    class_name,
                    "'. Such an enum lives in memory only: use it as a local, and store its parts separately.",
                )
            ),
            None => None,
        }
    }
}

pub open spec fn nested_element_spec(t: TypeV) -> bool {
    match t {
        TypeV::Generic { .. } => true,
        TypeV::Array(_) => true,
        _ => false,
    }
}

pub(crate) fn nested_element(t: &Type) -> (r: bool)
    ensures
        r == nested_element_spec(t@),
{
    match t {
        Type::Generic { .. } => true,
        Type::Array(_) => true,
        _ => false,
    }
}

/// A storage vector has one element type, and that no collection.
pub open spec fn vec_field_spec(
    class_name: Seq<char>,
    field: Seq<char>,
    t: TypeV,
) -> Option<Seq<char>> {
    match t {
        TypeV::Generic { name, args } => {
            if name != "Vec"@ {
                None
            } else if args.len() != 1 {
                Some(
                    "Semantic Error: Vec needs exactly one element type. Field '"@
                    + field
                    + "' in class '"@
                    + class_name
                    + "'."@
                )
            } else if nested_element_spec(args[0]) {
                Some(
                    "Semantic Error: a Vec of "@
                    + debugged(args[0])
                    + " has no storage layout. Field '"@
                    + field
                    + "' in class '"@
                    + class_name
                    + "' must hold a scalar element type."@
                )
            } else {
                None
            }
        },
        _ => None,
    }
}

pub(crate) fn vec_field(class_name: &str, field: &str, t: &Type) -> (r: Option<String>)
    ensures
        opt_text(r) == vec_field_spec(class_name@, field@, t@),
{
    proof {
        reveal_with_fuel(Type::view, 2);
    }
    match t {
        Type::Generic { name, args } => {
            if !same(name.as_str(), "Vec") {
                return None;
            }
            if args.len() != 1 {
                return Some(
                    cat5(
                        "Semantic Error: Vec needs exactly one element type. Field '",
                        field,
                        "' in class '",
                        class_name,
                        "'.",
                    )
                );
            }
            if nested_element(&args[0]) {
                return Some(
                    cat7(
                        "Semantic Error: a Vec of ",
                        debug_type(&args[0]).as_str(),
                        " has no storage layout. Field '",
                        field,
                        "' in class '",
                        class_name,
                        "' must hold a scalar element type.",
                    )
                );
            }
            None
        },
        _ => None,
    }
}

/// Whether a value takes one word on the wire.
pub open spec fn word_type_spec(g: SemV, t: TypeV) -> bool {
    if scalar_enum(g.w, t) {
        true
    } else {
        match t {
            TypeV::Primitive(n) => uint_name(n) || sint_name(n) || (
                n == "bool"@
                || n == "Account"@
            ) || byte_width_spec(n) is Some,
            _ => false,
        }
    }
}

impl TypeChecker {
    pub(crate) fn word_type(&self, t: &Type) -> (r: bool)
        ensures
            r == word_type_spec(self.sem(), t@),
    {
        if self.is_scalar_enum(t) {
            return true;
        }
        match t {
            Type::Primitive(n) => is_uint_name(n.as_str()) || is_sint_name(n.as_str()) || (
                same(n.as_str(), "bool")
                || same(n.as_str(), "Account")
            ) || byte_width(n.as_str()).is_some(),
            _ => false,
        }
    }
}

/// The class that crosses as a tuple.
pub open spec fn tuple_class_spec(g: SemV, t: TypeV) -> Option<Seq<char>> {
    match t {
        TypeV::Primitive(n) => {
            if !(
                n == "Account"@
                || n == "String"@
                || n == "Bytes"@
            ) && g.w.classes.contains_key(n) {
                Some(n)
            } else {
                None
            }
        },
        _ => None,
    }
}

impl TypeChecker {
    pub(crate) fn tuple_class(&self, t: &Type) -> (r: Option<String>)
        ensures
            opt_text(r) == tuple_class_spec(self.sem(), t@),
    {
        match t {
            Type::Primitive(n) => {
                if !(
                    same(n.as_str(), "Account")
                    || same(n.as_str(), "String")
                    || same(n.as_str(), "Bytes")
                ) && self.loaded_classes.has(n.as_str()) {
                    return Some(n.clone());
                }
                None
            },
            _ => None,
        }
    }
}

/// Whether a type, or what its arrays hold in the end, is a word or a string.
pub open spec fn plain_leaf_spec(g: SemV, t: TypeV) -> bool
    decreases t,
{
    match t {
        TypeV::Array(inner) => plain_leaf_spec(g, *inner),
        TypeV::FixedArray(inner, _) => plain_leaf_spec(g, *inner),
        _ => word_type_spec(g, t) || str_type(t),
    }
}

impl TypeChecker {
    pub(crate) fn plain_leaf(&self, t: &Type) -> (r: bool)
        ensures
            r == plain_leaf_spec(self.sem(), t@),
        decreases t,
    {
        match t {
            Type::Array(inner) => self.plain_leaf(inner),
            Type::FixedArray(inner, _) => self.plain_leaf(inner),
            _ => self.word_type(t) || is_str_type(t),
        }
    }
}

/// Whether a value has no fixed size on the wire.
pub open spec fn holds_dynamic_spec(t: TypeV) -> bool
    decreases t,
{
    match t {
        TypeV::Array(_) => true,
        TypeV::FixedArray(inner, _) => holds_dynamic_spec(*inner),
        _ => str_type(t),
    }
}

pub(crate) fn holds_dynamic(t: &Type) -> (r: bool)
    ensures
        r == holds_dynamic_spec(t@),
    decreases t,
{
    match t {
        Type::Array(_) => true,
        Type::FixedArray(inner, _) => holds_dynamic(inner),
        _ => is_str_type(t),
    }
}

/// Whether a field can stand in a tuple: a word, a string, or an array of those.
pub open spec fn tuple_field_spec(g: SemV, t: TypeV) -> bool {
    match t {
        TypeV::Array(inner) => plain_leaf_spec(g, *inner),
        TypeV::FixedArray(inner, _) => plain_leaf_spec(g, *inner) && holds_dynamic_spec(*inner),
        _ => word_type_spec(g, t) || str_type(t),
    }
}

impl TypeChecker {
    pub(crate) fn tuple_field(&self, t: &Type) -> (r: bool)
        ensures
            r == tuple_field_spec(self.sem(), t@),
    {
        match t {
            Type::Array(inner) => self.plain_leaf(inner),
            Type::FixedArray(inner, _) => self.plain_leaf(inner) && holds_dynamic(inner),
            _ => self.word_type(t) || is_str_type(t),
        }
    }
}

/// What an array across the ABI holds in the end: a word, a string, or a struct
/// of words.
pub open spec fn array_leaf_spec(g: SemV, t: TypeV, what: Seq<char>) -> Option<Seq<char>>
    decreases t,
{
    match t {
        TypeV::Array(inner) => array_leaf_spec(g, *inner, what),
        TypeV::FixedArray(inner, _) => array_leaf_spec(g, *inner, what),
        _ => {
            match tuple_class_spec(g, t) {
                Some(n) => {
                    if all_scalar_spec(g, n) {
                        None
                    } else {
                        Some(
                            "Semantic Error: "@
                            + what
                            + " has no ABI encoding: an array of structs must hold a struct of only scalar fields, and '"@
                            + spelled(t)
                            + "' is not one. Pass its parts separately, or flatten it."@
                        )
                    }
                },
                None => {
                    if word_type_spec(g, t) || str_type(t) {
                        None
                    } else {
                        Some(
                            "Semantic Error: "@
                            + what
                            + " has no ABI encoding: an array crossing the ABI boundary must hold scalars, strings or structs of scalars, and "@
                            + spelled(t)
                            + " is none of them. Pass its parts separately, or flatten it."@
                        )
                    }
                },
            }
        },
    }
}

impl TypeChecker {
    pub(crate) fn array_leaf(&self, t: &Type, what: &str) -> (r: Option<String>)
        ensures
            opt_text(r) == array_leaf_spec(self.sem(), t@, what@),
        decreases t,
    {
        match t {
            Type::Array(inner) => self.array_leaf(inner, what),
            Type::FixedArray(inner, _) => self.array_leaf(inner, what),
            _ => {
                match self.tuple_class(t) {
                    Some(n) => {
                        if self.all_scalar(n.as_str()) {
                            return None;
                        }
                        return Some(
                            cat5(
                                "Semantic Error: ",
                                what,
                                " has no ABI encoding: an array of structs must hold a struct of only scalar fields, and '",
                                type_text(t).as_str(),
                                "' is not one. Pass its parts separately, or flatten it.",
                            )
                        );
                    },
                    None => {},
                }
                if self.word_type(t) || is_str_type(t) {
                    return None;
                }
                Some(
                    cat5(
                        "Semantic Error: ",
                        what,
                        " has no ABI encoding: an array crossing the ABI boundary must hold scalars, strings or structs of scalars, and ",
                        type_text(t).as_str(),
                        " is none of them. Pass its parts separately, or flatten it.",
                    )
                )
            },
        }
    }
}

/// Why a type cannot cross the ABI.
pub open spec fn crosses_spec(g: SemV, t: TypeV, what: Seq<char>) -> Option<Seq<char>> {
    if context_type(t) {
        None
    } else {
        match t {
            TypeV::Primitive(n) => {
                if has_payload(g.w, n) {
                    Some(
                        "Semantic Error: "@
                        + what
                        + " has no ABI encoding: an enum crosses the ABI as a uint8 tag, and '"@
                        + spelled(t)
                        + "' has a variant carrying a payload, which there is nowhere to put. Pass the payload as its own parameter."@
                    )
                } else {
                    match tuple_class_spec(g, t) {
                        Some(c) => {
                            if all_cross_spec(g, c) {
                                None
                            } else {
                                Some(
                                    "Semantic Error: "@
                                    + what
                                    + " has no ABI encoding: a struct crossing the ABI boundary must have at least one field and hold no other struct, and '"@
                                    + spelled(t)
                                    + "' does not. Pass its parts separately, or flatten it."@
                                )
                            }
                        },
                        None => None,
                    }
                }
            },
            TypeV::Array(inner) => array_leaf_spec(g, *inner, what),
            TypeV::FixedArray(inner, _) => array_leaf_spec(g, *inner, what),
            TypeV::Generic { .. } => None,
        }
    }
}

impl TypeChecker {
    pub(crate) fn crosses(&self, t: &Type, what: &str) -> (r: Option<String>)
        ensures
            opt_text(r) == crosses_spec(self.sem(), t@, what@),
    {
        if is_context_param(t) {
            return None;
        }
        match t {
            Type::Primitive(n) => {
                if self.enum_has_payload(n.as_str()) {
                    return Some(
                        cat5(
                            "Semantic Error: ",
                            what,
                            " has no ABI encoding: an enum crosses the ABI as a uint8 tag, and '",
                            type_text(t).as_str(),
                            "' has a variant carrying a payload, which there is nowhere to put. Pass the payload as its own parameter.",
                        )
                    );
                }
                match self.tuple_class(t) {
                    Some(c) => {
                        if self.all_cross(c.as_str()) {
                            return None;
                        }
                        Some(
                            cat5(
                                "Semantic Error: ",
                                what,
                                " has no ABI encoding: a struct crossing the ABI boundary must have at least one field and hold no other struct, and '",
                                type_text(t).as_str(),
                                "' does not. Pass its parts separately, or flatten it.",
                            )
                        )
                    },
                    None => None,
                }
            },
            Type::Array(inner) => self.array_leaf(inner, what),
            Type::FixedArray(inner, _) => self.array_leaf(inner, what),
            Type::Generic { .. } => None,
        }
    }
}

pub open spec fn transient_field_spec(
    class_name: Seq<char>,
    field: Seq<char>,
    is_transient: bool,
) -> Option<Seq<char>> {
    if is_transient {
        Some(
            "Semantic Error: field '"@
            + field
            + "' of '"@
            + class_name
            + "' cannot be transient: only a contract's fields live in storage, and a plain class is a memory value."@
        )
    } else {
        None
    }
}

pub(crate) fn transient_field(
    class_name: &str,
    field: &str,
    is_transient: bool,
) -> (r: Option<String>)
    ensures
        opt_text(r) == transient_field_spec(class_name@, field@, is_transient),
{
    if is_transient {
        return Some(
            cat5(
                "Semantic Error: field '",
                field,
                "' of '",
                class_name,
                "' cannot be transient: only a contract's fields live in storage, and a plain class is a memory value.",
            )
        );
    }
    None
}

pub open spec fn const_field_spec(
    class_name: Seq<char>,
    field: Seq<char>,
    is_const: bool,
) -> Option<Seq<char>> {
    if is_const {
        Some(
            "Semantic Error: field '"@
            + field
            + "' of '"@
            + class_name
            + "' cannot be const: a const contract field is carried in the contract's deployed bytecode, and a plain class is a memory value with no code of its own. For a value that never changes, just use a local const or a plain field."@
        )
    } else {
        None
    }
}

pub(crate) fn const_field(class_name: &str, field: &str, is_const: bool) -> (r: Option<String>)
    ensures
        opt_text(r) == const_field_spec(class_name@, field@, is_const),
{
    if is_const {
        return Some(
            cat5(
                "Semantic Error: field '",
                field,
                "' of '",
                class_name,
                "' cannot be const: a const contract field is carried in the contract's deployed bytecode, and a plain class is a memory value with no code of its own. For a value that never changes, just use a local const or a plain field.",
            )
        );
    }
    None
}

pub open spec fn transient_const_spec(
    class_name: Seq<char>,
    field: Seq<char>,
    both: bool,
) -> Option<Seq<char>> {
    if both {
        Some(
            "Semantic Error: field '"@
            + field
            + "' of '"@
            + class_name
            + "' cannot be both transient and const: transient is storage that clears each transaction, const is not storage at all."@
        )
    } else {
        None
    }
}

pub(crate) fn transient_const(class_name: &str, field: &str, both: bool) -> (r: Option<String>)
    ensures
        opt_text(r) == transient_const_spec(class_name@, field@, both),
{
    if both {
        return Some(
            cat5(
                "Semantic Error: field '",
                field,
                "' of '",
                class_name,
                "' cannot be both transient and const: transient is storage that clears each transaction, const is not storage at all.",
            )
        );
    }
    None
}

pub open spec fn no_constructor_spec(class_name: Seq<char>, names: Seq<char>) -> Seq<char> {
    "Semantic Error: '"@ + class_name + "' declares const field(s) "@ + names + " but has no fn new(). A const field is assigned once, in the constructor, and fixed from deployment onwards, without one it could only ever read zero. Drop const if the value is set after deploy (e.g. from a once fn initialize), which makes it an ordinary storage field."@
}

pub(crate) fn no_constructor(class_name: &str, names: &str) -> (r: String)
    ensures
        r@ == no_constructor_spec(class_name@, names@),
{
    cat5(
        "Semantic Error: '",
        class_name,
        "' declares const field(s) ",
        names,
        " but has no fn new(). A const field is assigned once, in the constructor, and fixed from deployment onwards, without one it could only ever read zero. Drop const if the value is set after deploy (e.g. from a once fn initialize), which makes it an ordinary storage field.",
    )
}

/// A const field has no value yet while the constructor runs.
pub open spec fn const_read_spec(
    body: Seq<SpannedV>,
    class_name: Seq<char>,
    field: Seq<char>,
) -> Option<Seq<char>> {
    if reads(body, class_name, field) {
        Some(
            "Semantic Error: fn new() of '"@
            + class_name
            + "' reads const field '"@
            + field
            + "'. A const field's value is only fixed once the constructor has finished, so there is nothing to read during it. Use the value you are assigning (or a constructor parameter) instead."@
        )
    } else {
        None
    }
}

pub(crate) fn const_read(
    body: &Vec<Spanned<Statement>>,
    class_name: &str,
    field: &str,
) -> (r: Option<String>)
    ensures
        opt_text(r) == const_read_spec(body_v(body@), class_name@, field@),
{
    if reads_field(body, class_name, field) {
        return Some(
            cat5(
                "Semantic Error: fn new() of '",
                class_name,
                "' reads const field '",
                field,
                "'. A const field's value is only fixed once the constructor has finished, so there is nothing to read during it. Use the value you are assigning (or a constructor parameter) instead.",
            )
        );
    }
    None
}

/// A const field is assigned on every path through the constructor.
pub open spec fn const_assigned_spec(
    body: Seq<SpannedV>,
    class_name: Seq<char>,
    field: Seq<char>,
) -> Option<Seq<char>> {
    if definite(body, class_name, field) {
        None
    } else if assigns(body, class_name, field) {
        Some(
            "Semantic Error: const field '"@
            + field
            + "' of '"@
            + class_name
            + "' is assigned in fn new(), but not on every path through it. On the paths that skip the assignment it would be fixed at zero for the life of the contract. Give every branch an assignment (an if needs its else), or assign it once unconditionally, note that an assignment inside a loop never counts, since the loop may run zero times."@
        )
    } else {
        Some(
            "Semantic Error: const field '"@
            + field
            + "' of '"@
            + class_name
            + "' is never assigned in fn new(). It would be fixed at zero for the life of the contract."@
        )
    }
}

pub(crate) fn const_assigned(
    body: &Vec<Spanned<Statement>>,
    class_name: &str,
    field: &str,
) -> (r: Option<String>)
    ensures
        opt_text(r) == const_assigned_spec(body_v(body@), class_name@, field@),
{
    if definitely_assigns(body, class_name, field) {
        return None;
    }
    if assigns_field(body, class_name, field) {
        return Some(
            cat5(
                "Semantic Error: const field '",
                field,
                "' of '",
                class_name,
                "' is assigned in fn new(), but not on every path through it. On the paths that skip the assignment it would be fixed at zero for the life of the contract. Give every branch an assignment (an if needs its else), or assign it once unconditionally, note that an assignment inside a loop never counts, since the loop may run zero times.",
            )
        );
    }
    Some(
        cat5(
            "Semantic Error: const field '",
            field,
            "' of '",
            class_name,
            "' is never assigned in fn new(). It would be fixed at zero for the life of the contract.",
        )
    )
}

/// Only the constructor assigns a const field.
pub open spec fn const_written_spec(
    f: FnV,
    class_name: Seq<char>,
    field: Seq<char>,
) -> Option<Seq<char>> {
    if f.name == "new"@ {
        None
    } else if assigns(f.body, class_name, field) {
        Some(
            "Semantic Error: '"@
            + class_name
            + "."@
            + f.name
            + "' assigns const field '"@
            + field
            + "'. A const field is fixed at construction and cannot be written afterwards, only fn new() may assign it. Drop const to make it an ordinary storage field you can write."@
        )
    } else {
        None
    }
}

pub(crate) fn const_written(f: &FnDecl, class_name: &str, field: &str) -> (r: Option<String>)
    ensures
        opt_text(r) == const_written_spec(f@, class_name@, field@),
{
    if same(f.name.as_str(), "new") {
        return None;
    }
    if assigns_field(&f.body, class_name, field) {
        return Some(
            cat7(
                "Semantic Error: '",
                class_name,
                ".",
                f.name.as_str(),
                "' assigns const field '",
                field,
                "'. A const field is fixed at construction and cannot be written afterwards, only fn new() may assign it. Drop const to make it an ordinary storage field you can write.",
            )
        );
    }
    None
}

pub open spec fn repeated_method_spec(
    class_name: Seq<char>,
    method: Seq<char>,
    again: bool,
) -> Option<Seq<char>> {
    if again {
        Some(
            "Semantic Error: '"@
            + class_name
            + "' declares more than one method named '"@
            + method
            + "'. Each compiles to a function of that name, so the second would collide with the first."@
        )
    } else {
        None
    }
}

pub(crate) fn repeated_method(class_name: &str, method: &str, again: bool) -> (r: Option<String>)
    ensures
        opt_text(r) == repeated_method_spec(class_name@, method@, again),
{
    if again {
        return Some(
            cat5(
                "Semantic Error: '",
                class_name,
                "' declares more than one method named '",
                method,
                "'. Each compiles to a function of that name, so the second would collide with the first.",
            )
        );
    }
    None
}

/// Whether a function is reached by the shape of a call.
pub open spec fn reserved_spec(f: FnV) -> bool {
    f.name == "receive"@ || f.name == "fallback"@
}

pub(crate) fn reserved(f: &FnDecl) -> (r: bool)
    ensures
        r == reserved_spec(f@),
{
    (same(f.name.as_str(), "receive") || same(f.name.as_str(), "fallback"))
}

pub open spec fn unreachable_entry_spec(class_name: Seq<char>, f: FnV) -> Option<Seq<char>> {
    if exported(f) {
        None
    } else {
        let lead = if f.name == "receive"@ { "payable "@ } else { ""@ };
        Some(
            "Semantic Error: '"@
            + f.name
            + "' in contract '"@
            + class_name
            + "' is a reserved entry point and must be declared export "@
            + lead
            + "fn "@
            + f.name
            + "():, without export it would never be reachable."@
        )
    }
}

pub(crate) fn unreachable_entry(class_name: &str, f: &FnDecl) -> (r: Option<String>)
    ensures
        opt_text(r) == unreachable_entry_spec(class_name@, f@),
{
    if is_exported(f) {
        return None;
    }
    let lead = if same(f.name.as_str(), "receive") { "payable " } else { "" };
    Some(
        cat9(
            "Semantic Error: '",
            f.name.as_str(),
            "' in contract '",
            class_name,
            "' is a reserved entry point and must be declared export ",
            lead,
            "fn ",
            f.name.as_str(),
            "():, without export it would never be reachable.",
        )
    )
}

pub open spec fn entry_params_spec(class_name: Seq<char>, f: FnV) -> Option<Seq<char>> {
    if f.parameters.len() == 0 {
        None
    } else {
        Some(
            "Semantic Error: '"@
            + f.name
            + "' in contract '"@
            + class_name
            + "' takes no parameters, it is dispatched without a selector, so there is no ABI to decode arguments from."@
        )
    }
}

pub(crate) fn entry_params(class_name: &str, f: &FnDecl) -> (r: Option<String>)
    ensures
        opt_text(r) == entry_params_spec(class_name@, f@),
{
    if f.parameters.len() == 0 {
        return None;
    }
    Some(
        cat5(
            "Semantic Error: '",
            f.name.as_str(),
            "' in contract '",
            class_name,
            "' takes no parameters, it is dispatched without a selector, so there is no ABI to decode arguments from.",
        )
    )
}

pub open spec fn entry_result_spec(class_name: Seq<char>, f: FnV) -> Option<Seq<char>> {
    if f.return_type is None {
        None
    } else {
        Some(
            "Semantic Error: '"@
            + f.name
            + "' in contract '"@
            + class_name
            + "' returns nothing, its caller is a plain ETH send or an unmatched call, which has no return value to decode."@
        )
    }
}

pub(crate) fn entry_result(class_name: &str, f: &FnDecl) -> (r: Option<String>)
    ensures
        opt_text(r) == entry_result_spec(class_name@, f@),
{
    if f.return_type.is_none() {
        return None;
    }
    Some(
        cat5(
            "Semantic Error: '",
            f.name.as_str(),
            "' in contract '",
            class_name,
            "' returns nothing, its caller is a plain ETH send or an unmatched call, which has no return value to decode.",
        )
    )
}

pub open spec fn entry_payable_spec(class_name: Seq<char>, f: FnV) -> Option<Seq<char>> {
    if f.name != "receive"@ {
        None
    } else if f.modifiers.contains("payable"@) {
        None
    } else {
        Some(
            "Semantic Error: 'receive' in contract '"@
            + class_name
            + "' must be payable, it exists to accept ETH, and a non-payable one would reject every call that reaches it."@
        )
    }
}

pub(crate) fn entry_payable(class_name: &str, f: &FnDecl) -> (r: Option<String>)
    ensures
        opt_text(r) == entry_payable_spec(class_name@, f@),
{
    if !same(f.name.as_str(), "receive") {
        return None;
    }
    if has_text(&f.modifiers, "payable") {
        return None;
    }
    Some(
        cat3(
            "Semantic Error: 'receive' in contract '",
            class_name,
            "' must be payable, it exists to accept ETH, and a non-payable one would reject every call that reaches it.",
        )
    )
}

/// The errors so far with one more, where there is one.
pub open spec fn with_opt(out: Seq<Seq<char>>, e: Option<Seq<char>>) -> Seq<Seq<char>> {
    match e {
        Some(e) => out.push(e),
        None => out,
    }
}

pub(crate) fn push_opt(out: &mut Vec<String>, e: Option<String>)
    ensures
        texts(final(out)@) == with_opt(texts(old(out)@), opt_text(e)),
{
    match e {
        Some(x) => {
            let ghost before = texts(out@);
            let ghost xv = x@;
            out.push(x);
            assert(texts(out@) =~= before.push(xv));
        },
        None => {},
    }
}

/// The first enum with payloads among type arguments, from position `i` on.
pub open spec fn payload_arg_spec(g: SemV, args: Seq<TypeV>, i: int) -> Option<Seq<char>>
    decreases args.len() - i,
{
    if i >= args.len() {
        None
    } else {
        match named_payload_spec(g, args[i]) {
            Some(n) => Some(n),
            None => payload_arg_spec(g, args, i + 1),
        }
    }
}

/// Whether every field of a class can stand in a tuple; there is at least one.
pub open spec fn all_cross_spec(g: SemV, name: Seq<char>) -> bool {
    g.w.classes[name].fields.len() > 0 && forall|i: int|
        0 <= i < g.w.classes[name].fields.len() ==> tuple_field_spec(
            g,
            (#[trigger] g.w.classes[name].fields[i]).type_def,
        )
}

/// Whether every field of a class is one word; there is at least one.
pub open spec fn all_scalar_spec(g: SemV, name: Seq<char>) -> bool {
    g.w.classes[name].fields.len() > 0 && forall|i: int|
        0 <= i < g.w.classes[name].fields.len() ==> word_type_spec(
            g,
            (#[trigger] g.w.classes[name].fields[i]).type_def,
        )
}

impl TypeChecker {
    fn payload_arg(&self, args: &Vec<Type>) -> (r: Option<String>)
        ensures
            opt_text(r) == payload_arg_spec(self.sem(), types_v(args@), 0),
    {
        let ghost g = self.sem();
        let ghost av = types_v(args@);
        let mut i: usize = 0;
        while i < args.len()
            invariant
                i <= args@.len(),
                g == self.sem(),
                av == types_v(args@),
                payload_arg_spec(g, av, 0) == payload_arg_spec(g, av, i as int),
            decreases args@.len() - i,
        {
            assert(av[i as int] == args@[i as int]@);
            match self.named_payload(&args[i]) {
                Some(n) => {
                    return Some(n);
                },
                None => {},
            }
            i += 1;
        }
        None
    }

    #[verifier::loop_isolation(false)]
    fn all_cross(&self, name: &str) -> (r: bool)
        requires
            self.loaded_classes@.contains_key(name@),
        ensures
            r == all_cross_spec(self.sem(), name@),
    {
        let c = match self.loaded_classes.get(name) {
            Some(c) => c,
            None => {
                return false;
            },
        };
        let ghost fs = self.sem().w.classes[name@].fields;
        assert(fs == fields_v(c.fields@));
        let mut i: usize = 0;
        while i < c.fields.len()
            invariant
                i <= c.fields@.len(),
                forall|k: int|
                    0 <= k < i ==> tuple_field_spec(self.sem(), (#[trigger] fs[k]).type_def),
            decreases c.fields@.len() - i,
        {
            assert(fs[i as int] == c.fields@[i as int]@);
            if !self.tuple_field(&c.fields[i].type_def) {
                return false;
            }
            i += 1;
        }
        c.fields.len() > 0
    }

    #[verifier::loop_isolation(false)]
    fn all_scalar(&self, name: &str) -> (r: bool)
        requires
            self.loaded_classes@.contains_key(name@),
        ensures
            r == all_scalar_spec(self.sem(), name@),
    {
        let c = match self.loaded_classes.get(name) {
            Some(c) => c,
            None => {
                return false;
            },
        };
        let ghost fs = self.sem().w.classes[name@].fields;
        assert(fs == fields_v(c.fields@));
        let mut i: usize = 0;
        while i < c.fields.len()
            invariant
                i <= c.fields@.len(),
                forall|k: int|
                    0 <= k < i ==> word_type_spec(self.sem(), (#[trigger] fs[k]).type_def),
            decreases c.fields@.len() - i,
        {
            assert(fs[i as int] == c.fields@[i as int]@);
            if !self.word_type(&c.fields[i].type_def) {
                return false;
            }
            i += 1;
        }
        c.fields.len() > 0
    }
}

/// The names of const fields, each in quotes.
pub open spec fn immutable_list(fs: Seq<FieldV>, n: nat) -> Seq<Seq<char>>
    decreases n,
{
    if n == 0 {
        Seq::empty()
    } else {
        let out = immutable_list(fs, (n - 1) as nat);
        if fs[n - 1].is_const {
            out.push("'"@ + fs[n - 1].name + "'"@)
        } else {
            out
        }
    }
}

pub open spec fn immutable_names_spec(c: ClassV) -> Seq<char> {
    join_spec(immutable_list(c.fields, c.fields.len()), ", "@)
}

fn immutable_names(c: &ClassDecl) -> (r: String)
    ensures
        r@ == immutable_names_spec(c@),
{
    let ghost fs = fields_v(c.fields@);
    let mut out: Vec<String> = Vec::new();
    let mut i: usize = 0;
    assert(texts(out@) =~= Seq::<Seq<char>>::empty());
    while i < c.fields.len()
        invariant
            i <= c.fields@.len(),
            fs == fields_v(c.fields@),
            texts(out@) == immutable_list(fs, i as nat),
        decreases c.fields@.len() - i,
    {
        assert(fs[i as int] == c.fields@[i as int]@);
        if c.fields[i].is_const {
            let ghost before = texts(out@);
            let x = cat3("'", c.fields[i].name.as_str(), "'");
            let ghost xv = x@;
            out.push(x);
            assert(texts(out@) =~= before.push(xv));
        }
        i += 1;
    }
    join(&out, ", ")
}

/// What is wrong with the types of the first `n` fields.
pub open spec fn field_errors(g: SemV, class: Seq<char>, c: ClassV, n: nat) -> Seq<Seq<char>>
    decreases n,
{
    if n == 0 {
        Seq::empty()
    } else {
        with_opt(
            field_errors(g, class, c, (n - 1) as nat),
            payload_field_spec(g, class, c.fields[n - 1].name, c.fields[n - 1].type_def),
        )
    }
}

/// What is wrong with the storage vectors among the first `n` fields.
pub open spec fn vec_errors(class: Seq<char>, c: ClassV, n: nat) -> Seq<Seq<char>>
    decreases n,
{
    if n == 0 {
        Seq::empty()
    } else {
        with_opt(
            vec_errors(class, c, (n - 1) as nat),
            vec_field_spec(class, c.fields[n - 1].name, c.fields[n - 1].type_def),
        )
    }
}

/// What is wrong with the types of the fields of a class.
pub open spec fn layout_errors(g: SemV, class: Seq<char>, c: ClassV) -> Seq<Seq<char>> {
    field_errors(g, class, c, c.fields.len()) + (if c.is_global {
        vec_errors(class, c, c.fields.len())
    } else {
        Seq::empty()
    })
}

/// What is wrong with the types of the first `n` parameters.
pub open spec fn param_errors(
    g: SemV,
    class: Seq<char>,
    f: FnV,
    out: Seq<Seq<char>>,
    n: nat,
) -> Seq<Seq<char>>
    decreases n,
{
    if n == 0 {
        out
    } else {
        with_opt(
            param_errors(g, class, f, out, (n - 1) as nat),
            crosses_spec(
                g,
                f.parameters[n - 1].type_def,
                "parameter '"@ + f.parameters[n - 1].name + "' of '"@ + class + "."@ + f.name + "'"@,
            ),
        )
    }
}

/// What is wrong with the signature of a function that is called from outside, or
/// that calls out.
pub open spec fn signature_errors(
    g: SemV,
    class: Seq<char>,
    c: ClassV,
    f: FnV,
    out: Seq<Seq<char>>,
) -> Seq<Seq<char>> {
    if exported(f) || (c.is_global && f.name == "new"@) || c.is_extern {
        let out = param_errors(g, class, f, out, f.parameters.len());
        match f.return_type {
            Some(t) => with_opt(
                out,
                crosses_spec(
                    g,
                    t,
                    "the return type of '"@ + class + "."@ + f.name + "'"@,
                ),
            ),
            None => out,
        }
    } else {
        out
    }
}

/// What is wrong with the signatures of the first `n` methods.
pub open spec fn abi_errors(g: SemV, class: Seq<char>, c: ClassV, n: nat) -> Seq<Seq<char>>
    decreases n,
{
    if n == 0 {
        Seq::empty()
    } else {
        signature_errors(g, class, c, c.methods[n - 1], abi_errors(g, class, c, (n - 1) as nat))
    }
}

/// What is wrong with the first `n` fields of a class that is no contract.
pub open spec fn plain_field_errors(class: Seq<char>, c: ClassV, n: nat) -> Seq<Seq<char>>
    decreases n,
{
    if n == 0 {
        Seq::empty()
    } else {
        let f = c.fields[n - 1];
        with_opt(
            with_opt(
                plain_field_errors(class, c, (n - 1) as nat),
                transient_field_spec(class, f.name, f.is_transient),
            ),
            const_field_spec(class, f.name, f.is_const),
        )
    }
}

pub open spec fn plain_errors(class: Seq<char>, c: ClassV) -> Seq<Seq<char>> {
    if c.is_global {
        Seq::empty()
    } else {
        plain_field_errors(class, c, c.fields.len())
    }
}

/// Which of the first `n` fields are both const and transient.
pub open spec fn both_errors(class: Seq<char>, c: ClassV, n: nat) -> Seq<Seq<char>>
    decreases n,
{
    if n == 0 {
        Seq::empty()
    } else {
        let f = c.fields[n - 1];
        with_opt(
            both_errors(class, c, (n - 1) as nat),
            transient_const_spec(class, f.name, f.is_const && f.is_transient),
        )
    }
}

/// What is wrong with how the constructor treats the const ones of the first `n`
/// fields.
pub open spec fn constructor_errors(
    class: Seq<char>,
    c: ClassV,
    body: Seq<SpannedV>,
    out: Seq<Seq<char>>,
    n: nat,
) -> Seq<Seq<char>>
    decreases n,
{
    if n == 0 {
        out
    } else {
        let out = constructor_errors(class, c, body, out, (n - 1) as nat);
        let f = c.fields[n - 1];
        if f.is_const {
            with_opt(
                with_opt(out, const_read_spec(body, class, f.name)),
                const_assigned_spec(body, class, f.name),
            )
        } else {
            out
        }
    }
}

/// Which const ones of the first `n` fields a method assigns.
pub open spec fn written_errors(
    class: Seq<char>,
    c: ClassV,
    f: FnV,
    out: Seq<Seq<char>>,
    n: nat,
) -> Seq<Seq<char>>
    decreases n,
{
    if n == 0 {
        out
    } else {
        let out = written_errors(class, c, f, out, (n - 1) as nat);
        if c.fields[n - 1].is_const {
            with_opt(out, const_written_spec(f, class, c.fields[n - 1].name))
        } else {
            out
        }
    }
}

pub open spec fn all_written(
    class: Seq<char>,
    c: ClassV,
    out: Seq<Seq<char>>,
    n: nat,
) -> Seq<Seq<char>>
    decreases n,
{
    if n == 0 {
        out
    } else {
        written_errors(
            class,
            c,
            c.methods[n - 1],
            all_written(class, c, out, (n - 1) as nat),
            c.fields.len(),
        )
    }
}

/// Whether a class has const fields.
pub open spec fn has_const(fs: Seq<FieldV>) -> bool {
    exists|i: int| 0 <= i < fs.len() && (#[trigger] fs[i]).is_const
}

/// What is wrong with the const fields of a contract.
pub open spec fn const_errors(class: Seq<char>, c: ClassV) -> Seq<Seq<char>> {
    if !c.is_global || !has_const(c.fields) {
        Seq::empty()
    } else {
        let out = both_errors(class, c, c.fields.len());
        let out = match method_named(c.methods, "new"@) {
            Some(f) => constructor_errors(class, c, f.body, out, c.fields.len()),
            None => out.push(no_constructor_spec(class, immutable_names_spec(c))),
        };
        all_written(class, c, out, c.methods.len())
    }
}

/// Whether a method below position `i` has the name of the one at it.
pub open spec fn seen_before(ms: Seq<FnV>, i: int) -> bool {
    exists|k: int| 0 <= k < i && (#[trigger] ms[k]).name == ms[i].name
}

/// Which of the first `n` methods have been declared before.
pub open spec fn repeat_errors(class: Seq<char>, c: ClassV, n: nat) -> Seq<Seq<char>>
    decreases n,
{
    if n == 0 {
        Seq::empty()
    } else {
        with_opt(
            repeat_errors(class, c, (n - 1) as nat),
            repeated_method_spec(class, c.methods[n - 1].name, seen_before(c.methods, n - 1)),
        )
    }
}

/// What is wrong with one of the functions that are reached by the shape of a call.
pub open spec fn entry_errors(class: Seq<char>, f: FnV, out: Seq<Seq<char>>) -> Seq<Seq<char>> {
    if !reserved_spec(f) {
        out
    } else {
        match unreachable_entry_spec(class, f) {
            Some(e) => out.push(e),
            None => with_opt(
                with_opt(
                    with_opt(out, entry_params_spec(class, f)),
                    entry_result_spec(class, f),
                ),
                entry_payable_spec(class, f),
            ),
        }
    }
}

pub open spec fn entries_errors(class: Seq<char>, c: ClassV, n: nat) -> Seq<Seq<char>>
    decreases n,
{
    if n == 0 {
        Seq::empty()
    } else {
        entry_errors(class, c.methods[n - 1], entries_errors(class, c, (n - 1) as nat))
    }
}

pub open spec fn special_errors(class: Seq<char>, c: ClassV) -> Seq<Seq<char>> {
    if c.is_global {
        entries_errors(class, c, c.methods.len())
    } else {
        Seq::empty()
    }
}

pub(crate) fn vec_rules(class: &str, c: &ClassDecl) -> (r: Vec<String>)
    ensures
        texts(r@) == vec_errors(class@, c@, c@.fields.len()),
{
    let mut out: Vec<String> = Vec::new();
    let mut i: usize = 0;
    assert(texts(out@) =~= Seq::<Seq<char>>::empty());
    while i < c.fields.len()
        invariant
            i <= c.fields@.len(),
            texts(out@) == vec_errors(class@, c@, i as nat),
        decreases c.fields@.len() - i,
    {
        assert(c@.fields[i as int] == c.fields@[i as int]@);
        let e = vec_field(class, c.fields[i].name.as_str(), &c.fields[i].type_def);
        push_opt(&mut out, e);
        i += 1;
    }
    out
}

pub(crate) fn plain_rules(class: &str, c: &ClassDecl) -> (r: Vec<String>)
    ensures
        texts(r@) == plain_errors(class@, c@),
{
    let mut out: Vec<String> = Vec::new();
    let mut i: usize = 0;
    assert(texts(out@) =~= Seq::<Seq<char>>::empty());
    if c.is_global {
        return out;
    }
    while i < c.fields.len()
        invariant
            i <= c.fields@.len(),
            texts(out@) == plain_field_errors(class@, c@, i as nat),
        decreases c.fields@.len() - i,
    {
        let f = &c.fields[i];
        assert(c@.fields[i as int] == f@);
        let e = transient_field(class, f.name.as_str(), f.is_transient);
        push_opt(&mut out, e);
        let e = const_field(class, f.name.as_str(), f.is_const);
        push_opt(&mut out, e);
        i += 1;
    }
    out
}

fn any_const(c: &ClassDecl) -> (r: bool)
    ensures
        r == has_const(c@.fields),
{
    let mut i: usize = 0;
    while i < c.fields.len()
        invariant
            i <= c.fields@.len(),
            forall|k: int| 0 <= k < i ==> !(#[trigger] c@.fields[k]).is_const,
        decreases c.fields@.len() - i,
    {
        assert(c@.fields[i as int] == c.fields@[i as int]@);
        if c.fields[i].is_const {
            assert(c@.fields[i as int].is_const);
            return true;
        }
        i += 1;
    }
    false
}

fn constructor_rules(class: &str, c: &ClassDecl, f: &FnDecl, out: &mut Vec<String>)
    ensures
        texts(final(out)@) == constructor_errors(
            class@,
            c@,
            f@.body,
            texts(old(out)@),
            c@.fields.len(),
        ),
{
    let ghost o0 = texts(out@);
    let mut i: usize = 0;
    while i < c.fields.len()
        invariant
            i <= c.fields@.len(),
            texts(out@) == constructor_errors(class@, c@, f@.body, o0, i as nat),
        decreases c.fields@.len() - i,
    {
        let x = &c.fields[i];
        assert(c@.fields[i as int] == x@);
        if x.is_const {
            let e = const_read(&f.body, class, x.name.as_str());
            push_opt(out, e);
            let e = const_assigned(&f.body, class, x.name.as_str());
            push_opt(out, e);
        }
        i += 1;
    }
}

fn written_rules(class: &str, c: &ClassDecl, f: &FnDecl, out: &mut Vec<String>)
    ensures
        texts(final(out)@) == written_errors(class@, c@, f@, texts(old(out)@), c@.fields.len()),
{
    let ghost o0 = texts(out@);
    let mut i: usize = 0;
    while i < c.fields.len()
        invariant
            i <= c.fields@.len(),
            texts(out@) == written_errors(class@, c@, f@, o0, i as nat),
        decreases c.fields@.len() - i,
    {
        let x = &c.fields[i];
        assert(c@.fields[i as int] == x@);
        if x.is_const {
            let e = const_written(f, class, x.name.as_str());
            push_opt(out, e);
        }
        i += 1;
    }
}

pub(crate) fn const_rules(class: &str, c: &ClassDecl) -> (r: Vec<String>)
    ensures
        texts(r@) == const_errors(class@, c@),
{
    let mut out: Vec<String> = Vec::new();
    assert(texts(out@) =~= Seq::<Seq<char>>::empty());
    if !c.is_global || !any_const(c) {
        return out;
    }
    let mut i: usize = 0;
    while i < c.fields.len()
        invariant
            i <= c.fields@.len(),
            texts(out@) == both_errors(class@, c@, i as nat),
        decreases c.fields@.len() - i,
    {
        let x = &c.fields[i];
        assert(c@.fields[i as int] == x@);
        let e = transient_const(class, x.name.as_str(), x.is_const && x.is_transient);
        push_opt(&mut out, e);
        i += 1;
    }
    match find_method(&c.methods, "new") {
        Some(k) => {
            assert(methods_v(c.methods@)[k as int] == c.methods@[k as int]@);
            constructor_rules(class, c, &c.methods[k], &mut out);
        },
        None => {
            let ghost before = texts(out@);
            let e = no_constructor(class, immutable_names(c).as_str());
            let ghost ev = e@;
            out.push(e);
            assert(texts(out@) =~= before.push(ev));
        },
    }
    let ghost o1 = texts(out@);
    let mut k: usize = 0;
    while k < c.methods.len()
        invariant
            k <= c.methods@.len(),
            texts(out@) == all_written(class@, c@, o1, k as nat),
        decreases c.methods@.len() - k,
    {
        assert(c@.methods[k as int] == c.methods@[k as int]@);
        written_rules(class, c, &c.methods[k], &mut out);
        k += 1;
    }
    out
}

fn is_repeat(c: &ClassDecl, i: usize) -> (r: bool)
    requires
        i < c.methods@.len(),
    ensures
        r == seen_before(c@.methods, i as int),
{
    let mut k: usize = 0;
    assert(c@.methods[i as int] == c.methods@[i as int]@);
    while k < i
        invariant
            k <= i,
            i < c.methods@.len(),
            c@.methods[i as int] == c.methods@[i as int]@,
            forall|j: int| 0 <= j < k ==> (#[trigger] c@.methods[j]).name != c@.methods[i as int].name,
        decreases i - k,
    {
        assert(c@.methods[k as int] == c.methods@[k as int]@);
        if same(c.methods[k].name.as_str(), c.methods[i].name.as_str()) {
            return true;
        }
        k += 1;
    }
    false
}

pub(crate) fn repeat_rules(class: &str, c: &ClassDecl) -> (r: Vec<String>)
    ensures
        texts(r@) == repeat_errors(class@, c@, c@.methods.len()),
{
    let mut out: Vec<String> = Vec::new();
    let mut i: usize = 0;
    assert(texts(out@) =~= Seq::<Seq<char>>::empty());
    while i < c.methods.len()
        invariant
            i <= c.methods@.len(),
            texts(out@) == repeat_errors(class@, c@, i as nat),
        decreases c.methods@.len() - i,
    {
        assert(c@.methods[i as int] == c.methods@[i as int]@);
        let e = repeated_method(class, c.methods[i].name.as_str(), is_repeat(c, i));
        push_opt(&mut out, e);
        i += 1;
    }
    out
}

fn entry_rules(class: &str, f: &FnDecl, out: &mut Vec<String>)
    ensures
        texts(final(out)@) == entry_errors(class@, f@, texts(old(out)@)),
{
    if !reserved(f) {
        return;
    }
    match unreachable_entry(class, f) {
        Some(e) => push_opt(out, Some(e)),
        None => {
            let e = entry_params(class, f);
            push_opt(out, e);
            let e = entry_result(class, f);
            push_opt(out, e);
            let e = entry_payable(class, f);
            push_opt(out, e);
        },
    }
}

pub(crate) fn special_rules(class: &str, c: &ClassDecl) -> (r: Vec<String>)
    ensures
        texts(r@) == special_errors(class@, c@),
{
    let mut out: Vec<String> = Vec::new();
    let mut i: usize = 0;
    assert(texts(out@) =~= Seq::<Seq<char>>::empty());
    if !c.is_global {
        return out;
    }
    while i < c.methods.len()
        invariant
            i <= c.methods@.len(),
            texts(out@) == entries_errors(class@, c@, i as nat),
        decreases c.methods@.len() - i,
    {
        assert(c@.methods[i as int] == c.methods@[i as int]@);
        entry_rules(class, &c.methods[i], &mut out);
        i += 1;
    }
    out
}

impl TypeChecker {
    pub(crate) fn layout_rules(&self, class: &str, c: &ClassDecl) -> (r: Vec<String>)
        ensures
            texts(r@) == layout_errors(self.sem(), class@, c@),
    {
        let ghost g = self.sem();
        let mut out: Vec<String> = Vec::new();
        let mut i: usize = 0;
        assert(texts(out@) =~= Seq::<Seq<char>>::empty());
        while i < c.fields.len()
            invariant
                i <= c.fields@.len(),
                g == self.sem(),
                texts(out@) == field_errors(g, class@, c@, i as nat),
            decreases c.fields@.len() - i,
        {
            assert(c@.fields[i as int] == c.fields@[i as int]@);
            let e = self.payload_field(class, c.fields[i].name.as_str(), &c.fields[i].type_def);
            push_opt(&mut out, e);
            i += 1;
        }
        let ghost a = texts(out@);
        if c.is_global {
            let mut more = vec_rules(class, c);
            let ghost b = texts(more@);
            out.append(&mut more);
            assert(texts(out@) =~= a + b);
        } else {
            assert(a + Seq::<Seq<char>>::empty() =~= a);
        }
        out
    }

    fn param_rules(&self, class: &str, f: &FnDecl, out: &mut Vec<String>)
        ensures
            texts(final(out)@) == param_errors(
                self.sem(),
                class@,
                f@,
                texts(old(out)@),
                f@.parameters.len(),
            ),
    {
        let ghost g = self.sem();
        let ghost o0 = texts(out@);
        let mut i: usize = 0;
        while i < f.parameters.len()
            invariant
                i <= f.parameters@.len(),
                g == self.sem(),
                texts(out@) == param_errors(g, class@, f@, o0, i as nat),
            decreases f.parameters@.len() - i,
        {
            let p = &f.parameters[i];
            assert(f@.parameters[i as int] == p@);
            let what = cat7(
                "parameter '",
                p.name.as_str(),
                "' of '",
                class,
                ".",
                f.name.as_str(),
                "'",
            );
            let e = self.crosses(&p.type_def, what.as_str());
            push_opt(out, e);
            i += 1;
        }
    }

    pub(crate) fn abi_rules(&self, class: &str, c: &ClassDecl) -> (r: Vec<String>)
        ensures
            texts(r@) == abi_errors(self.sem(), class@, c@, c@.methods.len()),
    {
        let ghost g = self.sem();
        let mut out: Vec<String> = Vec::new();
        let mut i: usize = 0;
        assert(texts(out@) =~= Seq::<Seq<char>>::empty());
        while i < c.methods.len()
            invariant
                i <= c.methods@.len(),
                g == self.sem(),
                texts(out@) == abi_errors(g, class@, c@, i as nat),
            decreases c.methods@.len() - i,
        {
            let f = &c.methods[i];
            assert(c@.methods[i as int] == f@);
            if is_exported(f) || (c.is_global && same(f.name.as_str(), "new")) || c.is_extern {
                self.param_rules(class, f, &mut out);
                match &f.return_type {
                    Some(t) => {
                        let what = cat5(
                            "the return type of '",
                            class,
                            ".",
                            f.name.as_str(),
                            "'",
                        );
                        let e = self.crosses(t, what.as_str());
                        push_opt(&mut out, e);
                    },
                    None => {},
                }
            }
            i += 1;
        }
        out
    }
}

} // verus!
