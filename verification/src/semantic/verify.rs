//! Whether the statements of a function hang together.
use crate::ast::{
    arms_v, body_v, exprs_v, find_variant, opt_expr_v, opt_type_v, types_v, variant_named,
    variants_v, ArmV, Expr, ExprV, MatchArm, Spanned, SpannedV, Statement, StmtV, Type, TypeV,
    VariantV,
};
use crate::codegen::mutability::contract_name;
use crate::codegen::tr_leave::{no_args, no_exprs};
use crate::codegen::translator::{param_types, types_of};
use crate::codegen::yul::{
    fixed_name, is_fixed_name, is_str_type, is_struct_type, opt_text, str_type, struct_type,
};
use crate::semantic::{
    insert_spec, is_infer, is_infer_spec, lookup_spec, SemV, SymbolInfo, SymbolV, TypeChecker,
    WorldV,
};
use crate::semantic::assign::{is_assignable_spec, type_declared};
use crate::semantic::eval::{
    bool_type, bool_type_spec, class_field_spec, payload_spec, symbol_type_spec, type_of_spec,
};
use crate::semantic::leaves::{any_leaves_spec, leaves_spec};
use crate::semantic::spell::{debug_type, debugged, res_type_v, res_unit_v};
use crate::text::{
    begins, begins_char, cat2, cat3, cat4, cat5, cat6, cat7, cat9, dec, dec_text, same,
    starts_with, starts_with_char,
};
use vstd::prelude::*;

verus! {

broadcast use crate::ast::group_views;

/// What the statements of a function are held against.
pub struct FnEnvV {
    pub w: WorldV,
    /// The declared return type.
    pub ret: Option<TypeV>,
}

/// What changes from one statement to the next.
pub struct ChkV {
    /// The scopes, from the outermost to the innermost.
    pub sc: Seq<Map<Seq<char>, SymbolV>>,
    /// Whether some statement so far can hand control to another contract.
    pub ext: bool,
}

pub open spec fn sem_of(g: FnEnvV, st: ChkV) -> SemV {
    SemV { w: g.w, sc: st.sc }
}

impl TypeChecker {
    pub open spec fn fn_env(&self) -> FnEnvV {
        FnEnvV { w: self.world(), ret: opt_type_v(self.current_return_type) }
    }

    pub open spec fn chk(&self) -> ChkV {
        ChkV { sc: self.scopes(), ext: self.has_external_calls }
    }
}

/// An expression that leaves the contract is remembered.
pub open spec fn mark_spec(g: FnEnvV, st: ChkV, e: ExprV) -> ChkV {
    ChkV { ext: st.ext || leaves_spec(sem_of(g, st), e), ..st }
}

pub open spec fn mark_opt(g: FnEnvV, st: ChkV, e: Option<ExprV>) -> ChkV {
    match e {
        Some(e) => mark_spec(g, st, e),
        None => st,
    }
}

pub open spec fn mark_all(g: FnEnvV, st: ChkV, xs: Seq<ExprV>) -> ChkV {
    ChkV { ext: st.ext || any_leaves_spec(sem_of(g, st), xs, xs.len()), ..st }
}

/// The types of the fields of a declared error.
pub open spec fn error_fields(w: WorldV, name: Seq<char>) -> Option<Seq<TypeV>> {
    if w.errors.contains_key(name) {
        Some(param_types(w.errors[name].parameters))
    } else {
        None
    }
}

/// The types of the fields of a variant.
pub open spec fn variant_fields(w: WorldV, name: Seq<char>, variant: Seq<char>) -> Option<
    Seq<TypeV>,
> {
    if w.enums.contains_key(name) {
        match variant_named(w.enums[name].variants, variant) {
            Some(v) => Some(param_types(v.parameters)),
            None => None,
        }
    } else {
        None
    }
}

impl TypeChecker {
    fn note(&mut self, e: &Expr)
        ensures
            final(self).fn_env() == old(self).fn_env(),
            final(self).chk() == mark_spec(old(self).fn_env(), old(self).chk(), e@),
    {
        let one = self.leaves(e);
        self.has_external_calls = self.has_external_calls || one;
    }

    fn note_opt(&mut self, e: &Option<Expr>)
        ensures
            final(self).fn_env() == old(self).fn_env(),
            final(self).chk() == mark_opt(old(self).fn_env(), old(self).chk(), opt_expr_v(*e)),
    {
        match e {
            Some(x) => self.note(x),
            None => {},
        }
    }

    fn note_all(&mut self, xs: &Vec<Expr>)
        ensures
            final(self).fn_env() == old(self).fn_env(),
            final(self).chk() == mark_all(old(self).fn_env(), old(self).chk(), exprs_v(xs@)),
    {
        let one = self.any_leaves(xs);
        self.has_external_calls = self.has_external_calls || one;
    }

    fn set_external(&mut self)
        ensures
            final(self).fn_env() == old(self).fn_env(),
            final(self).chk() == (ChkV { ext: true, ..old(self).chk() }),
    {
        self.has_external_calls = true;
    }

    /// The type of an expression; a call in it that leaves the contract is
    /// remembered.
    pub fn eval_type(&mut self, e: &Expr) -> (r: Result<Type, String>)
        ensures
            final(self).fn_env() == old(self).fn_env(),
            final(self).chk() == mark_spec(old(self).fn_env(), old(self).chk(), e@),
            res_type_v(r) == type_of_spec(old(self).sem(), e@),
    {
        self.note(e);
        self.type_of(e)
    }

    fn declare_local(&mut self, name: &str, is_const: bool, t: &Type)
        ensures
            final(self).fn_env() == old(self).fn_env(),
            final(self).chk() == local_spec(old(self).chk(), name@, is_const, t@),
    {
        self.insert_symbol(
            String::from_str(name),
            SymbolInfo { is_const, type_def: t.clone() },
        );
    }

    fn is_const_symbol(&self, name: &str) -> (r: bool)
        ensures
            r == const_symbol(self.sem(), name@),
    {
        match self.lookup_symbol(name) {
            Some(s) => s.is_const,
            None => false,
        }
    }

    fn fields_of_error(&self, name: &str) -> (r: Option<Vec<Type>>)
        ensures
            error_fields(self.world(), name@) == (match r {
                Some(v) => Some(types_v(v@)),
                None => None,
            }),
    {
        match self.loaded_errors.get(name) {
            Some(e) => {
                assert(self.world().errors[name@] == e@);
                Some(types_of(&e.parameters))
            },
            None => None,
        }
    }

    fn fields_of_variant(&self, name: &str, variant: &str) -> (r: Option<Vec<Type>>)
        ensures
            variant_fields(self.world(), name@, variant@) == (match r {
                Some(v) => Some(types_v(v@)),
                None => None,
            }),
    {
        match self.loaded_enums.get(name) {
            Some(e) => {
                assert(self.world().enums[name@] == e@);
                match find_variant(&e.variants, variant) {
                    Some(i) => {
                        assert(variants_v(e.variants@)[i as int] == e.variants@[i as int]@);
                        Some(types_of(&e.variants[i].parameters))
                    },
                    None => None,
                }
            },
            None => None,
        }
    }
}

/// A new local in the innermost scope.
pub open spec fn local_spec(st: ChkV, name: Seq<char>, is_const: bool, t: TypeV) -> ChkV {
    ChkV { sc: insert_spec(st.sc, name, SymbolV { is_const, type_def: t }), ..st }
}

/// Whether a name is one that may not be assigned.
pub open spec fn const_symbol(g: SemV, name: Seq<char>) -> bool {
    match lookup_spec(g.sc, name) {
        Some(s) => s.is_const,
        None => false,
    }
}

pub open spec fn name_of_spec(e: ExprV) -> Option<Seq<char>> {
    match e {
        ExprV::Identifier(n) => Some(n),
        _ => None,
    }
}

pub(crate) fn name_of(e: &Expr) -> (r: Option<String>)
    ensures
        opt_text(r) == name_of_spec(e@),
{
    match e {
        Expr::Identifier(n) => Some(n.clone()),
        _ => None,
    }
}

/// The class that a name, or `self`, stands for.
#[verifier::opaque]
pub open spec fn owner_class_spec(
    g: FnEnvV,
    st: ChkV,
    name: Seq<char>,
) -> (ChkV, Option<Seq<char>>) {
    if name != "self"@ {
        (st, Some(name))
    } else {
        match symbol_type_spec(sem_of(g, st), "self"@) {
            Some(t) => {
                match t {
                    TypeV::Primitive(n) => (st, Some(n)),
                    _ => (st, None),
                }
            },
            None => (st, None),
        }
    }
}

impl TypeChecker {
    pub(crate) fn owner_class(&mut self, name: &str) -> (r: Option<String>)
        ensures
            final(self).fn_env() == old(self).fn_env(),
            owner_class_spec(
                old(self).fn_env(),
                old(self).chk(),
                name@,
            ) == (final(self).chk(), opt_text(r)),
    {
        proof {
            reveal(owner_class_spec);
        }
        if !same(name, "self") {
            return Some(String::from_str(name));
        }
        match self.symbol_type("self") {
            Some(t) => {
                match &t {
                    Type::Primitive(n) => Some(n.clone()),
                    _ => None,
                }
            },
            None => None,
        }
    }
}

/// Whether a field of a contract is an array of structs.
#[verifier::opaque]
pub open spec fn struct_array_field_spec(
    g: FnEnvV,
    st: ChkV,
    class_name: Seq<char>,
    property: Seq<char>,
) -> (ChkV, bool) {
    if !contract_name(g.w, class_name) {
        (st, false)
    } else {
        match class_field_spec(sem_of(g, st), class_name, property) {
            Some(t) => {
                match t {
                    TypeV::Array(inner) => (st, struct_type(g.w, *inner)),
                    _ => (st, false),
                }
            },
            None => (st, false),
        }
    }
}

impl TypeChecker {
    pub(crate) fn struct_array_field(&mut self, class_name: &str, property: &str) -> (r: bool)
        ensures
            final(self).fn_env() == old(self).fn_env(),
            struct_array_field_spec(
                old(self).fn_env(),
                old(self).chk(),
                class_name@,
                property@,
            ) == (final(self).chk(), r),
    {
        proof {
            reveal(struct_array_field_spec);
        }
        if !self.is_contract_class(class_name) {
            return false;
        }
        match self.class_field(class_name, property) {
            Some(t) => {
                match &t {
                    Type::Array(inner) => is_struct_type(self, inner),
                    _ => false,
                }
            },
            None => false,
        }
    }
}

/// An array of structs in storage is no value: its elements have no form in
/// memory.
#[verifier::opaque]
pub open spec fn reject_storage_array_copy_spec(
    g: FnEnvV,
    st: ChkV,
    e: ExprV,
    prefix: Seq<char>,
) -> (ChkV, Result<(), Seq<char>>) {
    match e {
        ExprV::PropertyAccess { base, property } => {
            match name_of_spec(*base) {
                Some(n) => {
                    let (st, found) = owner_class_spec(g, st, n);
                    match found {
                        Some(c) => {
                            let (st, bad) = struct_array_field_spec(g, st, c, property);
                            if bad {
                                (
                                    st,
                                    Err(
                                        prefix
                                        + " '"@
                                        + c
                                        + "."@
                                        + property
                                        + "' holds structs and cannot be copied into a value: a struct element is a group of slots with no memory form. Use it in place: '"@
                                        + c
                                        + "."@
                                        + property
                                        + "[i].field', 'for x in "@
                                        + c
                                        + "."@
                                        + property
                                        + "', '.length', '.push()', '.pop()'."@
                                    ),
                                )
                            } else {
                                (st, Ok(()))
                            }
                        },
                        None => (st, Ok(())),
                    }
                },
                None => (st, Ok(())),
            }
        },
        _ => (st, Ok(())),
    }
}

impl TypeChecker {
    pub(crate) fn reject_storage_array_copy(
        &mut self,
        e: &Expr,
        prefix: &str,
    ) -> (r: Result<(), String>)
        ensures
            final(self).fn_env() == old(self).fn_env(),
            reject_storage_array_copy_spec(
                old(self).fn_env(),
                old(self).chk(),
                e@,
                prefix@,
            ) == (final(self).chk(), res_unit_v(r)),
    {
        proof {
            reveal(reject_storage_array_copy_spec);
        }
        match e {
            Expr::PropertyAccess { base, property } => {
                match name_of(base) {
                    Some(n) => {
                        let found = self.owner_class(n.as_str());
                        match found {
                            Some(c) => {
                                let bad = self.struct_array_field(c.as_str(), property.as_str());
                                if bad {
                                    return Err(
                                        cat6(
                                            cat9(
                                                prefix,
                                                " '",
                                                c.as_str(),
                                                ".",
                                                property.as_str(),
                                                "' holds structs and cannot be copied into a value: a struct element is a group of slots with no memory form. Use it in place: '",
                                                c.as_str(),
                                                ".",
                                                property.as_str(),
                                            ).as_str(),
                                            "[i].field', 'for x in ",
                                            c.as_str(),
                                            ".",
                                            property.as_str(),
                                            "', '.length', '.push()', '.pop()'.",
                                        )
                                    );
                                }
                                Ok(())
                            },
                            None => Ok(()),
                        }
                    },
                    None => Ok(()),
                }
            },
            _ => Ok(()),
        }
    }
}

pub open spec fn is_number_spec(e: ExprV) -> bool {
    match e {
        ExprV::Number(_) => true,
        _ => false,
    }
}

pub(crate) fn is_number(e: &Expr) -> (r: bool)
    ensures
        r == is_number_spec(e@),
{
    match e {
        Expr::Number(_) => true,
        _ => false,
    }
}

pub open spec fn fixed_type_spec(t: TypeV) -> bool {
    match t {
        TypeV::Primitive(n) => fixed_name(n),
        _ => false,
    }
}

pub(crate) fn fixed_type(t: &Type) -> (r: bool)
    ensures
        r == fixed_type_spec(t@),
{
    match t {
        Type::Primitive(n) => is_fixed_name(n.as_str()),
        _ => false,
    }
}

/// A fixed-point number is scaled, so arithmetic does not mix it with a plain
/// integer; a literal takes the scale of the other side.
#[verifier::opaque]
pub open spec fn check_fixed_point_math_spec(
    g: FnEnvV,
    st: ChkV,
    e: ExprV,
) -> (ChkV, Result<(), Seq<char>>) {
    match e {
        ExprV::BinaryOp { left, operator, right } => {
            match type_of_spec(sem_of(g, st), *left) {
                Ok(l) => {
                    match type_of_spec(sem_of(g, st), *right) {
                        Ok(x) => {
                            if !(
                                operator == "+"@
                                || operator == "-"@
                                || operator == "*"@
                                || operator == "/"@
                                || operator == "%"@
                                || operator == "**"@
                            ) {
                                (st, Ok(()))
                            } else if fixed_type_spec(l) && !fixed_type_spec(x) && !is_number_spec(
                                *right
                            ) {
                                (
                                    st,
                                    Err(
                                        "Fixed-point math must not mix scales: "@
                                        + debugged(l)
                                        + " "@
                                        + operator
                                        + " "@
                                        + debugged(x)
                                        + ". A fixed-point value is WAD-scaled (1.0 is 10^18), so combining it with a plain integer silently reads that integer as a fraction. Convert one side first."@
                                    ),
                                )
                            } else if fixed_type_spec(x) && !fixed_type_spec(l) && !is_number_spec(
                                *left
                            ) {
                                (
                                    st,
                                    Err(
                                        "Fixed-point math must not mix scales: "@
                                        + debugged(l)
                                        + " "@
                                        + operator
                                        + " "@
                                        + debugged(x)
                                        + ". A fixed-point value is WAD-scaled (1.0 is 10^18), so combining it with a plain integer silently reads that integer as a fraction. Convert one side first."@
                                    ),
                                )
                            } else {
                                (st, Ok(()))
                            }
                        },
                        Err(e) => (st, Err(e)),
                    }
                },
                Err(e) => (st, Err(e)),
            }
        },
        _ => (st, Ok(())),
    }
}

impl TypeChecker {
    pub(crate) fn check_fixed_point_math(&mut self, e: &Expr) -> (r: Result<(), String>)
        ensures
            final(self).fn_env() == old(self).fn_env(),
            check_fixed_point_math_spec(
                old(self).fn_env(),
                old(self).chk(),
                e@,
            ) == (final(self).chk(), res_unit_v(r)),
    {
        proof {
            reveal(check_fixed_point_math_spec);
        }
        match e {
            Expr::BinaryOp { left, operator, right } => {
                let l = match self.type_of(left) {
                    Ok(t) => t,
                    Err(e) => {
                        return Err(e);
                    },
                };
                let x = match self.type_of(right) {
                    Ok(t) => t,
                    Err(e) => {
                        return Err(e);
                    },
                };
                if !(
                    same(operator.as_str(), "+")
                    || same(operator.as_str(), "-")
                    || same(operator.as_str(), "*")
                    || same(operator.as_str(), "/")
                    || same(operator.as_str(), "%")
                    || same(operator.as_str(), "**")
                ) {
                    return Ok(());
                }
                if fixed_type(&l) && !fixed_type(&x) && !is_number(right) {
                    return Err(
                        cat7(
                            "Fixed-point math must not mix scales: ",
                            debug_type(&l).as_str(),
                            " ",
                            operator.as_str(),
                            " ",
                            debug_type(&x).as_str(),
                            ". A fixed-point value is WAD-scaled (1.0 is 10^18), so combining it with a plain integer silently reads that integer as a fraction. Convert one side first.",
                        )
                    );
                }
                if fixed_type(&x) && !fixed_type(&l) && !is_number(left) {
                    return Err(
                        cat7(
                            "Fixed-point math must not mix scales: ",
                            debug_type(&l).as_str(),
                            " ",
                            operator.as_str(),
                            " ",
                            debug_type(&x).as_str(),
                            ". A fixed-point value is WAD-scaled (1.0 is 10^18), so combining it with a plain integer silently reads that integer as a fraction. Convert one side first.",
                        )
                    );
                }
                Ok(())
            },
            _ => Ok(()),
        }
    }
}

/// A declared error, or a variant of an enum, with its fields; `None` where an
/// expression is neither.
#[verifier::opaque]
pub open spec fn check_error_args_spec(
    g: FnEnvV,
    st: ChkV,
    e: ExprV,
    prefix: Seq<char>,
) -> (ChkV, Option<Result<(), Seq<char>>>) {
    match e {
        ExprV::FnCall { name, args } => {
            match error_fields(g.w, name) {
                Some(ts) => (st, Some(error_args(sem_of(g, st), name, ts, args, prefix))),
                None => (st, None),
            }
        },
        ExprV::MethodCall { base, method, args } => {
            match name_of_spec(*base) {
                Some(n) => {
                    match variant_fields(g.w, n, method) {
                        Some(ts) => (
                            st,
                            Some(error_args(sem_of(g, st), n + "."@ + method, ts, args, prefix)),
                        ),
                        None => (st, None),
                    }
                },
                None => (st, None),
            }
        },
        ExprV::PropertyAccess { base, property } => {
            match name_of_spec(*base) {
                Some(n) => {
                    match variant_fields(g.w, n, property) {
                        Some(ts) => (
                            st,
                            Some(
                                error_args(
                                    sem_of(g, st),
                                    n + "."@ + property,
                                    ts,
                                    no_exprs(),
                                    prefix,
                                )
                            ),
                        ),
                        None => (st, None),
                    }
                },
                None => (st, None),
            }
        },
        _ => (st, None),
    }
}

impl TypeChecker {
    pub(crate) fn check_error_args(
        &mut self,
        e: &Expr,
        prefix: &str,
    ) -> (r: Option<Result<(), String>>)
        ensures
            final(self).fn_env() == old(self).fn_env(),
            check_error_args_spec(old(self).fn_env(), old(self).chk(), e@, prefix@) == (
                final(self).chk(),
                (match r { Some(x) => Some(res_unit_v(x)), None => None }),
            ),
    {
        proof {
            reveal(check_error_args_spec);
        }
        match e {
            Expr::FnCall { name, args } => {
                match self.fields_of_error(name.as_str()) {
                    Some(ts) => Some(self.check_args(name.as_str(), &ts, args, prefix)),
                    None => None,
                }
            },
            Expr::MethodCall { base, method, args } => {
                match name_of(base) {
                    Some(n) => {
                        match self.fields_of_variant(n.as_str(), method.as_str()) {
                            Some(ts) => Some(
                                self.check_args(
                                    cat3(n.as_str(), ".", method.as_str()).as_str(),
                                    &ts,
                                    args,
                                    prefix,
                                )
                            ),
                            None => None,
                        }
                    },
                    None => None,
                }
            },
            Expr::PropertyAccess { base, property } => {
                match name_of(base) {
                    Some(n) => {
                        match self.fields_of_variant(n.as_str(), property.as_str()) {
                            Some(ts) => Some(
                                self.check_args(
                                    cat3(n.as_str(), ".", property.as_str()).as_str(),
                                    &ts,
                                    &no_args(),
                                    prefix,
                                )
                            ),
                            None => None,
                        }
                    },
                    None => None,
                }
            },
            _ => None,
        }
    }
}

#[verifier::opaque]
pub open spec fn verify_revert_spec(
    g: FnEnvV,
    st: ChkV,
    e: ExprV,
    prefix: Seq<char>,
) -> (ChkV, Result<(), Seq<char>>) {
    let (st, found) = check_error_args_spec(g, st, e, prefix);
    match found {
        Some(x) => (st, x),
        None => {
            match e {
                ExprV::FnCall { name, .. } => (
                    st,
                    Err(prefix + " Undeclared custom error '"@ + name + "'"@),
                ),
                _ => (st, Err(prefix + " revert takes a declared error or a variant of an enum."@)),
            }
        },
    }
}

impl TypeChecker {
    pub(crate) fn verify_revert(&mut self, e: &Expr, prefix: &str) -> (r: Result<(), String>)
        ensures
            final(self).fn_env() == old(self).fn_env(),
            verify_revert_spec(
                old(self).fn_env(),
                old(self).chk(),
                e@,
                prefix@,
            ) == (final(self).chk(), res_unit_v(r)),
    {
        proof {
            reveal(verify_revert_spec);
        }
        let found = self.check_error_args(e, prefix);
        match found {
            Some(x) => {
                return x;
            },
            None => {},
        }
        match e {
            Expr::FnCall { name, .. } => Err(
                cat4(prefix, " Undeclared custom error '", name.as_str(), "'")
            ),
            _ => Err(cat2(prefix, " revert takes a declared error or a variant of an enum.")),
        }
    }
}

#[verifier::opaque]
pub open spec fn verify_condition_spec(
    g: FnEnvV,
    st: ChkV,
    e: ExprV,
    what: Seq<char>,
) -> (ChkV, Result<(), Seq<char>>) {
    match type_of_spec(sem_of(g, st), e) {
        Ok(t) => {
            if !is_assignable_spec(sem_of(g, st), TypeV::Primitive("bool"@), t) {
                (st, Err(what + " must be bool, found "@ + debugged(t)))
            } else {
                (st, Ok(()))
            }
        },
        Err(e) => (st, Err(e)),
    }
}

impl TypeChecker {
    pub(crate) fn verify_condition(&mut self, e: &Expr, what: &str) -> (r: Result<(), String>)
        ensures
            final(self).fn_env() == old(self).fn_env(),
            verify_condition_spec(
                old(self).fn_env(),
                old(self).chk(),
                e@,
                what@,
            ) == (final(self).chk(), res_unit_v(r)),
    {
        proof {
            reveal(verify_condition_spec);
        }
        let t = match self.type_of(e) {
            Ok(t) => t,
            Err(e) => {
                return Err(e);
            },
        };
        if !self.is_assignable(&Type::Primitive(String::from_str("bool")), &t) {
            return Err(cat3(what, " must be bool, found ", debug_type(&t).as_str()));
        }
        Ok(())
    }
}

#[verifier::opaque]
pub open spec fn verify_assert_spec(
    g: FnEnvV,
    st: ChkV,
    condition: ExprV,
    message: Option<ExprV>,
    prefix: Seq<char>,
) -> (ChkV, Result<(), Seq<char>>) {
    let st = mark_spec(g, st, condition);
    let st = mark_opt(g, st, message);
    let (st, found) = verify_condition_spec(g, st, condition, prefix + " assert condition"@);
    match found {
        Ok(_) => {
            match message {
                Some(m) => {
                    let (st, found) = check_error_args_spec(g, st, m, prefix);
                    match found {
                        Some(x) => (st, x),
                        None => {
                            match type_of_spec(sem_of(g, st), m) {
                                Ok(t) => {
                                    if !str_type(t) {
                                        (
                                            st,
                                            Err(
                                                prefix
                                                + " assert message must be a String or a custom error call, found "@
                                                + debugged(t)
                                            ),
                                        )
                                    } else {
                                        (st, Ok(()))
                                    }
                                },
                                Err(e) => (st, Err(e)),
                            }
                        },
                    }
                },
                None => (st, Ok(())),
            }
        },
        Err(e) => (st, Err(e)),
    }
}

impl TypeChecker {
    pub(crate) fn verify_assert(
        &mut self,
        condition: &Expr,
        message: &Option<Expr>,
        prefix: &str,
    ) -> (r: Result<(), String>)
        ensures
            final(self).fn_env() == old(self).fn_env(),
            verify_assert_spec(
                old(self).fn_env(),
                old(self).chk(),
                condition@,
                opt_expr_v(*message),
                prefix@,
            ) == (final(self).chk(), res_unit_v(r)),
    {
        proof {
            reveal(verify_assert_spec);
        }
        self.note(condition);
        self.note_opt(message);
        let found = self.verify_condition(condition, cat2(prefix, " assert condition").as_str());
        match found {
            Ok(_) => {},
            Err(e) => {
                return Err(e);
            },
        }
        match message {
            Some(m) => {
                let found = self.check_error_args(m, prefix);
                match found {
                    Some(x) => {
                        return x;
                    },
                    None => {},
                }
                let t = match self.type_of(m) {
                    Ok(t) => t,
                    Err(e) => {
                        return Err(e);
                    },
                };
                if !is_str_type(&t) {
                    return Err(
                        cat3(
                            prefix,
                            " assert message must be a String or a custom error call, found ",
                            debug_type(&t).as_str(),
                        )
                    );
                }
                Ok(())
            },
            None => Ok(()),
        }
    }
}

/// The type of a new local.
#[verifier::opaque]
pub open spec fn declared_local_spec(
    g: FnEnvV,
    st: ChkV,
    type_def: TypeV,
    value: Option<ExprV>,
    name: Seq<char>,
    prefix: Seq<char>,
) -> (ChkV, Result<TypeV, Seq<char>>) {
    match value {
        Some(v) => {
            let (st, found) = reject_storage_array_copy_spec(g, st, v, prefix);
            match found {
                Ok(_) => {
                    if is_infer_spec(type_def) {
                        (st, type_of_spec(sem_of(g, st), v))
                    } else {
                        match type_declared(sem_of(g, st), type_def) {
                            Ok(_) => {
                                match type_of_spec(sem_of(g, st), v) {
                                    Ok(t) => {
                                        if !is_assignable_spec(sem_of(g, st), type_def, t) {
                                            (
                                                st,
                                                Err(
                                                    prefix
                                                    + " Type Mismatch. Cannot assign "@
                                                    + debugged(t)
                                                    + " to "@
                                                    + debugged(type_def)
                                                ),
                                            )
                                        } else {
                                            (st, Ok(type_def))
                                        }
                                    },
                                    Err(e) => (st, Err(e)),
                                }
                            },
                            Err(e) => (st, Err(e)),
                        }
                    }
                },
                Err(e) => (st, Err(e)),
            }
        },
        None => {
            if is_infer_spec(type_def) {
                (
                    st,
                    Err(
                        prefix
                        + " var declaration of '"@
                        + name
                        + "' needs an initializer to infer its type"@
                    ),
                )
            } else {
                match type_declared(sem_of(g, st), type_def) {
                    Ok(_) => (st, Ok(type_def)),
                    Err(e) => (st, Err(e)),
                }
            }
        },
    }
}

impl TypeChecker {
    pub(crate) fn declared_local(
        &mut self,
        type_def: &Type,
        value: &Option<Expr>,
        name: &str,
        prefix: &str,
    ) -> (r: Result<Type, String>)
        ensures
            final(self).fn_env() == old(self).fn_env(),
            declared_local_spec(
                old(self).fn_env(),
                old(self).chk(),
                type_def@,
                opt_expr_v(*value),
                name@,
                prefix@,
            ) == (final(self).chk(), res_type_v(r)),
    {
        proof {
            reveal(declared_local_spec);
        }
        match value {
            Some(v) => {
                let found = self.reject_storage_array_copy(v, prefix);
                match found {
                    Ok(_) => {},
                    Err(e) => {
                        return Err(e);
                    },
                }
                if is_infer(type_def) {
                    return self.type_of(v);
                }
                match self.verify_type_declaration(type_def) {
                    Ok(_) => {},
                    Err(e) => {
                        return Err(e);
                    },
                }
                let t = match self.type_of(v) {
                    Ok(t) => t,
                    Err(e) => {
                        return Err(e);
                    },
                };
                if !self.is_assignable(type_def, &t) {
                    return Err(
                        cat5(
                            prefix,
                            " Type Mismatch. Cannot assign ",
                            debug_type(&t).as_str(),
                            " to ",
                            debug_type(type_def).as_str(),
                        )
                    );
                }
                Ok(type_def.clone())
            },
            None => {
                if is_infer(type_def) {
                    return Err(
                        cat4(
                            prefix,
                            " var declaration of '",
                            name,
                            "' needs an initializer to infer its type",
                        )
                    );
                }
                match self.verify_type_declaration(type_def) {
                    Ok(_) => {},
                    Err(e) => {
                        return Err(e);
                    },
                }
                Ok(type_def.clone())
            },
        }
    }
}

#[verifier::opaque]
pub open spec fn verify_assignment_spec(
    g: FnEnvV,
    st: ChkV,
    target: ExprV,
    value: ExprV,
    prefix: Seq<char>,
) -> (ChkV, Result<(), Seq<char>>) {
    let st = mark_spec(g, st, target);
    let st = mark_spec(g, st, value);
    let (st, found) = reject_storage_array_copy_spec(g, st, value, prefix);
    match found {
        Ok(_) => {
            match type_of_spec(sem_of(g, st), target) {
                Ok(t) => {
                    match type_of_spec(sem_of(g, st), value) {
                        Ok(v) => {
                            if !is_assignable_spec(sem_of(g, st), t, v) {
                                (
                                    st,
                                    Err(
                                        prefix
                                        + " Type Mismatch on assignment. Expected "@
                                        + debugged(t)
                                        + ", found "@
                                        + debugged(v)
                                    ),
                                )
                            } else {
                                match name_of_spec(target) {
                                    Some(n) => {
                                        if const_symbol(sem_of(g, st), n) {
                                            (
                                                st,
                                                Err(
                                                    prefix
                                                    + " Cannot reassign to constant variable '"@
                                                    + n
                                                    + "'!"@
                                                ),
                                            )
                                        } else {
                                            (st, Ok(()))
                                        }
                                    },
                                    None => (st, Ok(())),
                                }
                            }
                        },
                        Err(e) => (st, Err(e)),
                    }
                },
                Err(e) => (st, Err(e)),
            }
        },
        Err(e) => (st, Err(e)),
    }
}

impl TypeChecker {
    pub(crate) fn verify_assignment(
        &mut self,
        target: &Expr,
        value: &Expr,
        prefix: &str,
    ) -> (r: Result<(), String>)
        ensures
            final(self).fn_env() == old(self).fn_env(),
            verify_assignment_spec(
                old(self).fn_env(),
                old(self).chk(),
                target@,
                value@,
                prefix@,
            ) == (final(self).chk(), res_unit_v(r)),
    {
        proof {
            reveal(verify_assignment_spec);
        }
        self.note(target);
        self.note(value);
        let found = self.reject_storage_array_copy(value, prefix);
        match found {
            Ok(_) => {},
            Err(e) => {
                return Err(e);
            },
        }
        let t = match self.type_of(target) {
            Ok(t) => t,
            Err(e) => {
                return Err(e);
            },
        };
        let v = match self.type_of(value) {
            Ok(t) => t,
            Err(e) => {
                return Err(e);
            },
        };
        if !self.is_assignable(&t, &v) {
            return Err(
                cat5(
                    prefix,
                    " Type Mismatch on assignment. Expected ",
                    debug_type(&t).as_str(),
                    ", found ",
                    debug_type(&v).as_str(),
                )
            );
        }
        match name_of(target) {
            Some(n) => {
                if self.is_const_symbol(n.as_str()) {
                    return Err(
                        cat4(prefix, " Cannot reassign to constant variable '", n.as_str(), "'!")
                    );
                }
                Ok(())
            },
            None => Ok(()),
        }
    }
}

#[verifier::opaque]
pub open spec fn deletable_spec(
    g: FnEnvV,
    st: ChkV,
    target: ExprV,
    prefix: Seq<char>,
) -> (ChkV, Result<(), Seq<char>>) {
    match target {
        ExprV::Identifier(n) => {
            if const_symbol(sem_of(g, st), n) {
                (
                    st,
                    Err(
                        prefix
                        + " Cannot delete '"@
                        + n
                        + "': it is immutable. Declare it mut to reset it."@
                    ),
                )
            } else {
                (st, Ok(()))
            }
        },
        ExprV::PropertyAccess { .. } => (st, Ok(())),
        ExprV::IndexAccess { .. } => (st, Ok(())),
        _ => (
            st,
            Err(
                prefix
                + " delete needs a variable, field, or element to reset, not an expression."@
            ),
        ),
    }
}

impl TypeChecker {
    pub(crate) fn deletable(&mut self, target: &Expr, prefix: &str) -> (r: Result<(), String>)
        ensures
            final(self).fn_env() == old(self).fn_env(),
            deletable_spec(
                old(self).fn_env(),
                old(self).chk(),
                target@,
                prefix@,
            ) == (final(self).chk(), res_unit_v(r)),
    {
        proof {
            reveal(deletable_spec);
        }
        match target {
            Expr::Identifier(n) => {
                if self.is_const_symbol(n.as_str()) {
                    return Err(
                        cat4(
                            prefix,
                            " Cannot delete '",
                            n.as_str(),
                            "': it is immutable. Declare it mut to reset it.",
                        )
                    );
                }
                Ok(())
            },
            Expr::PropertyAccess { .. } => Ok(()),
            Expr::IndexAccess { .. } => Ok(()),
            _ => Err(
                cat2(
                    prefix,
                    " delete needs a variable, field, or element to reset, not an expression.",
                )
            ),
        }
    }
}

#[verifier::opaque]
pub open spec fn verify_delete_spec(
    g: FnEnvV,
    st: ChkV,
    target: ExprV,
    prefix: Seq<char>,
) -> (ChkV, Result<(), Seq<char>>) {
    let st = mark_spec(g, st, target);
    match type_of_spec(sem_of(g, st), target) {
        Ok(t) => {
            let (st, found) = deletable_spec(g, st, target, prefix);
            match found {
                Ok(_) => {
                    match t {
                        TypeV::Generic { name, .. } => {
                            if name == "HashMap"@ {
                                (
                                    st,
                                    Err(
                                        prefix
                                        + " Cannot delete a whole HashMap, its keys aren't tracked, so there is nothing to clear. Delete a single entry instead (delete m[key])."@
                                    ),
                                )
                            } else {
                                (st, Ok(()))
                            }
                        },
                        _ => (st, Ok(())),
                    }
                },
                Err(e) => (st, Err(e)),
            }
        },
        Err(e) => (st, Err(e)),
    }
}

impl TypeChecker {
    pub(crate) fn verify_delete(&mut self, target: &Expr, prefix: &str) -> (r: Result<(), String>)
        ensures
            final(self).fn_env() == old(self).fn_env(),
            verify_delete_spec(
                old(self).fn_env(),
                old(self).chk(),
                target@,
                prefix@,
            ) == (final(self).chk(), res_unit_v(r)),
    {
        proof {
            reveal(verify_delete_spec);
        }
        self.note(target);
        let t = match self.type_of(target) {
            Ok(t) => t,
            Err(e) => {
                return Err(e);
            },
        };
        let found = self.deletable(target, prefix);
        match found {
            Ok(_) => {},
            Err(e) => {
                return Err(e);
            },
        }
        match &t {
            Type::Generic { name, .. } => {
                if same(name.as_str(), "HashMap") {
                    return Err(
                        cat2(
                            prefix,
                            " Cannot delete a whole HashMap, its keys aren't tracked, so there is nothing to clear. Delete a single entry instead (delete m[key]).",
                        )
                    );
                }
                Ok(())
            },
            _ => Ok(()),
        }
    }
}

pub open spec fn integer_type_spec(t: TypeV) -> bool {
    match t {
        TypeV::Primitive(n) => begins_char(n, 'u') || begins_char(n, 'i'),
        _ => false,
    }
}

pub(crate) fn integer_type(t: &Type) -> (r: bool)
    ensures
        r == integer_type_spec(t@),
{
    match t {
        Type::Primitive(n) => starts_with_char(
            n.as_str(),
            'u',
        ) || starts_with_char(n.as_str(), 'i'),
        _ => false,
    }
}

#[verifier::opaque]
pub open spec fn verify_flip_spec(
    g: FnEnvV,
    st: ChkV,
    name: Seq<char>,
    index: ExprV,
    value: ExprV,
    prefix: Seq<char>,
) -> (ChkV, Result<(), Seq<char>>) {
    let st = mark_spec(g, st, index);
    let st = mark_spec(g, st, value);
    match symbol_type_spec(sem_of(g, st), name) {
        Some(t) => {
            if const_symbol(sem_of(g, st), name) {
                (st, Err(prefix + " Cannot modify constant '"@ + name + "' via bitwise flip"@))
            } else if !integer_type_spec(t) {
                (
                    st,
                    Err(
                        prefix
                        + " Bitwise flip is only supported on integer types, got "@
                        + debugged(t)
                    ),
                )
            } else {
                match type_of_spec(sem_of(g, st), index) {
                    Ok(i) => {
                        if !integer_type_spec(i) {
                            (
                                st,
                                Err(
                                    prefix
                                    + " Bitwise flip index must be an integer, got "@
                                    + debugged(i)
                                ),
                            )
                        } else {
                            match type_of_spec(sem_of(g, st), value) {
                                Ok(v) => {
                                    if !integer_type_spec(v) && !bool_type_spec(v) {
                                        (
                                            st,
                                            Err(
                                                prefix
                                                + " Bitwise flip value must be an integer or bool, got "@
                                                + debugged(v)
                                            ),
                                        )
                                    } else {
                                        (st, Ok(()))
                                    }
                                },
                                Err(e) => (st, Err(e)),
                            }
                        }
                    },
                    Err(e) => (st, Err(e)),
                }
            }
        },
        None => (
            st,
            Err(prefix + " Variable '"@ + name + "' not found in scope for bitwise flip"@),
        ),
    }
}

impl TypeChecker {
    pub(crate) fn verify_flip(
        &mut self,
        name: &str,
        index: &Expr,
        value: &Expr,
        prefix: &str,
    ) -> (r: Result<(), String>)
        ensures
            final(self).fn_env() == old(self).fn_env(),
            verify_flip_spec(
                old(self).fn_env(),
                old(self).chk(),
                name@,
                index@,
                value@,
                prefix@,
            ) == (final(self).chk(), res_unit_v(r)),
    {
        proof {
            reveal(verify_flip_spec);
        }
        self.note(index);
        self.note(value);
        match self.symbol_type(name) {
            Some(t) => {
                if self.is_const_symbol(name) {
                    return Err(
                        cat4(prefix, " Cannot modify constant '", name, "' via bitwise flip")
                    );
                }
                if !integer_type(&t) {
                    return Err(
                        cat3(
                            prefix,
                            " Bitwise flip is only supported on integer types, got ",
                            debug_type(&t).as_str(),
                        )
                    );
                }
                let i = match self.type_of(index) {
                    Ok(t) => t,
                    Err(e) => {
                        return Err(e);
                    },
                };
                if !integer_type(&i) {
                    return Err(
                        cat3(
                            prefix,
                            " Bitwise flip index must be an integer, got ",
                            debug_type(&i).as_str(),
                        )
                    );
                }
                let v = match self.type_of(value) {
                    Ok(t) => t,
                    Err(e) => {
                        return Err(e);
                    },
                };
                if !integer_type(&v) && !bool_type(&v) {
                    return Err(
                        cat3(
                            prefix,
                            " Bitwise flip value must be an integer or bool, got ",
                            debug_type(&v).as_str(),
                        )
                    );
                }
                Ok(())
            },
            None => Err(cat4(prefix, " Variable '", name, "' not found in scope for bitwise flip")),
        }
    }
}

#[verifier::opaque]
pub open spec fn verify_value_spec(g: FnEnvV, st: ChkV, e: ExprV) -> (ChkV, Result<(), Seq<char>>) {
    let st = mark_spec(g, st, e);
    let (st, found) = check_fixed_point_math_spec(g, st, e);
    match found {
        Ok(_) => {
            match type_of_spec(sem_of(g, st), e) {
                Ok(_) => (st, Ok(())),
                Err(e) => (st, Err(e)),
            }
        },
        Err(e) => (st, Err(e)),
    }
}

impl TypeChecker {
    pub(crate) fn verify_value(&mut self, e: &Expr) -> (r: Result<(), String>)
        ensures
            final(self).fn_env() == old(self).fn_env(),
            verify_value_spec(
                old(self).fn_env(),
                old(self).chk(),
                e@,
            ) == (final(self).chk(), res_unit_v(r)),
    {
        proof {
            reveal(verify_value_spec);
        }
        self.note(e);
        let found = self.check_fixed_point_math(e);
        match found {
            Ok(_) => {},
            Err(e) => {
                return Err(e);
            },
        }
        match self.type_of(e) {
            Ok(_) => {},
            Err(e) => {
                return Err(e);
            },
        }
        Ok(())
    }
}

#[verifier::opaque]
pub open spec fn verify_return_spec(
    g: FnEnvV,
    st: ChkV,
    value: Option<ExprV>,
    prefix: Seq<char>,
) -> (ChkV, Result<(), Seq<char>>) {
    match value {
        Some(v) => {
            if g.ret is None {
                (
                    st,
                    Err(
                        prefix
                        + " this function declares no return type, so return must not have a value"@
                    ),
                )
            } else {
                verify_value_spec(g, st, v)
            }
        },
        None => (st, Ok(())),
    }
}

impl TypeChecker {
    pub(crate) fn verify_return(
        &mut self,
        value: &Option<Expr>,
        prefix: &str,
    ) -> (r: Result<(), String>)
        ensures
            final(self).fn_env() == old(self).fn_env(),
            verify_return_spec(
                old(self).fn_env(),
                old(self).chk(),
                opt_expr_v(*value),
                prefix@,
            ) == (final(self).chk(), res_unit_v(r)),
    {
        proof {
            reveal(verify_return_spec);
        }
        match value {
            Some(v) => {
                if self.current_return_type.is_none() {
                    return Err(
                        cat2(
                            prefix,
                            " this function declares no return type, so return must not have a value",
                        )
                    );
                }
                self.verify_value(v)
            },
            None => Ok(()),
        }
    }
}

#[verifier::opaque]
pub open spec fn verify_loop_spec(
    g: FnEnvV,
    st: ChkV,
    s: StmtV,
    prefix: Seq<char>,
) -> (ChkV, Result<(), Seq<char>>)
    decreases s, 8nat,
{
    match s {
        StmtV::ForLoop { iterator, iterable, body } => {
            let st = mark_spec(g, st, iterable);
            match type_of_spec(sem_of(g, st), iterable) {
                Ok(t) => {
                    match t {
                        TypeV::Array(inner) => block_spec(g, st, Some((iterator, *inner)), body),
                        TypeV::FixedArray(inner, _) => block_spec(
                            g,
                            st,
                            Some((iterator, *inner)),
                            body,
                        ),
                        _ => (
                            st,
                            Err(prefix + " for-loop requires an array type, found "@ + debugged(t)),
                        ),
                    }
                },
                Err(e) => (st, Err(e)),
            }
        },
        StmtV::WhileLoop { condition, body } => {
            let st = mark_spec(g, st, condition);
            let (st, found) = verify_condition_spec(g, st, condition, prefix + " While condition"@);
            match found {
                Ok(_) => block_spec(g, st, None, body),
                Err(e) => (st, Err(e)),
            }
        },
        _ => (st, Ok(())),
    }
}

impl TypeChecker {
    pub(crate) fn verify_loop(&mut self, s: &Statement, prefix: &str) -> (r: Result<(), String>)
        ensures
            final(self).fn_env() == old(self).fn_env(),
            verify_loop_spec(
                old(self).fn_env(),
                old(self).chk(),
                s@,
                prefix@,
            ) == (final(self).chk(), res_unit_v(r)),
        decreases s, 8nat,
    {
        proof {
            reveal(verify_loop_spec);
        }
        match s {
            Statement::ForLoop { iterator, iterable, body } => {
                self.note(iterable);
                let t = match self.type_of(iterable) {
                    Ok(t) => t,
                    Err(e) => {
                        return Err(e);
                    },
                };
                match &t {
                    Type::Array(inner) => self.verify_block_with(iterator.as_str(), inner, body),
                    Type::FixedArray(inner, _) => self.verify_block_with(
                        iterator.as_str(),
                        inner,
                        body,
                    ),
                    _ => Err(
                        cat3(
                            prefix,
                            " for-loop requires an array type, found ",
                            debug_type(&t).as_str(),
                        )
                    ),
                }
            },
            Statement::WhileLoop { condition, body } => {
                self.note(condition);
                let found = self.verify_condition(
                    condition,
                    cat2(prefix, " While condition").as_str(),
                );
                match found {
                    Ok(_) => {},
                    Err(e) => {
                        return Err(e);
                    },
                }
                self.verify_block(body)
            },
            _ => Ok(()),
        }
    }
}

#[verifier::opaque]
pub open spec fn verify_branch_spec(
    g: FnEnvV,
    st: ChkV,
    s: StmtV,
    prefix: Seq<char>,
) -> (ChkV, Result<(), Seq<char>>)
    decreases s, 8nat,
{
    match s {
        StmtV::IfElse { condition, if_body, else_body } => {
            let st = mark_spec(g, st, condition);
            let (st, found) = verify_condition_spec(g, st, condition, prefix + " If condition"@);
            match found {
                Ok(_) => {
                    let (st, found) = block_spec(g, st, None, if_body);
                    match found {
                        Ok(_) => {
                            match else_body {
                                Some(eb) => block_spec(g, st, None, eb),
                                None => (st, Ok(())),
                            }
                        },
                        Err(e) => (st, Err(e)),
                    }
                },
                Err(e) => (st, Err(e)),
            }
        },
        StmtV::TryCatch { try_body, catch_body } => {
            let (st, found) = block_spec(g, st, None, try_body);
            match found {
                Ok(_) => block_spec(g, st, None, catch_body),
                Err(e) => (st, Err(e)),
            }
        },
        StmtV::ScopedTryCall { catch_body, .. } => block_spec(g, st, None, catch_body),
        _ => (st, Ok(())),
    }
}

impl TypeChecker {
    pub(crate) fn verify_branch(&mut self, s: &Statement, prefix: &str) -> (r: Result<(), String>)
        ensures
            final(self).fn_env() == old(self).fn_env(),
            verify_branch_spec(
                old(self).fn_env(),
                old(self).chk(),
                s@,
                prefix@,
            ) == (final(self).chk(), res_unit_v(r)),
        decreases s, 8nat,
    {
        proof {
            reveal(verify_branch_spec);
        }
        match s {
            Statement::IfElse { condition, if_body, else_body } => {
                self.note(condition);
                let found = self.verify_condition(
                    condition,
                    cat2(prefix, " If condition").as_str(),
                );
                match found {
                    Ok(_) => {},
                    Err(e) => {
                        return Err(e);
                    },
                }
                let found = self.verify_block(if_body);
                match found {
                    Ok(_) => {},
                    Err(e) => {
                        return Err(e);
                    },
                }
                match else_body {
                    Some(eb) => self.verify_block(eb),
                    None => Ok(()),
                }
            },
            Statement::TryCatch { try_body, catch_body } => {
                let found = self.verify_block(try_body);
                match found {
                    Ok(_) => {},
                    Err(e) => {
                        return Err(e);
                    },
                }
                self.verify_block(catch_body)
            },
            Statement::ScopedTryCall { catch_body, .. } => self.verify_block(catch_body),
            _ => Ok(()),
        }
    }
}

#[verifier::opaque]
pub open spec fn verify_match_spec(
    g: FnEnvV,
    st: ChkV,
    s: StmtV,
    prefix: Seq<char>,
) -> (ChkV, Result<(), Seq<char>>)
    decreases s, 8nat,
{
    match s {
        StmtV::Match { expr, arms } => {
            let st = mark_spec(g, st, expr);
            match type_of_spec(sem_of(g, st), expr) {
                Ok(t) => {
                    match t {
                        TypeV::Primitive(name) => {
                            if !g.w.enums.contains_key(name) {
                                (
                                    st,
                                    Err(
                                        prefix
                                        + " Match expression must be an Enum type. Found: "@
                                        + debugged(t)
                                    ),
                                )
                            } else {
                                let (st, found) = arms_check(g, st, name, arms, prefix, arms.len());
                                match found {
                                    Ok(_) => {
                                        match missing_spec(g.w, name, arms) {
                                            Some(v) => (
                                                st,
                                                Err(
                                                    prefix
                                                    + " Match is not exhaustive. Missing variant: '"@
                                                    + v
                                                    + "'"@
                                                ),
                                            ),
                                            None => (st, Ok(())),
                                        }
                                    },
                                    Err(e) => (st, Err(e)),
                                }
                            }
                        },
                        _ => (
                            st,
                            Err(
                                prefix
                                + " Match expression must be an Enum type. Found: "@
                                + debugged(t)
                            ),
                        ),
                    }
                },
                Err(e) => (st, Err(e)),
            }
        },
        _ => (st, Ok(())),
    }
}

impl TypeChecker {
    pub(crate) fn verify_match(&mut self, s: &Statement, prefix: &str) -> (r: Result<(), String>)
        ensures
            final(self).fn_env() == old(self).fn_env(),
            verify_match_spec(
                old(self).fn_env(),
                old(self).chk(),
                s@,
                prefix@,
            ) == (final(self).chk(), res_unit_v(r)),
        decreases s, 8nat,
    {
        proof {
            reveal(verify_match_spec);
        }
        match s {
            Statement::Match { expr, arms } => {
                self.note(expr);
                let t = match self.type_of(expr) {
                    Ok(t) => t,
                    Err(e) => {
                        return Err(e);
                    },
                };
                match &t {
                    Type::Primitive(name) => {
                        if !self.loaded_enums.has(name.as_str()) {
                            return Err(
                                cat3(
                                    prefix,
                                    " Match expression must be an Enum type. Found: ",
                                    debug_type(&t).as_str(),
                                )
                            );
                        }
                        let found = self.verify_arms(name.as_str(), arms, prefix);
                        match found {
                            Ok(_) => {},
                            Err(e) => {
                                return Err(e);
                            },
                        }
                        match self.missing_variant(name.as_str(), arms) {
                            Some(v) => Err(
                                cat4(
                                    prefix,
                                    " Match is not exhaustive. Missing variant: '",
                                    v.as_str(),
                                    "'",
                                )
                            ),
                            None => Ok(()),
                        }
                    },
                    _ => Err(
                        cat3(
                            prefix,
                            " Match expression must be an Enum type. Found: ",
                            debug_type(&t).as_str(),
                        )
                    ),
                }
            },
            _ => Ok(()),
        }
    }
}

/// Checks a statement; what it declares is known from then on.
#[verifier::opaque]
pub open spec fn verify_statement_inner_spec(
    g: FnEnvV,
    st: ChkV,
    s: StmtV,
    prefix: Seq<char>,
) -> (ChkV, Result<(), Seq<char>>)
    decreases s, 9nat,
{
    match s {
        StmtV::VarDecl { is_const, type_def, name, value, .. } => {
            let st = mark_opt(g, st, value);
            let (st, found) = declared_local_spec(g, st, type_def, value, name, prefix);
            match found {
                Ok(t) => {
                    let st = local_spec(st, name, is_const, t);
                    (st, Ok(()))
                },
                Err(e) => (st, Err(e)),
            }
        },
        StmtV::Assignment { target, value } => verify_assignment_spec(g, st, target, value, prefix),
        StmtV::Delete { target } => verify_delete_spec(g, st, target, prefix),
        StmtV::IfElse { .. } => verify_branch_spec(g, st, s, prefix),
        StmtV::TryCatch { .. } => verify_branch_spec(g, st, s, prefix),
        StmtV::ScopedTryCall { .. } => verify_branch_spec(g, st, s, prefix),
        StmtV::ForLoop { .. } => verify_loop_spec(g, st, s, prefix),
        StmtV::WhileLoop { .. } => verify_loop_spec(g, st, s, prefix),
        StmtV::Match { .. } => verify_match_spec(g, st, s, prefix),
        StmtV::Expression(e) => verify_value_spec(g, st, e),
        StmtV::Return { value } => verify_return_spec(g, st, value, prefix),
        StmtV::Assert { condition, message } => verify_assert_spec(
            g,
            st,
            condition,
            message,
            prefix,
        ),
        StmtV::Call { .. } => {
            let st = ChkV { ext: true, ..st };
            (st, Ok(()))
        },
        StmtV::UnsafeBlock(_) => {
            let st = ChkV { ext: true, ..st };
            (st, Ok(()))
        },
        StmtV::Revert { error } => {
            let st = mark_spec(g, st, error);
            verify_revert_spec(g, st, error, prefix)
        },
        StmtV::BitwiseFlip { name, index, value } => verify_flip_spec(
            g,
            st,
            name,
            index,
            value,
            prefix,
        ),
        StmtV::ReturnCaptures(_) => (st, Ok(())),
    }
}

impl TypeChecker {
    #[verifier::rlimit(40)]
    pub(crate) fn verify_statement_inner(
        &mut self,
        s: &Statement,
        prefix: &str,
    ) -> (r: Result<(), String>)
        ensures
            final(self).fn_env() == old(self).fn_env(),
            verify_statement_inner_spec(
                old(self).fn_env(),
                old(self).chk(),
                s@,
                prefix@,
            ) == (final(self).chk(), res_unit_v(r)),
        decreases s, 9nat,
    {
        proof {
            reveal(verify_statement_inner_spec);
            reveal(verify_branch_spec);
            reveal(verify_loop_spec);
            reveal(verify_match_spec);
        }
        match s {
            Statement::VarDecl { is_const, type_def, name, value, .. } => {
                self.note_opt(value);
                let found = self.declared_local(type_def, value, name.as_str(), prefix);
                let t = match found {
                    Ok(t) => t,
                    Err(e) => {
                        return Err(e);
                    },
                };
                self.declare_local(name.as_str(), *is_const, &t);
                Ok(())
            },
            Statement::Assignment { target, value } => self.verify_assignment(
                target,
                value,
                prefix,
            ),
            Statement::Delete { target } => self.verify_delete(target, prefix),
            Statement::IfElse { .. } => self.verify_branch(s, prefix),
            Statement::TryCatch { .. } => self.verify_branch(s, prefix),
            Statement::ScopedTryCall { .. } => self.verify_branch(s, prefix),
            Statement::ForLoop { .. } => self.verify_loop(s, prefix),
            Statement::WhileLoop { .. } => self.verify_loop(s, prefix),
            Statement::Match { .. } => self.verify_match(s, prefix),
            Statement::Expression(e) => self.verify_value(e),
            Statement::Return { value } => self.verify_return(value, prefix),
            Statement::Assert { condition, message } => self.verify_assert(
                condition,
                message,
                prefix,
            ),
            Statement::Call { .. } => {
                self.set_external();
                Ok(())
            },
            Statement::UnsafeBlock(_) => {
                self.set_external();
                Ok(())
            },
            Statement::Revert { error } => {
                self.note(error);
                self.verify_revert(error, prefix)
            },
            Statement::BitwiseFlip { name, index, value } => self.verify_flip(
                name.as_str(),
                index,
                value,
                prefix,
            ),
            Statement::ReturnCaptures(_) => Ok(()),
        }
    }
}

/// Where a statement stands, as a message begins.
pub open spec fn place_spec(line: usize, col: usize) -> Seq<char> {
    "Semantic Error at "@ + dec(line as nat) + ":"@ + dec(col as nat) + ":"@
}

/// A message with its place, where it has none yet.
pub open spec fn placed_spec(place: Seq<char>, e: Seq<char>) -> Seq<char> {
    if begins(e, "Semantic Error at"@) {
        e
    } else {
        place + " "@ + e
    }
}

pub open spec fn placed_result(place: Seq<char>, r: Result<(), Seq<char>>) -> Result<(), Seq<char>> {
    match r {
        Ok(u) => Ok(u),
        Err(e) => Err(placed_spec(place, e)),
    }
}

pub(crate) fn place_text(line: usize, col: usize) -> (r: String)
    ensures
        r@ == place_spec(line, col),
{
    cat5(
        "Semantic Error at ",
        dec_text(line).as_str(),
        ":",
        dec_text(col).as_str(),
        ":",
    )
}

pub(crate) fn placed_text(place: &str, e: String) -> (r: String)
    ensures
        r@ == placed_spec(place@, e@),
{
    if starts_with(e.as_str(), "Semantic Error at") {
        e
    } else {
        cat3(place, " ", e.as_str())
    }
}

/// A statement with its place.
pub open spec fn verify_spec(g: FnEnvV, st: ChkV, s: SpannedV) -> (ChkV, Result<(), Seq<char>>)
    decreases s, 0nat,
{
    let place = place_spec(s.line, s.col);
    let (st, r) = verify_statement_inner_spec(g, st, s.node, place);
    (st, placed_result(place, r))
}

/// The first `n` statements; the first error ends the check.
pub open spec fn body_check(g: FnEnvV, st: ChkV, body: Seq<SpannedV>, n: nat) -> (
    ChkV,
    Result<(), Seq<char>>,
)
    decreases body, n,
{
    if n == 0 || n > body.len() {
        (st, Ok(()))
    } else {
        let (st, r) = body_check(g, st, body, (n - 1) as nat);
        match r {
            Ok(_) => verify_spec(g, st, body[n - 1]),
            Err(e) => (st, Err(e)),
        }
    }
}

/// A scope that knows at most one name.
pub open spec fn fresh_scope(sym: Option<(Seq<char>, TypeV)>) -> Map<Seq<char>, SymbolV> {
    match sym {
        Some((n, t)) => Map::empty().insert(n, SymbolV { is_const: false, type_def: t }),
        None => Map::empty(),
    }
}

/// A block in a scope of its own; what it declares is forgotten after it.
pub open spec fn block_spec(
    g: FnEnvV,
    st: ChkV,
    sym: Option<(Seq<char>, TypeV)>,
    body: Seq<SpannedV>,
) -> (ChkV, Result<(), Seq<char>>)
    decreases body, body.len() + 1,
{
    let inner = ChkV { sc: st.sc.push(fresh_scope(sym)), ..st };
    let (out, r) = body_check(g, inner, body, body.len());
    (ChkV { sc: st.sc, ext: out.ext }, r)
}

/// The first `n` arms of a match over an enum.
pub open spec fn arms_check(
    g: FnEnvV,
    st: ChkV,
    name: Seq<char>,
    arms: Seq<ArmV>,
    prefix: Seq<char>,
    n: nat,
) -> (ChkV, Result<(), Seq<char>>)
    decreases arms, n,
{
    if n == 0 || n > arms.len() {
        (st, Ok(()))
    } else {
        let (st, r) = arms_check(g, st, name, arms, prefix, (n - 1) as nat);
        let arm = arms[n - 1];
        match r {
            Ok(_) => match payload_spec(sem_of(g, st), name, arm.variant) {
                None => (
                    st,
                    Err(
                        prefix + " Unknown variant '"@ + arm.variant + "' for enum '"@ + name
                            + "'"@,
                    ),
                ),
                Some(p) => match arm.payload_var {
                    None => block_spec(g, st, None, arm.body),
                    Some(v) => match p {
                        Some(t) => block_spec(g, st, Some((v, t)), arm.body),
                        None => (
                            st,
                            Err(
                                prefix + " Variant '"@ + arm.variant
                                    + "' does not have a payload"@,
                            ),
                        ),
                    },
                },
            },
            Err(e) => (st, Err(e)),
        }
    }
}

/// Whether some arm takes a variant.
pub open spec fn covered(arms: Seq<ArmV>, variant: Seq<char>) -> bool {
    exists|i: int| 0 <= i < arms.len() && (#[trigger] arms[i]).variant == variant
}

/// The first variant, from position `i` on, that no arm takes.
pub open spec fn missing_from(vs: Seq<VariantV>, arms: Seq<ArmV>, i: int) -> Option<Seq<char>>
    decreases vs.len() - i,
{
    if i >= vs.len() {
        None
    } else if !covered(arms, vs[i].name) {
        Some(vs[i].name)
    } else {
        missing_from(vs, arms, i + 1)
    }
}

pub open spec fn missing_spec(w: WorldV, name: Seq<char>, arms: Seq<ArmV>) -> Option<Seq<char>> {
    if w.enums.contains_key(name) {
        missing_from(w.enums[name].variants, arms, 0)
    } else {
        None
    }
}

/// Whether the first `n` fields of an error fit.
pub open spec fn args_check(
    g: SemV,
    name: Seq<char>,
    ts: Seq<TypeV>,
    args: Seq<ExprV>,
    prefix: Seq<char>,
    n: nat,
) -> Result<(), Seq<char>>
    decreases n,
{
    if n == 0 || n > args.len() || n > ts.len() {
        Ok(())
    } else {
        match args_check(g, name, ts, args, prefix, (n - 1) as nat) {
            Ok(_) => match type_of_spec(g, args[n - 1]) {
                Ok(t) => if is_assignable_spec(g, ts[n - 1], t) {
                    Ok(())
                } else {
                    Err(
                        prefix + " Type mismatch in error '"@ + name + "' argument "@ + dec(n)
                            + ": expected "@ + debugged(ts[n - 1]) + ", got "@ + debugged(t),
                    )
                },
                Err(e) => Err(e),
            },
            Err(e) => Err(e),
        }
    }
}

/// Whether the fields of an error fit: as many as declared, each of its type.
pub open spec fn error_args(
    g: SemV,
    name: Seq<char>,
    ts: Seq<TypeV>,
    args: Seq<ExprV>,
    prefix: Seq<char>,
) -> Result<(), Seq<char>> {
    if args.len() != ts.len() {
        Err(
            prefix + " Custom error '"@ + name + "' expects "@ + dec(ts.len()) + " arguments, got "@
                + dec(args.len()),
        )
    } else {
        args_check(g, name, ts, args, prefix, args.len())
    }
}

proof fn lemma_body_err(g: FnEnvV, st: ChkV, body: Seq<SpannedV>, n: nat, m: nat)
    requires
        n <= m <= body.len(),
        body_check(g, st, body, n).1 is Err,
    ensures
        body_check(g, st, body, m) == body_check(g, st, body, n),
    decreases m - n,
{
    if n < m {
        lemma_body_err(g, st, body, n, (m - 1) as nat);
    }
}

proof fn lemma_arms_err(
    g: FnEnvV,
    st: ChkV,
    name: Seq<char>,
    arms: Seq<ArmV>,
    prefix: Seq<char>,
    n: nat,
    m: nat,
)
    requires
        n <= m <= arms.len(),
        arms_check(g, st, name, arms, prefix, n).1 is Err,
    ensures
        arms_check(g, st, name, arms, prefix, m) == arms_check(g, st, name, arms, prefix, n),
    decreases m - n,
{
    if n < m {
        lemma_arms_err(g, st, name, arms, prefix, n, (m - 1) as nat);
    }
}

proof fn lemma_fields_err(
    g: SemV,
    name: Seq<char>,
    ts: Seq<TypeV>,
    args: Seq<ExprV>,
    prefix: Seq<char>,
    n: nat,
    m: nat,
)
    requires
        n <= m <= args.len(),
        m <= ts.len(),
        args_check(g, name, ts, args, prefix, n) is Err,
    ensures
        args_check(g, name, ts, args, prefix, m) == args_check(g, name, ts, args, prefix, n),
    decreases m - n,
{
    if n < m {
        lemma_fields_err(g, name, ts, args, prefix, n, (m - 1) as nat);
    }
}

impl TypeChecker {
    fn check_args(&self, name: &str, ts: &Vec<Type>, args: &Vec<Expr>, prefix: &str) -> (r: Result<
        (),
        String,
    >)
        ensures
            res_unit_v(r) == error_args(
                self.sem(),
                name@,
                types_v(ts@),
                exprs_v(args@),
                prefix@,
            ),
    {
        let ghost g = self.sem();
        let ghost tv = types_v(ts@);
        let ghost av = exprs_v(args@);
        assert(tv.len() == ts@.len() && av.len() == args@.len());
        if args.len() != ts.len() {
            return Err(
                cat7(
                    prefix,
                    " Custom error '",
                    name,
                    "' expects ",
                    dec_text(ts.len()).as_str(),
                    " arguments, got ",
                    dec_text(args.len()).as_str(),
                ),
            );
        }
        let mut i: usize = 0;
        while i < args.len()
            invariant
                i <= args@.len(),
                args@.len() == ts@.len(),
                g == self.sem(),
                tv == types_v(ts@),
                av == exprs_v(args@),
                args_check(g, name@, tv, av, prefix@, i as nat) is Ok,
            decreases args@.len() - i,
        {
            assert(tv[i as int] == ts@[i as int]@);
            assert(av[i as int] == args@[i as int]@);
            match self.type_of(&args[i]) {
                Ok(t) => {
                    if !self.is_assignable(&ts[i], &t) {
                        proof {
                            lemma_fields_err(
                                g,
                                name@,
                                tv,
                                av,
                                prefix@,
                                (i + 1) as nat,
                                av.len(),
                            );
                        }
                        return Err(
                            cat9(
                                prefix,
                                " Type mismatch in error '",
                                name,
                                "' argument ",
                                dec_text(i + 1).as_str(),
                                ": expected ",
                                debug_type(&ts[i]).as_str(),
                                ", got ",
                                debug_type(&t).as_str(),
                            ),
                        );
                    }
                },
                Err(e) => {
                    proof {
                        lemma_fields_err(g, name@, tv, av, prefix@, (i + 1) as nat, av.len());
                    }
                    return Err(e);
                },
            }
            i += 1;
        }
        Ok(())
    }

    fn missing_variant(&self, name: &str, arms: &Vec<MatchArm>) -> (r: Option<String>)
        ensures
            opt_text(r) == missing_spec(self.world(), name@, arms_v(arms@)),
    {
        let e = match self.loaded_enums.get(name) {
            Some(e) => e,
            None => {
                return None;
            },
        };
        let ghost vs = variants_v(e.variants@);
        assert(self.world().enums[name@] == e@);
        let mut i: usize = 0;
        while i < e.variants.len()
            invariant
                i <= e.variants@.len(),
                vs == variants_v(e.variants@),
                self.world().enums.contains_key(name@),
                self.world().enums[name@].variants == vs,
                missing_from(vs, arms_v(arms@), 0) == missing_from(vs, arms_v(arms@), i as int),
            decreases e.variants@.len() - i,
        {
            assert(vs[i as int] == e.variants@[i as int]@);
            if !takes_variant(arms, e.variants[i].name.as_str()) {
                return Some(e.variants[i].name.clone());
            }
            i += 1;
        }
        None
    }

    /// Checks a statement.
    pub(crate) fn verify_statement(&mut self, s: &Spanned<Statement>) -> (r: Result<(), String>)
        ensures
            final(self).fn_env() == old(self).fn_env(),
            verify_spec(old(self).fn_env(), old(self).chk(), s@) == (
                final(self).chk(),
                res_unit_v(r),
            ),
        decreases s, 0nat,
    {
        proof {
            reveal(verify_statement_inner_spec);
        }
        let place = place_text(s.line, s.col);
        match self.verify_statement_inner(&s.node, place.as_str()) {
            Ok(_) => Ok(()),
            Err(e) => Err(placed_text(place.as_str(), e)),
        }
    }

    /// Checks the statements of a body in the scope that stands.
    pub(crate) fn verify_body(&mut self, body: &Vec<Spanned<Statement>>) -> (r: Result<(), String>)
        ensures
            final(self).fn_env() == old(self).fn_env(),
            body_check(old(self).fn_env(), old(self).chk(), body_v(body@), body@.len()) == (
                final(self).chk(),
                res_unit_v(r),
            ),
        decreases body, 0nat,
    {
        let ghost g = self.fn_env();
        let ghost st0 = self.chk();
        let ghost bv = body_v(body@);
        let mut i: usize = 0;
        while i < body.len()
            invariant
                i <= body@.len(),
                self.fn_env() == g,
                g == old(self).fn_env(),
                st0 == old(self).chk(),
                bv == body_v(body@),
                body_check(g, st0, bv, i as nat) == (self.chk(), Ok::<(), Seq<char>>(())),
            decreases body@.len() - i,
        {
            let s: &Spanned<Statement> = &body[i];
            proof {
                assert(decreases_to!(*body => *s));
                assert(bv[i as int] == s@);
            }
            match self.verify_statement(s) {
                Ok(_) => {},
                Err(e) => {
                    proof {
                        lemma_body_err(g, st0, bv, (i + 1) as nat, bv.len());
                    }
                    return Err(e);
                },
            }
            i += 1;
        }
        Ok(())
    }

    fn verify_block(&mut self, body: &Vec<Spanned<Statement>>) -> (r: Result<(), String>)
        ensures
            final(self).fn_env() == old(self).fn_env(),
            block_spec(old(self).fn_env(), old(self).chk(), None, body_v(body@)) == (
                final(self).chk(),
                res_unit_v(r),
            ),
        decreases body, 1nat,
    {
        let ghost st0 = self.chk();
        self.push_scope();
        let ghost mid = self.chk();
        let r = self.verify_body(body);
        proof {
            lemma_outer_kept(self.fn_env(), mid, body_v(body@), body@.len());
        }
        self.pop_scope();
        assert(self.scopes() =~= st0.sc);
        r
    }

    fn verify_block_with(
        &mut self,
        name: &str,
        t: &Type,
        body: &Vec<Spanned<Statement>>,
    ) -> (r: Result<(), String>)
        ensures
            final(self).fn_env() == old(self).fn_env(),
            block_spec(
                old(self).fn_env(),
                old(self).chk(),
                Some((name@, t@)),
                body_v(body@),
            ) == (final(self).chk(), res_unit_v(r)),
        decreases body, 1nat,
    {
        let ghost st0 = self.chk();
        self.push_scope();
        self.declare_local(name, false, t);
        let ghost mid = self.chk();
        assert(mid.sc =~= st0.sc.push(fresh_scope(Some((name@, t@)))));
        let r = self.verify_body(body);
        proof {
            lemma_outer_kept(self.fn_env(), mid, body_v(body@), body@.len());
        }
        self.pop_scope();
        assert(self.scopes() =~= st0.sc);
        r
    }

    fn verify_arms(&mut self, name: &str, arms: &Vec<MatchArm>, prefix: &str) -> (r: Result<
        (),
        String,
    >)
        ensures
            final(self).fn_env() == old(self).fn_env(),
            arms_check(
                old(self).fn_env(),
                old(self).chk(),
                name@,
                arms_v(arms@),
                prefix@,
                arms@.len(),
            ) == (final(self).chk(), res_unit_v(r)),
        decreases arms, 0nat,
    {
        let ghost g = self.fn_env();
        let ghost st0 = self.chk();
        let ghost av = arms_v(arms@);
        let mut i: usize = 0;
        while i < arms.len()
            invariant
                i <= arms@.len(),
                self.fn_env() == g,
                g == old(self).fn_env(),
                st0 == old(self).chk(),
                av == arms_v(arms@),
                arms_check(g, st0, name@, av, prefix@, i as nat) == (
                    self.chk(),
                    Ok::<(), Seq<char>>(()),
                ),
            decreases arms@.len() - i,
        {
            let arm: &MatchArm = &arms[i];
            proof {
                assert(decreases_to!(*arms => *arm));
                assert(decreases_to!(*arms => arm.body));
                assert(av[i as int] == arm@);
            }
            let out = match self.payload_of(name, arm.variant.as_str()) {
                None => Err(
                    cat6(
                        prefix,
                        " Unknown variant '",
                        arm.variant.as_str(),
                        "' for enum '",
                        name,
                        "'",
                    ),
                ),
                Some(p) => match &arm.payload_var {
                    None => self.verify_block(&arm.body),
                    Some(v) => match p {
                        Some(t) => self.verify_block_with(v.as_str(), &t, &arm.body),
                        None => Err(
                            cat4(
                                prefix,
                                " Variant '",
                                arm.variant.as_str(),
                                "' does not have a payload",
                            ),
                        ),
                    },
                },
            };
            match out {
                Ok(_) => {},
                Err(e) => {
                    proof {
                        lemma_arms_err(
                            g,
                            st0,
                            name@,
                            av,
                            prefix@,
                            (i + 1) as nat,
                            av.len(),
                        );
                    }
                    return Err(e);
                },
            }
            i += 1;
        }
        Ok(())
    }
}

fn takes_variant(arms: &Vec<MatchArm>, variant: &str) -> (r: bool)
    ensures
        r == covered(arms_v(arms@), variant@),
{
    let mut i: usize = 0;
    while i < arms.len()
        invariant
            i <= arms@.len(),
            forall|k: int| 0 <= k < i ==> (#[trigger] arms_v(arms@)[k]).variant != variant@,
        decreases arms@.len() - i,
    {
        assert(arms_v(arms@)[i as int] == arms@[i as int]@);
        if same(arms[i].variant.as_str(), variant) {
            return true;
        }
        i += 1;
    }
    false
}

/// A statement changes no scope but the innermost.
proof fn lemma_stmt_keeps(g: FnEnvV, st: ChkV, s: StmtV, prefix: Seq<char>)
    ensures
        verify_statement_inner_spec(g, st, s, prefix).0.sc.len() == st.sc.len(),
        st.sc.len() > 0 ==> verify_statement_inner_spec(g, st, s, prefix).0.sc.drop_last()
            == st.sc.drop_last(),
{
    reveal(verify_statement_inner_spec);
    match s {
        StmtV::VarDecl { is_mut, is_const, type_def, name, value } => {
            let st1 = mark_opt(g, st, value);
            lemma_local_keeps(g, st1, type_def, value, name, prefix);
            let (st2, r) = declared_local_spec(g, st1, type_def, value, name, prefix);
            assert(st2.sc == st.sc);
            if let Ok(t) = r {
                let st3 = local_spec(st2, name, is_const, t);
                assert(verify_statement_inner_spec(g, st, s, prefix).0 == st3);
                if st.sc.len() > 0 {
                    assert(st3.sc.drop_last() =~= st.sc.drop_last());
                }
            }
        },
        StmtV::IfElse { .. } => {
            reveal(verify_branch_spec);
            lemma_branch_keeps(g, st, s, prefix);
        },
        StmtV::TryCatch { .. } => {
            reveal(verify_branch_spec);
            lemma_branch_keeps(g, st, s, prefix);
        },
        StmtV::ScopedTryCall { .. } => {
            reveal(verify_branch_spec);
            lemma_branch_keeps(g, st, s, prefix);
        },
        StmtV::ForLoop { .. } => {
            reveal(verify_loop_spec);
            lemma_loop_keeps(g, st, s, prefix);
        },
        StmtV::WhileLoop { .. } => {
            reveal(verify_loop_spec);
            lemma_loop_keeps(g, st, s, prefix);
        },
        StmtV::Match { .. } => {
            reveal(verify_match_spec);
            lemma_match_keeps(g, st, s, prefix);
        },
        _ => lemma_plain_keeps(g, st, s, prefix),
    }
}

proof fn lemma_copy_keeps(g: FnEnvV, st: ChkV, e: ExprV, prefix: Seq<char>)
    ensures
        reject_storage_array_copy_spec(g, st, e, prefix).0 == st,
{
    reveal(reject_storage_array_copy_spec);
    reveal(owner_class_spec);
    reveal(struct_array_field_spec);
}

proof fn lemma_local_keeps(
    g: FnEnvV,
    st: ChkV,
    type_def: TypeV,
    value: Option<ExprV>,
    name: Seq<char>,
    prefix: Seq<char>,
)
    ensures
        declared_local_spec(g, st, type_def, value, name, prefix).0 == st,
{
    reveal(declared_local_spec);
    if let Some(v) = value {
        lemma_copy_keeps(g, st, v, prefix);
    }
}

proof fn lemma_branch_keeps(g: FnEnvV, st: ChkV, s: StmtV, prefix: Seq<char>)
    ensures
        verify_branch_spec(g, st, s, prefix).0.sc == st.sc,
{
    reveal(verify_branch_spec);
    reveal(verify_condition_spec);
}

proof fn lemma_loop_keeps(g: FnEnvV, st: ChkV, s: StmtV, prefix: Seq<char>)
    ensures
        verify_loop_spec(g, st, s, prefix).0.sc == st.sc,
{
    reveal(verify_loop_spec);
    reveal(verify_condition_spec);
}

proof fn lemma_match_keeps(g: FnEnvV, st: ChkV, s: StmtV, prefix: Seq<char>)
    ensures
        verify_match_spec(g, st, s, prefix).0.sc == st.sc,
{
    reveal(verify_match_spec);
    if let StmtV::Match { expr, arms } = s {
        let st1 = mark_spec(g, st, expr);
        if let Ok(TypeV::Primitive(name)) = type_of_spec(sem_of(g, st1), expr) {
            lemma_arms_keep(g, st1, name, arms, prefix, arms.len());
        }
    }
}

/// The statements that hold no block and declare nothing.
proof fn lemma_plain_keeps(g: FnEnvV, st: ChkV, s: StmtV, prefix: Seq<char>)
    requires
        !(s is VarDecl),
        !(s is IfElse),
        !(s is TryCatch),
        !(s is ScopedTryCall),
        !(s is ForLoop),
        !(s is WhileLoop),
        !(s is Match),
    ensures
        verify_statement_inner_spec(g, st, s, prefix).0.sc == st.sc,
{
    reveal(verify_statement_inner_spec);
    match s {
        StmtV::Assignment { target, value } => {
            reveal(verify_assignment_spec);
            lemma_copy_keeps(g, mark_spec(g, mark_spec(g, st, target), value), value, prefix);
        },
        StmtV::Delete { target } => {
            reveal(verify_delete_spec);
            reveal(deletable_spec);
        },
        StmtV::Expression(_) => {
            reveal(verify_value_spec);
            reveal(check_fixed_point_math_spec);
        },
        StmtV::Return { value } => {
            reveal(verify_return_spec);
            reveal(verify_value_spec);
            reveal(check_fixed_point_math_spec);
        },
        StmtV::Assert { condition, message } => {
            reveal(verify_assert_spec);
            reveal(verify_condition_spec);
            reveal(check_error_args_spec);
        },
        StmtV::Revert { error } => {
            reveal(verify_revert_spec);
            reveal(check_error_args_spec);
        },
        StmtV::BitwiseFlip { name, index, value } => {
            reveal(verify_flip_spec);
        },
        _ => {},
    }
}

proof fn lemma_arms_keep(
    g: FnEnvV,
    st: ChkV,
    name: Seq<char>,
    arms: Seq<ArmV>,
    prefix: Seq<char>,
    n: nat,
)
    ensures
        arms_check(g, st, name, arms, prefix, n).0.sc == st.sc,
    decreases n,
{
    if n == 0 || n > arms.len() {
    } else {
        lemma_arms_keep(g, st, name, arms, prefix, (n - 1) as nat);
        let mid = arms_check(g, st, name, arms, prefix, (n - 1) as nat).0;
        let arm = arms[n - 1];
        lemma_block_keeps(g, mid, None, arm.body);
        if let Some(v) = arm.payload_var {
            if let Some(Some(t)) = payload_spec(sem_of(g, mid), name, arm.variant) {
                lemma_block_keeps(g, mid, Some((v, t)), arm.body);
            }
        }
    }
}

proof fn lemma_block_keeps(
    g: FnEnvV,
    st: ChkV,
    sym: Option<(Seq<char>, TypeV)>,
    body: Seq<SpannedV>,
)
    ensures
        block_spec(g, st, sym, body).0.sc == st.sc,
{
}

pub proof fn lemma_outer_kept(g: FnEnvV, st: ChkV, body: Seq<SpannedV>, n: nat)
    ensures
        body_check(g, st, body, n).0.sc.len() == st.sc.len(),
        st.sc.len() > 0 ==> body_check(g, st, body, n).0.sc.drop_last() == st.sc.drop_last(),
    decreases n,
{
    if n == 0 || n > body.len() {
    } else {
        lemma_outer_kept(g, st, body, (n - 1) as nat);
        let mid = body_check(g, st, body, (n - 1) as nat).0;
        lemma_verify_keeps(g, mid, body[n - 1]);
    }
}

proof fn lemma_verify_keeps(g: FnEnvV, st: ChkV, s: SpannedV)
    ensures
        verify_spec(g, st, s).0.sc.len() == st.sc.len(),
        st.sc.len() > 0 ==> verify_spec(g, st, s).0.sc.drop_last() == st.sc.drop_last(),
{
    reveal(verify_statement_inner_spec);
    lemma_stmt_keeps(g, st, s.node, place_spec(s.line, s.col));
}

/// A statement leaves every scope but the innermost as it was, so what a block
/// declares is forgotten after it.
pub proof fn law_outer_scopes_are_kept(g: FnEnvV, st: ChkV, s: SpannedV)
    requires
        st.sc.len() > 0,
    ensures
        verify_spec(g, st, s).0.sc.len() == st.sc.len(),
        verify_spec(g, st, s).0.sc.drop_last() == st.sc.drop_last(),
{
    lemma_verify_keeps(g, st, s);
}

/// A match that passes takes every variant of its enum.
pub proof fn law_match_is_exhaustive(g: FnEnvV, st: ChkV, expr: ExprV, arms: Seq<ArmV>, prefix: Seq<char>)
    requires
        verify_match_spec(g, st, StmtV::Match { expr, arms }, prefix).1 is Ok,
    ensures
        exists|name: Seq<char>| #[trigger]
            g.w.enums.contains_key(name) && type_of_spec(sem_of(g, st), expr)
                == Ok::<TypeV, Seq<char>>(TypeV::Primitive(name)) && forall|i: int|
                0 <= i < g.w.enums[name].variants.len() ==> covered(
                    arms,
                    (#[trigger] g.w.enums[name].variants[i]).name,
                ),
{
    reveal(verify_match_spec);
    let st1 = mark_spec(g, st, expr);
    assert(sem_of(g, st1) == sem_of(g, st));
    let name = type_of_spec(sem_of(g, st), expr)->Ok_0->Primitive_0;
    assert(g.w.enums.contains_key(name));
    lemma_none_missing(g.w.enums[name].variants, arms, 0);
}

proof fn lemma_none_missing(vs: Seq<VariantV>, arms: Seq<ArmV>, i: int)
    requires
        0 <= i,
        missing_from(vs, arms, i) is None,
    ensures
        forall|k: int| i <= k < vs.len() ==> covered(arms, (#[trigger] vs[k]).name),
    decreases vs.len() - i,
{
    if i < vs.len() {
        lemma_none_missing(vs, arms, i + 1);
    }
}

} // verus!
