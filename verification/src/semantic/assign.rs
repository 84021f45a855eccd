//! Which types a value may have where another is expected.
use crate::ast::{generics_v, same_type, types_v, GenericV, Type, TypeV};
use crate::codegen::yul::{
    fixed_name, is_fixed_name, is_sint_name, is_uint_name, sint_name, uint_name,
};
use crate::semantic::{SemV, TypeChecker};
use crate::semantic::spell::{debug_type, debugged, res_unit_v};
use crate::text::{
    cat3, cat7, cat9, cut, cut_spec, dec, dec_text, has_text, same, texts, trim, trim_spec,
};
use vstd::prelude::*;

verus! {

broadcast use crate::ast::group_views;

/// Whether a name stands for a type that a value is held against.
pub open spec fn known_type_spec(g: SemV, name: Seq<char>) -> bool {
    uint_name(name) || sint_name(name) || fixed_name(name) || (
        name == "bool"@
        || name == "Account"@
    ) || g.w.classes.contains_key(name) || g.w.enums.contains_key(name)
}

impl TypeChecker {
    pub(crate) fn known_type(&self, name: &str) -> (r: bool)
        ensures
            r == known_type_spec(self.sem(), name@),
    {
        is_uint_name(name) || is_sint_name(name) || is_fixed_name(name) || (
            same(name, "bool")
            || same(name, "Account")
        ) || self.loaded_classes.has(name) || self.loaded_enums.has(name)
    }
}

/// Numbers of one kind stand for each other, and a word for a fixed-point number
/// or for a class.
pub open spec fn names_assignable_spec(g: SemV, e: Seq<char>, p: Seq<char>) -> bool {
    if p == "u256"@ && fixed_name(e) {
        true
    } else if e == "u256"@ && fixed_name(p) {
        true
    } else if e == "u256"@ && g.w.classes.contains_key(p) {
        true
    } else if p == "u256"@ && g.w.classes.contains_key(e) {
        true
    } else {
        (uint_name(e) && uint_name(p)) || (sint_name(e) && sint_name(p))
    }
}

impl TypeChecker {
    pub(crate) fn names_assignable(&self, e: &str, p: &str) -> (r: bool)
        ensures
            r == names_assignable_spec(self.sem(), e@, p@),
    {
        if same(p, "u256") && is_fixed_name(e) {
            return true;
        }
        if same(e, "u256") && is_fixed_name(p) {
            return true;
        }
        if same(e, "u256") && self.loaded_classes.has(p) {
            return true;
        }
        if same(p, "u256") && self.loaded_classes.has(e) {
            return true;
        }
        (is_uint_name(e) && is_uint_name(p)) || (is_sint_name(e) && is_sint_name(p))
    }
}

pub open spec fn is_parent_spec(g: SemV, class: Seq<char>, ancestor: Seq<char>) -> bool {
    g.w.classes.contains_key(class) && g.w.classes[class].parents.contains(ancestor)
}

impl TypeChecker {
    pub(crate) fn is_parent(&self, class: &str, ancestor: &str) -> (r: bool)
        ensures
            r == is_parent_spec(self.sem(), class@, ancestor@),
    {
        match self.loaded_classes.get(class) {
            Some(c) => has_text(&c.parents, ancestor),
            None => false,
        }
    }
}

/// Whether a value may stand where a named type is expected; a type that is not
/// known takes anything.
pub open spec fn to_name_spec(g: SemV, e: Seq<char>, provided: TypeV) -> bool {
    if e == "All"@ {
        true
    } else if !known_type_spec(g, e) {
        true
    } else {
        match provided {
            TypeV::Primitive(p) => {
                if names_assignable_spec(g, e, p) {
                    true
                } else {
                    is_parent_spec(g, p, e)
                }
            },
            TypeV::Generic { name, .. } => e == "u256"@ && g.w.classes.contains_key(name),
            _ => false,
        }
    }
}

impl TypeChecker {
    pub(crate) fn to_name(&self, e: &str, provided: &Type) -> (r: bool)
        ensures
            r == to_name_spec(self.sem(), e@, provided@),
    {
        if same(e, "All") {
            return true;
        }
        if !self.known_type(e) {
            return true;
        }
        match provided {
            Type::Primitive(p) => {
                if self.names_assignable(e, p.as_str()) {
                    return true;
                }
                self.is_parent(p.as_str(), e)
            },
            Type::Generic { name, .. } => same(e, "u256") && self.loaded_classes.has(name.as_str()),
            _ => false,
        }
    }
}

/// Whether a value of the provided type may stand where the expected one is.
pub open spec fn is_assignable_spec(g: SemV, expected: TypeV, provided: TypeV) -> bool
    decreases expected,
{
    if expected == provided {
        true
    } else {
        match expected {
            TypeV::Primitive(e) => to_name_spec(g, e, provided),
            TypeV::Array(inner) => {
                match provided {
                    TypeV::Array(p) => is_assignable_spec(g, *inner, *p),
                    _ => false,
                }
            },
            TypeV::FixedArray(inner, n) => {
                match provided {
                    TypeV::FixedArray(p, m) => n == m && is_assignable_spec(g, *inner, *p),
                    _ => false,
                }
            },
            TypeV::Generic { name, args } => {
                match provided {
                    TypeV::Array(p) => {
                        if name == "Vec"@ && args.len() == 1 {
                            is_assignable_spec(g, args[0], *p)
                        } else {
                            false
                        }
                    },
                    TypeV::Primitive(p) => p == "u256"@ && g.w.classes.contains_key(name),
                    _ => false,
                }
            },
        }
    }
}

impl TypeChecker {
    pub(crate) fn is_assignable(&self, expected: &Type, provided: &Type) -> (r: bool)
        ensures
            r == is_assignable_spec(self.sem(), expected@, provided@),
        decreases expected,
    {
        proof {
            reveal_with_fuel(Type::view, 2);
        }
        if same_type(expected, provided) {
            return true;
        }
        match expected {
            Type::Primitive(e) => self.to_name(e.as_str(), provided),
            Type::Array(inner) => {
                match provided {
                    Type::Array(p) => self.is_assignable(inner, p),
                    _ => false,
                }
            },
            Type::FixedArray(inner, n) => {
                match provided {
                    Type::FixedArray(p, m) => *n == *m && self.is_assignable(inner, p),
                    _ => false,
                }
            },
            Type::Generic { name, args } => {
                match provided {
                    Type::Array(p) => {
                        if same(name.as_str(), "Vec") && args.len() == 1 {
                            assert(decreases_to!(expected => args@[0]));
                            return self.is_assignable(&args[0], p);
                        }
                        false
                    },
                    Type::Primitive(p) => same(
                        p.as_str(),
                        "u256",
                    ) && self.loaded_classes.has(name.as_str()),
                    _ => false,
                }
            },
        }
    }
}

/// Whether a type meets the first `n` parts of a bound: one of them, or all.
pub open spec fn meets(g: SemV, parts: Seq<Seq<char>>, one: bool, t: TypeV, n: nat) -> bool
    decreases n,
{
    if n == 0 {
        !one
    } else {
        let last = is_assignable_spec(g, TypeV::Primitive(trim_spec(parts[n - 1])), t);
        if one {
            meets(g, parts, one, t, (n - 1) as nat) || last
        } else {
            meets(g, parts, one, t, (n - 1) as nat) && last
        }
    }
}

/// Whether a type meets a bound: names joined by `||` offer a choice, names joined
/// by `&&` are all asked for.
pub open spec fn meets_bound(g: SemV, bound: Seq<char>, t: TypeV) -> bool {
    let choices = cut_spec(bound, '|');
    if choices.len() > 1 {
        meets(g, choices, true, t, choices.len())
    } else {
        let parts = cut_spec(bound, '&');
        meets(g, parts, false, t, parts.len())
    }
}

/// Why the first `n` type arguments of a generic class do not fit it.
pub open spec fn args_fit(
    g: SemV,
    name: Seq<char>,
    gps: Seq<GenericV>,
    args: Seq<TypeV>,
    n: nat,
) -> Result<(), Seq<char>>
    decreases n,
{
    if n == 0 || n > gps.len() || n > args.len() {
        Ok(())
    } else {
        match args_fit(g, name, gps, args, (n - 1) as nat) {
            Ok(_) => if meets_bound(g, gps[n - 1].bound, args[n - 1]) {
                Ok(())
            } else {
                Err(
                    "Type "@ + debugged(args[n - 1]) + " does not satisfy the bound '"@ + gps[n
                        - 1].bound + "' for generic parameter '"@ + gps[n - 1].name
                        + "' in class '"@ + name + "'"@,
                )
            },
            Err(e) => Err(e),
        }
    }
}

proof fn lemma_args_err(
    g: SemV,
    name: Seq<char>,
    gps: Seq<GenericV>,
    args: Seq<TypeV>,
    n: nat,
    m: nat,
)
    requires
        n <= m,
        m <= gps.len(),
        m <= args.len(),
        args_fit(g, name, gps, args, n) is Err,
    ensures
        args_fit(g, name, gps, args, m) == args_fit(g, name, gps, args, n),
    decreases m - n,
{
    if n < m {
        lemma_args_err(g, name, gps, args, n, (m - 1) as nat);
    }
}

/// Why a declared type cannot stand: a generic class that is not declared, or that
/// its arguments do not fit.
pub open spec fn type_declared(g: SemV, t: TypeV) -> Result<(), Seq<char>>
    decreases t,
{
    match t {
        TypeV::Generic { name, args } => if g.w.classes.contains_key(name) {
            let gps = g.w.classes[name].generic_params;
            if gps.len() != args.len() {
                Err(
                    "Generic type '"@ + name + "' expects "@ + dec(gps.len()) + " arguments, but "@
                        + dec(args.len()) + " were provided."@,
                )
            } else {
                args_fit(g, name, gps, args, args.len())
            }
        } else {
            Err("Undeclared generic type '"@ + name + "'"@)
        },
        TypeV::Array(inner) => type_declared(g, *inner),
        _ => Ok(()),
    }
}

impl TypeChecker {
    fn meets_parts(&self, parts: &Vec<String>, one: bool, t: &Type) -> (r: bool)
        ensures
            r == meets(self.sem(), texts(parts@), one, t@, parts@.len()),
    {
        let ghost g = self.sem();
        let mut ok = !one;
        let mut i: usize = 0;
        while i < parts.len()
            invariant
                i <= parts@.len(),
                g == self.sem(),
                ok == meets(g, texts(parts@), one, t@, i as nat),
            decreases parts@.len() - i,
        {
            let bound = Type::Primitive(trim(parts[i].as_str()));
            let last = self.is_assignable(&bound, t);
            ok = if one {
                ok || last
            } else {
                ok && last
            };
            i += 1;
        }
        ok
    }

    fn fits_bound(&self, bound: &str, t: &Type) -> (r: bool)
        ensures
            r == meets_bound(self.sem(), bound@, t@),
    {
        let choices = cut(bound, '|');
        if choices.len() > 1 {
            self.meets_parts(&choices, true, t)
        } else {
            let parts = cut(bound, '&');
            self.meets_parts(&parts, false, t)
        }
    }

    /// Checks a declared type.
    pub(crate) fn verify_type_declaration(&self, t: &Type) -> (r: Result<(), String>)
        ensures
            res_unit_v(r) == type_declared(self.sem(), t@),
        decreases t,
    {
        proof {
            reveal_with_fuel(Type::view, 2);
        }
        match t {
            Type::Generic { name, args } => {
                let class = match self.loaded_classes.get(name.as_str()) {
                    Some(c) => c,
                    None => {
                        return Err(cat3("Undeclared generic type '", name.as_str(), "'"));
                    },
                };
                let gps = &class.generic_params;
                let ghost g = self.sem();
                let ghost gv = generics_v(gps@);
                let ghost av = types_v(args@);
                assert(g.w.classes[name@] == class@);
                assert(av.len() == args@.len());
                if gps.len() != args.len() {
                    return Err(
                        cat7(
                            "Generic type '",
                            name.as_str(),
                            "' expects ",
                            dec_text(gps.len()).as_str(),
                            " arguments, but ",
                            dec_text(args.len()).as_str(),
                            " were provided.",
                        ),
                    );
                }
                let mut i: usize = 0;
                while i < args.len()
                    invariant
                        i <= args@.len(),
                        gps@.len() == args@.len(),
                        g == self.sem(),
                        gv == generics_v(gps@),
                        av == types_v(args@),
                        gv == g.w.classes[name@].generic_params,
                        g.w.classes.contains_key(name@),
                        t@ == (TypeV::Generic { name: name@, args: av }),
                        args_fit(g, name@, gv, av, i as nat) is Ok,
                    decreases args@.len() - i,
                {
                    assert(gv[i as int] == gps@[i as int]@);
                    assert(av[i as int] == args@[i as int]@);
                    if !self.fits_bound(gps[i].bound.as_str(), &args[i]) {
                        proof {
                            lemma_args_err(g, name@, gv, av, (i + 1) as nat, av.len());
                        }
                        return Err(
                            cat9(
                                "Type ",
                                debug_type(&args[i]).as_str(),
                                " does not satisfy the bound '",
                                gps[i].bound.as_str(),
                                "' for generic parameter '",
                                gps[i].name.as_str(),
                                "' in class '",
                                name.as_str(),
                                "'",
                            ),
                        );
                    }
                    i += 1;
                }
                Ok(())
            },
            Type::Array(inner) => self.verify_type_declaration(inner),
            _ => Ok(()),
        }
    }
}

} // verus!
