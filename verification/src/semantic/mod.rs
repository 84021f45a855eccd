//! Type checking: what the program declares, and whether it hangs together.
pub mod assign;
pub mod check;
pub mod closure;
pub mod eval;
pub mod flow;
pub mod inherit;
pub mod inherit_laws;
pub mod leaves;
pub mod modules;
pub mod paths;
pub mod return_laws;
pub mod rules;
pub mod spell;
pub mod supers;
pub mod type_laws;
pub mod verify;

use crate::ast::{ClassDecl, ClassV, EnumDecl, EnumV, ErrorDecl, Type, TypeV, VariantV};
use crate::names::{NameMap, NameSet};
use crate::text::{cat2, cat3, same, texts};
use vstd::prelude::*;

verus! {

/// What a scope knows of a name.
#[derive(Debug)]
pub struct SymbolInfo {
    pub is_const: bool,
    pub type_def: Type,
}

/// The view of a [`SymbolInfo`].
pub struct SymbolV {
    pub is_const: bool,
    pub type_def: TypeV,
}

impl SymbolInfo {
    pub open spec fn view(&self) -> SymbolV {
        SymbolV { is_const: self.is_const, type_def: self.type_def@ }
    }
}

impl Clone for SymbolInfo {
    fn clone(&self) -> (r: Self)
        ensures
            r@ == self@,
    {
        SymbolInfo { is_const: self.is_const, type_def: self.type_def.clone() }
    }
}

/// Whether a type is the mark of a declaration whose type is to be inferred.
pub open spec fn is_infer_spec(t: TypeV) -> bool {
    t == TypeV::Primitive("_infer"@)
}

pub fn is_infer(t: &Type) -> (r: bool)
    ensures
        r == is_infer_spec(t@),
{
    match t {
        Type::Primitive(s) => same(s.as_str(), "_infer"),
        _ => false,
    }
}

/// What has been declared: the program as code generation reads it.
pub struct WorldV {
    pub classes: Map<Seq<char>, ClassV>,
    pub enums: Map<Seq<char>, EnumV>,
    pub errors: Map<Seq<char>, VariantV>,
    pub interfaces: Set<Seq<char>>,
    /// Class names in the order in which they were first registered.
    pub class_order: Seq<Seq<char>>,
    /// The declared return types of the top-level functions.
    pub fn_types: Map<Seq<char>, TypeV>,
}

pub open spec fn classes_v(m: Map<Seq<char>, ClassDecl>) -> Map<Seq<char>, ClassV> {
    Map::new(|k: Seq<char>| m.contains_key(k), |k: Seq<char>| m[k]@)
}

pub open spec fn enums_v(m: Map<Seq<char>, EnumDecl>) -> Map<Seq<char>, EnumV> {
    Map::new(|k: Seq<char>| m.contains_key(k), |k: Seq<char>| m[k]@)
}

pub open spec fn errors_v(m: Map<Seq<char>, ErrorDecl>) -> Map<Seq<char>, VariantV> {
    Map::new(|k: Seq<char>| m.contains_key(k), |k: Seq<char>| m[k]@)
}

pub open spec fn type_map_v(m: Map<Seq<char>, Type>) -> Map<Seq<char>, TypeV> {
    Map::new(|k: Seq<char>| m.contains_key(k), |k: Seq<char>| m[k]@)
}

pub open spec fn scope_v(m: Map<Seq<char>, SymbolInfo>) -> Map<Seq<char>, SymbolV> {
    Map::new(|k: Seq<char>| m.contains_key(k), |k: Seq<char>| m[k]@)
}

/// The scopes, from the outermost to the innermost.
pub open spec fn scopes_v(s: Seq<NameMap<SymbolInfo>>) -> Seq<Map<Seq<char>, SymbolV>> {
    Seq::new(s.len(), |i: int| scope_v(s[i]@))
}

pub struct TypeChecker {
    pub symbol_table: Vec<NameMap<SymbolInfo>>,
    pub loaded_classes: NameMap<ClassDecl>,
    pub loaded_enums: NameMap<EnumDecl>,
    pub loaded_errors: NameMap<ErrorDecl>,
    /// The classes that stand for other contracts: a method call on one is a
    /// real external call.
    pub loaded_interfaces: NameSet,
    /// Whether some statement can hand control to another contract.
    pub has_external_calls: bool,
    pub class_order: Vec<String>,
    pub function_return_types: NameMap<Type>,
    /// The return type of the function being verified; `None` where it returns
    /// nothing.
    pub current_return_type: Option<Type>,
}

impl TypeChecker {
    /// What has been declared so far.
    pub open spec fn world(&self) -> WorldV {
        WorldV {
            classes: classes_v(self.loaded_classes@),
            enums: enums_v(self.loaded_enums@),
            errors: errors_v(self.loaded_errors@),
            interfaces: self.loaded_interfaces@,
            class_order: texts(self.class_order@),
            fn_types: type_map_v(self.function_return_types@),
        }
    }

    /// The scopes, from the outermost to the innermost.
    pub open spec fn scopes(&self) -> Seq<Map<Seq<char>, SymbolV>> {
        scopes_v(self.symbol_table@)
    }
}

/// What the types of an expression depend on.
pub struct SemV {
    pub w: WorldV,
    /// The scopes, from the outermost to the innermost.
    pub sc: Seq<Map<Seq<char>, SymbolV>>,
}

impl TypeChecker {
    pub open spec fn sem(&self) -> SemV {
        SemV { w: self.world(), sc: self.scopes() }
    }
}

/// The number of loaded classes.
pub(crate) fn class_count(tc: &TypeChecker) -> (r: usize)
    ensures
        r == tc.world().classes.dom().len(),
{
    let n = tc.loaded_classes.len();
    proof {
        let order = tc.loaded_classes.order();
        order.unique_seq_to_set();
        assert forall|k: Seq<char>| #[trigger]
            tc.world().classes.dom().contains(k) <==> order.to_set().contains(k) by {
            assert(tc.loaded_classes@.contains_key(k) <==> order.contains(k));
        }
        assert(tc.world().classes.dom() =~= order.to_set());
    }
    n
}

/// A world with nothing declared.
pub open spec fn empty_world() -> WorldV {
    WorldV {
        classes: Map::empty(),
        enums: Map::empty(),
        errors: Map::empty(),
        interfaces: Set::empty(),
        class_order: Seq::empty(),
        fn_types: Map::empty(),
    }
}

/// The innermost of the first `n` scopes that knows `name` decides.
pub open spec fn lookup_below(
    scopes: Seq<Map<Seq<char>, SymbolV>>,
    n: int,
    name: Seq<char>,
) -> Option<SymbolV>
    decreases n,
{
    if n <= 0 {
        None
    } else if scopes[n - 1].contains_key(name) {
        Some(scopes[n - 1][name])
    } else {
        lookup_below(scopes, n - 1, name)
    }
}

pub open spec fn lookup_spec(scopes: Seq<Map<Seq<char>, SymbolV>>, name: Seq<char>) -> Option<
    SymbolV,
> {
    lookup_below(scopes, scopes.len() as int, name)
}

/// The scopes with `info` put under `name` in the innermost one.
pub open spec fn insert_spec(
    scopes: Seq<Map<Seq<char>, SymbolV>>,
    name: Seq<char>,
    info: SymbolV,
) -> Seq<Map<Seq<char>, SymbolV>> {
    if scopes.len() == 0 {
        scopes
    } else {
        scopes.update(scopes.len() - 1, scopes.last().insert(name, info))
    }
}

/// Whether an enum has a variant that carries a payload.
pub open spec fn has_payload(w: WorldV, name: Seq<char>) -> bool {
    w.enums.contains_key(name) && exists|i: int|
        0 <= i < w.enums[name].variants.len() && (
        #[trigger] w.enums[name].variants[i]).parameters.len() > 0
}

/// Whether a type is an enum without payloads: a plain one-byte tag.
pub open spec fn scalar_enum(w: WorldV, t: TypeV) -> bool {
    match t {
        TypeV::Primitive(n) => w.enums.contains_key(n) && !has_payload(w, n),
        _ => false,
    }
}

/// Whether a type is an enum with payloads, which exists in memory only.
pub open spec fn payload_enum(w: WorldV, t: TypeV) -> bool {
    match t {
        TypeV::Primitive(n) => has_payload(w, n),
        _ => false,
    }
}

impl TypeChecker {
    pub fn new() -> (r: Self)
        ensures
            r.world() == empty_world(),
            r.scopes() == seq![Map::<Seq<char>, SymbolV>::empty()],
            !r.has_external_calls,
            r.current_return_type is None,
    {
        let mut table: Vec<NameMap<SymbolInfo>> = Vec::new();
        table.push(NameMap::new());
        let r = TypeChecker {
            symbol_table: table,
            loaded_classes: NameMap::new(),
            loaded_enums: NameMap::new(),
            loaded_errors: NameMap::new(),
            loaded_interfaces: NameSet::new(),
            has_external_calls: false,
            class_order: Vec::new(),
            function_return_types: NameMap::new(),
            current_return_type: None,
        };
        proof {
            assert(r.world().classes =~= empty_world().classes);
            assert(r.world().enums =~= empty_world().enums);
            assert(r.world().errors =~= empty_world().errors);
            assert(r.world().fn_types =~= empty_world().fn_types);
            assert(r.world().class_order =~= empty_world().class_order);
            assert(scope_v(r.symbol_table@[0]@) =~= Map::<Seq<char>, SymbolV>::empty());
            assert(r.scopes() =~= seq![Map::<Seq<char>, SymbolV>::empty()]);
        }
        r
    }

    pub fn push_scope(&mut self)
        ensures
            final(self).scopes() == old(self).scopes().push(Map::empty()),
            final(self).world() == old(self).world(),
            final(self).has_external_calls == old(self).has_external_calls,
            final(self).current_return_type == old(self).current_return_type,
            final(self).loaded_classes.order() == old(self).loaded_classes.order(),
    {
        let m: NameMap<SymbolInfo> = NameMap::new();
        assert(scope_v(m@) =~= Map::<Seq<char>, SymbolV>::empty());
        self.symbol_table.push(m);
        assert(self.scopes() =~= old(self).scopes().push(Map::empty()));
    }

    /// Leaves the innermost scope; without any scope, nothing happens.
    pub fn pop_scope(&mut self)
        ensures
            final(self).scopes() == (if old(self).scopes().len() == 0 {
                old(self).scopes()
            } else {
                old(self).scopes().drop_last()
            }),
            final(self).world() == old(self).world(),
            final(self).has_external_calls == old(self).has_external_calls,
            final(self).current_return_type == old(self).current_return_type,
            final(self).loaded_classes.order() == old(self).loaded_classes.order(),
    {
        let _ = self.symbol_table.pop();
        proof {
            if old(self).scopes().len() > 0 {
                assert(self.scopes() =~= old(self).scopes().drop_last());
            } else {
                assert(self.scopes() =~= old(self).scopes());
            }
        }
    }

    pub fn insert_symbol(&mut self, name: String, info: SymbolInfo)
        ensures
            final(self).scopes() == insert_spec(old(self).scopes(), name@, info@),
            final(self).world() == old(self).world(),
            final(self).has_external_calls == old(self).has_external_calls,
            final(self).current_return_type == old(self).current_return_type,
            final(self).loaded_classes.order() == old(self).loaded_classes.order(),
    {
        let ghost nv = name@;
        let ghost iv = info@;
        let ghost before = self.symbol_table@;
        match self.symbol_table.pop() {
            Some(mut scope) => {
                let ghost inner = scope@;
                scope.insert(name, info);
                assert(scope_v(scope@) =~= scope_v(inner).insert(nv, iv));
                self.symbol_table.push(scope);
                assert(self.scopes() =~= insert_spec(old(self).scopes(), nv, iv));
            },
            None => {
                assert(self.scopes() =~= old(self).scopes());
            },
        }
    }

    pub fn lookup_symbol(&self, name: &str) -> (r: Option<&SymbolInfo>)
        ensures
            match r {
                Some(info) => lookup_spec(self.scopes(), name@) == Some(info@),
                None => lookup_spec(self.scopes(), name@) is None,
            },
    {
        let mut n: usize = self.symbol_table.len();
        while n > 0
            invariant
                n <= self.symbol_table@.len(),
                lookup_spec(self.scopes(), name@) == lookup_below(self.scopes(), n as int, name@),
            decreases n,
        {
            match self.symbol_table[n - 1].get(name) {
                Some(info) => {
                    return Some(info);
                },
                None => {},
            }
            n -= 1;
        }
        None
    }

    pub fn enum_has_payload(&self, name: &str) -> (r: bool)
        ensures
            r == has_payload(self.world(), name@),
    {
        match self.loaded_enums.get(name) {
            Some(e) => {
                let mut i: usize = 0;
                while i < e.variants.len()
                    invariant
                        i <= e.variants@.len(),
                        self.world().enums.contains_key(name@),
                        self.world().enums[name@] == e@,
                        forall|k: int|
                            0 <= k < i ==> (#[trigger] e@.variants[k]).parameters.len() == 0,
                    decreases e.variants@.len() - i,
                {
                    if e.variants[i].parameters.len() > 0 {
                        assert(self.world().enums[name@].variants[i as int].parameters.len() > 0);
                        return true;
                    }
                    assert(e@.variants[i as int].parameters.len() == 0);
                    i += 1;
                }
                false
            },
            None => false,
        }
    }

    pub fn is_scalar_enum(&self, t: &Type) -> (r: bool)
        ensures
            r == scalar_enum(self.world(), t@),
    {
        match t {
            Type::Primitive(n) => self.loaded_enums.has(n.as_str()) && !self.enum_has_payload(
                n.as_str(),
            ),
            _ => false,
        }
    }

    pub fn is_payload_enum(&self, t: &Type) -> (r: bool)
        ensures
            r == payload_enum(self.world(), t@),
    {
        match t {
            Type::Primitive(n) => self.enum_has_payload(n.as_str()),
            _ => false,
        }
    }
}

/// The name under which the method that an override replaced is kept.
pub fn super_name(method: &str) -> (r: String)
    ensures
        r@ == "super_"@ + method@,
{
    cat2("super_", method)
}

/// The name under which a method of one ancestor is kept.
pub fn qualified_method_name(ancestor: &str, method: &str) -> (r: String)
    ensures
        r@ == ancestor@ + "_"@ + method@,
{
    cat3(ancestor, "_", method)
}

proof fn lemma_lookup_ignores(
    a: Seq<Map<Seq<char>, SymbolV>>,
    b: Seq<Map<Seq<char>, SymbolV>>,
    n: int,
    name: Seq<char>,
)
    requires
        0 <= n <= a.len(),
        n <= b.len(),
        forall|i: int| 0 <= i < n ==> a[i] == b[i],
    ensures
        lookup_below(a, n, name) == lookup_below(b, n, name),
    decreases n,
{
    if n > 0 {
        lemma_lookup_ignores(a, b, n - 1, name);
    }
}

/// A name that is declared in the innermost scope is found there, whatever the outer
/// scopes say of it; every other name is found as before; and once the scope is left, so
/// is every name.
pub proof fn law_scopes_nest(
    scopes: Seq<Map<Seq<char>, SymbolV>>,
    name: Seq<char>,
    info: SymbolV,
    other: Seq<char>,
)
    ensures
        ({
            let inner = insert_spec(scopes.push(Map::empty()), name, info);
            &&& lookup_spec(inner, name) == Some(info)
            &&& (other != name ==> lookup_spec(inner, other) == lookup_spec(scopes, other))
            &&& inner.drop_last() == scopes
        }),
{
    let pushed = scopes.push(Map::<Seq<char>, SymbolV>::empty());
    let inner = insert_spec(pushed, name, info);
    let n = scopes.len() as int;
    assert(inner.drop_last() =~= scopes);
    assert(inner.last() == Map::<Seq<char>, SymbolV>::empty().insert(name, info));
    if other != name {
        lemma_lookup_ignores(inner, scopes, n, other);
    }
}

} // verus!
