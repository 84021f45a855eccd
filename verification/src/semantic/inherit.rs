//! Inheritance: each class is rewritten once to hold what it inherits, so nothing
//! that follows needs to know of parents.
use crate::ast::{
    field_named, fields_v, find_field, find_method, method_index, method_named, methods_v,
    types_v, ClassDecl, ClassField, ClassV, FieldV, FnDecl, FnV, Type, TypeV,
};
use crate::codegen::translator::text_map_v;
use crate::names::{NameMap, NameSet};
use crate::semantic::{class_count, classes_v, super_name, TypeChecker, WorldV};
use crate::semantic::spell::{res_unit_v, signature_key, signature_spec};
use crate::semantic::supers::{
    lift_methods, lifted_methods, moved_names, moved_spec, next_name, next_version,
};
use crate::text::{
    cat3, cat4, cat5, cat7, cat8, clone_texts, has_text, join, join_spec, same, texts,
};
use vstd::prelude::*;

verus! {

broadcast use crate::ast::group_views;

/// The fields of a contract as they are stored: a `Vec` is an array.
pub open spec fn stored_field(f: FieldV) -> FieldV {
    match f.type_def {
        TypeV::Generic { name, args } => if name == "Vec"@ && args.len() == 1 {
            FieldV { type_def: TypeV::Array(Box::new(args[0])), ..f }
        } else {
            f
        },
        _ => f,
    }
}

pub open spec fn stored_class(c: ClassV) -> ClassV {
    if c.is_global {
        ClassV { fields: c.fields.map_values(|f: FieldV| stored_field(f)), ..c }
    } else {
        c
    }
}

/// What is declared, with one class more.
pub open spec fn register_spec(w: WorldV, c: ClassV) -> WorldV {
    WorldV {
        classes: w.classes.insert(c.name, stored_class(c)),
        interfaces: if c.is_extern {
            w.interfaces.insert(c.name)
        } else {
            w.interfaces
        },
        class_order: if w.classes.contains_key(c.name) {
            w.class_order
        } else {
            w.class_order.push(c.name)
        },
        ..w
    }
}

fn store_field(f: &ClassField) -> (r: ClassField)
    ensures
        r@ == stored_field(f@),
{
    proof {
        reveal_with_fuel(Type::view, 2);
    }
    let type_def = match &f.type_def {
        Type::Generic { name, args } => if same(name.as_str(), "Vec") && args.len() == 1 {
            assert(types_v(args@)[0] == args@[0]@);
            Type::Array(Box::new(args[0].clone()))
        } else {
            f.type_def.clone()
        },
        _ => f.type_def.clone(),
    };
    ClassField {
        is_const: f.is_const,
        is_transient: f.is_transient,
        type_def,
        name: f.name.clone(),
    }
}

fn store_class(c: &ClassDecl) -> (r: ClassDecl)
    ensures
        r@ == stored_class(c@),
{
    let copy = c.clone();
    if !c.is_global {
        return copy;
    }
    let mut fields: Vec<ClassField> = Vec::new();
    let mut i: usize = 0;
    while i < c.fields.len()
        invariant
            i <= c.fields@.len(),
            fields@.len() == i,
            forall|k: int| 0 <= k < i ==> (#[trigger] fields@[k])@ == stored_field(c.fields@[k]@),
        decreases c.fields@.len() - i,
    {
        fields.push(store_field(&c.fields[i]));
        i += 1;
    }
    let r = ClassDecl { fields, ..copy };
    assert(r@.fields =~= stored_class(c@).fields);
    r
}

impl TypeChecker {
    /// Adds a class to what is declared.
    pub(crate) fn register_class(&mut self, c: &ClassDecl)
        ensures
            final(self).world() == register_spec(old(self).world(), c@),
            final(self).chk() == old(self).chk(),
            final(self).current_return_type == old(self).current_return_type,
    {
        let ghost w0 = self.world();
        if !self.loaded_classes.has(c.name.as_str()) {
            let ghost before = texts(self.class_order@);
            self.class_order.push(c.name.clone());
            assert(texts(self.class_order@) =~= before.push(c.name@));
        }
        if c.is_extern {
            self.loaded_interfaces.insert(c.name.clone());
        }
        let s = store_class(c);
        let ghost before = self.loaded_classes@;
        let ghost sv = s@;
        self.loaded_classes.insert(c.name.clone(), s);
        assert(classes_v(self.loaded_classes@) =~= classes_v(before).insert(c.name@, sv));
    }
}

/// The classes, and the names of those that have been rewritten.
pub struct FlatV {
    pub cs: Map<Seq<char>, ClassV>,
    pub done: Set<Seq<char>>,
    /// The methods of each class that are versions its overrides have kept.
    pub made: Map<Seq<char>, Seq<Seq<char>>>,
}

/// The versions that a class holds.
pub open spec fn made_of(f: FlatV, name: Seq<char>) -> Seq<Seq<char>> {
    if f.made.contains_key(name) {
        f.made[name]
    } else {
        Seq::empty()
    }
}

/// What a class gathers from its parents.
pub struct MergeV {
    pub fields: Seq<FieldV>,
    pub methods: Seq<FnV>,
    /// Those of the methods that are versions an override has kept.
    pub made: Seq<Seq<char>>,
    /// The parent that each method comes from.
    pub sources: Map<Seq<char>, Seq<char>>,
    pub ancestors: Seq<Seq<char>>,
    /// The methods that an interface asks for, each with the interface.
    pub required: Seq<(Seq<char>, FnV)>,
}

pub open spec fn no_merge() -> MergeV {
    MergeV {
        fields: Seq::empty(),
        methods: Seq::empty(),
        made: Seq::empty(),
        sources: Map::empty(),
        ancestors: Seq::empty(),
        required: Seq::empty(),
    }
}

/// The fields so far with the first `n` of a further parent.
pub open spec fn add_fields(class: Seq<char>, fields: Seq<FieldV>, more: Seq<FieldV>, n: nat) -> Result<
    Seq<FieldV>,
    Seq<char>,
>
    decreases n,
{
    if n == 0 || n > more.len() {
        Ok(fields)
    } else {
        match add_fields(class, fields, more, (n - 1) as nat) {
            Ok(out) => if field_named(out, more[n - 1].name) is Some {
                Err(
                    "Semantic Error: class '"@ + class + "' inherits a field named '"@ + more[n
                        - 1].name + "' from more than one parent. Rename one of them."@,
                )
            } else {
                Ok(out.push(more[n - 1]))
            },
            Err(e) => Err(e),
        }
    }
}

/// The methods so far, and their sources, with the first `n` of the parent `p`. Two
/// parents may give the same method only where the class declares its own.
pub open spec fn add_methods(
    class: Seq<char>,
    own: Seq<FnV>,
    p: Seq<char>,
    methods: Seq<FnV>,
    sources: Map<Seq<char>, Seq<char>>,
    more: Seq<FnV>,
    n: nat,
) -> Result<(Seq<FnV>, Map<Seq<char>, Seq<char>>), Seq<char>>
    decreases n,
{
    if n == 0 || n > more.len() {
        Ok((methods, sources))
    } else {
        match add_methods(class, own, p, methods, sources, more, (n - 1) as nat) {
            Ok((ms, src)) => {
                let m = more[n - 1];
                if src.contains_key(m.name) {
                    if method_named(own, m.name) is Some {
                        Ok((ms, src))
                    } else {
                        Err(
                            "Semantic Error: class '"@ + class + "' inherits method '"@ + m.name
                                + "' from both '"@ + src[m.name] + "' and '"@ + p
                                + "'. Declare it on '"@ + class + "' to say which one it should be."@,
                        )
                    }
                } else {
                    Ok((ms.push(m), src.insert(m.name, p)))
                }
            },
            Err(e) => Err(e),
        }
    }
}

/// The methods that an interface asks for.
pub open spec fn asked(p: Seq<char>, ms: Seq<FnV>) -> Seq<(Seq<char>, FnV)> {
    ms.map_values(|m: FnV| (p, m))
}

/// What has been gathered, with one parent more.
pub open spec fn merge_parent(
    class: Seq<char>,
    c: ClassV,
    m: MergeV,
    p: Seq<char>,
    parent: ClassV,
    made: Seq<Seq<char>>,
) -> Result<MergeV, Seq<char>> {
    if parent.generic_params.len() > 0 {
        Err(
            "Semantic Error: class '"@ + class + "' cannot inherit from generic class '"@ + p
                + "', there is no syntax to supply its type arguments."@,
        )
    } else if parent.is_global {
        Err(
            "Semantic Error: class '"@ + class + "' cannot inherit from '"@ + p
                + "', which is a contract. A contract is a storage singleton, not a base class."@,
        )
    } else {
        let ancestors = m.ancestors.push(p) + parent.parents;
        if parent.is_extern {
            Ok(MergeV { ancestors, required: m.required + asked(p, parent.methods), ..m })
        } else {
            match add_fields(class, m.fields, parent.fields, parent.fields.len()) {
                Err(e) => Err(e),
                Ok(fields) => match add_methods(
                    class,
                    c.methods,
                    p,
                    m.methods,
                    m.sources,
                    parent.methods,
                    parent.methods.len(),
                ) {
                    Err(e) => Err(e),
                    Ok((methods, sources)) => Ok(
                        MergeV { fields, methods, made: m.made + made, sources, ancestors, ..m },
                    ),
                },
            }
        }
    }
}

/// The inherited fields with the first `n` of the class itself.
pub open spec fn own_fields(class: Seq<char>, fields: Seq<FieldV>, own: Seq<FieldV>, n: nat) -> Result<
    Seq<FieldV>,
    Seq<char>,
>
    decreases n,
{
    if n == 0 || n > own.len() {
        Ok(fields)
    } else {
        match own_fields(class, fields, own, (n - 1) as nat) {
            Ok(out) => if field_named(out, own[n - 1].name) is Some {
                Err(
                    "Semantic Error: class '"@ + class + "' re-declares inherited field '"@ + own[n
                        - 1].name
                        + "'. Inherited fields already occupy their slots, rename this one."@,
                )
            } else {
                Ok(out.push(own[n - 1]))
            },
            Err(e) => Err(e),
        }
    }
}

/// The inherited methods with the first `n` of the class itself: one of the same
/// name takes the place of the inherited one, which is kept under another name.
pub open spec fn own_methods(methods: Seq<FnV>, own: Seq<FnV>, n: nat) -> (Seq<FnV>, Seq<FnV>)
    decreases n,
{
    if n == 0 || n > own.len() {
        (methods, Seq::empty())
    } else {
        let (ms, supers) = own_methods(methods, own, (n - 1) as nat);
        let m = own[n - 1];
        match method_index(ms, m.name, 0) {
            Some(i) => (
                ms.update(i, m),
                supers.push(FnV { name: "super_"@ + m.name, ..ms[i] }),
            ),
            None => (ms.push(m), supers),
        }
    }
}

/// The names of the first `n` methods of a class that override an inherited one.
pub open spec fn overridden(methods: Seq<FnV>, own: Seq<FnV>, n: nat) -> Seq<Seq<char>>
    decreases n,
{
    if n == 0 || n > own.len() {
        Seq::empty()
    } else {
        let out = overridden(methods, own, (n - 1) as nat);
        if method_index(methods, own[n - 1].name, 0) is Some {
            out.push(own[n - 1].name)
        } else {
            out
        }
    }
}

/// The versions among the inherited methods that the methods `own` of a class move.
pub open spec fn moved_under(m: MergeV, own: Seq<FnV>) -> Seq<Seq<char>> {
    moved_spec(overridden(m.methods, own, own.len()), m.made, m.made.len())
}

/// The inherited methods, as they stand under a class with the methods `own`.
pub open spec fn under(m: MergeV, own: Seq<FnV>) -> Seq<FnV> {
    lift_methods(m.methods, moved_under(m, own))
}

/// The first `n` inherited versions, under the names they have now, without those that the
/// class declares.
pub open spec fn kept_versions(
    made: Seq<Seq<char>>,
    moved: Seq<Seq<char>>,
    own: Seq<FnV>,
    n: nat,
) -> Seq<Seq<char>>
    decreases n,
{
    if n == 0 || n > made.len() {
        Seq::empty()
    } else {
        let out = kept_versions(made, moved, own, (n - 1) as nat);
        if method_index(own, made[n - 1], 0) is Some {
            out
        } else {
            out.push(next_version(made[n - 1], moved))
        }
    }
}

/// The versions that a class holds once it has been rewritten: the inherited ones, and
/// those that its own methods have replaced.
pub open spec fn flat_made(c: ClassV, m: MergeV) -> Seq<Seq<char>> {
    kept_versions(m.made, moved_under(m, c.methods), c.methods, m.made.len()) + own_methods(
        under(m, c.methods),
        c.methods,
        c.methods.len(),
    ).1.map_values(|f: FnV| f.name)
}

/// Whether the class defines the first `n` of the methods that its interfaces ask
/// for.
pub open spec fn meets_interfaces(
    class: Seq<char>,
    methods: Seq<FnV>,
    required: Seq<(Seq<char>, FnV)>,
    n: nat,
) -> Result<(), Seq<char>>
    decreases n,
{
    if n == 0 || n > required.len() {
        Ok(())
    } else {
        match meets_interfaces(class, methods, required, (n - 1) as nat) {
            Ok(_) => {
                let (iface, want) = required[n - 1];
                match method_named(methods, want.name) {
                    None => Err(
                        "Semantic Error: class '"@ + class + "' declares interface '"@ + iface
                            + "' but never defines '"@ + want.name + "'."@,
                    ),
                    Some(got) => if signature_spec(got) == signature_spec(want) {
                        Ok(())
                    } else {
                        Err(
                            "Semantic Error: class '"@ + class + "' defines '"@ + want.name
                                + "' with a signature that doesn't match interface '"@ + iface
                                + "'.\n  interface: "@ + signature_spec(want)
                                + "\n  class:     "@ + signature_spec(got),
                        )
                    },
                }
            },
            Err(e) => Err(e),
        }
    }
}

/// The first `n` ancestors, each once and without the class itself.
pub open spec fn distinct_ancestors(class: Seq<char>, names: Seq<Seq<char>>, n: nat) -> Seq<Seq<char>>
    decreases n,
{
    if n == 0 {
        Seq::empty()
    } else {
        let out = distinct_ancestors(class, names, (n - 1) as nat);
        if names[n - 1] == class || out.contains(names[n - 1]) {
            out
        } else {
            out.push(names[n - 1])
        }
    }
}

/// The class as it stands with what it inherits.
pub open spec fn flat_class(class: Seq<char>, c: ClassV, m: MergeV) -> Result<ClassV, Seq<char>> {
    match own_fields(class, m.fields, c.fields, c.fields.len()) {
        Err(e) => Err(e),
        Ok(fields) => {
            let (ms, supers) = own_methods(
                under(m, c.methods),
                c.methods,
                c.methods.len(),
            );
            let methods = ms + supers;
            match meets_interfaces(class, methods, m.required, m.required.len()) {
                Err(e) => Err(e),
                Ok(_) => Ok(
                    ClassV {
                        fields,
                        methods,
                        parents: distinct_ancestors(class, m.ancestors, m.ancestors.len()),
                        ..c
                    },
                ),
            }
        },
    }
}

pub open spec fn inherit_cycle(stack: Seq<Seq<char>>) -> Seq<char> {
    "Semantic Error: inheritance cycle: "@ + join_spec(stack, " -> "@)
        + ". A class cannot be its own ancestor."@
}

/// Rewrites a class, after its parents, within at most `d` further levels; `stack`
/// holds the classes that are being rewritten.
pub open spec fn flatten_spec(f: FlatV, name: Seq<char>, stack: Seq<Seq<char>>, d: nat) -> (
    FlatV,
    Result<(), Seq<char>>,
)
    decreases d, 0nat,
{
    if f.done.contains(name) {
        (f, Ok(()))
    } else if stack.contains(name) || d == 0 {
        (f, Err(inherit_cycle(stack.push(name))))
    } else if !f.cs.contains_key(name) {
        (f, Ok(()))
    } else {
        let c = f.cs[name];
        if c.parents.len() == 0 {
            (FlatV { done: f.done.insert(name), ..f }, Ok(()))
        } else {
            let (f, r) = merge_spec(f, name, c, stack.push(name), c.parents.len(), (d - 1) as nat);
            match r {
                Err(e) => (f, Err(e)),
                Ok(m) => match flat_class(name, c, m) {
                    Err(e) => (f, Err(e)),
                    Ok(flat) => (
                        FlatV {
                            cs: f.cs.insert(name, flat),
                            done: f.done.insert(name),
                            made: f.made.insert(name, flat_made(c, m)),
                        },
                        Ok(()),
                    ),
                },
            }
        }
    }
}

/// What a class gathers from its first `n` parents.
pub open spec fn merge_spec(
    f: FlatV,
    name: Seq<char>,
    c: ClassV,
    stack: Seq<Seq<char>>,
    n: nat,
    d: nat,
) -> (FlatV, Result<MergeV, Seq<char>>)
    decreases d, n,
{
    if n == 0 || n > c.parents.len() {
        (f, Ok(no_merge()))
    } else {
        let (f, r) = merge_spec(f, name, c, stack, (n - 1) as nat, d);
        let p = c.parents[n - 1];
        match r {
            Err(e) => (f, Err(e)),
            Ok(m) => if !f.cs.contains_key(p) {
                (
                    f,
                    Err(
                        "Semantic Error: class '"@ + name + "' inherits from '"@ + p
                            + "', which is not a known class."@,
                    ),
                )
            } else {
                let (f, r) = flatten_spec(f, p, stack, d);
                match r {
                    Err(e) => (f, Err(e)),
                    Ok(_) => (f, merge_parent(name, c, m, p, f.cs[p], made_of(f, p))),
                }
            },
        }
    }
}

/// Rewrites the first `n` classes in the order in which they were registered, with
/// the errors on the way.
pub open spec fn flatten_all(f: FlatV, order: Seq<Seq<char>>, n: nat, d: nat) -> (
    FlatV,
    Seq<Seq<char>>,
)
    decreases n,
{
    if n == 0 {
        (f, Seq::empty())
    } else {
        let (f, errors) = flatten_all(f, order, (n - 1) as nat, d);
        let (f, r) = flatten_spec(f, order[n - 1], Seq::empty(), d);
        match r {
            Ok(_) => (f, errors),
            Err(e) => (f, errors.push(e)),
        }
    }
}

pub open spec fn flatten_depth(w: WorldV) -> nat {
    w.classes.dom().len() + 1
}

/// The program with every class rewritten, and the errors on the way.
pub open spec fn flatten_world(w: WorldV) -> (WorldV, Seq<Seq<char>>) {
    let (f, errors) = flatten_all(
        FlatV { cs: w.classes, done: Set::empty(), made: Map::empty() },
        w.class_order,
        w.class_order.len(),
        flatten_depth(w),
    );
    (WorldV { classes: f.cs, ..w }, errors)
}


struct Merge {
    fields: Vec<ClassField>,
    methods: Vec<FnDecl>,
    made: Vec<String>,
    sources: NameMap<String>,
    ancestors: Vec<String>,
    required: Vec<(String, FnDecl)>,
}

pub open spec fn required_v(s: Seq<(String, FnDecl)>) -> Seq<(Seq<char>, FnV)> {
    Seq::new(s.len(), |i: int| (s[i].0@, s[i].1@))
}

impl Merge {
    spec fn view(&self) -> MergeV {
        MergeV {
            fields: fields_v(self.fields@),
            methods: methods_v(self.methods@),
            made: texts(self.made@),
            sources: text_map_v(self.sources@),
            ancestors: texts(self.ancestors@),
            required: required_v(self.required@),
        }
    }

    fn new() -> (r: Self)
        ensures
            r@ == no_merge(),
    {
        let r = Merge {
            fields: Vec::new(),
            methods: Vec::new(),
            made: Vec::new(),
            sources: NameMap::new(),
            ancestors: Vec::new(),
            required: Vec::new(),
        };
        proof {
            assert(r@.fields =~= no_merge().fields);
            assert(r@.methods =~= no_merge().methods);
            assert(r@.made =~= no_merge().made);
            assert(r@.sources =~= no_merge().sources);
            assert(r@.ancestors =~= no_merge().ancestors);
            assert(r@.required =~= no_merge().required);
        }
        r
    }
}

proof fn lemma_fields_err(class: Seq<char>, fields: Seq<FieldV>, more: Seq<FieldV>, n: nat, m: nat)
    requires
        n <= m <= more.len(),
        add_fields(class, fields, more, n) is Err,
    ensures
        add_fields(class, fields, more, m) == add_fields(class, fields, more, n),
    decreases m - n,
{
    if n < m {
        lemma_fields_err(class, fields, more, n, (m - 1) as nat);
    }
}

proof fn lemma_own_err(class: Seq<char>, fields: Seq<FieldV>, own: Seq<FieldV>, n: nat, m: nat)
    requires
        n <= m <= own.len(),
        own_fields(class, fields, own, n) is Err,
    ensures
        own_fields(class, fields, own, m) == own_fields(class, fields, own, n),
    decreases m - n,
{
    if n < m {
        lemma_own_err(class, fields, own, n, (m - 1) as nat);
    }
}

proof fn lemma_methods_err(
    class: Seq<char>,
    own: Seq<FnV>,
    p: Seq<char>,
    methods: Seq<FnV>,
    sources: Map<Seq<char>, Seq<char>>,
    more: Seq<FnV>,
    n: nat,
    m: nat,
)
    requires
        n <= m <= more.len(),
        add_methods(class, own, p, methods, sources, more, n) is Err,
    ensures
        add_methods(class, own, p, methods, sources, more, m) == add_methods(
            class,
            own,
            p,
            methods,
            sources,
            more,
            n,
        ),
    decreases m - n,
{
    if n < m {
        lemma_methods_err(class, own, p, methods, sources, more, n, (m - 1) as nat);
    }
}

proof fn lemma_interfaces_err(
    class: Seq<char>,
    methods: Seq<FnV>,
    required: Seq<(Seq<char>, FnV)>,
    n: nat,
    m: nat,
)
    requires
        n <= m <= required.len(),
        meets_interfaces(class, methods, required, n) is Err,
    ensures
        meets_interfaces(class, methods, required, m) == meets_interfaces(
            class,
            methods,
            required,
            n,
        ),
    decreases m - n,
{
    if n < m {
        lemma_interfaces_err(class, methods, required, n, (m - 1) as nat);
    }
}

proof fn lemma_merge_err(
    f: FlatV,
    name: Seq<char>,
    c: ClassV,
    stack: Seq<Seq<char>>,
    n: nat,
    m: nat,
    d: nat,
)
    requires
        n <= m <= c.parents.len(),
        merge_spec(f, name, c, stack, n, d).1 is Err,
    ensures
        merge_spec(f, name, c, stack, m, d) == merge_spec(f, name, c, stack, n, d),
    decreases m - n,
{
    if n < m {
        lemma_merge_err(f, name, c, stack, n, (m - 1) as nat, d);
    }
}

fn inherit_fields(class: &str, fields: Vec<ClassField>, more: &Vec<ClassField>) -> (r: Result<
    Vec<ClassField>,
    String,
>)
    ensures
        add_fields(class@, fields_v(fields@), fields_v(more@), more@.len()) == (match r {
            Ok(v) => Ok::<Seq<FieldV>, Seq<char>>(fields_v(v@)),
            Err(e) => Err(e@),
        }),
{
    let ghost f0 = fields_v(fields@);
    let ghost mv = fields_v(more@);
    let mut out = fields;
    let mut i: usize = 0;
    while i < more.len()
        invariant
            i <= more@.len(),
            f0 == fields_v(fields@),
            mv == fields_v(more@),
            add_fields(class@, f0, mv, i as nat) == Ok::<Seq<FieldV>, Seq<char>>(
                fields_v(out@),
            ),
        decreases more@.len() - i,
    {
        let ghost before = fields_v(out@);
        let f = &more[i];
        assert(mv[i as int] == f@);
        if find_field(&out, f.name.as_str()).is_some() {
            proof {
                lemma_fields_err(class@, f0, mv, (i + 1) as nat, mv.len());
            }
            return Err(
                cat5(
                    "Semantic Error: class '",
                    class,
                    "' inherits a field named '",
                    f.name.as_str(),
                    "' from more than one parent. Rename one of them.",
                ),
            );
        }
        let c = f.clone();
        out.push(c);
        assert(fields_v(out@) =~= before.push(f@));
        i += 1;
    }
    Ok(out)
}

fn add_own_fields(class: &str, fields: Vec<ClassField>, own: &Vec<ClassField>) -> (r: Result<
    Vec<ClassField>,
    String,
>)
    ensures
        own_fields(class@, fields_v(fields@), fields_v(own@), own@.len()) == (match r {
            Ok(v) => Ok::<Seq<FieldV>, Seq<char>>(fields_v(v@)),
            Err(e) => Err(e@),
        }),
{
    let ghost f0 = fields_v(fields@);
    let ghost mv = fields_v(own@);
    let mut out = fields;
    let mut i: usize = 0;
    while i < own.len()
        invariant
            i <= own@.len(),
            f0 == fields_v(fields@),
            mv == fields_v(own@),
            own_fields(class@, f0, mv, i as nat) == Ok::<Seq<FieldV>, Seq<char>>(
                fields_v(out@),
            ),
        decreases own@.len() - i,
    {
        let ghost before = fields_v(out@);
        let f = &own[i];
        assert(mv[i as int] == f@);
        if find_field(&out, f.name.as_str()).is_some() {
            proof {
                lemma_own_err(class@, f0, mv, (i + 1) as nat, mv.len());
            }
            return Err(
                cat5(
                    "Semantic Error: class '",
                    class,
                    "' re-declares inherited field '",
                    f.name.as_str(),
                    "'. Inherited fields already occupy their slots, rename this one.",
                ),
            );
        }
        let c = f.clone();
        out.push(c);
        assert(fields_v(out@) =~= before.push(f@));
        i += 1;
    }
    Ok(out)
}

fn inherit_methods(
    class: &str,
    own: &Vec<FnDecl>,
    p: &str,
    methods: Vec<FnDecl>,
    sources: NameMap<String>,
    more: &Vec<FnDecl>,
) -> (r: Result<(Vec<FnDecl>, NameMap<String>), String>)
    ensures
        add_methods(
            class@,
            methods_v(own@),
            p@,
            methods_v(methods@),
            text_map_v(sources@),
            methods_v(more@),
            more@.len(),
        ) == (match r {
            Ok(t) => Ok::<(Seq<FnV>, Map<Seq<char>, Seq<char>>), Seq<char>>(
                (methods_v(t.0@), text_map_v(t.1@)),
            ),
            Err(e) => Err(e@),
        }),
{
    let ghost m0 = methods_v(methods@);
    let ghost s0 = text_map_v(sources@);
    let ghost ov = methods_v(own@);
    let ghost mv = methods_v(more@);
    let mut out = methods;
    let mut src = sources;
    let mut i: usize = 0;
    while i < more.len()
        invariant
            i <= more@.len(),
            m0 == methods_v(methods@),
            s0 == text_map_v(sources@),
            ov == methods_v(own@),
            mv == methods_v(more@),
            add_methods(class@, ov, p@, m0, s0, mv, i as nat) == Ok::<
                (Seq<FnV>, Map<Seq<char>, Seq<char>>),
                Seq<char>,
            >((methods_v(out@), text_map_v(src@))),
        decreases more@.len() - i,
    {
        let ghost before = methods_v(out@);
        let ghost sb = src@;
        let m = &more[i];
        assert(mv[i as int] == m@);
        match src.get(m.name.as_str()) {
            Some(other) => {
                if find_method(own, m.name.as_str()).is_none() {
                    proof {
                        lemma_methods_err(class@, ov, p@, m0, s0, mv, (i + 1) as nat, mv.len());
                    }
                    let head = cat8(
                        "Semantic Error: class '",
                        class,
                        "' inherits method '",
                        m.name.as_str(),
                        "' from both '",
                        other.as_str(),
                        "' and '",
                        p,
                    );
                    return Err(
                        cat4(
                            head.as_str(),
                            "'. Declare it on '",
                            class,
                            "' to say which one it should be.",
                        ),
                    );
                }
            },
            None => {
                let c = m.clone();
                out.push(c);
                assert(methods_v(out@) =~= before.push(m@));
                let pn = String::from_str(p);
                src.insert(m.name.clone(), pn);
                assert(text_map_v(src@) =~= text_map_v(sb).insert(m.name@, p@));
            },
        }
        i += 1;
    }
    Ok((out, src))
}

fn overridden_names(methods: &Vec<FnDecl>, own: &Vec<FnDecl>) -> (r: Vec<String>)
    ensures
        texts(r@) == overridden(methods_v(methods@), methods_v(own@), own@.len()),
{
    let mut out: Vec<String> = Vec::new();
    let mut i: usize = 0;
    assert(texts(out@) =~= Seq::<Seq<char>>::empty());
    while i < own.len()
        invariant
            i <= own@.len(),
            texts(out@) == overridden(methods_v(methods@), methods_v(own@), i as nat),
        decreases own@.len() - i,
    {
        let m = &own[i];
        let ghost before = texts(out@);
        assert(methods_v(own@)[i as int] == m@);
        if find_method(methods, m.name.as_str()).is_some() {
            out.push(m.name.clone());
            assert(texts(out@) =~= before.push(m.name@));
        }
        i += 1;
    }
    out
}

fn kept_names(made: &Vec<String>, moved: &Vec<String>, own: &Vec<FnDecl>) -> (r: Vec<String>)
    ensures
        texts(r@) == kept_versions(texts(made@), texts(moved@), methods_v(own@), made@.len()),
{
    let mut out: Vec<String> = Vec::new();
    let mut i: usize = 0;
    assert(texts(out@) =~= Seq::<Seq<char>>::empty());
    while i < made.len()
        invariant
            i <= made@.len(),
            texts(out@) == kept_versions(
                texts(made@),
                texts(moved@),
                methods_v(own@),
                i as nat,
            ),
        decreases made@.len() - i,
    {
        let name = made[i].as_str();
        let ghost before = texts(out@);
        assert(texts(made@)[i as int] == name@);
        if find_method(own, name).is_none() {
            let next = next_name(name, moved);
            let ghost nv = next@;
            out.push(next);
            assert(texts(out@) =~= before.push(nv));
        }
        i += 1;
    }
    out
}

fn override_methods(methods: &Vec<FnDecl>, moved: &Vec<String>, own: &Vec<FnDecl>) -> (r: (
    Vec<FnDecl>,
    Vec<String>,
))
    ensures
        ({
            let (ms, supers) = own_methods(
                lift_methods(methods_v(methods@), texts(moved@)),
                methods_v(own@),
                own@.len(),
            );
            methods_v(r.0@) == ms + supers && texts(r.1@) == supers.map_values(|f: FnV| f.name)
        }),
{
    let ghost ov = methods_v(own@);
    let mut out = lifted_methods(methods, moved);
    let ghost m0 = methods_v(out@);
    let mut names: Vec<String> = Vec::new();
    assert(texts(names@) =~= Seq::<FnV>::empty().map_values(|f: FnV| f.name));
    let mut supers: Vec<FnDecl> = Vec::new();
    let mut i: usize = 0;
    assert(methods_v(supers@) =~= Seq::<FnV>::empty());
    while i < own.len()
        invariant
            i <= own@.len(),
            ov == methods_v(own@),
            own_methods(m0, ov, i as nat) == (methods_v(out@), methods_v(supers@)),
            texts(names@) == methods_v(supers@).map_values(|f: FnV| f.name),
        decreases own@.len() - i,
    {
        let m = &own[i];
        let ghost before = methods_v(out@);
        let ghost sb = methods_v(supers@);
        assert(ov[i as int] == m@);
        match find_method(&out, m.name.as_str()) {
            Some(k) => {
                let mut kept = out[k].clone();
                kept.name = super_name(m.name.as_str());
                let ghost kv = kept@;
                let ghost nb = texts(names@);
                names.push(super_name(m.name.as_str()));
                supers.push(kept);
                assert(methods_v(supers@) =~= sb.push(kv));
                assert(texts(names@) =~= nb.push(kv.name));
                assert(texts(names@) =~= sb.push(kv).map_values(|f: FnV| f.name));
                out.set(k, m.clone());
                assert(methods_v(out@) =~= before.update(k as int, m@));
                assert(before[k as int] == FnV { name: before[k as int].name, ..kv });
            },
            None => {
                out.push(m.clone());
                assert(methods_v(out@) =~= before.push(m@));
            },
        }
        i += 1;
    }
    let ghost a = methods_v(out@);
    let ghost b = methods_v(supers@);
    out.append(&mut supers);
    assert(methods_v(out@) =~= a + b);
    (out, names)
}

fn check_interfaces(class: &str, methods: &Vec<FnDecl>, required: &Vec<(String, FnDecl)>) -> (r: Result<
    (),
    String,
>)
    ensures
        res_unit_v(r) == meets_interfaces(
            class@,
            methods_v(methods@),
            required_v(required@),
            required@.len(),
        ),
{
    let ghost mv = methods_v(methods@);
    let ghost rv = required_v(required@);
    let mut i: usize = 0;
    while i < required.len()
        invariant
            i <= required@.len(),
            mv == methods_v(methods@),
            rv == required_v(required@),
            meets_interfaces(class@, mv, rv, i as nat) is Ok,
        decreases required@.len() - i,
    {
        let iface = required[i].0.as_str();
        let want = &required[i].1;
        assert(rv[i as int] == (iface@, want@));
        match find_method(methods, want.name.as_str()) {
            None => {
                proof {
                    lemma_interfaces_err(class@, mv, rv, (i + 1) as nat, rv.len());
                }
                return Err(
                    cat7(
                        "Semantic Error: class '",
                        class,
                        "' declares interface '",
                        iface,
                        "' but never defines '",
                        want.name.as_str(),
                        "'.",
                    ),
                );
            },
            Some(k) => {
                assert(mv[k as int] == methods@[k as int]@);
                let a = signature_key(&methods[k]);
                let b = signature_key(want);
                if !same(a.as_str(), b.as_str()) {
                    proof {
                        lemma_interfaces_err(class@, mv, rv, (i + 1) as nat, rv.len());
                    }
                    let head = cat7(
                        "Semantic Error: class '",
                        class,
                        "' defines '",
                        want.name.as_str(),
                        "' with a signature that doesn't match interface '",
                        iface,
                        "'.\n  interface: ",
                    );
                    return Err(
                        cat4(head.as_str(), b.as_str(), "\n  class:     ", a.as_str()),
                    );
                }
            },
        }
        i += 1;
    }
    Ok(())
}

fn clean_ancestors(class: &str, names: &Vec<String>) -> (r: Vec<String>)
    ensures
        texts(r@) == distinct_ancestors(class@, texts(names@), names@.len()),
{
    let mut out: Vec<String> = Vec::new();
    let mut i: usize = 0;
    assert(texts(out@) =~= Seq::<Seq<char>>::empty());
    while i < names.len()
        invariant
            i <= names@.len(),
            texts(out@) == distinct_ancestors(class@, texts(names@), i as nat),
        decreases names@.len() - i,
    {
        let ghost before = texts(out@);
        let n = names[i].as_str();
        if !same(n, class) && !has_text(&out, n) {
            out.push(names[i].clone());
            assert(texts(out@) =~= before.push(n@));
        }
        i += 1;
    }
    out
}

fn finish_class(class: &str, c: &ClassDecl, m: Merge) -> (r: Result<
    (ClassDecl, Vec<String>),
    String,
>)
    ensures
        flat_class(class@, c@, m@) == (match r {
            Ok(x) => Ok::<ClassV, Seq<char>>(x.0@),
            Err(e) => Err(e@),
        }),
        r matches Ok(x) ==> texts(x.1@) == flat_made(c@, m@),
{
    let ghost mv = m@;
    let Merge { fields, methods, made, sources: _, ancestors, required } = m;
    let fields = match add_own_fields(class, fields, &c.fields) {
        Ok(f) => f,
        Err(e) => {
            return Err(e);
        },
    };
    let names = overridden_names(&methods, &c.methods);
    let moved = moved_names(&names, &made);
    let mut versions = kept_names(&made, &moved, &c.methods);
    let (methods, mut replaced) = override_methods(&methods, &moved, &c.methods);
    match check_interfaces(class, &methods, &required) {
        Ok(_) => {},
        Err(e) => {
            return Err(e);
        },
    }
    let ghost kept = texts(versions@);
    let ghost added = texts(replaced@);
    versions.append(&mut replaced);
    assert(texts(versions@) =~= kept + added);
    let copy = c.clone();
    let parents = clean_ancestors(class, &ancestors);
    Ok((ClassDecl { fields, methods, parents, ..copy }, versions))
}

fn take_parent(
    class: &str,
    c: &ClassDecl,
    m: Merge,
    p: &str,
    parent: &ClassDecl,
    parent_made: Vec<String>,
) -> (r: Result<Merge, String>)
    ensures
        merge_parent(class@, c@, m@, p@, parent@, texts(parent_made@)) == (match r {
            Ok(x) => Ok::<MergeV, Seq<char>>(x@),
            Err(e) => Err(e@),
        }),
{
    if parent.generic_params.len() > 0 {
        return Err(
            cat5(
                "Semantic Error: class '",
                class,
                "' cannot inherit from generic class '",
                p,
                "', there is no syntax to supply its type arguments.",
            ),
        );
    }
    if parent.is_global {
        return Err(
            cat5(
                "Semantic Error: class '",
                class,
                "' cannot inherit from '",
                p,
                "', which is a contract. A contract is a storage singleton, not a base class.",
            ),
        );
    }
    let ghost mv = m@;
    let Merge { fields, methods, made, sources, ancestors, required } = m;
    let mut ancestors = ancestors;
    let mut more = clone_texts(&parent.parents);
    let ghost tail = texts(more@);
    ancestors.push(String::from_str(p));
    assert(texts(ancestors@) =~= mv.ancestors.push(p@));
    ancestors.append(&mut more);
    assert(texts(ancestors@) =~= mv.ancestors.push(p@) + tail);
    if parent.is_extern {
        let mut required = required;
        let ghost pv = methods_v(parent.methods@);
        let ghost av = asked(p@, pv);
        let mut i: usize = 0;
        assert(required_v(required@) =~= mv.required + av.take(0));
        while i < parent.methods.len()
            invariant
                i <= parent.methods@.len(),
                pv == methods_v(parent.methods@),
                av == asked(p@, pv),
                required_v(required@) == mv.required + av.take(i as int),
            decreases parent.methods@.len() - i,
        {
            let ghost before = required_v(required@);
            required.push((String::from_str(p), parent.methods[i].clone()));
            assert(av[i as int] == (p@, parent.methods@[i as int]@));
            assert(required_v(required@) =~= before.push(av[i as int]));
            assert(av.take(i as int).push(av[i as int]) =~= av.take(i + 1));
            assert(required_v(required@) =~= mv.required + av.take(i + 1));
            i += 1;
        }
        assert(av.take(parent.methods@.len() as int) =~= av);
        return Ok(Merge { fields, methods, made, sources, ancestors, required });
    }
    let fields = match inherit_fields(class, fields, &parent.fields) {
        Ok(f) => f,
        Err(e) => {
            return Err(e);
        },
    };
    match inherit_methods(class, &c.methods, p, methods, sources, &parent.methods) {
        Ok((methods, sources)) => {
            let mut made = made;
            let mut more = parent_made;
            let ghost mb = texts(more@);
            made.append(&mut more);
            assert(texts(made@) =~= mv.made + mb);
            Ok(Merge { fields, methods, made, sources, ancestors, required })
        },
        Err(e) => Err(e),
    }
}

fn stack_with(stack: &Vec<String>, name: &str) -> (r: Vec<String>)
    ensures
        texts(r@) == texts(stack@).push(name@),
{
    let mut out = clone_texts(stack);
    let ghost before = texts(out@);
    out.push(String::from_str(name));
    assert(texts(out@) =~= before.push(name@));
    out
}

/// Lists of names, by the name they stand under.
pub open spec fn lists_v(m: Map<Seq<char>, Vec<String>>) -> Map<Seq<char>, Seq<Seq<char>>> {
    Map::new(|k: Seq<char>| m.contains_key(k), |k: Seq<char>| texts(m[k]@))
}

/// The rest of a world, beside its classes.
pub open spec fn same_but_classes(a: WorldV, b: WorldV) -> bool {
    a == (WorldV { classes: a.classes, ..b })
}

impl TypeChecker {
    pub open spec fn flat(&self, done: NameSet, made: NameMap<Vec<String>>) -> FlatV {
        FlatV { cs: self.world().classes, done: done@, made: lists_v(made@) }
    }

    /// Rewrites a class, after its parents.
    fn flatten_class(
        &mut self,
        done: &mut NameSet,
        made: &mut NameMap<Vec<String>>,
        name: &str,
        stack: &Vec<String>,
        d: u128,
    ) -> (r: Result<(), String>)
        ensures
            flatten_spec(old(self).flat(*old(done), *old(made)), name@, texts(stack@), d as nat) == (
                final(self).flat(*final(done), *final(made)),
                res_unit_v(r),
            ),
            same_but_classes(final(self).world(), old(self).world()),
            final(self).chk() == old(self).chk(),
            final(self).current_return_type == old(self).current_return_type,
        decreases d, 0nat,
    {
        if done.contains(name) {
            return Ok(());
        }
        let inner = stack_with(stack, name);
        if has_text(stack, name) || d == 0 {
            return Err(
                cat3(
                    "Semantic Error: inheritance cycle: ",
                    join(&inner, " -> ").as_str(),
                    ". A class cannot be its own ancestor.",
                ),
            );
        }
        let class = match self.loaded_classes.get(name) {
            Some(c) => c.clone(),
            None => {
                return Ok(());
            },
        };
        assert(self.world().classes[name@] == class@);
        if class.parents.len() == 0 {
            done.insert(String::from_str(name));
            return Ok(());
        }
        let merged = match self.merge_parents(done, made, name, &class, &inner, d - 1) {
            Ok(m) => m,
            Err(e) => {
                return Err(e);
            },
        };
        match finish_class(name, &class, merged) {
            Ok((flat, versions)) => {
                let ghost before = self.loaded_classes@;
                let ghost fv = flat@;
                self.loaded_classes.insert(String::from_str(name), flat);
                assert(classes_v(self.loaded_classes@) =~= classes_v(before).insert(name@, fv));
                done.insert(String::from_str(name));
                let ghost held = made@;
                let ghost vv = texts(versions@);
                made.insert(String::from_str(name), versions);
                assert(lists_v(made@) =~= lists_v(held).insert(name@, vv));
                Ok(())
            },
            Err(e) => Err(e),
        }
    }

    fn merge_parents(
        &mut self,
        done: &mut NameSet,
        made: &mut NameMap<Vec<String>>,
        name: &str,
        class: &ClassDecl,
        stack: &Vec<String>,
        d: u128,
    ) -> (r: Result<Merge, String>)
        ensures
            merge_spec(
                old(self).flat(*old(done), *old(made)),
                name@,
                class@,
                texts(stack@),
                class@.parents.len(),
                d as nat,
            ) == (
                final(self).flat(*final(done), *final(made)),
                (match r {
                    Ok(x) => Ok::<MergeV, Seq<char>>(x@),
                    Err(e) => Err(e@),
                }),
            ),
            same_but_classes(final(self).world(), old(self).world()),
            final(self).chk() == old(self).chk(),
            final(self).current_return_type == old(self).current_return_type,
        decreases d, 1nat,
    {
        let ghost f0 = self.flat(*done, *made);
        let ghost sv = texts(stack@);
        let ghost cv = class@;
        let mut m = Merge::new();
        let mut i: usize = 0;
        while i < class.parents.len()
            invariant
                i <= class.parents@.len(),
                f0 == old(self).flat(*old(done), *old(made)),
                sv == texts(stack@),
                cv == class@,
                merge_spec(f0, name@, cv, sv, i as nat, d as nat) == (
                    self.flat(*done, *made),
                    Ok::<MergeV, Seq<char>>(m@),
                ),
                same_but_classes(self.world(), old(self).world()),
                self.chk() == old(self).chk(),
                self.current_return_type == old(self).current_return_type,
            decreases class.parents@.len() - i,
        {
            let p = class.parents[i].as_str();
            assert(cv.parents[i as int] == p@);
            if !self.loaded_classes.has(p) {
                proof {
                    lemma_merge_err(f0, name@, cv, sv, (i + 1) as nat, cv.parents.len(), d as nat);
                }
                return Err(
                    cat5(
                        "Semantic Error: class '",
                        name,
                        "' inherits from '",
                        p,
                        "', which is not a known class.",
                    ),
                );
            }
            match self.flatten_class(done, made, p, stack, d) {
                Ok(_) => {},
                Err(e) => {
                    proof {
                        lemma_merge_err(
                            f0,
                            name@,
                            cv,
                            sv,
                            (i + 1) as nat,
                            cv.parents.len(),
                            d as nat,
                        );
                    }
                    return Err(e);
                },
            }
            proof {
                lemma_flatten_keeps(merge_spec(f0, name@, cv, sv, i as nat, d as nat).0, p@, sv, d as nat);
            }
            let parent = match self.loaded_classes.get(p) {
                Some(c) => c,
                None => {
                    assert(false);
                    return Ok(m);
                },
            };
            assert(self.world().classes[p@] == parent@);
            let parent_made = match made.get(p) {
                Some(v) => clone_texts(v),
                None => Vec::new(),
            };
            assert(texts(parent_made@) =~= made_of(self.flat(*done, *made), p@));
            match take_parent(name, class, m, p, parent, parent_made) {
                Ok(next) => {
                    m = next;
                },
                Err(e) => {
                    proof {
                        lemma_merge_err(
                            f0,
                            name@,
                            cv,
                            sv,
                            (i + 1) as nat,
                            cv.parents.len(),
                            d as nat,
                        );
                    }
                    return Err(e);
                },
            }
            i += 1;
        }
        Ok(m)
    }

    /// Rewrites every class.
    pub(crate) fn flatten_inheritance(&mut self) -> (r: Vec<String>)
        ensures
            flatten_world(old(self).world()) == (final(self).world(), texts(r@)),
            final(self).chk() == old(self).chk(),
            final(self).current_return_type == old(self).current_return_type,
    {
        let ghost w0 = self.world();
        let ghost order = w0.class_order;
        let d: u128 = class_count(self) as u128 + 1;
        let names = clone_texts(&self.class_order);
        let stack: Vec<String> = Vec::new();
        assert(texts(stack@) =~= Seq::<Seq<char>>::empty());
        let mut done = NameSet::new();
        let mut made: NameMap<Vec<String>> = NameMap::new();
        assert(lists_v(made@) =~= Map::empty());
        let mut errors: Vec<String> = Vec::new();
        assert(texts(errors@) =~= Seq::<Seq<char>>::empty());
        let ghost f0 = self.flat(done, made);
        let mut i: usize = 0;
        while i < names.len()
            invariant
                i <= names@.len(),
                order == texts(names@),
                texts(stack@) == Seq::<Seq<char>>::empty(),
                d as nat == flatten_depth(w0),
                w0 == old(self).world(),
                f0 == (FlatV { cs: w0.classes, done: Set::empty(), made: Map::empty() }),
                flatten_all(f0, order, i as nat, d as nat) == (self.flat(done, made), texts(errors@)),
                same_but_classes(self.world(), w0),
                self.chk() == old(self).chk(),
                self.current_return_type == old(self).current_return_type,
            decreases names@.len() - i,
        {
            let ghost before = texts(errors@);
            match self.flatten_class(&mut done, &mut made, names[i].as_str(), &stack, d) {
                Ok(_) => {},
                Err(e) => {
                    let ghost ev = e@;
                    errors.push(e);
                    assert(texts(errors@) =~= before.push(ev));
                },
            }
            i += 1;
        }
        errors
    }
}

/// Rewriting a class takes no class away.
proof fn lemma_flatten_keeps(f: FlatV, name: Seq<char>, stack: Seq<Seq<char>>, d: nat)
    ensures
        flatten_spec(f, name, stack, d).0.cs.dom() =~= f.cs.dom(),
    decreases d, 0nat,
{
    if f.done.contains(name) || stack.contains(name) || d == 0 || !f.cs.contains_key(name) {
    } else if f.cs[name].parents.len() > 0 {
        let c = f.cs[name];
        lemma_merge_keeps(f, name, c, stack.push(name), c.parents.len(), (d - 1) as nat);
    }
}

proof fn lemma_merge_keeps(
    f: FlatV,
    name: Seq<char>,
    c: ClassV,
    stack: Seq<Seq<char>>,
    n: nat,
    d: nat,
)
    ensures
        merge_spec(f, name, c, stack, n, d).0.cs.dom() =~= f.cs.dom(),
    decreases d, n,
{
    if n == 0 || n > c.parents.len() {
    } else {
        lemma_merge_keeps(f, name, c, stack, (n - 1) as nat, d);
        let (f1, r) = merge_spec(f, name, c, stack, (n - 1) as nat, d);
        if r is Ok && f1.cs.contains_key(c.parents[n - 1]) {
            lemma_flatten_keeps(f1, c.parents[n - 1], stack, d);
        }
    }
}

pub(crate) proof fn lemma_own_fields_after(class: Seq<char>, fields: Seq<FieldV>, own: Seq<FieldV>, n: nat)
    requires
        n <= own.len(),
        own_fields(class, fields, own, n) is Ok,
    ensures
        own_fields(class, fields, own, n)->Ok_0 == fields + own.take(n as int),
    decreases n,
{
    if n == 0 {
        assert(fields + own.take(0) =~= fields);
    } else {
        lemma_own_fields_after(class, fields, own, (n - 1) as nat);
        assert(own.take(n as int) =~= own.take(n - 1).push(own[n - 1]));
        assert((fields + own.take(n - 1)).push(own[n - 1]) =~= fields + own.take(n as int));
    }
}

/// The fields that a class inherits come first, and its own follow them in their
/// order: a field that a class adds moves no inherited one.
pub proof fn law_inherited_fields_come_first(class: Seq<char>, c: ClassV, m: MergeV)
    requires
        flat_class(class, c, m) is Ok,
    ensures
        flat_class(class, c, m)->Ok_0.fields == m.fields + c.fields,
{
    lemma_own_fields_after(class, m.fields, c.fields, c.fields.len());
    assert(c.fields.take(c.fields.len() as int) =~= c.fields);
}

pub(crate) proof fn lemma_added_fields(class: Seq<char>, fields: Seq<FieldV>, more: Seq<FieldV>, n: nat)
    requires
        n <= more.len(),
        add_fields(class, fields, more, n) is Ok,
    ensures
        add_fields(class, fields, more, n)->Ok_0 == fields + more.take(n as int),
    decreases n,
{
    if n == 0 {
        assert(fields + more.take(0) =~= fields);
    } else {
        lemma_added_fields(class, fields, more, (n - 1) as nat);
        assert(more.take(n as int) =~= more.take(n - 1).push(more[n - 1]));
        assert((fields + more.take(n - 1)).push(more[n - 1]) =~= fields + more.take(n as int));
    }
}

/// A parent adds its fields, as they stand, behind those of the parents before it.
pub proof fn law_parents_keep_their_order(
    class: Seq<char>,
    c: ClassV,
    m: MergeV,
    p: Seq<char>,
    parent: ClassV,
    made: Seq<Seq<char>>,
)
    requires
        merge_parent(class, c, m, p, parent, made) is Ok,
    ensures
        merge_parent(class, c, m, p, parent, made)->Ok_0.fields == (if parent.is_extern {
            m.fields
        } else {
            m.fields + parent.fields
        }),
{
    if !parent.is_extern {
        lemma_added_fields(class, m.fields, parent.fields, parent.fields.len());
        assert(parent.fields.take(parent.fields.len() as int) =~= parent.fields);
    }
}

pub(crate) proof fn lemma_method_found(s: Seq<FnV>, name: Seq<char>, i: int)
    requires
        0 <= i,
    ensures
        match method_index(s, name, i) {
            Some(k) => i <= k < s.len() && s[k].name == name,
            None => forall|k: int| i <= k < s.len() ==> (#[trigger] s[k]).name != name,
        },
    decreases s.len() - i,
{
    if i < s.len() && s[i].name != name {
        lemma_method_found(s, name, i + 1);
    }
}

proof fn lemma_own_methods_stand(methods: Seq<FnV>, own: Seq<FnV>, n: nat, k: int)
    requires
        n <= own.len(),
        0 <= k < n,
        forall|i: int, j: int|
            0 <= i < own.len() && 0 <= j < own.len() && i != j ==> (#[trigger] own[i]).name != (
            #[trigger] own[j]).name,
    ensures
        own_methods(methods, own, n).0.contains(own[k]),
    decreases n,
{
    let (ms, supers) = own_methods(methods, own, (n - 1) as nat);
    let m = own[n - 1];
    lemma_method_found(ms, m.name, 0);
    let out = own_methods(methods, own, n).0;
    if k == n - 1 {
        match method_index(ms, m.name, 0) {
            Some(i) => {
                assert(out[i] == m);
            },
            None => {
                assert(out[ms.len() as int] == m);
            },
        }
    } else {
        lemma_own_methods_stand(methods, own, (n - 1) as nat, k);
        let j = choose|j: int| 0 <= j < ms.len() && ms[j] == own[k];
        assert(ms[j].name != m.name);
        assert(out[j] == own[k]);
    }
}

/// A method that a class declares overrides the inherited one.
pub proof fn law_own_methods_win(class: Seq<char>, c: ClassV, m: MergeV, k: int)
    requires
        flat_class(class, c, m) is Ok,
        0 <= k < c.methods.len(),
        forall|i: int, j: int|
            0 <= i < c.methods.len() && 0 <= j < c.methods.len() && i != j ==> (
            #[trigger] c.methods[i]).name != (#[trigger] c.methods[j]).name,
    ensures
        flat_class(class, c, m)->Ok_0.methods.contains(c.methods[k]),
{
    let inherited = under(m, c.methods);
    lemma_own_methods_stand(inherited, c.methods, c.methods.len(), k);
    let (ms, supers) = own_methods(inherited, c.methods, c.methods.len());
    let j = choose|j: int| 0 <= j < ms.len() && ms[j] == c.methods[k];
    assert((ms + supers)[j] == c.methods[k]);
}

/// Whether a class itself declares a method of that name.
pub open spec fn declares_method(own: Seq<FnV>, name: Seq<char>, n: nat) -> bool {
    exists|k: int| 0 <= k < n && k < own.len() && (#[trigger] own[k]).name == name
}

pub(crate) proof fn lemma_index_of(s: Seq<FnV>, name: Seq<char>, i: int, j: int)
    requires
        0 <= i <= j < s.len(),
        s[j].name == name,
        forall|x: int| i <= x < j ==> (#[trigger] s[x]).name != name,
    ensures
        method_index(s, name, i) == Some(j),
    decreases j - i,
{
    if i < j {
        lemma_index_of(s, name, i + 1, j);
    }
}

proof fn lemma_versions_stand(methods: Seq<FnV>, own: Seq<FnV>, n: nat, j: int)
    requires
        n <= own.len(),
        0 <= j < methods.len(),
        forall|x: int, y: int|
            0 <= x < methods.len() && 0 <= y < methods.len() && x != y ==> (
            #[trigger] methods[x]).name != (#[trigger] methods[y]).name,
        forall|x: int, y: int|
            0 <= x < own.len() && 0 <= y < own.len() && x != y ==> (#[trigger] own[x]).name != (
            #[trigger] own[y]).name,
    ensures
        ({
            let (ms, supers) = own_methods(methods, own, n);
            &&& ms.len() >= methods.len()
            &&& forall|x: int| 0 <= x < methods.len() ==> (#[trigger] ms[x]).name == methods[x].name
            &&& if declares_method(own, methods[j].name, n) {
                supers.contains(FnV { name: "super_"@ + methods[j].name, ..methods[j] })
            } else {
                ms[j] == methods[j]
            }
        }),
    decreases n,
{
    if n > 0 {
        let p = (n - 1) as nat;
        lemma_versions_stand(methods, own, p, j);
        let (ms, supers) = own_methods(methods, own, p);
        let (ms2, supers2) = own_methods(methods, own, n);
        let m = own[n - 1];
        let name = methods[j].name;
        let kept = FnV { name: "super_"@ + name, ..methods[j] };
        lemma_method_found(ms, m.name, 0);
        assert(declares_method(own, name, p) ==> declares_method(own, name, n));
        if m.name == name {
            assert(own[n - 1].name == name);
            assert(!declares_method(own, name, p)) by {
                if declares_method(own, name, p) {
                    let k = choose|k: int|
                        0 <= k < p && k < own.len() && (#[trigger] own[k]).name == name;
                    assert(own[k].name != own[n - 1].name);
                }
            }
            assert forall|x: int| 0 <= x < j implies (#[trigger] ms[x]).name != name by {
                assert(methods[x].name != methods[j].name);
            }
            assert(ms[j].name == name);
            lemma_index_of(ms, name, 0, j);
            assert(supers2[supers.len() as int] == kept);
        } else {
            assert(declares_method(own, name, n) ==> declares_method(own, name, p)) by {
                if declares_method(own, name, n) {
                    let k = choose|k: int|
                        0 <= k < n && k < own.len() && (#[trigger] own[k]).name == name;
                    assert(k < p && own[k].name == name);
                }
            }
            if declares_method(own, name, p) {
                let x = choose|x: int| 0 <= x < supers.len() && supers[x] == kept;
                assert(supers2[x] == kept);
            } else {
                assert(ms[j].name == name);
                assert(ms2[j] == methods[j]);
            }
        }
    }
}

/// Every inherited method stays in reach: as it is where the class does not declare one of
/// its name, else as the version before, which `super` calls.
pub proof fn law_versions_are_kept(class: Seq<char>, c: ClassV, m: MergeV, j: int)
    requires
        flat_class(class, c, m) is Ok,
        0 <= j < m.methods.len(),
        forall|x: int, y: int|
            0 <= x < m.methods.len() && 0 <= y < m.methods.len() && x != y ==> (
            #[trigger] under(m, c.methods)[x]).name != (#[trigger] under(m, c.methods)[y]).name,
        forall|x: int, y: int|
            0 <= x < c.methods.len() && 0 <= y < c.methods.len() && x != y ==> (
            #[trigger] c.methods[x]).name != (#[trigger] c.methods[y]).name,
    ensures
        ({
            let f = under(m, c.methods)[j];
            flat_class(class, c, m)->Ok_0.methods.contains(
                if declares_method(c.methods, f.name, c.methods.len()) {
                    FnV { name: "super_"@ + f.name, ..f }
                } else {
                    f
                },
            )
        }),
{
    let inherited = under(m, c.methods);
    lemma_versions_stand(inherited, c.methods, c.methods.len(), j);
    let (ms, supers) = own_methods(inherited, c.methods, c.methods.len());
    let all = ms + supers;
    let f = inherited[j];
    if declares_method(c.methods, f.name, c.methods.len()) {
        let kept = FnV { name: "super_"@ + f.name, ..f };
        let x = choose|x: int| 0 <= x < supers.len() && supers[x] == kept;
        assert(all[ms.len() + x] == kept);
    } else {
        assert(all[j] == f);
    }
}

/// Whether a stack holds classes of the program, each once.
pub open spec fn open_classes(f: FlatV, stack: Seq<Seq<char>>) -> bool {
    stack.no_duplicates() && forall|i: int|
        0 <= i < stack.len() ==> f.cs.contains_key(#[trigger] stack[i])
}

proof fn lemma_open_classes(f: FlatV, stack: Seq<Seq<char>>)
    requires
        f.cs.dom().finite(),
        open_classes(f, stack),
    ensures
        stack.len() <= f.cs.dom().len(),
{
    stack.unique_seq_to_set();
    assert(stack.to_set().subset_of(f.cs.dom())) by {
        assert forall|k: Seq<char>| #[trigger] stack.to_set().contains(k) implies f.cs.dom().contains(
            k,
        ) by {
            let i = choose|i: int| 0 <= i < stack.len() && stack[i] == k;
            assert(f.cs.contains_key(stack[i]));
        }
    }
    vstd::set_lib::lemma_len_subset(stack.to_set(), f.cs.dom());
}

/// The bound on how deep classes inherit is never what ends the rewriting of one: with
/// one more level allowed the result is the same. So a class is refused only for what is
/// wrong with it, or because it is its own ancestor.
pub proof fn law_inheritance_is_deep_enough(
    f: FlatV,
    name: Seq<char>,
    stack: Seq<Seq<char>>,
    d: nat,
)
    requires
        f.cs.dom().finite(),
        open_classes(f, stack),
        d + stack.len() >= f.cs.dom().len() + 1,
    ensures
        flatten_spec(f, name, stack, d) == flatten_spec(f, name, stack, d + 1),
    decreases d, 0nat,
{
    lemma_open_classes(f, stack);
    if f.done.contains(name) || stack.contains(name) || !f.cs.contains_key(name) {
    } else if f.cs[name].parents.len() > 0 {
        let c = f.cs[name];
        let inner = stack.push(name);
        assert(open_classes(f, inner)) by {
            assert forall|i: int| 0 <= i < inner.len() implies f.cs.contains_key(
                #[trigger] inner[i],
            ) by {
                if i < stack.len() {
                    assert(inner[i] == stack[i]);
                }
            }
            assert forall|i: int, j: int|
                0 <= i < inner.len() && 0 <= j < inner.len() && i != j implies inner[i]
                != inner[j] by {
                if i < stack.len() && j < stack.len() {
                    assert(stack[i] != stack[j]);
                } else if i < stack.len() {
                    assert(stack.contains(stack[i]));
                } else if j < stack.len() {
                    assert(stack.contains(stack[j]));
                }
            }
        }
        lemma_merge_deep_enough(f, name, c, inner, c.parents.len(), (d - 1) as nat);
    }
}

proof fn lemma_merge_deep_enough(
    f: FlatV,
    name: Seq<char>,
    c: ClassV,
    stack: Seq<Seq<char>>,
    n: nat,
    d: nat,
)
    requires
        f.cs.dom().finite(),
        open_classes(f, stack),
        d + stack.len() >= f.cs.dom().len() + 1,
    ensures
        merge_spec(f, name, c, stack, n, d) == merge_spec(f, name, c, stack, n, d + 1),
    decreases d, n,
{
    if n == 0 || n > c.parents.len() {
    } else {
        lemma_merge_deep_enough(f, name, c, stack, (n - 1) as nat, d);
        lemma_merge_keeps(f, name, c, stack, (n - 1) as nat, d);
        let (f1, r) = merge_spec(f, name, c, stack, (n - 1) as nat, d);
        if r is Ok && f1.cs.contains_key(c.parents[n - 1]) {
            assert(open_classes(f1, stack)) by {
                assert forall|i: int| 0 <= i < stack.len() implies f1.cs.contains_key(
                    #[trigger] stack[i],
                ) by {
                    assert(f.cs.dom().contains(stack[i]));
                }
            }
            law_inheritance_is_deep_enough(f1, c.parents[n - 1], stack, d);
        }
    }
}

} // verus!
