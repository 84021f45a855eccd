//! Generic classes: which concrete types the program gives them, and their
//! methods with those types filled in.
use crate::ast::{
    arms_v, body_v, decls_v, fields_v, generics_v, methods_v, params_v, same_type, types_v, ArmV,
    ClassDecl, ClassV, DeclV, Declaration, FieldV, FnDecl, FnV, GenericParam, GenericV, MatchArm,
    ParamV, Parameter, Program, Spanned, SpannedV, Statement, StmtV, Type, TypeV,
};
use crate::names::NameMap;
use crate::semantic::{type_map_v, TypeChecker, WorldV};
use vstd::prelude::*;

verus! {

broadcast use crate::ast::group_views;

/// A type with the names of type parameters replaced.
pub open spec fn subst_spec(m: Map<Seq<char>, TypeV>, t: TypeV) -> TypeV
    decreases t, 0nat,
{
    match t {
        TypeV::Primitive(n) => if m.contains_key(n) {
            m[n]
        } else {
            t
        },
        TypeV::Array(i) => TypeV::Array(Box::new(subst_spec(m, *i))),
        TypeV::FixedArray(i, n) => TypeV::FixedArray(Box::new(subst_spec(m, *i)), n),
        TypeV::Generic { name, args } => TypeV::Generic {
            name,
            args: subst_all(m, args, args.len()),
        },
    }
}

pub open spec fn subst_all(m: Map<Seq<char>, TypeV>, args: Seq<TypeV>, n: nat) -> Seq<TypeV>
    decreases args, n,
{
    if n == 0 || n > args.len() {
        Seq::empty()
    } else {
        subst_all(m, args, (n - 1) as nat).push(subst_spec(m, args[n - 1]))
    }
}

pub open spec fn subst_param(m: Map<Seq<char>, TypeV>, p: ParamV) -> ParamV {
    ParamV { type_def: subst_spec(m, p.type_def), ..p }
}

/// A method with the type parameters of its class replaced in its signature; its
/// body stays as it is.
pub open spec fn subst_method(m: Map<Seq<char>, TypeV>, f: FnV) -> FnV {
    FnV {
        parameters: f.parameters.map_values(|p: ParamV| subst_param(m, p)),
        return_type: (match f.return_type {
            Some(t) => Some(subst_spec(m, t)),
            None => None,
        }),
        ..f
    }
}

pub fn substitute_type(t: &Type, subst: &NameMap<Type>) -> (r: Type)
    ensures
        r@ == subst_spec(type_map_v(subst@), t@),
    decreases t, 1nat,
{
    match t {
        Type::Primitive(n) => match subst.get(n.as_str()) {
            Some(s) => s.clone(),
            None => t.clone(),
        },
        Type::Array(i) => Type::Array(Box::new(substitute_type(i, subst))),
        Type::FixedArray(i, n) => Type::FixedArray(Box::new(substitute_type(i, subst)), *n),
        Type::Generic { name, args } => Type::Generic {
            name: name.clone(),
            args: substitute_types(args, subst),
        },
    }
}

fn substitute_types(args: &Vec<Type>, subst: &NameMap<Type>) -> (r: Vec<Type>)
    ensures
        types_v(r@) == subst_all(type_map_v(subst@), types_v(args@), args@.len()),
    decreases args, 0nat,
{
    let ghost m = type_map_v(subst@);
    let mut out: Vec<Type> = Vec::new();
    let mut i: usize = 0;
    assert(types_v(out@) =~= subst_all(m, types_v(args@), 0));
    while i < args.len()
        invariant
            i <= args@.len(),
            m == type_map_v(subst@),
            types_v(out@) == subst_all(m, types_v(args@), i as nat),
        decreases args@.len() - i,
    {
        let ghost before = types_v(out@);
        let x: &Type = &args[i];
        assert(decreases_to!(*args => *x));
        let c = substitute_type(x, subst);
        let ghost cv = c@;
        out.push(c);
        assert(types_v(out@) =~= before.push(cv));
        i += 1;
    }
    out
}

pub fn substitute_method(f: &FnDecl, subst: &NameMap<Type>) -> (r: FnDecl)
    ensures
        r@ == subst_method(type_map_v(subst@), f@),
{
    let ghost m = type_map_v(subst@);
    let mut params: Vec<Parameter> = Vec::new();
    let mut i: usize = 0;
    while i < f.parameters.len()
        invariant
            i <= f.parameters@.len(),
            m == type_map_v(subst@),
            params@.len() == i,
            forall|k: int|
                0 <= k < i ==> (#[trigger] params@[k])@ == subst_param(m, f.parameters@[k]@),
        decreases f.parameters@.len() - i,
    {
        let p = &f.parameters[i];
        params.push(
            Parameter {
                is_mut: p.is_mut,
                type_def: substitute_type(&p.type_def, subst),
                name: p.name.clone(),
            },
        );
        i += 1;
    }
    let return_type = match &f.return_type {
        Some(t) => Some(substitute_type(t, subst)),
        None => None,
    };
    let copy = f.clone();
    let r = FnDecl { parameters: params, return_type, ..copy };
    assert(r@.parameters =~= subst_method(m, f@).parameters);
    r
}

/// The type parameters of a class, bound to the first `n` arguments.
pub open spec fn bind_args(gps: Seq<GenericV>, args: Seq<TypeV>, n: nat) -> Map<Seq<char>, TypeV>
    decreases n,
{
    if n == 0 || n > gps.len() {
        Map::empty()
    } else {
        let m = bind_args(gps, args, (n - 1) as nat);
        if n <= args.len() {
            m.insert(gps[n - 1].name, args[n - 1])
        } else {
            m
        }
    }
}

/// The methods of a class with its type parameters replaced by `args`.
pub open spec fn specialized_spec(c: ClassV, args: Seq<TypeV>) -> Seq<FnV> {
    let m = bind_args(c.generic_params, args, c.generic_params.len());
    c.methods.map_values(|f: FnV| subst_method(m, f))
}

pub(crate) fn bound_args(gps: &Vec<GenericParam>, args: &Vec<Type>) -> (r: NameMap<Type>)
    ensures
        type_map_v(r@) == bind_args(generics_v(gps@), types_v(args@), gps@.len()),
{
    let ghost gv = generics_v(gps@);
    let ghost av = types_v(args@);
    let mut subst: NameMap<Type> = NameMap::new();
    let mut i: usize = 0;
    assert(type_map_v(subst@) =~= bind_args(gv, av, 0));
    while i < gps.len()
        invariant
            i <= gps@.len(),
            gv == generics_v(gps@),
            av == types_v(args@),
            type_map_v(subst@) == bind_args(gv, av, i as nat),
        decreases gps@.len() - i,
    {
        let ghost before = subst@;
        if i < args.len() {
            let t = args[i].clone();
            let ghost tv = t@;
            subst.insert(gps[i].name.clone(), t);
            assert(type_map_v(subst@) =~= type_map_v(before).insert(gv[i as int].name, tv));
        }
        i += 1;
    }
    subst
}

pub(crate) fn specialized(c: &ClassDecl, args: &Vec<Type>) -> (r: Vec<FnDecl>)
    ensures
        methods_v(r@) == specialized_spec(c@, types_v(args@)),
{
    let ghost av = types_v(args@);
    let subst = bound_args(&c.generic_params, args);
    let ghost m = type_map_v(subst@);
    let mut out: Vec<FnDecl> = Vec::new();
    let mut k: usize = 0;
    while k < c.methods.len()
        invariant
            k <= c.methods@.len(),
            m == type_map_v(subst@),
            out@.len() == k,
            forall|j: int| 0 <= j < k ==> (#[trigger] out@[j])@ == subst_method(m, c.methods@[j]@),
        decreases c.methods@.len() - k,
    {
        let f = substitute_method(&c.methods[k], &subst);
        out.push(f);
        k += 1;
    }
    assert(methods_v(out@) =~= specialized_spec(c@, av));
    out
}

/// The generic types found so far, with those inside `t`; each stands once.
pub open spec fn note_spec(found: Seq<TypeV>, t: TypeV) -> Seq<TypeV>
    decreases t, 0nat,
{
    match t {
        TypeV::Generic { name, args } => note_all(
            if found.contains(t) {
                found
            } else {
                found.push(t)
            },
            args,
            args.len(),
        ),
        TypeV::Array(i) => note_spec(found, *i),
        TypeV::FixedArray(i, _) => note_spec(found, *i),
        TypeV::Primitive(_) => found,
    }
}

pub open spec fn note_all(found: Seq<TypeV>, args: Seq<TypeV>, n: nat) -> Seq<TypeV>
    decreases args, n,
{
    if n == 0 || n > args.len() {
        found
    } else {
        note_spec(note_all(found, args, (n - 1) as nat), args[n - 1])
    }
}

fn has_type(v: &Vec<Type>, t: &Type) -> (r: bool)
    ensures
        r == types_v(v@).contains(t@),
{
    let mut i: usize = 0;
    while i < v.len()
        invariant
            i <= v@.len(),
            forall|k: int| 0 <= k < i ==> (#[trigger] v@[k])@ != t@,
        decreases v@.len() - i,
    {
        if same_type(&v[i], t) {
            assert(types_v(v@)[i as int] == t@);
            return true;
        }
        i += 1;
    }
    assert forall|k: int| 0 <= k < types_v(v@).len() implies types_v(v@)[k] != t@ by {
        assert(v@[k]@ != t@);
    }
    false
}

fn note_generic(found: &mut Vec<Type>, t: &Type)
    ensures
        types_v(final(found)@) == note_spec(types_v(old(found)@), t@),
    decreases t, 1nat,
{
    match t {
        Type::Generic { name, args } => {
            let ghost before = types_v(found@);
            if !has_type(found, t) {
                found.push(t.clone());
                assert(types_v(found@) =~= before.push(t@));
            }
            note_generics(found, args);
        },
        Type::Array(i) => note_generic(found, i),
        Type::FixedArray(i, _) => note_generic(found, i),
        Type::Primitive(_) => {},
    }
}

fn note_generics(found: &mut Vec<Type>, args: &Vec<Type>)
    ensures
        types_v(final(found)@) == note_all(types_v(old(found)@), types_v(args@), args@.len()),
    decreases args, 0nat,
{
    let ghost f0 = types_v(found@);
    let mut i: usize = 0;
    while i < args.len()
        invariant
            i <= args@.len(),
            types_v(found@) == note_all(f0, types_v(args@), i as nat),
        decreases args@.len() - i,
    {
        let x: &Type = &args[i];
        assert(decreases_to!(*args => *x));
        assert(types_v(args@)[i as int] == x@);
        note_generic(found, x);
        i += 1;
    }
}

/// The generic types found so far, with those of the locals that a statement
/// declares, at any depth.
pub open spec fn scan_stmt(found: Seq<TypeV>, s: StmtV) -> Seq<TypeV>
    decreases s, 0nat,
{
    match s {
        StmtV::VarDecl { type_def, .. } => note_spec(found, type_def),
        StmtV::IfElse { condition: _, if_body, else_body } => {
            let found = scan_body(found, if_body, if_body.len());
            match else_body {
                Some(b) => scan_body(found, b, b.len()),
                None => found,
            }
        },
        StmtV::WhileLoop { condition: _, body } => scan_body(found, body, body.len()),
        StmtV::ForLoop { iterator: _, iterable: _, body } => scan_body(found, body, body.len()),
        StmtV::Match { expr: _, arms } => scan_arms(found, arms, arms.len()),
        StmtV::TryCatch { try_body, catch_body } => scan_body(
            scan_body(found, try_body, try_body.len()),
            catch_body,
            catch_body.len(),
        ),
        StmtV::ScopedTryCall { catch_body, .. } => scan_body(found, catch_body, catch_body.len()),
        _ => found,
    }
}

pub open spec fn scan_body(found: Seq<TypeV>, body: Seq<SpannedV>, n: nat) -> Seq<TypeV>
    decreases body, n,
{
    if n == 0 || n > body.len() {
        found
    } else {
        scan_stmt(scan_body(found, body, (n - 1) as nat), body[n - 1].node)
    }
}

pub open spec fn scan_arms(found: Seq<TypeV>, arms: Seq<ArmV>, n: nat) -> Seq<TypeV>
    decreases arms, n,
{
    if n == 0 || n > arms.len() {
        found
    } else {
        scan_body(
            scan_arms(found, arms, (n - 1) as nat),
            arms[n - 1].body,
            arms[n - 1].body.len(),
        )
    }
}

fn scan_statement(found: &mut Vec<Type>, s: &Statement)
    ensures
        types_v(final(found)@) == scan_stmt(types_v(old(found)@), s@),
    decreases s, 1nat,
{
    proof {
        reveal_with_fuel(Statement::view, 2);
    }
    match s {
        Statement::VarDecl { type_def, .. } => note_generic(found, type_def),
        Statement::IfElse { condition: _, if_body, else_body } => {
            scan_stmts_for_generics(found, if_body);
            match else_body {
                Some(b) => scan_stmts_for_generics(found, b),
                None => {},
            }
        },
        Statement::WhileLoop { condition: _, body } => scan_stmts_for_generics(found, body),
        Statement::ForLoop { iterator: _, iterable: _, body } => scan_stmts_for_generics(
            found,
            body,
        ),
        Statement::Match { expr: _, arms } => scan_match(found, arms),
        Statement::TryCatch { try_body, catch_body } => {
            scan_stmts_for_generics(found, try_body);
            scan_stmts_for_generics(found, catch_body);
        },
        Statement::ScopedTryCall { catch_body, .. } => scan_stmts_for_generics(found, catch_body),
        _ => {},
    }
}

fn scan_stmts_for_generics(found: &mut Vec<Type>, body: &Vec<Spanned<Statement>>)
    ensures
        types_v(final(found)@) == scan_body(types_v(old(found)@), body_v(body@), body@.len()),
    decreases body, 0nat,
{
    let ghost f0 = types_v(found@);
    let mut i: usize = 0;
    while i < body.len()
        invariant
            i <= body@.len(),
            types_v(found@) == scan_body(f0, body_v(body@), i as nat),
        decreases body@.len() - i,
    {
        let s: &Spanned<Statement> = &body[i];
        assert(decreases_to!(*body => *s));
        assert(decreases_to!(*body => s.node));
        assert(body_v(body@)[i as int] == s@);
        scan_statement(found, &s.node);
        i += 1;
    }
}

fn scan_match(found: &mut Vec<Type>, arms: &Vec<MatchArm>)
    ensures
        types_v(final(found)@) == scan_arms(types_v(old(found)@), arms_v(arms@), arms@.len()),
    decreases arms, 0nat,
{
    let ghost f0 = types_v(found@);
    let mut i: usize = 0;
    while i < arms.len()
        invariant
            i <= arms@.len(),
            types_v(found@) == scan_arms(f0, arms_v(arms@), i as nat),
        decreases arms@.len() - i,
    {
        let arm: &MatchArm = &arms[i];
        assert(decreases_to!(*arms => *arm));
        assert(decreases_to!(*arms => arm.body));
        assert(arms_v(arms@)[i as int] == arm@);
        assert(body_v(arm.body@).len() == arm.body@.len());
        scan_stmts_for_generics(found, &arm.body);
        i += 1;
    }
}

pub open spec fn scan_fields(found: Seq<TypeV>, fs: Seq<FieldV>, n: nat) -> Seq<TypeV>
    decreases n,
{
    if n == 0 {
        found
    } else {
        note_spec(scan_fields(found, fs, (n - 1) as nat), fs[n - 1].type_def)
    }
}

pub open spec fn scan_methods(found: Seq<TypeV>, ms: Seq<FnV>, n: nat) -> Seq<TypeV>
    decreases n,
{
    if n == 0 {
        found
    } else {
        let body = ms[n - 1].body;
        scan_body(scan_methods(found, ms, (n - 1) as nat), body, body.len())
    }
}

pub open spec fn scan_params(found: Seq<TypeV>, ps: Seq<ParamV>, n: nat) -> Seq<TypeV>
    decreases n,
{
    if n == 0 {
        found
    } else {
        note_spec(scan_params(found, ps, (n - 1) as nat), ps[n - 1].type_def)
    }
}

/// The first `n` classes, in the order in which they were registered.
pub open spec fn scan_classes(w: WorldV, n: nat) -> Seq<TypeV>
    decreases n,
{
    if n == 0 {
        Seq::empty()
    } else {
        let found = scan_classes(w, (n - 1) as nat);
        let name = w.class_order[n - 1];
        if w.classes.contains_key(name) {
            let c = w.classes[name];
            scan_methods(
                scan_fields(found, c.fields, c.fields.len()),
                c.methods,
                c.methods.len(),
            )
        } else {
            found
        }
    }
}

/// A function outside any class: its signature counts too.
pub open spec fn scan_fn(found: Seq<TypeV>, f: FnV) -> Seq<TypeV> {
    let found = scan_params(found, f.parameters, f.parameters.len());
    let found = match f.return_type {
        Some(t) => note_spec(found, t),
        None => found,
    };
    scan_body(found, f.body, f.body.len())
}

pub open spec fn scan_decls(found: Seq<TypeV>, ds: Seq<DeclV>, n: nat) -> Seq<TypeV>
    decreases n,
{
    if n == 0 {
        found
    } else {
        let found = scan_decls(found, ds, (n - 1) as nat);
        match ds[n - 1] {
            DeclV::Function(f) => scan_fn(found, f),
            _ => found,
        }
    }
}

/// Every generic type that the program uses with concrete arguments, in the order
/// in which they are first seen.
pub open spec fn instantiations(w: WorldV, ds: Seq<DeclV>) -> Seq<TypeV> {
    scan_decls(scan_classes(w, w.class_order.len()), ds, ds.len())
}

fn scan_class(found: &mut Vec<Type>, c: &ClassDecl)
    ensures
        types_v(final(found)@) == scan_methods(
            scan_fields(types_v(old(found)@), c@.fields, c@.fields.len()),
            c@.methods,
            c@.methods.len(),
        ),
{
    let ghost f0 = types_v(found@);
    let mut i: usize = 0;
    while i < c.fields.len()
        invariant
            i <= c.fields@.len(),
            types_v(found@) == scan_fields(f0, fields_v(c.fields@), i as nat),
        decreases c.fields@.len() - i,
    {
        assert(fields_v(c.fields@)[i as int] == c.fields@[i as int]@);
        note_generic(found, &c.fields[i].type_def);
        i += 1;
    }
    let ghost f1 = types_v(found@);
    let mut k: usize = 0;
    while k < c.methods.len()
        invariant
            k <= c.methods@.len(),
            types_v(found@) == scan_methods(f1, methods_v(c.methods@), k as nat),
        decreases c.methods@.len() - k,
    {
        assert(methods_v(c.methods@)[k as int] == c.methods@[k as int]@);
        scan_stmts_for_generics(found, &c.methods[k].body);
        k += 1;
    }
}

fn scan_function(found: &mut Vec<Type>, f: &FnDecl)
    ensures
        types_v(final(found)@) == scan_fn(types_v(old(found)@), f@),
{
    let ghost f0 = types_v(found@);
    let mut i: usize = 0;
    while i < f.parameters.len()
        invariant
            i <= f.parameters@.len(),
            types_v(found@) == scan_params(f0, params_v(f.parameters@), i as nat),
        decreases f.parameters@.len() - i,
    {
        assert(params_v(f.parameters@)[i as int] == f.parameters@[i as int]@);
        note_generic(found, &f.parameters[i].type_def);
        i += 1;
    }
    match &f.return_type {
        Some(t) => note_generic(found, t),
        None => {},
    }
    scan_stmts_for_generics(found, &f.body);
}

/// Finds every generic type that the program uses with concrete arguments.
pub fn collect_generic_instantiations(program: &Program, tc: &TypeChecker) -> (r: Vec<Type>)
    ensures
        types_v(r@) == instantiations(tc.world(), program@),
{
    let ghost w = tc.world();
    let mut found: Vec<Type> = Vec::new();
    let mut i: usize = 0;
    assert(types_v(found@) =~= scan_classes(w, 0));
    while i < tc.class_order.len()
        invariant
            i <= tc.class_order@.len(),
            w == tc.world(),
            types_v(found@) == scan_classes(w, i as nat),
        decreases tc.class_order@.len() - i,
    {
        match tc.loaded_classes.get(tc.class_order[i].as_str()) {
            Some(c) => {
                assert(w.classes[w.class_order[i as int]] == c@);
                scan_class(&mut found, c);
            },
            None => {},
        }
        i += 1;
    }
    let ghost f0 = types_v(found@);
    let ds = &program.declarations;
    let mut k: usize = 0;
    while k < ds.len()
        invariant
            k <= ds@.len(),
            *ds == program.declarations,
            types_v(found@) == scan_decls(f0, decls_v(ds@), k as nat),
        decreases ds@.len() - k,
    {
        let d = &ds[k];
        assert(decls_v(ds@)[k as int] == d@);
        match d {
            Declaration::Function(f) => scan_function(&mut found, f),
            _ => {},
        }
        k += 1;
    }
    found
}

/// A type is noted once: what was found before stays, in its place, and nothing
/// stands twice.
pub proof fn lemma_note_keeps(found: Seq<TypeV>, t: TypeV)
    requires
        found.no_duplicates(),
    ensures
        note_spec(found, t).no_duplicates(),
        found.len() <= note_spec(found, t).len(),
        note_spec(found, t).take(found.len() as int) == found,
        t is Generic ==> note_spec(found, t).contains(t),
    decreases t, 0nat,
{
    match t {
        TypeV::Generic { name, args } => {
            let f1 = if found.contains(t) {
                found
            } else {
                found.push(t)
            };
            lemma_note_all_keeps(f1, args, args.len());
            let out = note_spec(found, t);
            assert(f1.take(found.len() as int) =~= found);
            assert(out.take(found.len() as int) =~= out.take(f1.len() as int).take(
                found.len() as int,
            ));
            let k = choose|k: int| 0 <= k < f1.len() && f1[k] == t;
            if !found.contains(t) {
                assert(f1[found.len() as int] == t);
            }
            assert(f1.contains(t));
            assert(out[k] == out.take(f1.len() as int)[k]);
        },
        TypeV::Array(i) => lemma_note_keeps(found, *i),
        TypeV::FixedArray(i, _) => lemma_note_keeps(found, *i),
        TypeV::Primitive(_) => {
            assert(found.take(found.len() as int) =~= found);
        },
    }
}

proof fn lemma_note_all_keeps(found: Seq<TypeV>, args: Seq<TypeV>, n: nat)
    requires
        found.no_duplicates(),
    ensures
        note_all(found, args, n).no_duplicates(),
        found.len() <= note_all(found, args, n).len(),
        note_all(found, args, n).take(found.len() as int) == found,
    decreases args, n,
{
    if n == 0 || n > args.len() {
        assert(found.take(found.len() as int) =~= found);
    } else {
        lemma_note_all_keeps(found, args, (n - 1) as nat);
        let mid = note_all(found, args, (n - 1) as nat);
        lemma_note_keeps(mid, args[n - 1]);
        let out = note_spec(mid, args[n - 1]);
        assert(out.take(found.len() as int) =~= out.take(mid.len() as int).take(
            found.len() as int,
        ));
    }
}

} // verus!
