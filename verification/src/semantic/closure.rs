//! What an import brings: a declaration, and whatever its signature reaches within
//! its module.
use crate::ast::{
    decls_v, fields_v, generics_v, methods_v, params_v, types_v, ClassDecl, DeclV, Declaration,
    FieldV, FnDecl, FnV, GenericV, ParamV, Parameter, Type, TypeV,
};
use crate::codegen::yul::opt_text;
use crate::text::{clone_texts, lower, lower_spec, opt_pos, same, texts};
use vstd::prelude::*;

verus! {

broadcast use crate::ast::group_views;

/// The names so far with those that a type holds.
pub open spec fn type_refs(t: TypeV) -> Seq<Seq<char>>
    decreases t, 0nat,
{
    match t {
        TypeV::Primitive(n) => seq![n],
        TypeV::Generic { name, args } => seq![name] + types_refs(args, args.len()),
        TypeV::Array(i) => type_refs(*i),
        TypeV::FixedArray(i, _) => type_refs(*i),
    }
}

pub open spec fn types_refs(ts: Seq<TypeV>, n: nat) -> Seq<Seq<char>>
    decreases ts, n,
{
    if n == 0 || n > ts.len() {
        Seq::empty()
    } else {
        types_refs(ts, (n - 1) as nat) + type_refs(ts[n - 1])
    }
}

pub open spec fn opt_refs(t: Option<TypeV>) -> Seq<Seq<char>> {
    match t {
        Some(t) => type_refs(t),
        None => Seq::empty(),
    }
}

pub open spec fn params_refs(ps: Seq<ParamV>, n: nat) -> Seq<Seq<char>>
    decreases n,
{
    if n == 0 {
        Seq::empty()
    } else {
        params_refs(ps, (n - 1) as nat) + type_refs(ps[n - 1].type_def)
    }
}

pub open spec fn fields_refs(fs: Seq<FieldV>, n: nat) -> Seq<Seq<char>>
    decreases n,
{
    if n == 0 {
        Seq::empty()
    } else {
        fields_refs(fs, (n - 1) as nat) + type_refs(fs[n - 1].type_def)
    }
}

/// The names in a signature.
pub open spec fn fn_refs(f: FnV) -> Seq<Seq<char>> {
    params_refs(f.parameters, f.parameters.len()) + opt_refs(f.return_type)
}

pub open spec fn methods_refs(ms: Seq<FnV>, n: nat) -> Seq<Seq<char>>
    decreases n,
{
    if n == 0 {
        Seq::empty()
    } else {
        methods_refs(ms, (n - 1) as nat) + fn_refs(ms[n - 1])
    }
}

/// Every type name that a declaration mentions outside of bodies.
pub open spec fn decl_refs_spec(d: DeclV) -> Seq<Seq<char>> {
    match d {
        DeclV::Class(c) => c.parents + c.generic_params.map_values(|g: GenericV| g.bound)
            + fields_refs(c.fields, c.fields.len()) + methods_refs(c.methods, c.methods.len()),
        DeclV::Function(f) => fn_refs(f),
        DeclV::Error(e) => params_refs(e.parameters, e.parameters.len()),
        _ => Seq::empty(),
    }
}

pub open spec fn decl_name_spec(d: DeclV) -> Option<Seq<char>> {
    match d {
        DeclV::Class(c) => Some(c.name),
        DeclV::Enum(e) => Some(e.name),
        DeclV::Error(e) => Some(e.name),
        DeclV::Function(f) => Some(f.name),
        DeclV::Use(_) => None,
    }
}

fn collect_type_names(t: &Type, out: &mut Vec<String>)
    ensures
        texts(final(out)@) == texts(old(out)@) + type_refs(t@),
    decreases t, 1nat,
{
    let ghost before = texts(out@);
    match t {
        Type::Primitive(n) => {
            out.push(n.clone());
            assert(texts(out@) =~= before + seq![n@]);
        },
        Type::Generic { name, args } => {
            out.push(name.clone());
            assert(texts(out@) =~= before + seq![name@]);
            collect_all(args, out);
            assert(texts(out@) =~= before + (seq![name@] + types_refs(
                types_v(args@),
                args@.len(),
            )));
        },
        Type::Array(i) => collect_type_names(i, out),
        Type::FixedArray(i, _) => collect_type_names(i, out),
    }
}

fn collect_all(ts: &Vec<Type>, out: &mut Vec<String>)
    ensures
        texts(final(out)@) == texts(old(out)@) + types_refs(types_v(ts@), ts@.len()),
    decreases ts, 0nat,
{
    let ghost before = texts(out@);
    let mut i: usize = 0;
    assert(texts(out@) =~= before + types_refs(types_v(ts@), 0));
    while i < ts.len()
        invariant
            i <= ts@.len(),
            before == texts(old(out)@),
            texts(out@) == before + types_refs(types_v(ts@), i as nat),
        decreases ts@.len() - i,
    {
        let x: &Type = &ts[i];
        assert(decreases_to!(*ts => *x));
        assert(types_v(ts@)[i as int] == x@);
        collect_type_names(x, out);
        assert(texts(out@) =~= before + types_refs(types_v(ts@), (i + 1) as nat));
        i += 1;
    }
}

fn collect_params(ps: &Vec<Parameter>, out: &mut Vec<String>)
    ensures
        texts(final(out)@) == texts(old(out)@) + params_refs(params_v(ps@), ps@.len()),
{
    let ghost before = texts(out@);
    let mut i: usize = 0;
    assert(texts(out@) =~= before + params_refs(params_v(ps@), 0));
    while i < ps.len()
        invariant
            i <= ps@.len(),
            before == texts(old(out)@),
            texts(out@) == before + params_refs(params_v(ps@), i as nat),
        decreases ps@.len() - i,
    {
        assert(params_v(ps@)[i as int] == ps@[i as int]@);
        collect_type_names(&ps[i].type_def, out);
        assert(texts(out@) =~= before + params_refs(params_v(ps@), (i + 1) as nat));
        i += 1;
    }
}

fn collect_fn(f: &FnDecl, out: &mut Vec<String>)
    ensures
        texts(final(out)@) == texts(old(out)@) + fn_refs(f@),
{
    let ghost before = texts(out@);
    collect_params(&f.parameters, out);
    match &f.return_type {
        Some(t) => collect_type_names(t, out),
        None => {
            assert(texts(out@) =~= texts(out@) + opt_refs(None));
        },
    }
    assert(texts(out@) =~= before + fn_refs(f@));
}

fn collect_class(c: &ClassDecl, out: &mut Vec<String>)
    ensures
        texts(final(out)@) == texts(old(out)@) + fields_refs(c@.fields, c@.fields.len())
            + methods_refs(c@.methods, c@.methods.len()),
{
    let ghost before = texts(out@);
    let ghost fv = fields_v(c.fields@);
    let ghost mv = methods_v(c.methods@);
    let mut i: usize = 0;
    assert(texts(out@) =~= before + fields_refs(fv, 0));
    while i < c.fields.len()
        invariant
            i <= c.fields@.len(),
            before == texts(old(out)@),
            fv == fields_v(c.fields@),
            texts(out@) == before + fields_refs(fv, i as nat),
        decreases c.fields@.len() - i,
    {
        assert(fv[i as int] == c.fields@[i as int]@);
        collect_type_names(&c.fields[i].type_def, out);
        assert(texts(out@) =~= before + fields_refs(fv, (i + 1) as nat));
        i += 1;
    }
    let ghost mid = texts(out@);
    let mut k: usize = 0;
    assert(texts(out@) =~= mid + methods_refs(mv, 0));
    while k < c.methods.len()
        invariant
            k <= c.methods@.len(),
            mv == methods_v(c.methods@),
            texts(out@) == mid + methods_refs(mv, k as nat),
        decreases c.methods@.len() - k,
    {
        assert(mv[k as int] == c.methods@[k as int]@);
        collect_fn(&c.methods[k], out);
        assert(texts(out@) =~= mid + methods_refs(mv, (k + 1) as nat));
        k += 1;
    }
}

pub fn decl_refs(d: &Declaration) -> (r: Vec<String>)
    ensures
        texts(r@) == decl_refs_spec(d@),
{
    let mut out: Vec<String> = Vec::new();
    assert(texts(out@) =~= Seq::<Seq<char>>::empty());
    match d {
        Declaration::Class(c) => {
            out = clone_texts(&c.parents);
            let ghost head = texts(out@);
            let ghost bounds = c@.generic_params.map_values(|g: GenericV| g.bound);
            let mut i: usize = 0;
            assert(texts(out@) =~= head + bounds.take(0));
            while i < c.generic_params.len()
                invariant
                    i <= c.generic_params@.len(),
                    bounds == generics_v(c.generic_params@).map_values(|g: GenericV| g.bound),
                    texts(out@) == head + bounds.take(i as int),
                decreases c.generic_params@.len() - i,
            {
                let ghost before = texts(out@);
                out.push(c.generic_params[i].bound.clone());
                assert(texts(out@) =~= before.push(bounds[i as int]));
                assert(bounds.take(i as int).push(bounds[i as int]) =~= bounds.take(i + 1));
                assert(texts(out@) =~= head + bounds.take(i + 1));
                i += 1;
            }
            assert(bounds.take(c.generic_params@.len() as int) =~= bounds);
            collect_class(c, &mut out);
        },
        Declaration::Function(f) => {
            collect_fn(f, &mut out);
            assert(texts(out@) =~= fn_refs(f@));
        },
        Declaration::Error(e) => {
            collect_params(&e.parameters, &mut out);
            assert(texts(out@) =~= params_refs(e@.parameters, e@.parameters.len()));
        },
        _ => {},
    }
    out
}

pub fn decl_name(d: &Declaration) -> (r: Option<String>)
    ensures
        opt_text(r) == decl_name_spec(d@),
{
    match d {
        Declaration::Class(c) => Some(c.name.clone()),
        Declaration::Enum(e) => Some(e.name.clone()),
        Declaration::Error(e) => Some(e.name.clone()),
        Declaration::Function(f) => Some(f.name.clone()),
        Declaration::Use(_) => None,
    }
}

/// Whether a declaration answers to a name; case does not matter.
pub open spec fn answers(d: DeclV, name: Seq<char>) -> bool {
    match decl_name_spec(d) {
        Some(n) => lower_spec(n) == lower_spec(name),
        None => false,
    }
}

/// The last of the first `n` declarations that answers to a name.
pub open spec fn named_decl(ds: Seq<DeclV>, name: Seq<char>, n: nat) -> Option<int>
    decreases n,
{
    if n == 0 {
        None
    } else if answers(ds[n - 1], name) {
        Some(n - 1)
    } else {
        named_decl(ds, name, (n - 1) as nat)
    }
}

fn find_decl(ds: &Vec<Declaration>, name: &str) -> (r: Option<usize>)
    ensures
        opt_pos(r) == named_decl(decls_v(ds@), name@, ds@.len()),
        r matches Some(i) ==> i < ds@.len(),
{
    let low = lower(name);
    let ghost dv = decls_v(ds@);
    let mut n: usize = ds.len();
    while n > 0
        invariant
            n <= ds@.len(),
            dv == decls_v(ds@),
            low@ == lower_spec(name@),
            named_decl(dv, name@, ds@.len()) == named_decl(dv, name@, n as nat),
        decreases n,
    {
        assert(dv[n - 1] == ds@[n - 1]@);
        match decl_name(&ds[n - 1]) {
            Some(x) => {
                if same(lower(x.as_str()).as_str(), low.as_str()) {
                    return Some(n - 1);
                }
            },
            None => {},
        }
        n -= 1;
    }
    None
}

/// Whether a declaration mentions another by its name.
pub open spec fn mentions(ds: Seq<DeclV>, i: int, j: int) -> bool {
    exists|k: int|
        0 <= k < decl_refs_spec(ds[i]).len() && named_decl(
            ds,
            #[trigger] decl_refs_spec(ds[i])[k],
            ds.len(),
        ) == Some(j)
}

/// Whether a set of declarations holds whatever its members mention.
pub open spec fn closed_set(ds: Seq<DeclV>, s: Set<int>) -> bool {
    forall|i: int, j: int| s.contains(i) && #[trigger] mentions(ds, i, j) ==> s.contains(j)
}

/// Whether there is a chain of at most `n` mentions from one declaration to
/// another.
pub open spec fn reaches_in(ds: Seq<DeclV>, from: int, to: int, n: nat) -> bool
    decreases n,
{
    from == to || (n > 0 && exists|m: int|
        reaches_in(ds, from, m, (n - 1) as nat) && #[trigger] mentions(ds, m, to))
}

/// Whether there is a chain of mentions from one declaration to another.
pub open spec fn reaches(ds: Seq<DeclV>, from: int, to: int) -> bool {
    exists|n: nat| reaches_in(ds, from, to, n)
}


/// How many of the first `n` flags are not set.
pub open spec fn unset(flags: Seq<bool>, n: nat) -> nat
    decreases n,
{
    if n == 0 {
        0
    } else {
        unset(flags, (n - 1) as nat) + (if flags[n - 1] {
            0nat
        } else {
            1nat
        })
    }
}

proof fn lemma_set_one(flags: Seq<bool>, i: int, n: nat)
    requires
        0 <= i < flags.len(),
        n <= flags.len(),
        !flags[i],
    ensures
        unset(flags.update(i, true), n) == unset(flags, n) - (if i < n {
            1int
        } else {
            0int
        }),
    decreases n,
{
    if n > 0 {
        lemma_set_one(flags, i, (n - 1) as nat);
    }
}

proof fn lemma_found_in_range(ds: Seq<DeclV>, name: Seq<char>, n: nat)
    requires
        n <= ds.len(),
    ensures
        named_decl(ds, name, n) matches Some(i) ==> 0 <= i < n,
    decreases n,
{
    if n > 0 {
        lemma_found_in_range(ds, name, (n - 1) as nat);
    }
}

proof fn lemma_reach_step(ds: Seq<DeclV>, from: int, mid: int, to: int)
    requires
        reaches(ds, from, mid),
        mentions(ds, mid, to),
    ensures
        reaches(ds, from, to),
{
    let n = choose|n: nat| reaches_in(ds, from, mid, n);
    assert(reaches_in(ds, from, to, n + 1));
}

proof fn lemma_closed_holds(ds: Seq<DeclV>, s: Set<int>, from: int, to: int, n: nat)
    requires
        closed_set(ds, s),
        s.contains(from),
        reaches_in(ds, from, to, n),
    ensures
        s.contains(to),
    decreases n,
{
    if from != to {
        let m = choose|m: int|
            reaches_in(ds, from, m, (n - 1) as nat) && #[trigger] mentions(ds, m, to);
        lemma_closed_holds(ds, s, from, m, (n - 1) as nat);
    }
}

/// The declarations whose flags are set.
pub open spec fn marked(flags: Seq<bool>) -> Set<int> {
    Set::new(|i: int| 0 <= i < flags.len() && flags[i])
}

/// Everything that `start` reaches, as flags.
fn mark_reached(ds: &Vec<Declaration>, start: usize) -> (r: Vec<bool>)
    requires
        start < ds@.len(),
    ensures
        r@.len() == ds@.len(),
        forall|i: int|
            0 <= i < ds@.len() ==> (#[trigger] r@[i] <==> reaches(
                decls_v(ds@),
                start as int,
                i,
            )),
{
    let ghost dv = decls_v(ds@);
    let n: usize = ds.len();
    let mut seen: Vec<bool> = Vec::new();
    let mut k: usize = 0;
    while k < n
        invariant
            k <= n,
            seen@.len() == k,
            forall|i: int| 0 <= i < k ==> !(#[trigger] seen@[i]),
        decreases n - k,
    {
        seen.push(false);
        k += 1;
    }
    let mut stack: Vec<usize> = Vec::new();
    seen.set(start, true);
    stack.push(start);
    proof {
        assert(reaches_in(dv, start as int, start as int, 0));
        assert(stack@[0] == start);
        assert(stack@.contains(start));
    }
    while stack.len() > 0
        invariant
            n == ds@.len(),
            dv == decls_v(ds@),
            start < n,
            seen@.len() == n,
            seen@[start as int],
            forall|x: int| 0 <= x < stack@.len() ==> (#[trigger] stack@[x]) < n && seen@[stack@[x] as int],
            forall|i: int| 0 <= i < n && #[trigger] seen@[i] ==> reaches(dv, start as int, i),
            forall|i: int, j: int|
                0 <= i < n && seen@[i] && !stack@.contains(i as usize) && #[trigger] mentions(
                    dv,
                    i,
                    j,
                ) ==> 0 <= j < n && seen@[j],
        decreases stack@.len() + unset(seen@, n as nat),
    {
        let ghost stack0 = stack@;
        let ghost seen0 = seen@;
        let i: usize = stack[stack.len() - 1];
        assert(stack0[stack0.len() - 1] == i);
        let _ = stack.pop();
        let ghost stack1 = stack@;
        let refs = decl_refs(&ds[i]);
        assert(dv[i as int] == ds@[i as int]@);
        let ghost rv = decl_refs_spec(dv[i as int]);
        let mut x: usize = 0;
        while x < refs.len()
            invariant
                x <= refs@.len(),
                n == ds@.len(),
                dv == decls_v(ds@),
                start < n,
                i < n,
                seen@.len() == n,
                seen@[start as int],
                seen@[i as int],
                rv == decl_refs_spec(dv[i as int]),
                rv == texts(refs@),
                stack0.len() > 0,
                stack0[stack0.len() - 1] == i,
                stack1 == stack0.drop_last(),
                forall|y: int| 0 <= y < stack@.len() ==> (#[trigger] stack@[y]) < n && seen@[stack@[y] as int],
                forall|y: int| 0 <= y < n && #[trigger] seen@[y] ==> reaches(dv, start as int, y),
                forall|y: int| 0 <= y < n && #[trigger] seen0[y] ==> seen@[y],
                forall|y: int| 0 <= y < n && #[trigger] seen@[y] && !seen0[y] ==> stack@.contains(y as usize),
                forall|y: usize| #[trigger] stack1.contains(y) ==> stack@.contains(y),
                forall|a: int, j: int|
                    0 <= a < n && seen0[a] && !stack0.contains(a as usize) && #[trigger] mentions(
                        dv,
                        a,
                        j,
                    ) ==> 0 <= j < n && seen0[j],
                seen0.len() == n,
                forall|y: int|
                    0 <= y < x ==> match named_decl(dv, #[trigger] rv[y], dv.len()) {
                        Some(j) => 0 <= j < n && seen@[j],
                        None => true,
                    },
                stack@.len() + unset(seen@, n as nat) == stack1.len() + unset(seen0, n as nat),
            decreases refs@.len() - x,
        {
            let ghost before = stack@;
            proof {
                lemma_found_in_range(dv, rv[x as int], dv.len());
            }
            match find_decl(ds, refs[x].as_str()) {
                Some(j) => {
                    proof {
                        assert(named_decl(dv, rv[x as int], dv.len()) == Some(j as int));
                        assert(mentions(dv, i as int, j as int));
                        lemma_reach_step(dv, start as int, i as int, j as int);
                    }
                    if !seen[j] {
                        proof {
                            lemma_set_one(seen@, j as int, n as nat);
                        }
                        seen.set(j, true);
                        stack.push(j);
                        assert(stack@[stack@.len() - 1] == j);
                        assert forall|y: usize| before.contains(y) implies stack@.contains(y) by {
                            let z = choose|z: int| 0 <= z < before.len() && before[z] == y;
                            assert(stack@[z] == y);
                        }
                    }
                },
                None => {},
            }
            x += 1;
        }
        proof {
            assert forall|a: int, j: int|
                0 <= a < n && seen@[a] && !stack@.contains(a as usize) && #[trigger] mentions(
                    dv,
                    a,
                    j,
                ) implies 0 <= j < n && seen@[j] by {
                assert(seen0[a]);
                if a == i {
                    let y = choose|y: int|
                        0 <= y < rv.len() && named_decl(dv, #[trigger] rv[y], dv.len()) == Some(j);
                    assert(named_decl(dv, rv[y], dv.len()) == Some(j));
                } else {
                    if stack0.contains(a as usize) {
                        let z = choose|z: int| 0 <= z < stack0.len() && stack0[z] == a as usize;
                        assert(stack1[z] == a as usize);
                        assert(stack1.contains(a as usize));
                    }
                }
            }
        }
    }
    proof {
        let s = marked(seen@);
        assert(closed_set(dv, s)) by {
            assert forall|i: int, j: int| s.contains(i) && #[trigger] mentions(
                dv,
                i,
                j,
            ) implies s.contains(j) by {
                assert(seen@[i]);
            }
        }
        assert forall|i: int| 0 <= i < n implies (#[trigger] seen@[i] <==> reaches(
            dv,
            start as int,
            i,
        )) by {
            if reaches(dv, start as int, i) {
                let k = choose|k: nat| reaches_in(dv, start as int, i, k);
                assert(s.contains(start as int));
                lemma_closed_holds(dv, s, start as int, i, k);
            }
        }
    }
    seen
}

/// Whether an import of a symbol brings a declaration: the symbol itself, and
/// whatever its signature reaches in the module.
pub open spec fn imported(ds: Seq<DeclV>, symbol: Seq<char>, i: int) -> bool {
    match named_decl(ds, symbol, ds.len()) {
        Some(s) => 0 <= i < ds.len() && reaches(ds, s, i),
        None => false,
    }
}

/// The positions, ascending and below `n`, of what an import of a symbol brings.
pub open spec fn imports_below(ds: Seq<DeclV>, symbol: Seq<char>, n: nat) -> Seq<usize>
    decreases n,
{
    if n == 0 {
        Seq::empty()
    } else {
        let out = imports_below(ds, symbol, (n - 1) as nat);
        if imported(ds, symbol, n - 1) {
            out.push((n - 1) as usize)
        } else {
            out
        }
    }
}

/// The positions of what an import of a symbol brings, in the order of the module; a
/// symbol that the module does not declare brings nothing.
pub open spec fn closure_spec(ds: Seq<DeclV>, symbol: Seq<char>) -> Seq<usize> {
    imports_below(ds, symbol, ds.len())
}

pub fn symbol_closure(ds: &Vec<Declaration>, symbol: &str) -> (r: Vec<usize>)
    ensures
        r@ == closure_spec(decls_v(ds@), symbol@),
        forall|i: int| 0 <= i < r@.len() ==> (#[trigger] r@[i]) < ds@.len(),
{
    let ghost dv = decls_v(ds@);
    let mut out: Vec<usize> = Vec::new();
    match find_decl(ds, symbol) {
        Some(start) => {
            let seen = mark_reached(ds, start);
            let mut i: usize = 0;
            while i < ds.len()
                invariant
                    i <= ds@.len(),
                    dv == decls_v(ds@),
                    seen@.len() == ds@.len(),
                    named_decl(dv, symbol@, dv.len()) == Some(start as int),
                    forall|k: int|
                        0 <= k < ds@.len() ==> (#[trigger] seen@[k] <==> reaches(
                            dv,
                            start as int,
                            k,
                        )),
                    out@ == imports_below(dv, symbol@, i as nat),
                    forall|k: int| 0 <= k < out@.len() ==> (#[trigger] out@[k]) < ds@.len(),
                decreases ds@.len() - i,
            {
                if seen[i] {
                    out.push(i);
                }
                i += 1;
            }
        },
        None => {
            proof {
                lemma_no_imports(dv, symbol@, dv.len());
            }
        },
    }
    out
}

proof fn lemma_no_imports(ds: Seq<DeclV>, symbol: Seq<char>, n: nat)
    requires
        named_decl(ds, symbol, ds.len()) is None,
    ensures
        imports_below(ds, symbol, n) == Seq::<usize>::empty(),
    decreases n,
{
    if n > 0 {
        lemma_no_imports(ds, symbol, (n - 1) as nat);
    }
}

/// What an import brings is closed: whatever one of its declarations mentions comes
/// along.
pub proof fn law_imports_are_closed(ds: Seq<DeclV>, symbol: Seq<char>, i: int, j: int)
    requires
        imported(ds, symbol, i),
        mentions(ds, i, j),
    ensures
        imported(ds, symbol, j),
{
    let s = named_decl(ds, symbol, ds.len())->Some_0;
    lemma_reach_step(ds, s, i, j);
    let k = choose|k: int|
        0 <= k < decl_refs_spec(ds[i]).len() && named_decl(
            ds,
            #[trigger] decl_refs_spec(ds[i])[k],
            ds.len(),
        ) == Some(j);
    lemma_found_in_range(ds, decl_refs_spec(ds[i])[k], ds.len());
}

} // verus!
