//! What a class holds that inherits from one plain class.
use crate::ast::{field_index, method_index, method_named, ClassV, FieldV, FnV};
use crate::semantic::inherit::{
    add_fields, add_methods, distinct_ancestors, flatten_spec, lemma_index_of, lemma_method_found,
    lemma_own_fields_after, made_of, merge_parent, merge_spec, moved_under, no_merge, own_fields,
    own_methods, under, FlatV, MergeV,
};
use crate::semantic::supers::law_nothing_moves;
use vstd::prelude::*;

verus! {

/// No two methods have the same name.
pub open spec fn distinct_methods(s: Seq<FnV>) -> bool {
    forall|i: int, j: int|
        0 <= i < s.len() && 0 <= j < s.len() && i != j ==> (#[trigger] s[i]).name != (
        #[trigger] s[j]).name
}

/// No two fields have the same name.
pub open spec fn distinct_fields(s: Seq<FieldV>) -> bool {
    forall|i: int, j: int|
        0 <= i < s.len() && 0 <= j < s.len() && i != j ==> (#[trigger] s[i]).name != (
        #[trigger] s[j]).name
}

/// The methods of a parent, each that the class redeclares replaced by its own.
pub open spec fn with_overrides(methods: Seq<FnV>, own: Seq<FnV>) -> Seq<FnV> {
    methods.map_values(
        |f: FnV|
            match method_named(own, f.name) {
                Some(o) => o,
                None => f,
            },
    )
}

/// The methods of a class that its parent does not have.
pub open spec fn additions(methods: Seq<FnV>, own: Seq<FnV>) -> Seq<FnV> {
    own.filter(|o: FnV| method_named(methods, o.name) is None)
}

/// The methods of a parent that the class redeclares, each as the version before.
pub open spec fn versions_before(methods: Seq<FnV>, own: Seq<FnV>) -> Seq<FnV> {
    own.filter(|o: FnV| method_named(methods, o.name) is Some).map_values(
        |o: FnV| FnV { name: "super_"@ + o.name, ..method_named(methods, o.name)->0 },
    )
}

proof fn lemma_named_push(s: Seq<FnV>, m: FnV, x: Seq<char>)
    ensures
        method_named(s.push(m), x) == (match method_named(s, x) {
            Some(f) => Some(f),
            None => if m.name == x {
                Some(m)
            } else {
                None
            },
        }),
{
    let t = s.push(m);
    lemma_method_found(s, x, 0);
    lemma_method_found(t, x, 0);
    match method_index(s, x, 0) {
        Some(i) => {
            lemma_first(s, x, 0);
            assert forall|k: int| 0 <= k < i implies (#[trigger] t[k]).name != x by {
                assert(t[k] == s[k]);
            }
            assert(t[i] == s[i]);
            lemma_index_of(t, x, 0, i);
        },
        None => {
            if m.name == x {
                assert forall|k: int| 0 <= k < s.len() implies (#[trigger] t[k]).name != x by {
                    assert(t[k] == s[k]);
                }
                lemma_index_of(t, x, 0, s.len() as int);
            } else {
                match method_index(t, x, 0) {
                    Some(k) => {
                        if k < s.len() {
                            assert(t[k] == s[k]);
                        }
                    },
                    None => {},
                }
            }
        },
    }
}

/// Before the place that is found, no method has the name.
proof fn lemma_first(s: Seq<FnV>, x: Seq<char>, i: int)
    requires
        0 <= i,
    ensures
        method_index(s, x, i) matches Some(k) ==> forall|j: int|
            i <= j < k ==> (#[trigger] s[j]).name != x,
    decreases s.len() - i,
{
    if i < s.len() && s[i].name != x {
        lemma_first(s, x, i + 1);
    }
}

proof fn lemma_filter_push(s: Seq<FnV>, m: FnV, p: spec_fn(FnV) -> bool)
    ensures
        s.push(m).filter(p) == (if p(m) {
            s.filter(p).push(m)
        } else {
            s.filter(p)
        }),
{
    reveal(Seq::filter);
    assert(s.push(m).drop_last() =~= s);
}

proof fn lemma_filter_holds(s: Seq<FnV>, p: spec_fn(FnV) -> bool, n: nat)
    requires
        n <= s.len(),
    ensures
        forall|i: int|
            0 <= i < s.take(n as int).filter(p).len() ==> p(
                #[trigger] s.take(n as int).filter(p)[i],
            ) && s.take(n as int).contains(s.take(n as int).filter(p)[i]),
    decreases n,
{
    reveal(Seq::filter);
    let t = s.take(n as int);
    let out = t.filter(p);
    if n > 0 {
        let u = s.take(n - 1);
        assert(t =~= u.push(s[n - 1]));
        lemma_filter_holds(s, p, (n - 1) as nat);
        lemma_filter_push(u, s[n - 1], p);
        let sub = u.filter(p);
        assert forall|i: int| 0 <= i < out.len() implies p(#[trigger] out[i]) && t.contains(
            out[i],
        ) by {
            if i < sub.len() {
                assert(out[i] == sub[i]);
                assert(u.contains(sub[i]));
                let x = choose|x: int| 0 <= x < u.len() && u[x] == sub[i];
                assert(t[x] == out[i]);
            } else {
                assert(t[n - 1] == out[i]);
            }
        }
    }
}

proof fn lemma_overrides(methods: Seq<FnV>, own: Seq<FnV>, n: nat)
    requires
        n <= own.len(),
        distinct_methods(methods),
        distinct_methods(own),
    ensures
        own_methods(methods, own, n) == (
            with_overrides(methods, own.take(n as int)) + additions(methods, own.take(n as int)),
            versions_before(methods, own.take(n as int)),
        ),
    decreases n,
{
    let has = |o: FnV| method_named(methods, o.name) is Some;
    let lacks = |o: FnV| method_named(methods, o.name) is None;
    if n == 0 {
        reveal(Seq::filter);
        let t = own.take(0);
        assert forall|i: int| 0 <= i < methods.len() implies #[trigger] with_overrides(
            methods,
            t,
        )[i] == methods[i] by {
            lemma_method_found(t, methods[i].name, 0);
        }
        assert(with_overrides(methods, t) + additions(methods, t) =~= methods);
        assert(versions_before(methods, t) =~= Seq::<FnV>::empty());
    } else {
        let u = own.take(n - 1);
        let t = own.take(n as int);
        let m = own[n - 1];
        assert(t =~= u.push(m));
        lemma_overrides(methods, own, (n - 1) as nat);
        lemma_filter_push(u, m, has);
        lemma_filter_push(u, m, lacks);
        lemma_filter_holds(own, lacks, (n - 1) as nat);
        let r = with_overrides(methods, u);
        let a = additions(methods, u);
        let (ms, supers) = own_methods(methods, own, (n - 1) as nat);
        assert(ms == r + a);
        lemma_method_found(u, m.name, 0);
        assert(method_index(u, m.name, 0) is None) by {
            match method_index(u, m.name, 0) {
                Some(k) => {
                    assert(u[k] == own[k]);
                    assert(own[k].name != own[n - 1].name);
                },
                None => {},
            }
        }
        assert forall|i: int| 0 <= i < methods.len() implies (#[trigger] r[i]).name
            == methods[i].name by {
            lemma_method_found(u, methods[i].name, 0);
        }
        assert forall|i: int| 0 <= i < a.len() implies (#[trigger] a[i]).name != m.name by {
            assert(u.contains(u.filter(lacks)[i]));
            let x = choose|x: int| 0 <= x < u.len() && u[x] == a[i];
            assert(u[x] == own[x]);
            assert(own[x].name != own[n - 1].name);
        }
        lemma_method_found(methods, m.name, 0);
        let r2 = with_overrides(methods, t);
        assert forall|i: int| 0 <= i < methods.len() implies #[trigger] r2[i] == (if methods[i].name
            == m.name {
            m
        } else {
            r[i]
        }) by {
            lemma_named_push(u, m, methods[i].name);
        }
        match method_index(methods, m.name, 0) {
            Some(j) => {
                assert forall|x: int| 0 <= x < j implies (#[trigger] ms[x]).name != m.name by {
                    assert(ms[x] == r[x]);
                    assert(methods[x].name != methods[j].name);
                }
                assert(ms[j] == r[j]);
                lemma_index_of(ms, m.name, 0, j);
                assert(r[j] == methods[j]);
                assert(ms.update(j, m) =~= r2 + a) by {
                    assert forall|i: int| 0 <= i < methods.len() implies ms.update(j, m)[i]
                        == #[trigger] r2[i] by {
                        if i != j {
                            assert(methods[i].name != methods[j].name);
                            assert(ms[i] == r[i]);
                        }
                    }
                }
                assert(versions_before(methods, t) =~= supers.push(
                    FnV { name: "super_"@ + m.name, ..methods[j] },
                ));
            },
            None => {
                assert(method_index(ms, m.name, 0) is None) by {
                    lemma_method_found(ms, m.name, 0);
                    match method_index(ms, m.name, 0) {
                        Some(k) => {
                            if k < r.len() {
                                assert(ms[k] == r[k]);
                                assert(methods[k].name != m.name);
                            } else {
                                assert(ms[k] == a[k - r.len()]);
                            }
                        },
                        None => {},
                    }
                }
                assert(r2 =~= r) by {
                    assert forall|i: int| 0 <= i < methods.len() implies #[trigger] r2[i] == r[i] by {
                        assert(methods[i].name != m.name);
                    }
                }
                assert(ms.push(m) =~= r2 + a.push(m));
            },
        }
    }
}

proof fn lemma_first_parent(
    class: Seq<char>,
    own: Seq<FnV>,
    p: Seq<char>,
    more: Seq<FnV>,
    n: nat,
)
    requires
        n <= more.len(),
        distinct_methods(more),
    ensures
        add_methods(class, own, p, Seq::empty(), Map::empty(), more, n) matches Ok((ms, src)) && ms
            == more.take(n as int) && forall|x: Seq<char>| #[trigger]
            src.contains_key(x) ==> exists|k: int|
                0 <= k < n && (#[trigger] more[k]).name == x,
    decreases n,
{
    if n > 0 {
        lemma_first_parent(class, own, p, more, (n - 1) as nat);
        let (ms, src) = add_methods(
            class,
            own,
            p,
            Seq::empty(),
            Map::empty(),
            more,
            (n - 1) as nat,
        )->Ok_0;
        let m = more[n - 1];
        if src.contains_key(m.name) {
            let k = choose|k: int| 0 <= k < n - 1 && (#[trigger] more[k]).name == m.name;
            assert(more[k].name != more[n - 1].name);
        }
        assert(ms.push(m) =~= more.take(n as int));
        let next = src.insert(m.name, p);
        assert forall|x: Seq<char>| #[trigger] next.contains_key(x) implies exists|k: int|
            0 <= k < n && (#[trigger] more[k]).name == x by {
            if x == m.name {
                assert(more[n - 1].name == x);
            } else {
                assert(src.contains_key(x));
                let k = choose|k: int| 0 <= k < n - 1 && (#[trigger] more[k]).name == x;
                assert(more[k].name == x);
            }
        }
    } else {
        assert(more.take(0) =~= Seq::<FnV>::empty());
    }
}

proof fn lemma_field_found(s: Seq<FieldV>, name: Seq<char>, i: int)
    requires
        0 <= i,
    ensures
        match field_index(s, name, i) {
            Some(k) => i <= k < s.len() && s[k].name == name,
            None => forall|k: int| i <= k < s.len() ==> (#[trigger] s[k]).name != name,
        },
    decreases s.len() - i,
{
    if i < s.len() && s[i].name != name {
        lemma_field_found(s, name, i + 1);
    }
}

proof fn lemma_first_fields(class: Seq<char>, more: Seq<FieldV>, n: nat)
    requires
        n <= more.len(),
        distinct_fields(more),
    ensures
        add_fields(class, Seq::empty(), more, n) == Ok::<Seq<FieldV>, Seq<char>>(
            more.take(n as int),
        ),
    decreases n,
{
    if n > 0 {
        lemma_first_fields(class, more, (n - 1) as nat);
        let out = more.take(n - 1);
        lemma_field_found(out, more[n - 1].name, 0);
        match field_index(out, more[n - 1].name, 0) {
            Some(k) => {
                assert(out[k] == more[k]);
                assert(more[k].name != more[n - 1].name);
            },
            None => {},
        }
        assert(out.push(more[n - 1]) =~= more.take(n as int));
    } else {
        assert(more.take(0) =~= Seq::<FieldV>::empty());
    }
}

/// Whether one of the first `n` fields of a class is one of its parent again.
pub open spec fn redeclares(fields: Seq<FieldV>, own: Seq<FieldV>, n: nat) -> bool {
    exists|k: int, j: int|
        0 <= k < n && k < own.len() && 0 <= j < fields.len() && (#[trigger] own[k]).name == (
        #[trigger] fields[j]).name
}

proof fn lemma_redeclared(class: Seq<char>, fields: Seq<FieldV>, own: Seq<FieldV>, n: nat)
    requires
        n <= own.len(),
        distinct_fields(own),
    ensures
        own_fields(class, fields, own, n) is Err <==> redeclares(fields, own, n),
    decreases n,
{
    if n > 0 {
        lemma_redeclared(class, fields, own, (n - 1) as nat);
        let name = own[n - 1].name;
        if own_fields(class, fields, own, (n - 1) as nat) is Ok {
            lemma_own_fields_after(class, fields, own, (n - 1) as nat);
            let out = own_fields(class, fields, own, (n - 1) as nat)->Ok_0;
            lemma_field_found(out, name, 0);
            match field_index(out, name, 0) {
                Some(k) => {
                    if k < fields.len() {
                        assert(out[k] == fields[k]);
                        assert(own[n - 1].name == fields[k].name);
                    } else {
                        assert(out[k] == own[k - fields.len()]);
                        assert(own[k - fields.len()].name != own[n - 1].name);
                    }
                },
                None => {
                    if redeclares(fields, own, n) {
                        let (k, j) = choose|k: int, j: int|
                            0 <= k < n && k < own.len() && 0 <= j < fields.len() && (
                            #[trigger] own[k]).name == (#[trigger] fields[j]).name;
                        if k == n - 1 {
                            assert(out[j] == fields[j]);
                        } else {
                            assert(redeclares(fields, own, (n - 1) as nat));
                        }
                    }
                },
            }
        } else {
            let (k, j) = choose|k: int, j: int|
                0 <= k < n - 1 && k < own.len() && 0 <= j < fields.len() && (
                #[trigger] own[k]).name == (#[trigger] fields[j]).name;
            assert(own[k].name == fields[j].name);
        }
    }
}

/// A class that inherits from one plain class, itself without parents, holds the fields of
/// the parent and then its own; and the methods of the parent in their order, each that it
/// redeclares replaced by its own, then its other methods, then what it has replaced,
/// under `super_` and the name. No body changes, and the parent stays as it is. The class
/// is refused where it declares a field of the parent again, and only there; no class
/// changes then.
pub proof fn law_one_plain_parent(f: FlatV, name: Seq<char>, p: Seq<char>, d: nat)
    requires
        !f.done.contains(name),
        f.cs.contains_key(name),
        f.cs.contains_key(p),
        name != p,
        f.cs[name].parents == seq![p],
        f.cs[p].parents.len() == 0,
        f.cs[p].generic_params.len() == 0,
        !f.cs[p].is_global,
        !f.cs[p].is_extern,
        made_of(f, p).len() == 0,
        d >= 2,
        distinct_fields(f.cs[name].fields),
        distinct_fields(f.cs[p].fields),
        distinct_methods(f.cs[name].methods),
        distinct_methods(f.cs[p].methods),
    ensures
        ({
            let c = f.cs[name];
            let parent = f.cs[p];
            let (after, r) = flatten_spec(f, name, Seq::empty(), d);
            &&& r is Err <==> redeclares(parent.fields, c.fields, c.fields.len())
            &&& r is Err ==> after.cs == f.cs
            &&& r is Ok ==> after.cs == f.cs.insert(
                name,
                ClassV {
                    fields: parent.fields + c.fields,
                    methods: with_overrides(parent.methods, c.methods) + additions(
                        parent.methods,
                        c.methods,
                    ) + versions_before(parent.methods, c.methods),
                    parents: seq![p],
                    ..c
                },
            )
        }),
{
    let c = f.cs[name];
    let parent = f.cs[p];
    let stack = Seq::<Seq<char>>::empty().push(name);
    let inner = (d - 1) as nat;
    reveal_with_fuel(merge_spec, 2);
    assert(c.parents.len() == 1 && c.parents[0] == p);
    let (g, done) = flatten_spec(f, p, stack, inner);
    assert(!stack.contains(p)) by {
        if stack.contains(p) {
            let i = choose|i: int| 0 <= i < stack.len() && stack[i] == p;
        }
    }
    assert(done is Ok && g.cs == f.cs && g.made == f.made);
    lemma_first_fields(name, parent.fields, parent.fields.len());
    assert(parent.fields.take(parent.fields.len() as int) =~= parent.fields);
    lemma_first_parent(name, c.methods, p, parent.methods, parent.methods.len());
    assert(parent.methods.take(parent.methods.len() as int) =~= parent.methods);
    let m = merge_parent(name, c, no_merge(), p, parent, made_of(g, p))->Ok_0;
    assert(merge_spec(f, name, c, stack, 1, inner) == (g, Ok::<MergeV, Seq<char>>(m)));
    assert(m.made =~= Seq::<Seq<char>>::empty());
    assert(moved_under(m, c.methods) =~= Seq::<Seq<char>>::empty());
    law_nothing_moves(parent.methods);
    assert(under(m, c.methods) == parent.methods);
    lemma_overrides(parent.methods, c.methods, c.methods.len());
    assert(c.methods.take(c.methods.len() as int) =~= c.methods);
    lemma_redeclared(name, parent.fields, c.fields, c.fields.len());
    if own_fields(name, parent.fields, c.fields, c.fields.len()) is Ok {
        lemma_own_fields_after(name, parent.fields, c.fields, c.fields.len());
        assert(c.fields.take(c.fields.len() as int) =~= c.fields);
        assert(m.ancestors =~= seq![p]);
        reveal_with_fuel(distinct_ancestors, 2);
        assert(distinct_ancestors(name, m.ancestors, 1) =~= seq![p]);
    }
}

} // verus!
