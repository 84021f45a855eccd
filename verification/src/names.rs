//! Collections keyed by names: a map that remembers the order its keys came
//! in, a map that keeps its keys sorted, and a set.
use crate::text::{
    lemma_less_irreflexive, lemma_less_total, lemma_less_transitive, less, same, text_less,
};
use vstd::prelude::*;

verus! {

/// Whether some entry has the key `k`.
pub open spec fn has_key<V>(entries: Seq<(String, V)>, k: Seq<char>) -> bool {
    exists|i: int| 0 <= i < entries.len() && (#[trigger] entries[i]).0@ == k
}

/// The position of the entry with the key `k`.
pub open spec fn key_index<V>(entries: Seq<(String, V)>, k: Seq<char>) -> int {
    choose|i: int| 0 <= i < entries.len() && (#[trigger] entries[i]).0@ == k
}

/// No key occurs twice.
pub open spec fn distinct_keys<V>(entries: Seq<(String, V)>) -> bool {
    forall|i: int, j: int|
        0 <= i < j < entries.len() ==> (#[trigger] entries[i]).0@ != (#[trigger] entries[j]).0@
}

/// The map that a list of entries stands for.
pub open spec fn entry_map<V>(entries: Seq<(String, V)>) -> Map<Seq<char>, V> {
    Map::new(|k: Seq<char>| has_key(entries, k), |k: Seq<char>| entries[key_index(entries, k)].1)
}

/// The keys of a list of entries, in its order.
pub open spec fn entry_keys<V>(entries: Seq<(String, V)>) -> Seq<Seq<char>> {
    Seq::new(entries.len(), |i: int| entries[i].0@)
}

proof fn lemma_key_index<V>(entries: Seq<(String, V)>, i: int)
    requires
        distinct_keys(entries),
        0 <= i < entries.len(),
    ensures
        has_key(entries, entries[i].0@),
        key_index(entries, entries[i].0@) == i,
        entry_map(entries).contains_key(entries[i].0@),
        entry_map(entries)[entries[i].0@] == entries[i].1,
{
    let k = entries[i].0@;
    let j = key_index(entries, k);
    assert(entries[j].0@ == k);
    if j < i {
        assert(entries[j].0@ != entries[i].0@);
    } else if i < j {
        assert(entries[i].0@ != entries[j].0@);
    }
}

/// A map from names to values that remembers the order in which its keys came.
pub struct NameMap<V> {
    entries: Vec<(String, V)>,
}

impl<V> NameMap<V> {
    #[verifier::type_invariant]
    spec fn inv(self) -> bool {
        distinct_keys(self.entries@)
    }

    /// The map itself.
    pub closed spec fn view(&self) -> Map<Seq<char>, V> {
        entry_map(self.entries@)
    }

    /// The keys in the order in which they came.
    pub closed spec fn order(&self) -> Seq<Seq<char>> {
        entry_keys(self.entries@)
    }

    pub fn new() -> (r: Self)
        ensures
            r@ == Map::<Seq<char>, V>::empty(),
            r.order() == Seq::<Seq<char>>::empty(),
    {
        let r = NameMap { entries: Vec::new() };
        assert(r@ =~= Map::<Seq<char>, V>::empty());
        assert(r.order() =~= Seq::<Seq<char>>::empty());
        r
    }

    /// How many keys there are; together they are the domain, each once.
    pub fn len(&self) -> (n: usize)
        ensures
            n == self.order().len(),
            self.order().no_duplicates(),
            forall|k: Seq<char>| #[trigger] self@.contains_key(k) <==> self.order().contains(k),
    {
        proof {
            use_type_invariant(self);
            let es = self.entries@;
            assert forall|k: Seq<char>| #[trigger] self@.contains_key(k) <==> self.order().contains(
                k,
            ) by {
                if self@.contains_key(k) {
                    let x = key_index(es, k);
                    assert(self.order()[x] == k);
                }
                if self.order().contains(k) {
                    let x = choose|x: int| 0 <= x < self.order().len() && self.order()[x] == k;
                    assert(es[x].0@ == k);
                }
            }
            assert forall|i: int, j: int|
                0 <= i < self.order().len() && 0 <= j < self.order().len() && i
                    != j implies self.order()[i] != self.order()[j] by {
                if i < j {
                    assert(es[i].0@ != es[j].0@);
                } else {
                    assert(es[j].0@ != es[i].0@);
                }
            }
        }
        self.entries.len()
    }

    fn position(&self, k: &str) -> (r: Option<usize>)
        ensures
            match r {
                Some(i) => i < self.entries@.len() && self.entries@[i as int].0@ == k@,
                None => !has_key(self.entries@, k@),
            },
    {
        let mut i: usize = 0;
        while i < self.entries.len()
            invariant
                i <= self.entries@.len(),
                forall|j: int| 0 <= j < i ==> (#[trigger] self.entries@[j]).0@ != k@,
            decreases self.entries@.len() - i,
        {
            if same(self.entries[i].0.as_str(), k) {
                return Some(i);
            }
            i += 1;
        }
        None
    }

    pub fn get(&self, k: &str) -> (r: Option<&V>)
        ensures
            match r {
                Some(v) => self@.contains_key(k@) && *v == self@[k@],
                None => !self@.contains_key(k@),
            },
    {
        proof {
            use_type_invariant(self);
        }
        match self.position(k) {
            Some(i) => {
                proof {
                    lemma_key_index(self.entries@, i as int);
                }
                Some(&self.entries[i].1)
            },
            None => None,
        }
    }

    pub fn has(&self, k: &str) -> (r: bool)
        ensures
            r == self@.contains_key(k@),
    {
        proof {
            use_type_invariant(self);
        }
        match self.position(k) {
            Some(i) => {
                proof {
                    lemma_key_index(self.entries@, i as int);
                }
                true
            },
            None => false,
        }
    }

    pub fn key_at(&self, i: usize) -> (r: &String)
        requires
            i < self.order().len(),
        ensures
            r@ == self.order()[i as int],
            self@.contains_key(r@),
    {
        proof {
            use_type_invariant(self);
            lemma_key_index(self.entries@, i as int);
        }
        &self.entries[i].0
    }

    pub fn value_at(&self, i: usize) -> (r: &V)
        requires
            i < self.order().len(),
        ensures
            self@.contains_key(self.order()[i as int]),
            *r == self@[self.order()[i as int]],
    {
        proof {
            use_type_invariant(self);
            lemma_key_index(self.entries@, i as int);
        }
        &self.entries[i].1
    }

    /// Puts `v` under `k`. A key that was there keeps its place in the order.
    pub fn insert(&mut self, k: String, v: V)
        ensures
            final(self)@ == old(self)@.insert(k@, v),
            final(self).order() == (if old(self)@.contains_key(k@) {
                old(self).order()
            } else {
                old(self).order().push(k@)
            }),
    {
        proof {
            use_type_invariant(&*self);
        }
        let at = self.position(k.as_str());
        let mut entries: Vec<(String, V)> = Vec::new();
        std::mem::swap(&mut entries, &mut self.entries);
        let ghost before = entries@;
        let ghost kv = k@;
        match at {
            Some(i) => {
                proof {
                    lemma_key_index(before, i as int);
                }
                entries.set(i, (k, v));
                proof {
                    let after = entries@;
                    assert(distinct_keys(after)) by {
                        assert forall|a: int, b: int| 0 <= a < b < after.len() implies (
                        #[trigger] after[a]).0@ != (#[trigger] after[b]).0@ by {
                            assert(before[a].0@ != before[b].0@);
                        }
                    }
                    assert(entry_keys(after) =~= entry_keys(before));
                    assert(entry_map(after) =~= entry_map(before).insert(kv, v)) by {
                        assert forall|q: Seq<char>| has_key(after, q) <==> has_key(before, q) by {
                            if has_key(after, q) {
                                let x = key_index(after, q);
                                assert(before[x].0@ == q);
                            }
                            if has_key(before, q) {
                                let x = key_index(before, q);
                                assert(after[x].0@ == q);
                            }
                        }
                        assert forall|q: Seq<char>| has_key(after, q) implies #[trigger] entry_map(
                            after,
                        )[q] == entry_map(before).insert(kv, v)[q] by {
                            let x = key_index(before, q);
                            lemma_key_index(before, x);
                            lemma_key_index(after, x);
                            assert(after[x].0@ == q);
                        }
                    }
                }
            },
            None => {
                entries.push((k, v));
                proof {
                    let after = entries@;
                    assert(distinct_keys(after)) by {
                        assert forall|a: int, b: int| 0 <= a < b < after.len() implies (
                        #[trigger] after[a]).0@ != (#[trigger] after[b]).0@ by {
                            if b < before.len() {
                                assert(before[a].0@ != before[b].0@);
                            } else {
                                assert(before[a].0@ != kv);
                            }
                        }
                    }
                    assert(entry_keys(after) =~= entry_keys(before).push(kv));
                    assert(entry_map(after) =~= entry_map(before).insert(kv, v)) by {
                        assert forall|q: Seq<char>| has_key(after, q) <==> has_key(before, q) || q
                            == kv by {
                            if has_key(after, q) {
                                let x = key_index(after, q);
                                if x < before.len() {
                                    assert(before[x].0@ == q);
                                }
                            }
                            if has_key(before, q) {
                                let x = key_index(before, q);
                                assert(after[x].0@ == q);
                            }
                            assert(after[before.len() as int].0@ == kv);
                        }
                        assert forall|q: Seq<char>| has_key(after, q) implies #[trigger] entry_map(
                            after,
                        )[q] == entry_map(before).insert(kv, v)[q] by {
                            let x = key_index(after, q);
                            lemma_key_index(after, x);
                            if x < before.len() {
                                lemma_key_index(before, x);
                            }
                        }
                    }
                }
            },
        }
        self.entries = entries;
    }
}

/// The keys stand in ascending order, each once.
pub open spec fn ascending(keys: Seq<Seq<char>>) -> bool {
    forall|i: int, j: int| 0 <= i < j < keys.len() ==> text_less(#[trigger] keys[i], #[trigger] keys[j])
}

/// The elements of a set in ascending order.
pub open spec fn sorted(dom: Set<Seq<char>>) -> Seq<Seq<char>> {
    choose|s: Seq<Seq<char>>| #[trigger] ascending(s) && lists(s, dom)
}

/// The sequence holds the elements of the set, and no others.
pub open spec fn lists(s: Seq<Seq<char>>, dom: Set<Seq<char>>) -> bool {
    forall|k: Seq<char>| #[trigger] s.contains(k) <==> dom.contains(k)
}

/// There is one way only to put the elements of a set in ascending order.
pub proof fn lemma_sorted_unique(a: Seq<Seq<char>>, b: Seq<Seq<char>>)
    requires
        ascending(a),
        ascending(b),
        forall|k: Seq<char>| #[trigger] a.contains(k) <==> b.contains(k),
    ensures
        a == b,
    decreases a.len(),
{
    if a.len() == 0 {
        if b.len() > 0 {
            assert(b.contains(b[0]));
            assert(a.contains(b[0]));
        }
        assert(a =~= b);
    } else {
        assert(a.contains(a.last()));
        assert(b.contains(a.last()));
        let j = choose|j: int| 0 <= j < b.len() && b[j] == a.last();
        assert(b.contains(b.last()));
        assert(a.contains(b.last()));
        let i = choose|i: int| 0 <= i < a.len() && a[i] == b.last();
        if j < b.len() - 1 {
            assert(text_less(b[j], b[b.len() - 1]));
            if i < a.len() - 1 {
                assert(text_less(a[i], a[a.len() - 1]));
                lemma_less_transitive(a.last(), b.last(), a.last());
            }
            lemma_less_irreflexive(a.last());
        }
        let x = a.drop_last();
        let y = b.drop_last();
        assert forall|k: Seq<char>| #[trigger] x.contains(k) <==> y.contains(k) by {
            if x.contains(k) {
                let p = choose|p: int| 0 <= p < x.len() && x[p] == k;
                assert(a[p] == k);
                assert(a.contains(k));
                assert(b.contains(k));
                let q = choose|q: int| 0 <= q < b.len() && b[q] == k;
                assert(text_less(a[p], a[a.len() - 1]));
                lemma_less_irreflexive(k);
                assert(q < b.len() - 1);
                assert(y[q] == k);
            }
            if y.contains(k) {
                let p = choose|p: int| 0 <= p < y.len() && y[p] == k;
                assert(b[p] == k);
                assert(b.contains(k));
                assert(a.contains(k));
                let q = choose|q: int| 0 <= q < a.len() && a[q] == k;
                assert(text_less(b[p], b[b.len() - 1]));
                lemma_less_irreflexive(k);
                assert(q < a.len() - 1);
                assert(x[q] == k);
            }
        }
        assert(ascending(x));
        assert(ascending(y));
        lemma_sorted_unique(x, y);
        assert(a =~= x.push(a.last()));
        assert(b =~= y.push(b.last()));
    }
}

/// What stands in ascending order is what `sorted` gives.
pub proof fn lemma_sorted(s: Seq<Seq<char>>, dom: Set<Seq<char>>)
    requires
        ascending(s),
        lists(s, dom),
    ensures
        sorted(dom) == s,
{
    let t = sorted(dom);
    assert(ascending(t) && lists(t, dom));
    lemma_sorted_unique(t, s);
}

/// A map from names to values whose keys stand in ascending order.
pub struct SortedMap<V> {
    entries: Vec<(String, V)>,
}

impl<V> SortedMap<V> {
    #[verifier::type_invariant]
    spec fn inv(self) -> bool {
        &&& distinct_keys(self.entries@)
        &&& ascending(entry_keys(self.entries@))
    }

    /// The map itself.
    pub closed spec fn view(&self) -> Map<Seq<char>, V> {
        entry_map(self.entries@)
    }

    /// The keys in ascending order.
    pub closed spec fn order(&self) -> Seq<Seq<char>> {
        entry_keys(self.entries@)
    }

    pub fn new() -> (r: Self)
        ensures
            r@ == Map::<Seq<char>, V>::empty(),
            r.order() == Seq::<Seq<char>>::empty(),
    {
        let r = SortedMap { entries: Vec::new() };
        assert(r@ =~= Map::<Seq<char>, V>::empty());
        assert(r.order() =~= Seq::<Seq<char>>::empty());
        r
    }

    /// How many keys there are; together they are the domain, in ascending order.
    pub fn len(&self) -> (n: usize)
        ensures
            n == self.order().len(),
            ascending(self.order()),
            forall|k: Seq<char>| #[trigger] self@.contains_key(k) <==> self.order().contains(k),
    {
        proof {
            use_type_invariant(self);
            assert forall|k: Seq<char>| #[trigger] self@.contains_key(k) <==> self.order().contains(
                k,
            ) by {
                if self@.contains_key(k) {
                    let x = key_index(self.entries@, k);
                    assert(self.order()[x] == k);
                }
                if self.order().contains(k) {
                    let x = choose|x: int| 0 <= x < self.order().len() && self.order()[x] == k;
                    assert(self.entries@[x].0@ == k);
                }
            }
        }
        self.entries.len()
    }

    fn position(&self, k: &str) -> (r: Option<usize>)
        ensures
            match r {
                Some(i) => i < self.entries@.len() && self.entries@[i as int].0@ == k@,
                None => !has_key(self.entries@, k@),
            },
    {
        let mut i: usize = 0;
        while i < self.entries.len()
            invariant
                i <= self.entries@.len(),
                forall|j: int| 0 <= j < i ==> (#[trigger] self.entries@[j]).0@ != k@,
            decreases self.entries@.len() - i,
        {
            if same(self.entries[i].0.as_str(), k) {
                return Some(i);
            }
            i += 1;
        }
        None
    }

    pub fn get(&self, k: &str) -> (r: Option<&V>)
        ensures
            match r {
                Some(v) => self@.contains_key(k@) && *v == self@[k@],
                None => !self@.contains_key(k@),
            },
    {
        proof {
            use_type_invariant(self);
        }
        match self.position(k) {
            Some(i) => {
                proof {
                    lemma_key_index(self.entries@, i as int);
                }
                Some(&self.entries[i].1)
            },
            None => None,
        }
    }

    pub fn has(&self, k: &str) -> (r: bool)
        ensures
            r == self@.contains_key(k@),
    {
        self.get(k).is_some()
    }

    pub fn key_at(&self, i: usize) -> (r: &String)
        requires
            i < self.order().len(),
        ensures
            r@ == self.order()[i as int],
            self@.contains_key(r@),
    {
        proof {
            use_type_invariant(self);
            lemma_key_index(self.entries@, i as int);
        }
        &self.entries[i].0
    }

    pub fn value_at(&self, i: usize) -> (r: &V)
        requires
            i < self.order().len(),
        ensures
            self@.contains_key(self.order()[i as int]),
            *r == self@[self.order()[i as int]],
    {
        proof {
            use_type_invariant(self);
            lemma_key_index(self.entries@, i as int);
        }
        &self.entries[i].1
    }

    /// Puts `v` under `k`, in its place in the order.
    pub fn insert(&mut self, k: String, v: V)
        ensures
            final(self)@ == old(self)@.insert(k@, v),
    {
        proof {
            use_type_invariant(&*self);
        }
        let mut entries: Vec<(String, V)> = Vec::new();
        std::mem::swap(&mut entries, &mut self.entries);
        let ghost before = entries@;
        let ghost kv = k@;
        let mut i: usize = 0;
        while i < entries.len() && less(entries[i].0.as_str(), k.as_str())
            invariant
                i <= entries@.len(),
                entries@ == before,
                k@ == kv,
                forall|j: int| 0 <= j < i ==> text_less((#[trigger] entries@[j]).0@, kv),
            decreases entries@.len() - i,
        {
            i += 1;
        }
        let there = i < entries.len() && same(entries[i].0.as_str(), k.as_str());
        if there {
            proof {
                lemma_key_index(before, i as int);
            }
            entries.set(i, (k, v));
            proof {
                let after = entries@;
                assert(entry_keys(after) =~= entry_keys(before));
                lemma_replaced(before, after, i as int, v);
            }
        } else {
            entries.insert(i, (k, v));
            proof {
                let after = entries@;
                lemma_placed(before, after, i as int, v);
            }
        }
        self.entries = entries;
    }

    /// The values in the order of their keys; the map is left empty.
    pub fn drain(&mut self) -> (r: Vec<V>)
        ensures
            final(self)@ == Map::<Seq<char>, V>::empty(),
            ascending(old(self).order()),
            forall|k: Seq<char>| #[trigger]
                old(self)@.contains_key(k) <==> old(self).order().contains(k),
            r@ == old(self).order().map_values(|k: Seq<char>| old(self)@[k]),
    {
        proof {
            use_type_invariant(&*self);
        }
        let ghost before = *self;
        let n = self.len();
        let mut entries: Vec<(String, V)> = Vec::new();
        std::mem::swap(&mut entries, &mut self.entries);
        let ghost all = entries@;
        let mut out: Vec<V> = Vec::new();
        while entries.len() > 0
            invariant
                entries@.len() + out@.len() == all.len(),
                entries@ == all.skip(out@.len() as int),
                forall|j: int| 0 <= j < out@.len() ==> #[trigger] out@[j] == all[j].1,
            decreases entries@.len(),
        {
            let e = entries.remove(0);
            out.push(e.1);
            assert(entries@ =~= all.skip(out@.len() as int));
        }
        proof {
            assert(self@ =~= Map::<Seq<char>, V>::empty());
            let want = before.order().map_values(|k: Seq<char>| before@[k]);
            assert forall|j: int| 0 <= j < want.len() implies #[trigger] out@[j] == want[j] by {
                lemma_key_index(all, j);
            }
            assert(out@ =~= want);
        }
        out
    }
}

proof fn lemma_replaced<V>(before: Seq<(String, V)>, after: Seq<(String, V)>, i: int, v: V)
    requires
        distinct_keys(before),
        0 <= i < before.len(),
        after.len() == before.len(),
        after[i].0@ == before[i].0@,
        after[i].1 == v,
        forall|j: int| 0 <= j < before.len() && j != i ==> #[trigger] after[j] == before[j],
    ensures
        distinct_keys(after),
        entry_map(after) == entry_map(before).insert(before[i].0@, v),
{
    let kv = before[i].0@;
    assert(distinct_keys(after)) by {
        assert forall|a: int, b: int| 0 <= a < b < after.len() implies (#[trigger] after[a]).0@ != (
        #[trigger] after[b]).0@ by {
            assert(before[a].0@ != before[b].0@);
        }
    }
    assert forall|q: Seq<char>| has_key(after, q) <==> has_key(before, q) by {
        if has_key(after, q) {
            let x = key_index(after, q);
            assert(before[x].0@ == q);
        }
        if has_key(before, q) {
            let x = key_index(before, q);
            assert(after[x].0@ == q);
        }
    }
    assert(has_key(before, kv)) by {
        assert(before[i].0@ == kv);
    }
    assert forall|q: Seq<char>| has_key(after, q) implies #[trigger] entry_map(after)[q]
        == entry_map(before).insert(kv, v)[q] by {
        let x = key_index(before, q);
        lemma_key_index(before, x);
        assert(after[x].0@ == q);
        lemma_key_index(after, x);
    }
    assert(entry_map(after) =~= entry_map(before).insert(kv, v));
}

proof fn lemma_placed<V>(before: Seq<(String, V)>, after: Seq<(String, V)>, i: int, v: V)
    requires
        distinct_keys(before),
        ascending(entry_keys(before)),
        0 <= i <= before.len(),
        after.len() == before.len() + 1,
        after[i].1 == v,
        after == before.insert(i, after[i]),
        forall|j: int| 0 <= j < i ==> text_less((#[trigger] before[j]).0@, after[i].0@),
        i < before.len() ==> !text_less(before[i].0@, after[i].0@) && before[i].0@ != after[i].0@,
    ensures
        distinct_keys(after),
        ascending(entry_keys(after)),
        entry_map(after) == entry_map(before).insert(after[i].0@, v),
{
    let kv = after[i].0@;
    let keys = entry_keys(before);
    let now = entry_keys(after);
    assert forall|j: int| i <= j < before.len() implies text_less(kv, (#[trigger] before[j]).0@) by {
        lemma_less_total(before[i].0@, kv);
        if j > i {
            assert(text_less(keys[i], keys[j]));
            lemma_less_transitive(kv, before[i].0@, before[j].0@);
        }
    }
    assert(ascending(now)) by {
        assert forall|a: int, b: int| 0 <= a < b < now.len() implies text_less(
            #[trigger] now[a],
            #[trigger] now[b],
        ) by {
            let x = if a < i {
                a
            } else {
                a - 1
            };
            let y = if b < i {
                b
            } else {
                b - 1
            };
            if a == i {
                assert(now[b] == before[y].0@);
            } else if b == i {
                assert(now[a] == before[x].0@);
            } else {
                assert(now[a] == keys[x]);
                assert(now[b] == keys[y]);
            }
        }
    }
    assert(distinct_keys(after)) by {
        assert forall|a: int, b: int| 0 <= a < b < after.len() implies (#[trigger] after[a]).0@ != (
        #[trigger] after[b]).0@ by {
            assert(text_less(now[a], now[b]));
            lemma_less_irreflexive(now[a]);
        }
    }
    assert forall|q: Seq<char>| has_key(after, q) <==> has_key(before, q) || q == kv by {
        if has_key(after, q) {
            let x = key_index(after, q);
            if x < i {
                assert(before[x].0@ == q);
            } else if x > i {
                assert(before[x - 1].0@ == q);
            }
        }
        if has_key(before, q) {
            let x = key_index(before, q);
            if x < i {
                assert(after[x].0@ == q);
            } else {
                assert(after[x + 1].0@ == q);
            }
        }
        assert(after[i].0@ == kv);
    }
    assert forall|q: Seq<char>| has_key(after, q) implies #[trigger] entry_map(after)[q]
        == entry_map(before).insert(kv, v)[q] by {
        let x = key_index(after, q);
        lemma_key_index(after, x);
        if x < i {
            lemma_key_index(before, x);
        } else if x > i {
            lemma_key_index(before, x - 1);
        }
    }
    assert(entry_map(after) =~= entry_map(before).insert(kv, v));
}

/// A set of names.
pub struct NameSet {
    names: Vec<String>,
}

impl NameSet {
    /// The names in it.
    pub closed spec fn view(&self) -> Set<Seq<char>> {
        Set::new(|k: Seq<char>| exists|i: int| 0 <= i < self.names@.len() && (#[trigger] self.names@[i])@ == k)
    }

    pub fn new() -> (r: Self)
        ensures
            r@ == Set::<Seq<char>>::empty(),
    {
        let r = NameSet { names: Vec::new() };
        assert(r@ =~= Set::<Seq<char>>::empty());
        r
    }

    pub fn contains(&self, k: &str) -> (r: bool)
        ensures
            r == self@.contains(k@),
    {
        let mut i: usize = 0;
        while i < self.names.len()
            invariant
                i <= self.names@.len(),
                forall|j: int| 0 <= j < i ==> (#[trigger] self.names@[j])@ != k@,
            decreases self.names@.len() - i,
        {
            if same(self.names[i].as_str(), k) {
                return true;
            }
            i += 1;
        }
        false
    }

    /// Adds a name; the result says whether it was new.
    pub fn insert(&mut self, k: String) -> (r: bool)
        ensures
            r == !old(self)@.contains(k@),
            final(self)@ == old(self)@.insert(k@),
    {
        if self.contains(k.as_str()) {
            assert(self@ =~= self@.insert(k@));
            false
        } else {
            let ghost before = self.names@;
            let ghost kv = k@;
            self.names.push(k);
            proof {
                let now = self.names@;
                assert forall|q: Seq<char>| self@.contains(q) <==> old(self)@.contains(q) || q == kv by {
                    if old(self)@.contains(q) {
                        let x = choose|i: int| 0 <= i < before.len() && (#[trigger] before[i])@ == q;
                        assert(now[x]@ == q);
                    }
                    if self@.contains(q) {
                        let x = choose|i: int| 0 <= i < now.len() && (#[trigger] now[i])@ == q;
                        if x < before.len() {
                            assert(before[x]@ == q);
                        }
                    }
                    assert(now[before.len() as int]@ == kv);
                }
                assert(self@ =~= old(self)@.insert(kv));
            }
            true
        }
    }
}

} // verus!
