//! What holds of every layout as it is asked for: where a field is found, that no two of
//! them meet, and that a lock keeps them in place.
use crate::ast::FieldV;
use crate::codegen::suffix_spec;
use crate::codegen::layout::{
    class_manifest, committed_end, committed_of, contract_placement, end_of, field_in, field_key,
    is_end, last_placed, layout_spec, mem_field_in, mem_layouts, put_mem, put_placed,
    storage_layouts, stored_fields, struct_layouts, widths_spec, LayV,
};
use crate::codegen::packing::{
    declares, fresh_at, fresh_before, fresh_fold, fresh_order, goes_before, law_size_order,
    lock_fold, mem_fold, pack_locked_spec, pack_memory_spec, pack_storage_spec, removed_field,
    size_order, span_of, FreshV, LocV, MemoryField, StorageField,
};
use crate::codegen::packing_laws::{
    all_apart, apart, bytes_for, committed_place, distinct_names, holds_byte, in_slot,
    law_fields_are_apart, law_lock_is_kept, law_memory_is_dense, lemma_all_committed,
    lemma_last_placed, lemma_pack_names, lemma_places, room_for, slots_for, sound_lock,
    sound_place,
};
use crate::semantic::WorldV;
use vstd::prelude::*;

verus! {

/// A name as a program spells it, without a dot.
pub open spec fn plain_name(s: Seq<char>) -> bool {
    forall|i: int| 0 <= i < s.len() ==> #[trigger] s[i] != '.'
}

/// The fields of every class have plain names, each its own.
pub open spec fn fields_named(w: WorldV) -> bool {
    forall|c: Seq<char>| #[trigger]
        w.classes.contains_key(c) ==> distinct_names(w.classes[c].fields) && forall|i: int|
            0 <= i < w.classes[c].fields.len() ==> plain_name(
                (#[trigger] w.classes[c].fields[i]).name,
            )
}

/// A class whose fields live in storage.
pub open spec fn stored_class(w: WorldV, c: Seq<char>) -> bool {
    w.classes.contains_key(c) && w.classes[c].is_global && c != "Message"@ && c != "Block"@
}

/// The sizes of the classes once all are laid out.
pub open spec fn final_sizes(w: WorldV) -> Map<Seq<char>, usize> {
    mem_layouts(w, w.class_order.len()).sizes
}

/// Where the fields of a contract go.
pub open spec fn placement(
    w: WorldV,
    sizes: Map<Seq<char>, usize>,
    lock: Option<Map<Seq<char>, Map<Seq<char>, LocV>>>,
    c: Seq<char>,
) -> Result<Seq<(Seq<char>, StorageField)>, Seq<char>> {
    contract_placement(w, sizes, w.classes[c], c, committed_of(lock, c))
}

proof fn lemma_key(c1: Seq<char>, f1: Seq<char>, c2: Seq<char>, f2: Seq<char>)
    requires
        plain_name(f1),
        plain_name(f2),
        field_key(c1, f1) == field_key(c2, f2),
    ensures
        c1 == c2,
        f1 == f2,
{
    reveal_strlit(".");
    let k1 = field_key(c1, f1);
    let k2 = field_key(c2, f2);
    assert(k1[c1.len() as int] == '.' && k2[c2.len() as int] == '.');
    assert(k1.len() == c1.len() + 1 + f1.len());
    assert(k2.len() == c2.len() + 1 + f2.len());
    if c1.len() < c2.len() {
        assert(f1[c2.len() - c1.len() - 1] == k1[c2.len() as int]);
    } else if c2.len() < c1.len() {
        assert(f2[c1.len() - c2.len() - 1] == k2[c1.len() as int]);
    }
    assert(c1 =~= k1.subrange(0, c1.len() as int));
    assert(c2 =~= k2.subrange(0, c2.len() as int));
    assert(f1 =~= k1.subrange(c1.len() as int + 1, k1.len() as int));
    assert(f2 =~= k2.subrange(c2.len() as int + 1, k2.len() as int));
}

proof fn lemma_stored_fields(fields: Seq<FieldV>, tr: bool)
    ensures
        forall|k: int|
            0 <= k < stored_fields(fields, tr).len() ==> fields.contains(
                #[trigger] stored_fields(fields, tr)[k],
            ) && !stored_fields(fields, tr)[k].is_const && stored_fields(
                fields,
                tr,
            )[k].is_transient == tr,
        forall|i: int|
            0 <= i < fields.len() && !(#[trigger] fields[i]).is_const && fields[i].is_transient
                == tr ==> stored_fields(fields, tr).contains(fields[i]),
        distinct_names(fields) ==> distinct_names(stored_fields(fields, tr)),
    decreases fields.len(),
{
    reveal(Seq::filter);
    let out = stored_fields(fields, tr);
    if fields.len() > 0 {
        let front = fields.drop_last();
        let last = fields.last();
        lemma_stored_fields(front, tr);
        let sub = stored_fields(front, tr);
        let kept = !last.is_const && last.is_transient == tr;
        assert(out == if kept {
            sub.push(last)
        } else {
            sub
        });
        assert(fields[fields.len() - 1] == last);
        assert forall|k: int| 0 <= k < out.len() implies fields.contains(#[trigger] out[k])
            && !out[k].is_const && out[k].is_transient == tr by {
            if k < sub.len() {
                assert(front.contains(sub[k]));
                let x = choose|x: int| 0 <= x < front.len() && front[x] == sub[k];
                assert(fields[x] == out[k]);
            }
        }
        assert forall|i: int|
            0 <= i < fields.len() && !(#[trigger] fields[i]).is_const && fields[i].is_transient
                == tr implies out.contains(fields[i]) by {
            if i < front.len() {
                assert(front[i] == fields[i]);
                assert(sub.contains(front[i]));
                let x = choose|x: int| 0 <= x < sub.len() && sub[x] == front[i];
                assert(out[x] == fields[i]);
            } else {
                assert(out[sub.len() as int] == last);
            }
        }
        if distinct_names(fields) {
            assert(distinct_names(front)) by {
                assert forall|i: int, j: int| 0 <= i < j < front.len() implies (
                #[trigger] front[i]).name != (#[trigger] front[j]).name by {
                    assert(fields[i].name != fields[j].name);
                }
            }
            assert forall|i: int, j: int| 0 <= i < j < out.len() implies (#[trigger] out[i]).name
                != (#[trigger] out[j]).name by {
                if j == sub.len() {
                    assert(front.contains(sub[i]));
                    let x = choose|x: int| 0 <= x < front.len() && front[x] == sub[i];
                    assert(fields[x].name != fields[fields.len() - 1].name);
                } else {
                    assert(sub[i].name != sub[j].name);
                }
            }
        }
    }
}

proof fn lemma_last_some(p: Seq<(Seq<char>, StorageField)>, name: Seq<char>, n: nat)
    requires
        n <= p.len(),
    ensures
        match last_placed(p, name, n) {
            Some(f) => exists|i: int| 0 <= i < n && #[trigger] p[i] == (name, f),
            None => forall|i: int| 0 <= i < n ==> (#[trigger] p[i]).0 != name,
        },
    decreases n,
{
    if n > 0 {
        if p[n - 1].0 == name {
            assert(p[n - 1] == (name, p[n - 1].1));
        } else {
            lemma_last_some(p, name, (n - 1) as nat);
        }
    }
}

proof fn lemma_last_concat(
    a: Seq<(Seq<char>, StorageField)>,
    b: Seq<(Seq<char>, StorageField)>,
    name: Seq<char>,
    n: nat,
)
    requires
        n <= a.len() + b.len(),
    ensures
        n <= a.len() ==> last_placed(a + b, name, n) == last_placed(a, name, n),
        n > a.len() ==> last_placed(a + b, name, n) == (match last_placed(
            b,
            name,
            (n - a.len()) as nat,
        ) {
            Some(f) => Some(f),
            None => last_placed(a, name, a.len()),
        }),
    decreases n,
{
    if n > 0 {
        lemma_last_concat(a, b, name, (n - 1) as nat);
        if n <= a.len() {
            assert((a + b)[n - 1] == a[n - 1]);
        } else {
            assert((a + b)[n - 1] == b[n - 1 - a.len()]);
        }
    }
}

/// The placement of `name` in two rows, one behind the other.
proof fn lemma_last_both(
    a: Seq<(Seq<char>, StorageField)>,
    b: Seq<(Seq<char>, StorageField)>,
    name: Seq<char>,
)
    ensures
        last_placed(a + b, name, (a + b).len()) == (match last_placed(b, name, b.len()) {
            Some(f) => Some(f),
            None => last_placed(a, name, a.len()),
        }),
{
    lemma_last_concat(a, b, name, (a + b).len());
}

proof fn lemma_fresh_at(order: Seq<int>, fields: Seq<FieldV>, ws: Seq<usize>, f: int, i: int)
    requires
        0 <= i <= order.len(),
    ensures
        i <= fresh_at(order, fields, ws, f, i) <= order.len(),
    decreases order.len() - i,
{
    if i < order.len() && !fresh_before(fields, ws, f, order[i]) {
        lemma_fresh_at(order, fields, ws, f, i + 1);
    }
}

proof fn lemma_fresh_order(fresh: Seq<int>, fields: Seq<FieldV>, ws: Seq<usize>, n: nat)
    requires
        n <= fresh.len(),
        forall|i: int| 0 <= i < fresh.len() ==> 0 <= #[trigger] fresh[i] < fields.len(),
    ensures
        forall|i: int|
            0 <= i < fresh_order(fresh, fields, ws, n).len() ==> 0 <= #[trigger] fresh_order(
                fresh,
                fields,
                ws,
                n,
            )[i] < fields.len(),
    decreases n,
{
    if n > 0 {
        lemma_fresh_order(fresh, fields, ws, (n - 1) as nat);
        let o = fresh_order(fresh, fields, ws, (n - 1) as nat);
        let at = fresh_at(o, fields, ws, fresh[n - 1], 0);
        lemma_fresh_at(o, fields, ws, fresh[n - 1], 0);
        let r = fresh_order(fresh, fields, ws, n);
        assert(r == o.insert(at, fresh[n - 1]));
        assert forall|i: int| 0 <= i < r.len() implies 0 <= #[trigger] r[i] < fields.len() by {
            if i < at {
                assert(r[i] == o[i]);
            } else if i > at {
                assert(r[i] == o[i - 1]);
            }
        }
    }
}

/// Whether every placement is that of a declared field.
spec fn declared_only(p: Seq<(Seq<char>, StorageField)>, fields: Seq<FieldV>) -> bool {
    forall|i: int| 0 <= i < p.len() ==> declares(fields, (#[trigger] p[i]).0)
}

proof fn lemma_fresh_names(
    st: FreshV,
    fields: Seq<FieldV>,
    ws: Seq<usize>,
    order: Seq<int>,
    n: nat,
)
    requires
        n <= order.len(),
        declared_only(st.placed, fields),
        forall|i: int| 0 <= i < order.len() ==> 0 <= #[trigger] order[i] < fields.len(),
    ensures
        declared_only(fresh_fold(st, fields, ws, order, n).placed, fields),
    decreases n,
{
    if n > 0 {
        lemma_fresh_names(st, fields, ws, order, (n - 1) as nat);
        let a = fresh_fold(st, fields, ws, order, (n - 1) as nat).placed;
        let b = fresh_fold(st, fields, ws, order, n).placed;
        assert(0 <= order[n - 1] < fields.len());
        assert forall|i: int| 0 <= i < b.len() implies declares(fields, (#[trigger] b[i]).0) by {
            if i < a.len() {
                assert(b[i] == a[i]);
            } else {
                assert(fields[order[n - 1]].name == b[i].0);
            }
        }
    }
}

proof fn lemma_lock_names(
    class: Seq<char>,
    committed: Map<Seq<char>, LocV>,
    fields: Seq<FieldV>,
    ws: Seq<usize>,
    n: nat,
)
    requires
        n <= fields.len(),
    ensures
        lock_fold(class, committed, fields, ws, n) matches Ok(st) ==> declared_only(
            st.placed,
            fields,
        ) && forall|i: int| 0 <= i < st.fresh.len() ==> 0 <= #[trigger] st.fresh[i] < fields.len(),
    decreases n,
{
    if n > 0 {
        lemma_lock_names(class, committed, fields, ws, (n - 1) as nat);
        match lock_fold(class, committed, fields, ws, n) {
            Ok(b) => {
                let a = lock_fold(class, committed, fields, ws, (n - 1) as nat)->Ok_0;
                assert(declares(fields, fields[n - 1].name));
                assert forall|i: int| 0 <= i < b.placed.len() implies declares(
                    fields,
                    (#[trigger] b.placed[i]).0,
                ) by {
                    if i < a.placed.len() {
                        assert(b.placed[i] == a.placed[i]);
                    }
                }
                assert forall|i: int| 0 <= i < b.fresh.len() implies 0 <= #[trigger] b.fresh[i]
                    < fields.len() by {
                    if i < a.fresh.len() {
                        assert(b.fresh[i] == a.fresh[i]);
                    }
                }
            },
            Err(_) => {},
        }
    }
}

proof fn lemma_pack_declared(fields: Seq<FieldV>, ws: Seq<usize>, tr: bool)
    requires
        fields.len() == ws.len(),
    ensures
        declared_only(pack_storage_spec(fields, ws, 0, tr).0, fields),
        forall|i: int|
            0 <= i < pack_storage_spec(fields, ws, 0, tr).0.len() ==> (#[trigger] pack_storage_spec(
                fields,
                ws,
                0,
                tr,
            ).0[i]).1.is_transient == tr,
{
    let order = size_order(ws, ws.len());
    law_size_order(ws, ws.len());
    lemma_pack_names(fields, ws, order, 0, tr, ws.len());
    let p = pack_storage_spec(fields, ws, 0, tr).0;
    assert forall|i: int| 0 <= i < p.len() implies declares(fields, (#[trigger] p[i]).0) by {
        assert(fields[order[i]].name == p[i].0);
    }
}

proof fn lemma_locked_declared(
    class: Seq<char>,
    fields: Seq<FieldV>,
    ws: Seq<usize>,
    committed: Map<Seq<char>, LocV>,
    append: usize,
)
    ensures
        pack_locked_spec(class, fields, ws, committed, append) matches Ok((p, _)) ==> declared_only(
            p,
            fields,
        ),
{
    if pack_locked_spec(class, fields, ws, committed, append) is Ok {
        lemma_lock_names(class, committed, fields, ws, fields.len());
        let st = lock_fold(class, committed, fields, ws, fields.len())->Ok_0;
        let order = fresh_order(st.fresh, fields, ws, st.fresh.len());
        lemma_fresh_order(st.fresh, fields, ws, st.fresh.len());
        lemma_fresh_names(
            FreshV { placed: st.placed, hw: st.hw, append },
            fields,
            ws,
            order,
            order.len(),
        );
    }
}

/// Where the fields of a contract go: those that stay, and behind them the transient ones.
spec fn lasting(
    w: WorldV,
    sizes: Map<Seq<char>, usize>,
    lock: Option<Map<Seq<char>, Map<Seq<char>, LocV>>>,
    c: Seq<char>,
) -> Seq<(Seq<char>, StorageField)> {
    let per = stored_fields(w.classes[c].fields, false);
    let ws = widths_spec(w, sizes, per);
    match committed_of(lock, c) {
        Some(m) => pack_locked_spec(c, per, ws, m, committed_end(m))->Ok_0.0,
        None => pack_storage_spec(per, ws, 0, false).0,
    }
}

spec fn passing(w: WorldV, sizes: Map<Seq<char>, usize>, c: Seq<char>) -> Seq<
    (Seq<char>, StorageField),
> {
    let tra = stored_fields(w.classes[c].fields, true);
    pack_storage_spec(tra, widths_spec(w, sizes, tra), 0, true).0
}

proof fn lemma_parts_of_placement(
    w: WorldV,
    sizes: Map<Seq<char>, usize>,
    lock: Option<Map<Seq<char>, Map<Seq<char>, LocV>>>,
    c: Seq<char>,
)
    requires
        placement(w, sizes, lock, c) is Ok,
    ensures
        placement(w, sizes, lock, c)->Ok_0 == lasting(w, sizes, lock, c) + passing(w, sizes, c),
        declared_only(lasting(w, sizes, lock, c), stored_fields(w.classes[c].fields, false)),
        declared_only(passing(w, sizes, c), stored_fields(w.classes[c].fields, true)),
        forall|i: int|
            0 <= i < passing(w, sizes, c).len() ==> (#[trigger] passing(
                w,
                sizes,
                c,
            )[i]).1.is_transient,
{
    let per = stored_fields(w.classes[c].fields, false);
    let tra = stored_fields(w.classes[c].fields, true);
    lemma_pack_declared(tra, widths_spec(w, sizes, tra), true);
    lemma_pack_declared(per, widths_spec(w, sizes, per), false);
    match committed_of(lock, c) {
        Some(m) => lemma_locked_declared(c, per, widths_spec(w, sizes, per), m, committed_end(m)),
        None => {},
    }
}

/// Every placement is that of a field of the class that owns storage.
proof fn lemma_placed_names(
    w: WorldV,
    sizes: Map<Seq<char>, usize>,
    lock: Option<Map<Seq<char>, Map<Seq<char>, LocV>>>,
    c: Seq<char>,
)
    requires
        placement(w, sizes, lock, c) is Ok,
    ensures
        ({
            let p = placement(w, sizes, lock, c)->Ok_0;
            forall|i: int|
                0 <= i < p.len() ==> exists|k: int|
                    0 <= k < w.classes[c].fields.len() && (#[trigger] w.classes[c].fields[k]).name
                        == (#[trigger] p[i]).0 && !w.classes[c].fields[k].is_const
        }),
{
    let fs = w.classes[c].fields;
    let a = lasting(w, sizes, lock, c);
    let b = passing(w, sizes, c);
    let p = placement(w, sizes, lock, c)->Ok_0;
    lemma_parts_of_placement(w, sizes, lock, c);
    lemma_stored_fields(fs, false);
    lemma_stored_fields(fs, true);
    assert forall|i: int| 0 <= i < p.len() implies exists|k: int|
        0 <= k < fs.len() && (#[trigger] fs[k]).name == (#[trigger] p[i]).0 && !fs[k].is_const by {
        let tr = i >= a.len();
        let own = stored_fields(fs, tr);
        if tr {
            assert(p[i] == b[i - a.len()]);
        } else {
            assert(p[i] == a[i]);
        }
        assert(declares(own, p[i].0));
        let x = choose|x: int| 0 <= x < own.len() && (#[trigger] own[x]).name == p[i].0;
        assert(fs.contains(own[x]));
        let k = choose|k: int| 0 <= k < fs.len() && fs[k] == own[x];
        assert(fs[k].name == p[i].0);
    }
}

proof fn lemma_put_other(
    m: Map<Seq<char>, StorageField>,
    class: Seq<char>,
    p: Seq<(Seq<char>, StorageField)>,
    n: nat,
    c: Seq<char>,
    f: Seq<char>,
)
    requires
        n <= p.len(),
        plain_name(f),
        forall|i: int| 0 <= i < p.len() ==> plain_name((#[trigger] p[i]).0),
    ensures
        field_in(put_placed(m, class, p, n), c, f) == (if c == class && last_placed(p, f, n)
            is Some {
            last_placed(p, f, n)
        } else {
            field_in(m, c, f)
        }),
    decreases n,
{
    if n > 0 {
        lemma_put_other(m, class, p, (n - 1) as nat, c, f);
        assert(plain_name(p[n - 1].0));
        if field_key(class, p[n - 1].0) == field_key(c, f) {
            lemma_key(class, p[n - 1].0, c, f);
        }
    }
}

proof fn lemma_plain_placed(
    w: WorldV,
    sizes: Map<Seq<char>, usize>,
    lock: Option<Map<Seq<char>, Map<Seq<char>, LocV>>>,
    c: Seq<char>,
)
    requires
        fields_named(w),
        w.classes.contains_key(c),
        placement(w, sizes, lock, c) is Ok,
    ensures
        forall|i: int|
            0 <= i < placement(w, sizes, lock, c)->Ok_0.len() ==> plain_name(
                (#[trigger] placement(w, sizes, lock, c)->Ok_0[i]).0,
            ),
{
    lemma_placed_names(w, sizes, lock, c);
    let p = placement(w, sizes, lock, c)->Ok_0;
    assert forall|i: int| 0 <= i < p.len() implies plain_name((#[trigger] p[i]).0) by {
        let k = choose|k: int|
            0 <= k < w.classes[c].fields.len() && (#[trigger] w.classes[c].fields[k]).name == p[i].0
                && !w.classes[c].fields[k].is_const;
        assert(plain_name(w.classes[c].fields[k].name));
    }
}

/// Whether a class is among the first `n` that are laid out.
spec fn among(w: WorldV, c: Seq<char>, n: nat) -> bool {
    exists|m: int| 0 <= m < n && m < w.class_order.len() && #[trigger] w.class_order[m] == c
}

proof fn lemma_storage(
    w: WorldV,
    lay: LayV,
    lock: Option<Map<Seq<char>, Map<Seq<char>, LocV>>>,
    n: nat,
    c: Seq<char>,
    f: Seq<char>,
)
    requires
        n <= w.class_order.len(),
        fields_named(w),
        plain_name(f),
    ensures
        storage_layouts(w, lay, lock, n) matches Ok(st) ==> {
            &&& st == LayV { storage: st.storage, manifest: st.manifest, ..lay }
            &&& if stored_class(w, c) && among(w, c, n) {
                placement(w, lay.sizes, lock, c) matches Ok(p) && field_in(st.storage, c, f) == (
                match last_placed(p, f, p.len()) {
                    Some(sf) => Some(sf),
                    None => field_in(lay.storage, c, f),
                }) && st.manifest.contains_key(c) && st.manifest[c] == class_manifest(
                    w.classes[c].fields,
                    p,
                    w.classes[c].fields.len(),
                )
            } else {
                field_in(st.storage, c, f) == field_in(lay.storage, c, f)
                    && st.manifest.contains_key(c) == lay.manifest.contains_key(c)
                    && st.manifest[c] == lay.manifest[c]
            }
        },
    decreases n,
{
    if n > 0 {
        let m = (n - 1) as nat;
        lemma_storage(w, lay, lock, m, c, f);
        match storage_layouts(w, lay, lock, n) {
            Err(_) => {},
            Ok(st) => {
                let a = storage_layouts(w, lay, lock, m)->Ok_0;
                let name = w.class_order[n - 1];
                assert(among(w, name, n)) by {
                    assert(w.class_order[n - 1] == name);
                }
                assert(among(w, c, m) ==> among(w, c, n));
                if c != name {
                    assert(among(w, c, n) ==> among(w, c, m)) by {
                        if among(w, c, n) {
                            let x = choose|x: int|
                                0 <= x < n && x < w.class_order.len() && #[trigger] w.class_order[x]
                                    == c;
                            assert(x < m && w.class_order[x] == c);
                        }
                    }
                }
                if stored_class(w, name) {
                    let p = placement(w, lay.sizes, lock, name)->Ok_0;
                    lemma_plain_placed(w, lay.sizes, lock, name);
                    lemma_put_other(a.storage, name, p, p.len(), c, f);
                }
            },
        }
    }
}

proof fn lemma_structs(w: WorldV, lay: LayV, n: nat, c: Seq<char>, f: Seq<char>)
    requires
        n <= w.class_order.len(),
        fields_named(w),
        plain_name(f),
    ensures
        ({
            let st = struct_layouts(w, lay, n);
            let fs = w.classes[c].fields;
            let p = pack_storage_spec(fs, widths_spec(w, lay.sizes, fs), 0, false).0;
            &&& st == LayV { structs: st.structs, ..lay }
            &&& if w.classes.contains_key(c) && among(w, c, n) {
                field_in(st.structs, c, f) == (match last_placed(p, f, p.len()) {
                    Some(sf) => Some(sf),
                    None => field_in(lay.structs, c, f),
                })
            } else {
                field_in(st.structs, c, f) == field_in(lay.structs, c, f)
            }
        }),
    decreases n,
{
    if n > 0 {
        let m = (n - 1) as nat;
        lemma_structs(w, lay, m, c, f);
        let a = struct_layouts(w, lay, m);
        let name = w.class_order[n - 1];
        assert(among(w, name, n)) by {
            assert(w.class_order[n - 1] == name);
        }
        assert(among(w, c, m) ==> among(w, c, n));
        if c != name {
            assert(among(w, c, n) ==> among(w, c, m)) by {
                if among(w, c, n) {
                    let x = choose|x: int|
                        0 <= x < n && x < w.class_order.len() && #[trigger] w.class_order[x] == c;
                    assert(x < m && w.class_order[x] == c);
                }
            }
        }
        if w.classes.contains_key(name) {
            let fs = w.classes[name].fields;
            let ws = widths_spec(w, lay.sizes, fs);
            let p = pack_storage_spec(fs, ws, 0, false).0;
            lemma_pack_declared(fs, ws, false);
            assert forall|i: int| 0 <= i < p.len() implies plain_name((#[trigger] p[i]).0) by {
                assert(declares(fs, p[i].0));
                let k = choose|k: int| 0 <= k < fs.len() && (#[trigger] fs[k]).name == p[i].0;
                assert(plain_name(w.classes[name].fields[k].name));
            }
            lemma_put_other(a.structs, name, p, p.len(), c, f);
        }
    }
}

proof fn lemma_mem_only(w: WorldV, n: nat)
    ensures
        mem_layouts(w, n).structs == Map::<Seq<char>, StorageField>::empty(),
        mem_layouts(w, n).storage == Map::<Seq<char>, StorageField>::empty(),
        mem_layouts(w, n).manifest == Map::<Seq<char>, Map<Seq<char>, LocV>>::empty(),
    decreases n,
{
    if n > 0 {
        lemma_mem_only(w, (n - 1) as nat);
    }
}

/// What a whole layout says of a field in storage.
proof fn lemma_layout(
    w: WorldV,
    lock: Option<Map<Seq<char>, Map<Seq<char>, LocV>>>,
    lay: LayV,
    c: Seq<char>,
    f: Seq<char>,
)
    requires
        layout_spec(w, lock) == Ok::<LayV, Seq<char>>(lay),
        fields_named(w),
        plain_name(f),
    ensures
        lay.mem == mem_layouts(w, w.class_order.len()).mem,
        lay.sizes == final_sizes(w),
        if stored_class(w, c) && w.class_order.contains(c) {
            placement(w, final_sizes(w), lock, c) matches Ok(p) && field_in(lay.storage, c, f)
                == last_placed(p, f, p.len()) && lay.manifest.contains_key(c) && lay.manifest[c]
                == class_manifest(w.classes[c].fields, p, w.classes[c].fields.len())
        } else {
            field_in(lay.storage, c, f) is None && !lay.manifest.contains_key(c)
        },
        field_in(lay.structs, c, f) == (if w.classes.contains_key(c) && w.class_order.contains(c) {
            let fs = w.classes[c].fields;
            let p = pack_storage_spec(fs, widths_spec(w, final_sizes(w), fs), 0, false).0;
            last_placed(p, f, p.len())
        } else {
            None
        }),
{
    let n = w.class_order.len();
    let a = mem_layouts(w, n);
    let b = struct_layouts(w, a, n);
    lemma_mem_only(w, n);
    lemma_structs(w, a, n, c, f);
    lemma_storage(w, b, lock, n, c, f);
    assert(among(w, c, n) <==> w.class_order.contains(c)) by {
        if w.class_order.contains(c) {
            let x = choose|x: int| 0 <= x < w.class_order.len() && w.class_order[x] == c;
            assert(w.class_order[x] == c);
        }
    }
}

/// A const field has no storage field: its value is carried in the code.
pub proof fn law_const_fields_have_no_storage(
    w: WorldV,
    lock: Option<Map<Seq<char>, Map<Seq<char>, LocV>>>,
    lay: LayV,
    c: Seq<char>,
    k: int,
)
    requires
        layout_spec(w, lock) == Ok::<LayV, Seq<char>>(lay),
        fields_named(w),
        w.classes.contains_key(c),
        0 <= k < w.classes[c].fields.len(),
        w.classes[c].fields[k].is_const,
    ensures
        field_in(lay.storage, c, w.classes[c].fields[k].name) is None,
{
    let fs = w.classes[c].fields;
    let f = fs[k].name;
    assert(plain_name(w.classes[c].fields[k].name));
    lemma_layout(w, lock, lay, c, f);
    if stored_class(w, c) && w.class_order.contains(c) {
        let p = placement(w, final_sizes(w), lock, c)->Ok_0;
        lemma_placed_names(w, final_sizes(w), lock, c);
        lemma_last_some(p, f, p.len());
        if last_placed(p, f, p.len()) is Some {
            let sf = last_placed(p, f, p.len())->0;
            let i = choose|i: int| 0 <= i < p.len() && #[trigger] p[i] == (f, sf);
            let j = choose|j: int|
                0 <= j < w.classes[c].fields.len() && (#[trigger] w.classes[c].fields[j]).name
                    == p[i].0 && !w.classes[c].fields[j].is_const;
            if j < k {
                assert(fs[j].name != fs[k].name);
            } else if k < j {
                assert(fs[k].name != fs[j].name);
            }
        }
    }
}

proof fn lemma_all_kept(fields: Seq<FieldV>)
    requires
        forall|k: int|
            0 <= k < fields.len() ==> !(#[trigger] fields[k]).is_const && !fields[k].is_transient,
    ensures
        stored_fields(fields, false) == fields,
        stored_fields(fields, true) == Seq::<FieldV>::empty(),
    decreases fields.len(),
{
    reveal(Seq::filter);
    if fields.len() > 0 {
        let front = fields.drop_last();
        assert forall|k: int| 0 <= k < front.len() implies !(#[trigger] front[k]).is_const
            && !front[k].is_transient by {
            assert(front[k] == fields[k]);
        }
        lemma_all_kept(front);
        assert(!fields[fields.len() - 1].is_const && !fields[fields.len() - 1].is_transient);
        assert(stored_fields(fields, false) =~= fields);
        assert(stored_fields(fields, true) =~= Seq::<FieldV>::empty());
    } else {
        assert(stored_fields(fields, false) =~= fields);
        assert(stored_fields(fields, true) =~= Seq::<FieldV>::empty());
    }
}

/// A contract without const and transient fields lies in storage as a struct of its fields
/// does from its first slot on.
pub proof fn law_contract_lies_as_a_struct(w: WorldV, lay: LayV, c: Seq<char>, f: Seq<char>)
    requires
        layout_spec(w, None) == Ok::<LayV, Seq<char>>(lay),
        fields_named(w),
        plain_name(f),
        stored_class(w, c),
        w.class_order.contains(c),
        forall|k: int|
            0 <= k < w.classes[c].fields.len() ==> !(#[trigger] w.classes[c].fields[k]).is_const
                && !w.classes[c].fields[k].is_transient,
    ensures
        field_in(lay.structs, c, f) == field_in(lay.storage, c, f),
{
    let fs = w.classes[c].fields;
    assert forall|k: int| 0 <= k < fs.len() implies !(#[trigger] fs[k]).is_const
        && !fs[k].is_transient by {
        assert(!w.classes[c].fields[k].is_const);
    }
    lemma_layout(w, None, lay, c, f);
    lemma_all_kept(fs);
    let p = pack_storage_spec(fs, widths_spec(w, final_sizes(w), fs), 0, false).0;
    let tail = passing(w, final_sizes(w), c);
    assert(tail.len() == 0);
    assert(p + tail =~= p);
}

/// What a map of placements says, put on top of `m`, key by key.
proof fn lemma_put_map(
    m: Map<Seq<char>, StorageField>,
    class: Seq<char>,
    p: Seq<(Seq<char>, StorageField)>,
    n: nat,
    k: Seq<char>,
)
    requires
        n <= p.len(),
    ensures
        ({
            let out = put_placed(m, class, p, n);
            let name = k.subrange(class.len() as int + 1, k.len() as int);
            if k.len() > class.len() && k == field_key(class, name) && last_placed(p, name, n)
                is Some {
                out.contains_key(k) && out[k] == last_placed(p, name, n)->0
            } else {
                out.contains_key(k) == m.contains_key(k) && out[k] == m[k]
            }
        }),
    decreases n,
{
    if n > 0 {
        lemma_put_map(m, class, p, (n - 1) as nat, k);
        let name = k.subrange(class.len() as int + 1, k.len() as int);
        let key = field_key(class, p[n - 1].0);
        reveal_strlit(".");
        assert(key.len() == class.len() + 1 + p[n - 1].0.len());
        assert(key.subrange(class.len() as int + 1, key.len() as int) =~= p[n - 1].0);
    }
}

/// Rows that place every name alike give the same map.
proof fn lemma_put_same(
    m: Map<Seq<char>, StorageField>,
    class: Seq<char>,
    p: Seq<(Seq<char>, StorageField)>,
    q: Seq<(Seq<char>, StorageField)>,
)
    requires
        forall|x: Seq<char>| #[trigger]
            last_placed(p, x, p.len()) == last_placed(q, x, q.len()),
    ensures
        put_placed(m, class, p, p.len()) == put_placed(m, class, q, q.len()),
{
    let a = put_placed(m, class, p, p.len());
    let b = put_placed(m, class, q, q.len());
    assert forall|k: Seq<char>| #[trigger] a.dom().contains(k) == b.dom().contains(k) && a[k]
        == b[k] by {
        lemma_put_map(m, class, p, p.len(), k);
        lemma_put_map(m, class, q, q.len(), k);
        let name = k.subrange(class.len() as int + 1, k.len() as int);
        assert(last_placed(p, name, p.len()) == last_placed(q, name, q.len()));
    }
    assert(a.dom() =~= b.dom());
    assert(a =~= b);
}

/// Rows that place every name alike give the same manifest.
proof fn lemma_manifest_same(
    fields: Seq<FieldV>,
    p: Seq<(Seq<char>, StorageField)>,
    q: Seq<(Seq<char>, StorageField)>,
    n: nat,
)
    requires
        forall|x: Seq<char>| #[trigger]
            last_placed(p, x, p.len()) == last_placed(q, x, q.len()),
    ensures
        class_manifest(fields, p, n) == class_manifest(fields, q, n),
    decreases n,
{
    if n > 0 {
        lemma_manifest_same(fields, p, q, (n - 1) as nat);
        assert(last_placed(p, fields[n - 1].name, p.len()) == last_placed(
            q,
            fields[n - 1].name,
            q.len(),
        ));
    }
}

/// What the manifest records of a field.
spec fn loc_of(f: FieldV, sf: StorageField) -> LocV {
    LocV {
        slot: sf.slot,
        offset: sf.offset_in_slot,
        size: sf.size,
        type_text: suffix_spec(f.type_def),
    }
}

/// Whether the manifest records the field at `i` of `fields`, under the name `q`.
spec fn recorded(
    fields: Seq<FieldV>,
    p: Seq<(Seq<char>, StorageField)>,
    m: Map<Seq<char>, LocV>,
    q: Seq<char>,
    i: int,
) -> bool {
    &&& fields[i].name == q
    &&& !fields[i].is_const
    &&& !fields[i].is_transient
    &&& last_placed(p, q, p.len()) matches Some(sf) && m[q] == loc_of(fields[i], sf)
}

proof fn lemma_recorded(fields: Seq<FieldV>, p: Seq<(Seq<char>, StorageField)>, n: nat)
    requires
        n <= fields.len(),
        distinct_names(fields),
    ensures
        class_manifest(fields, p, n).dom().finite(),
        forall|q: Seq<char>| #[trigger]
            class_manifest(fields, p, n).contains_key(q) ==> exists|i: int|
                0 <= i < n && #[trigger] recorded(fields, p, class_manifest(fields, p, n), q, i),
        forall|i: int|
            0 <= i < n && !(#[trigger] fields[i]).is_const && !fields[i].is_transient
                && last_placed(p, fields[i].name, p.len()) is Some ==> class_manifest(
                fields,
                p,
                n,
            ).contains_key(fields[i].name) && recorded(
                fields,
                p,
                class_manifest(fields, p, n),
                fields[i].name,
                i,
            ),
    decreases n,
{
    if n > 0 {
        lemma_recorded(fields, p, (n - 1) as nat);
        let a = class_manifest(fields, p, (n - 1) as nat);
        let b = class_manifest(fields, p, n);
        let f = fields[n - 1];
        assert forall|q: Seq<char>| #[trigger] b.contains_key(q) implies exists|i: int|
            0 <= i < n && #[trigger] recorded(fields, p, b, q, i) by {
            if a.contains_key(q) {
                let i = choose|i: int| 0 <= i < n - 1 && #[trigger] recorded(fields, p, a, q, i);
                assert(fields[i].name != fields[n - 1].name);
                assert(recorded(fields, p, b, q, i));
            } else {
                assert(recorded(fields, p, b, q, n - 1));
            }
        }
        assert forall|i: int|
            0 <= i < n && !(#[trigger] fields[i]).is_const && !fields[i].is_transient
                && last_placed(p, fields[i].name, p.len()) is Some implies b.contains_key(
            fields[i].name,
        ) && recorded(fields, p, b, fields[i].name, i) by {
            if i < n - 1 {
                assert(fields[i].name != fields[n - 1].name);
                assert(recorded(fields, p, a, fields[i].name, i));
            }
        }
    }
}

/// A name that one kind of field has, the other kind has not.
proof fn lemma_kinds_apart(fields: Seq<FieldV>, name: Seq<char>)
    requires
        distinct_names(fields),
        declares(stored_fields(fields, false), name),
    ensures
        !declares(stored_fields(fields, true), name),
{
    let per = stored_fields(fields, false);
    let tra = stored_fields(fields, true);
    lemma_stored_fields(fields, false);
    lemma_stored_fields(fields, true);
    if declares(tra, name) {
        let a = choose|a: int| 0 <= a < per.len() && (#[trigger] per[a]).name == name;
        let b = choose|b: int| 0 <= b < tra.len() && (#[trigger] tra[b]).name == name;
        assert(fields.contains(per[a]) && fields.contains(tra[b]));
        let i = choose|i: int| 0 <= i < fields.len() && fields[i] == per[a];
        let j = choose|j: int| 0 <= j < fields.len() && fields[j] == tra[b];
        if i < j {
            assert(fields[i].name != fields[j].name);
        } else if j < i {
            assert(fields[j].name != fields[i].name);
        }
    }
}

proof fn lemma_not_placed(
    p: Seq<(Seq<char>, StorageField)>,
    fields: Seq<FieldV>,
    name: Seq<char>,
)
    requires
        declared_only(p, fields),
        !declares(fields, name),
    ensures
        last_placed(p, name, p.len()) is None,
{
    lemma_last_some(p, name, p.len());
    if last_placed(p, name, p.len()) is Some {
        let f = last_placed(p, name, p.len())->0;
        let i = choose|i: int| 0 <= i < p.len() && #[trigger] p[i] == (name, f);
        assert(declares(fields, p[i].0));
    }
}

/// A contract under the manifest of its own first build: accepted, with every field where
/// it was.
proof fn lemma_rebuilt(w: WorldV, sizes: Map<Seq<char>, usize>, c: Seq<char>)
    requires
        fields_named(w),
        w.classes.contains_key(c),
    ensures
        ({
            let fs = w.classes[c].fields;
            let p = contract_placement(w, sizes, w.classes[c], c, None)->Ok_0;
            let m = class_manifest(fs, p, fs.len());
            contract_placement(w, sizes, w.classes[c], c, Some(m)) matches Ok(q) && forall|
                x: Seq<char>,
            | #[trigger]
                last_placed(p, x, p.len()) == last_placed(q, x, q.len())
        }),
{
    let fs = w.classes[c].fields;
    let per = stored_fields(fs, false);
    let tra = stored_fields(fs, true);
    let ws = widths_spec(w, sizes, per);
    let a = pack_storage_spec(per, ws, 0, false).0;
    let tail = passing(w, sizes, c);
    let p = a + tail;
    assert(p == contract_placement(w, sizes, w.classes[c], c, None)->Ok_0);
    let m = class_manifest(fs, p, fs.len());
    lemma_stored_fields(fs, false);
    lemma_stored_fields(fs, true);
    lemma_places(per, ws, 0);
    lemma_pack_declared(per, ws, false);
    lemma_pack_declared(tra, widths_spec(w, sizes, tra), true);
    lemma_recorded(fs, p, fs.len());
    assert forall|k: int| 0 <= k < per.len() implies m.contains_key((#[trigger] per[k]).name)
        && m[per[k].name].size == ws[k] && m[per[k].name].type_text == suffix_spec(per[k].type_def)
        && Some(committed_place(m[per[k].name])) == last_placed(a, per[k].name, a.len()) by {
        let name = per[k].name;
        assert(declares(per, name));
        lemma_kinds_apart(fs, name);
        lemma_not_placed(tail, tra, name);
        lemma_last_both(a, tail, name);
        assert(fs.contains(per[k]));
        let i = choose|i: int| 0 <= i < fs.len() && fs[i] == per[k];
        assert(last_placed(a, per[k].name, a.len()) is Some);
        assert(m.contains_key(fs[i].name) && recorded(fs, p, m, fs[i].name, i));
    }
    assert(removed_field(m, per) is None) by {
        assert forall|q: Seq<char>| #[trigger] m.contains_key(q) implies declares(per, q) by {
            let i = choose|i: int| 0 <= i < fs.len() && #[trigger] recorded(fs, p, m, q, i);
            assert(per.contains(fs[i]));
            let k = choose|k: int| 0 <= k < per.len() && per[k] == fs[i];
            assert(per[k].name == q);
        }
    }
    lemma_all_committed(c, m, per, ws, per.len());
    let st = lock_fold(c, m, per, ws, per.len())->Ok_0;
    let order = fresh_order(st.fresh, per, ws, st.fresh.len());
    assert(order.len() == 0);
    let b = pack_locked_spec(c, per, ws, m, committed_end(m))->Ok_0.0;
    assert(b == st.placed);
    let q = contract_placement(w, sizes, w.classes[c], c, Some(m))->Ok_0;
    assert(q == b + tail);
    assert forall|x: Seq<char>| #[trigger]
        last_placed(p, x, p.len()) == last_placed(q, x, q.len()) by {
        lemma_last_both(a, tail, x);
        lemma_last_both(b, tail, x);
        if declares(per, x) {
            let k = choose|k: int| 0 <= k < per.len() && (#[trigger] per[k]).name == x;
            assert(b[k] == (per[k].name, committed_place(m[per[k].name])));
            assert forall|j: int| k < j < b.len() implies (#[trigger] b[j]).0 != x by {
                assert(per[k].name != per[j].name);
            }
            lemma_last_placed(b, x, k, b.len());
        } else {
            lemma_not_placed(a, per, x);
            assert forall|i: int| 0 <= i < b.len() implies declares(per, (#[trigger] b[i]).0) by {
                assert(b[i].0 == per[i].name);
            }
            lemma_not_placed(b, per, x);
        }
    }
}

proof fn lemma_rebuilt_all(
    w: WorldV,
    lay: LayV,
    man: Map<Seq<char>, Map<Seq<char>, LocV>>,
    n: nat,
)
    requires
        n <= w.class_order.len(),
        fields_named(w),
        forall|c: Seq<char>|
            stored_class(w, c) && #[trigger] among(w, c, n) ==> man.contains_key(c) && man[c]
                == class_manifest(
                w.classes[c].fields,
                placement(w, lay.sizes, None, c)->Ok_0,
                w.classes[c].fields.len(),
            ),
    ensures
        storage_layouts(w, lay, Some(man), n) == storage_layouts(w, lay, None, n),
        storage_layouts(w, lay, None, n) matches Ok(st) ==> st.sizes == lay.sizes,
    decreases n,
{
    if n > 0 {
        let m = (n - 1) as nat;
        let name = w.class_order[n - 1];
        assert forall|c: Seq<char>|
            stored_class(w, c) && #[trigger] among(w, c, m) implies man.contains_key(c) && man[c]
            == class_manifest(
            w.classes[c].fields,
            placement(w, lay.sizes, None, c)->Ok_0,
            w.classes[c].fields.len(),
        ) by {
            assert(among(w, c, n));
        }
        lemma_rebuilt_all(w, lay, man, m);
        assert(among(w, name, n)) by {
            assert(w.class_order[n - 1] == name);
        }
        if storage_layouts(w, lay, None, m) is Ok && stored_class(w, name) {
            let a = storage_layouts(w, lay, None, m)->Ok_0;
            let fs = w.classes[name].fields;
            lemma_rebuilt(w, lay.sizes, name);
            let p = placement(w, lay.sizes, None, name)->Ok_0;
            let q = placement(w, lay.sizes, Some(man), name)->Ok_0;
            lemma_put_same(a.storage, name, p, q);
            lemma_manifest_same(fs, p, q, fs.len());
        }
    }
}

/// A build under the lock that the same program wrote is accepted, with the same storage
/// and the same manifest.
pub proof fn law_rebuild_changes_nothing(w: WorldV, lay: LayV)
    requires
        layout_spec(w, None) == Ok::<LayV, Seq<char>>(lay),
        fields_named(w),
    ensures
        layout_spec(w, Some(lay.manifest)) == Ok::<LayV, Seq<char>>(lay),
{
    let n = w.class_order.len();
    let a = mem_layouts(w, n);
    let b = struct_layouts(w, a, n);
    assert forall|c: Seq<char>|
        stored_class(w, c) && #[trigger] among(w, c, n) implies lay.manifest.contains_key(c)
        && lay.manifest[c] == class_manifest(
        w.classes[c].fields,
        placement(w, b.sizes, None, c)->Ok_0,
        w.classes[c].fields.len(),
    ) by {
        lemma_storage(w, b, None, n, c, Seq::empty());
    }
    lemma_rebuilt_all(w, b, lay.manifest, n);
}

proof fn lemma_mem_put(
    m: Map<Seq<char>, MemoryField>,
    class: Seq<char>,
    p: Seq<(Seq<char>, MemoryField)>,
    n: nat,
    c: Seq<char>,
    f: Seq<char>,
)
    requires
        n <= p.len(),
        plain_name(f),
        forall|i: int| 0 <= i < p.len() ==> plain_name((#[trigger] p[i]).0),
        forall|i: int, j: int|
            0 <= i < j < p.len() ==> (#[trigger] p[i]).0 != (#[trigger] p[j]).0,
    ensures
        c != class ==> mem_field_in(put_mem(m, class, p, n), c, f) == mem_field_in(m, c, f),
        c == class ==> forall|i: int|
            0 <= i < n && (#[trigger] p[i]).0 == f ==> mem_field_in(put_mem(m, class, p, n), c, f)
                == Some(p[i].1),
    decreases n,
{
    if n > 0 {
        lemma_mem_put(m, class, p, (n - 1) as nat, c, f);
        assert(plain_name(p[n - 1].0));
        if field_key(class, p[n - 1].0) == field_key(c, f) {
            lemma_key(class, p[n - 1].0, c, f);
        }
        if c == class {
            assert forall|i: int| 0 <= i < n && (#[trigger] p[i]).0 == f implies mem_field_in(
                put_mem(m, class, p, n),
                c,
                f,
            ) == Some(p[i].1) by {
                if i < n - 1 {
                    assert(p[i].0 != p[n - 1].0);
                }
            }
        }
    }
}

proof fn lemma_mem_names(fields: Seq<FieldV>, ws: Seq<usize>, order: Seq<int>, n: nat)
    ensures
        mem_fold(fields, ws, order, n).0.len() == n,
        forall|i: int|
            0 <= i < n ==> (#[trigger] mem_fold(fields, ws, order, n).0[i]).0
                == fields[order[i]].name,
    decreases n,
{
    if n > 0 {
        lemma_mem_names(fields, ws, order, (n - 1) as nat);
        let a = mem_fold(fields, ws, order, (n - 1) as nat).0;
        let b = mem_fold(fields, ws, order, n).0;
        assert forall|i: int| 0 <= i < n implies (#[trigger] b[i]).0 == fields[order[i]].name by {
            if i < n - 1 {
                assert(b[i] == a[i]);
            }
        }
    }
}

/// The memory placements of a class have plain names, each its own.
proof fn lemma_mem_placed(w: WorldV, sizes: Map<Seq<char>, usize>, c: Seq<char>)
    requires
        fields_named(w),
        w.classes.contains_key(c),
    ensures
        ({
            let fs = w.classes[c].fields;
            let ws = widths_spec(w, sizes, fs);
            let order = size_order(ws, ws.len());
            let p = pack_memory_spec(fs, ws).0;
            &&& p.len() == fs.len()
            &&& forall|i: int|
                0 <= i < p.len() ==> plain_name((#[trigger] p[i]).0) && p[i].0
                    == fs[order[i]].name && 0 <= order[i] < fs.len()
            &&& forall|i: int, j: int|
                0 <= i < j < p.len() ==> (#[trigger] p[i]).0 != (#[trigger] p[j]).0
        }),
{
    let fs = w.classes[c].fields;
    let ws = widths_spec(w, sizes, fs);
    let order = size_order(ws, ws.len());
    let p = pack_memory_spec(fs, ws).0;
    law_size_order(ws, ws.len());
    lemma_mem_names(fs, ws, order, ws.len());
    assert forall|i: int| 0 <= i < p.len() implies plain_name((#[trigger] p[i]).0) && p[i].0
        == fs[order[i]].name && 0 <= order[i] < fs.len() by {
        assert(plain_name(w.classes[c].fields[order[i]].name));
    }
    assert forall|i: int, j: int| 0 <= i < j < p.len() implies (#[trigger] p[i]).0 != (
    #[trigger] p[j]).0 by {
        assert(goes_before(ws, order[i], order[j]));
        let x = order[i];
        let y = order[j];
        if x < y {
            assert(fs[x].name != fs[y].name);
        } else {
            assert(fs[y].name != fs[x].name);
        }
    }
}

/// Later classes leave the memory layout of a class as it is.
proof fn lemma_mem_stays(w: WorldV, c: Seq<char>, f: Seq<char>, k: nat, n: nat)
    requires
        k < n <= w.class_order.len(),
        fields_named(w),
        plain_name(f),
        forall|j: int| k < j < n ==> #[trigger] w.class_order[j] != c,
    ensures
        mem_field_in(mem_layouts(w, n).mem, c, f) == mem_field_in(
            mem_layouts(w, k + 1).mem,
            c,
            f,
        ),
        mem_layouts(w, n).sizes.contains_key(c) == mem_layouts(w, k + 1).sizes.contains_key(c),
        mem_layouts(w, n).sizes[c] == mem_layouts(w, k + 1).sizes[c],
    decreases n,
{
    if n > k + 1 {
        let m = (n - 1) as nat;
        lemma_mem_stays(w, c, f, k, m);
        let name = w.class_order[n - 1];
        assert(name != c);
        if w.classes.contains_key(name) {
            let a = mem_layouts(w, m);
            let fs = w.classes[name].fields;
            let p = pack_memory_spec(fs, widths_spec(w, a.sizes, fs)).0;
            lemma_mem_placed(w, a.sizes, name);
            lemma_mem_put(a.mem, name, p, p.len(), c, f);
        }
    }
}

/// The fields of an instance follow one another in memory without a gap, the widest
/// first, and its size is the sum of theirs; an instance without any takes a word. `k` is
/// where the class stands among those that are laid out. The bytes must be countable.
pub proof fn law_instances_are_dense(
    w: WorldV,
    lock: Option<Map<Seq<char>, Map<Seq<char>, LocV>>>,
    lay: LayV,
    k: int,
    i: int,
)
    requires
        layout_spec(w, lock) == Ok::<LayV, Seq<char>>(lay),
        fields_named(w),
        0 <= k < w.class_order.len(),
        w.classes.contains_key(w.class_order[k]),
        forall|j: int|
            k < j < w.class_order.len() ==> #[trigger] w.class_order[j] != w.class_order[k],
        ({
            let fs = w.classes[w.class_order[k]].fields;
            let ws = widths_spec(w, mem_layouts(w, k as nat).sizes, fs);
            bytes_for(ws, size_order(ws, ws.len()), ws.len()) <= usize::MAX
        }),
        0 <= i < w.classes[w.class_order[k]].fields.len(),
    ensures
        ({
            let c = w.class_order[k];
            let fs = w.classes[c].fields;
            let ws = widths_spec(w, mem_layouts(w, k as nat).sizes, fs);
            let order = size_order(ws, ws.len());
            let total = bytes_for(ws, order, ws.len());
            &&& mem_field_in(lay.mem, c, fs[order[i]].name) == Some(
                MemoryField {
                    offset: bytes_for(ws, order, i as nat) as usize,
                    size: ws[order[i]],
                },
            )
            &&& order.len() == fs.len()
            &&& forall|j: int| 0 <= j < fs.len() ==> order.contains(j)
            &&& forall|j: int|
                i < j < order.len() ==> goes_before(ws, order[i], #[trigger] order[j])
            &&& lay.sizes.contains_key(c) && lay.sizes[c] == if total == 0 {
                32
            } else {
                total
            }
        }),
{
    let c = w.class_order[k];
    let fs = w.classes[c].fields;
    let a = mem_layouts(w, k as nat);
    let ws = widths_spec(w, a.sizes, fs);
    let order = size_order(ws, ws.len());
    let (p, total) = pack_memory_spec(fs, ws);
    let f = fs[order[i]].name;
    law_size_order(ws, ws.len());
    lemma_mem_placed(w, a.sizes, c);
    assert(p[i].0 == f);
    law_memory_is_dense(fs, ws, order, ws.len());
    lemma_bytes_grow(ws, order, i as nat, ws.len());
    lemma_mem_put(a.mem, c, p, p.len(), c, f);
    lemma_mem_stays(w, c, f, k as nat, w.class_order.len());
    lemma_layout(w, lock, lay, c, f);
}

proof fn lemma_bytes_grow(ws: Seq<usize>, order: Seq<int>, m: nat, n: nat)
    requires
        m <= n,
    ensures
        bytes_for(ws, order, m) <= bytes_for(ws, order, n),
    decreases n,
{
    if m < n {
        lemma_bytes_grow(ws, order, m, (n - 1) as nat);
    }
}

/// Whether the slots that a contract needs can be counted.
pub open spec fn countable(
    w: WorldV,
    lock: Option<Map<Seq<char>, Map<Seq<char>, LocV>>>,
    c: Seq<char>,
) -> bool {
    let per = stored_fields(w.classes[c].fields, false);
    let tra = stored_fields(w.classes[c].fields, true);
    let ws = widths_spec(w, final_sizes(w), per);
    let wt = widths_spec(w, final_sizes(w), tra);
    &&& slots_for(wt, size_order(wt, wt.len()), wt.len()) < usize::MAX
    &&& match committed_of(lock, c) {
        None => slots_for(ws, size_order(ws, ws.len()), ws.len()) < usize::MAX,
        Some(m) => lock_fold(c, m, per, ws, per.len()) matches Ok(st) ==> {
            let order = fresh_order(st.fresh, per, ws, st.fresh.len());
            committed_end(m) + room_for(ws, order, order.len()) < usize::MAX
        },
    }
}

/// Every contract of a lock is committed to places that can be, and that do not meet.
pub open spec fn sound_manifest(m: Map<Seq<char>, Map<Seq<char>, LocV>>) -> bool {
    forall|c: Seq<char>| #[trigger]
        m.contains_key(c) ==> sound_lock(m[c], committed_end(m[c]))
}

/// A place within what can be counted.
spec fn fits(f: StorageField) -> bool {
    &&& in_slot(f)
    &&& f.offset_in_slot + f.size <= usize::MAX
    &&& f.slot + span_of(f.offset_in_slot, f.size) <= usize::MAX
}

proof fn lemma_unlocked_fits(fields: Seq<FieldV>, ws: Seq<usize>, tr: bool)
    requires
        slots_for(ws, size_order(ws, ws.len()), ws.len()) < usize::MAX,
    ensures
        ({
            let p = pack_storage_spec(fields, ws, 0, tr).0;
            all_apart(p) && forall|i: int| 0 <= i < p.len() ==> fits((#[trigger] p[i]).1)
        }),
{
    law_fields_are_apart(fields, ws, 0, tr);
    let (p, next) = pack_storage_spec(fields, ws, 0, tr);
    assert forall|i: int| 0 <= i < p.len() implies fits((#[trigger] p[i]).1) by {
        let f = p[i].1;
        assert(in_slot(f));
        assert(f.offset_in_slot.wrapping_add(f.size) == f.offset_in_slot + f.size);
    }
}

/// What holds of the placements of one contract.
proof fn lemma_contract_fits(
    w: WorldV,
    lock: Option<Map<Seq<char>, Map<Seq<char>, LocV>>>,
    c: Seq<char>,
)
    requires
        fields_named(w),
        w.classes.contains_key(c),
        placement(w, final_sizes(w), lock, c) is Ok,
        countable(w, lock, c),
        lock matches Some(m) ==> sound_manifest(m),
    ensures
        ({
            let a = lasting(w, final_sizes(w), lock, c);
            let b = passing(w, final_sizes(w), c);
            &&& all_apart(a) && all_apart(b)
            &&& forall|i: int|
                0 <= i < a.len() ==> fits((#[trigger] a[i]).1) && !a[i].1.is_transient
            &&& forall|i: int| 0 <= i < b.len() ==> fits((#[trigger] b[i]).1) && b[i].1.is_transient
        }),
{
    let fs = w.classes[c].fields;
    let per = stored_fields(fs, false);
    let tra = stored_fields(fs, true);
    let ws = widths_spec(w, final_sizes(w), per);
    let wt = widths_spec(w, final_sizes(w), tra);
    lemma_parts_of_placement(w, final_sizes(w), lock, c);
    lemma_unlocked_fits(tra, wt, true);
    lemma_stored_fields(fs, false);
    match committed_of(lock, c) {
        Some(m) => {
            assert(lock->0.contains_key(c));
            law_lock_is_kept(c, per, ws, m, committed_end(m));
        },
        None => {
            lemma_unlocked_fits(per, ws, false);
            lemma_pack_declared(per, ws, false);
        },
    }
}

proof fn lemma_apart_sym(f: StorageField, g: StorageField)
    requires
        apart(f, g),
    ensures
        apart(g, f),
{
    assert forall|b: int| !(#[trigger] holds_byte(g, b) && holds_byte(f, b)) by {
        assert(!(holds_byte(f, b) && holds_byte(g, b)));
    }
}

/// Two fields of a contract that live in the same space do not meet.
proof fn lemma_pair_apart(
    w: WorldV,
    lock: Option<Map<Seq<char>, Map<Seq<char>, LocV>>>,
    c: Seq<char>,
    f: Seq<char>,
    g: Seq<char>,
)
    requires
        fields_named(w),
        w.classes.contains_key(c),
        placement(w, final_sizes(w), lock, c) is Ok,
        countable(w, lock, c),
        lock matches Some(m) ==> sound_manifest(m),
    ensures
        ({
            let p = placement(w, final_sizes(w), lock, c)->Ok_0;
            &&& last_placed(p, f, p.len()) matches Some(x) ==> fits(x)
            &&& f != g ==> (last_placed(p, f, p.len()) matches Some(x) ==> (last_placed(
                p,
                g,
                p.len(),
            ) matches Some(y) ==> (x.is_transient == y.is_transient ==> apart(x, y))))
        }),
{
    let a = lasting(w, final_sizes(w), lock, c);
    let b = passing(w, final_sizes(w), c);
    let p = placement(w, final_sizes(w), lock, c)->Ok_0;
    lemma_contract_fits(w, lock, c);
    lemma_parts_of_placement(w, final_sizes(w), lock, c);
    lemma_last_some(p, f, p.len());
    lemma_last_some(p, g, p.len());
    if last_placed(p, f, p.len()) is Some {
        let x = last_placed(p, f, p.len())->0;
        let i = choose|i: int| 0 <= i < p.len() && #[trigger] p[i] == (f, x);
        if i < a.len() {
            assert(p[i] == a[i]);
        } else {
            assert(p[i] == b[i - a.len()]);
        }
        if last_placed(p, g, p.len()) is Some && f != g {
            let y = last_placed(p, g, p.len())->0;
            let j = choose|j: int| 0 <= j < p.len() && #[trigger] p[j] == (g, y);
            if j < a.len() {
                assert(p[j] == a[j]);
            } else {
                assert(p[j] == b[j - a.len()]);
            }
            if x.is_transient == y.is_transient {
                assert(i < a.len() <==> j < a.len());
                if i < j {
                    if i < a.len() {
                        assert(apart(a[i].1, a[j].1));
                    } else {
                        assert(apart(b[i - a.len()].1, b[j - a.len()].1));
                    }
                } else {
                    if i < a.len() {
                        assert(apart(a[j].1, a[i].1));
                    } else {
                        assert(apart(b[j - a.len()].1, b[i - a.len()].1));
                    }
                    lemma_apart_sym(y, x);
                }
            }
        }
    }
}

proof fn lemma_end_exists(m: Map<Seq<char>, LocV>)
    requires
        m.dom().finite(),
    ensures
        exists|e: usize| #[trigger] is_end(m, e),
    decreases m.dom().len(),
{
    if m.dom().len() == 0 {
        assert(m.dom() =~= Set::empty());
        assert forall|k: Seq<char>| #[trigger] m.contains_key(k) implies end_of(m[k]) <= 0usize by {
            assert(m.dom().contains(k));
        }
        assert(is_end(m, 0usize));
    } else {
        let k = m.dom().choose();
        let r = m.remove(k);
        lemma_end_exists(r);
        let e = choose|e: usize| #[trigger] is_end(r, e);
        let top = if end_of(m[k]) > e {
            end_of(m[k])
        } else {
            e
        };
        assert forall|q: Seq<char>| #[trigger] m.contains_key(q) implies end_of(m[q]) <= top by {
            if q != k {
                assert(r.contains_key(q) && r[q] == m[q]);
            }
        }
        if top > 0 {
            if top == end_of(m[k]) {
                assert(m.contains_key(k) && end_of(m[k]) == top);
            } else {
                let q = choose|q: Seq<char>| #[trigger] r.contains_key(q) && end_of(r[q]) == e;
                assert(m.contains_key(q) && end_of(m[q]) == top);
            }
        }
        assert(is_end(m, top));
    }
}

/// What a contract is written down as can be committed to again.
proof fn lemma_manifest_sound(
    w: WorldV,
    lock: Option<Map<Seq<char>, Map<Seq<char>, LocV>>>,
    c: Seq<char>,
)
    requires
        fields_named(w),
        w.classes.contains_key(c),
        placement(w, final_sizes(w), lock, c) is Ok,
        countable(w, lock, c),
        lock matches Some(m) ==> sound_manifest(m),
    ensures
        ({
            let fs = w.classes[c].fields;
            let m = class_manifest(fs, placement(w, final_sizes(w), lock, c)->Ok_0, fs.len());
            sound_lock(m, committed_end(m))
        }),
{
    let fs = w.classes[c].fields;
    let p = placement(w, final_sizes(w), lock, c)->Ok_0;
    let a = lasting(w, final_sizes(w), lock, c);
    let b = passing(w, final_sizes(w), c);
    let tra = stored_fields(fs, true);
    let m = class_manifest(fs, p, fs.len());
    lemma_recorded(fs, p, fs.len());
    lemma_end_exists(m);
    let e = committed_end(m);
    assert(is_end(m, e));
    lemma_parts_of_placement(w, final_sizes(w), lock, c);
    lemma_contract_fits(w, lock, c);
    lemma_stored_fields(fs, false);
    assert forall|k: Seq<char>| #[trigger] m.contains_key(k) implies last_placed(p, k, p.len())
        == Some(committed_place(m[k])) by {
        let i = choose|i: int| 0 <= i < fs.len() && #[trigger] recorded(fs, p, m, k, i);
        let per = stored_fields(fs, false);
        assert(per.contains(fs[i]));
        let x = choose|x: int| 0 <= x < per.len() && per[x] == fs[i];
        assert(per[x].name == k);
        lemma_kinds_apart(fs, k);
        lemma_not_placed(b, tra, k);
        lemma_last_both(a, b, k);
        lemma_last_some(a, k, a.len());
        let sf = last_placed(a, k, a.len())->0;
        let y = choose|y: int| 0 <= y < a.len() && #[trigger] a[y] == (k, sf);
        assert(!a[y].1.is_transient);
    }
    assert forall|k: Seq<char>| #[trigger] m.contains_key(k) implies sound_place(
        committed_place(m[k]),
        e,
    ) by {
        lemma_pair_apart(w, lock, c, k, k);
        assert(end_of(m[k]) <= e);
    }
    assert forall|k: Seq<char>, q: Seq<char>|
        #![trigger m.contains_key(k), m.contains_key(q)]
        m.contains_key(k) && m.contains_key(q) && k != q implies apart(
        committed_place(m[k]),
        committed_place(m[q]),
    ) by {
        lemma_pair_apart(w, lock, c, k, q);
    }
}

/// No two storage fields of a contract share a byte of the same space, and one that fits a
/// slot stays in one. So it is without a lock and under every lock that a build has
/// written: what a build writes down is again such a lock. The slots must be countable.
pub proof fn law_storage_fields_are_apart(
    w: WorldV,
    lock: Option<Map<Seq<char>, Map<Seq<char>, LocV>>>,
    lay: LayV,
    c: Seq<char>,
    f: Seq<char>,
    g: Seq<char>,
)
    requires
        layout_spec(w, lock) == Ok::<LayV, Seq<char>>(lay),
        fields_named(w),
        plain_name(f),
        plain_name(g),
        f != g,
        forall|x: Seq<char>| #[trigger] stored_class(w, x) ==> countable(w, lock, x),
        lock matches Some(m) ==> sound_manifest(m),
    ensures
        sound_manifest(lay.manifest),
        field_in(lay.storage, c, f) matches Some(x) ==> (x.size <= 32 ==> x.offset_in_slot + x.size
            <= 32),
        field_in(lay.storage, c, f) matches Some(x) ==> (field_in(lay.storage, c, g) matches Some(
            y,
        ) ==> (x.is_transient == y.is_transient ==> apart(x, y))),
{
    lemma_layout(w, lock, lay, c, f);
    lemma_layout(w, lock, lay, c, g);
    if stored_class(w, c) && w.class_order.contains(c) {
        lemma_pair_apart(w, lock, c, f, g);
    }
    assert forall|x: Seq<char>| #[trigger] lay.manifest.contains_key(x) implies sound_lock(
        lay.manifest[x],
        committed_end(lay.manifest[x]),
    ) by {
        lemma_layout(w, lock, lay, x, f);
        lemma_manifest_sound(w, lock, x);
    }
}

} // verus!
