//! What holds of every layout: no two fields share a byte, a field that fits a slot stays
//! in one, and a committed field stays where it is.
use crate::ast::FieldV;
use crate::codegen::suffix_spec;
use crate::codegen::layout::{class_manifest, last_placed};
use crate::codegen::packing::{
    declares, distinct_slots, fresh_fold, fresh_order, fresh_step, gap_of, goes_before,
    law_size_order, lemma_gap_slot, levels_ok, lock_fold, mem_fold, pack_fold, pack_locked_spec,
    pack_storage_spec, removed_field, size_order, span_fold, span_of, span_used, water_index,
    water_raise, water_set, FreshV, LocV, PackV, StorageField,
};
use crate::codegen::yul::words;
use vstd::prelude::*;

verus! {

/// Whether a byte of storage belongs to a field; bytes are numbered through all slots.
pub open spec fn holds_byte(f: StorageField, b: int) -> bool {
    32 * f.slot + f.offset_in_slot <= b < 32 * f.slot + f.offset_in_slot + f.size
}

/// No byte belongs to both fields.
pub open spec fn apart(f: StorageField, g: StorageField) -> bool {
    forall|b: int| !(#[trigger] holds_byte(f, b) && holds_byte(g, b))
}

/// No two of the placed fields share a byte.
pub open spec fn all_apart(p: Seq<(Seq<char>, StorageField)>) -> bool {
    forall|i: int, j: int|
        0 <= i < j < p.len() ==> apart((#[trigger] p[i]).1, (#[trigger] p[j]).1)
}

/// A field starts a slot of its own or stays within one.
pub open spec fn in_slot(f: StorageField) -> bool {
    f.offset_in_slot == 0 || f.offset_in_slot + f.size <= 32
}

/// How many slots the first `n` fields of an order need at most.
pub open spec fn slots_for(ws: Seq<usize>, order: Seq<int>, n: nat) -> nat
    decreases n,
{
    if n == 0 {
        0
    } else {
        slots_for(ws, order, (n - 1) as nat) + words(ws[order[n - 1]] as nat)
    }
}

proof fn lemma_slots_monotone(ws: Seq<usize>, order: Seq<int>, m: nat, n: nat)
    requires
        m <= n,
    ensures
        slots_for(ws, order, m) <= slots_for(ws, order, n),
    decreases n,
{
    if m < n {
        lemma_slots_monotone(ws, order, m, (n - 1) as nat);
    }
}

/// Everything placed so far ends before the next free byte.
spec fn packed(st: PackV, start: usize) -> bool {
    &&& st.used <= 32
    &&& st.slot >= start
    &&& all_apart(st.placed)
    &&& forall|i: int|
        0 <= i < st.placed.len() ==> {
            let f = (#[trigger] st.placed[i]).1;
            &&& in_slot(f)
            &&& f.slot >= start
            &&& 32 * f.slot + f.offset_in_slot + f.size <= 32 * st.slot + st.used
        }
}

proof fn lemma_pack(
    fields: Seq<FieldV>,
    ws: Seq<usize>,
    order: Seq<int>,
    start: usize,
    tr: bool,
    n: nat,
)
    requires
        start + slots_for(ws, order, n) <= usize::MAX,
    ensures
        packed(pack_fold(fields, ws, order, start, tr, n), start),
        pack_fold(fields, ws, order, start, tr, n).placed.len() == n,
        ({
            let st = pack_fold(fields, ws, order, start, tr, n);
            st.slot + (if st.used > 0 {
                1int
            } else {
                0
            }) <= start + slots_for(ws, order, n)
        }),
    decreases n,
{
    if n > 0 {
        let m = (n - 1) as nat;
        lemma_pack(fields, ws, order, start, tr, m);
        let a = pack_fold(fields, ws, order, start, tr, m);
        let b = pack_fold(fields, ws, order, start, tr, n);
        let w = ws[order[n - 1]];
        let f = b.placed[m as int].1;
        assert(b.placed =~= a.placed.push(b.placed[m as int]));
        assert(32 * f.slot + f.offset_in_slot >= 32 * a.slot + a.used);
        assert(32 * f.slot + f.offset_in_slot + f.size <= 32 * b.slot + b.used);
        assert forall|i: int, j: int| 0 <= i < j < b.placed.len() implies apart(
            (#[trigger] b.placed[i]).1,
            (#[trigger] b.placed[j]).1,
        ) by {
            if j == m {
                let g = a.placed[i].1;
                assert(32 * g.slot + g.offset_in_slot + g.size <= 32 * a.slot + a.used);
            } else {
                assert(apart(a.placed[i].1, a.placed[j].1));
            }
        }
        assert forall|i: int| 0 <= i < b.placed.len() implies {
            let f = (#[trigger] b.placed[i]).1;
            &&& in_slot(f)
            &&& f.slot >= start
            &&& 32 * f.slot + f.offset_in_slot + f.size <= 32 * b.slot + b.used
        } by {
            if i < m {
                let g = a.placed[i].1;
                assert(in_slot(g));
            }
        }
    }
}

/// The fields of a layout without a lock share no byte, each lies behind `start` and
/// before the first slot that is left free, and one that fits a slot stays in one. The
/// slots must be countable.
pub proof fn law_fields_are_apart(fields: Seq<FieldV>, ws: Seq<usize>, start: usize, tr: bool)
    requires
        start + slots_for(ws, size_order(ws, ws.len()), ws.len()) <= usize::MAX,
    ensures
        ({
            let (p, next) = pack_storage_spec(fields, ws, start, tr);
            &&& p.len() == ws.len()
            &&& next <= start + slots_for(ws, size_order(ws, ws.len()), ws.len())
            &&& all_apart(p)
            &&& forall|i: int|
                0 <= i < p.len() ==> in_slot((#[trigger] p[i]).1) && start <= p[i].1.slot && 32
                    * p[i].1.slot + p[i].1.offset_in_slot + p[i].1.size <= 32 * next
        }),
{
    let order = size_order(ws, ws.len());
    lemma_pack(fields, ws, order, start, tr, ws.len());
    let st = pack_fold(fields, ws, order, start, tr, ws.len());
    let (p, next) = pack_storage_spec(fields, ws, start, tr);
    assert(32 * st.slot + st.used <= 32 * next);
    assert forall|i: int| 0 <= i < p.len() implies in_slot((#[trigger] p[i]).1) && start
        <= p[i].1.slot && 32 * p[i].1.slot + p[i].1.offset_in_slot + p[i].1.size <= 32 * next by {
        assert(st.placed[i] == p[i]);
    }
}

/// The sum of the first `n` widths of an order.
pub open spec fn bytes_for(ws: Seq<usize>, order: Seq<int>, n: nat) -> nat
    decreases n,
{
    if n == 0 {
        0
    } else {
        bytes_for(ws, order, (n - 1) as nat) + ws[order[n - 1]] as nat
    }
}

/// The fields of an instance follow one another in memory without a gap, and its size is
/// the sum of theirs. The bytes must be countable.
pub proof fn law_memory_is_dense(fields: Seq<FieldV>, ws: Seq<usize>, order: Seq<int>, n: nat)
    requires
        bytes_for(ws, order, n) <= usize::MAX,
    ensures
        ({
            let (p, size) = mem_fold(fields, ws, order, n);
            &&& p.len() == n
            &&& size == bytes_for(ws, order, n)
            &&& forall|i: int|
                0 <= i < n ==> (#[trigger] p[i]).1.offset == bytes_for(ws, order, i as nat)
                    && p[i].1.size == ws[order[i]]
        }),
    decreases n,
{
    if n > 0 {
        law_memory_is_dense(fields, ws, order, (n - 1) as nat);
        let (a, _) = mem_fold(fields, ws, order, (n - 1) as nat);
        let (b, _) = mem_fold(fields, ws, order, n);
        assert forall|i: int| 0 <= i < n implies (#[trigger] b[i]).1.offset == bytes_for(
            ws,
            order,
            i as nat,
        ) && b[i].1.size == ws[order[i]] by {
            if i < n - 1 {
                assert(b[i] == a[i]);
            }
        }
    }
}

/// How far a slot is filled, where that is known.
pub open spec fn level(hw: Seq<(usize, usize)>, slot: usize) -> Option<usize> {
    match water_index(hw, slot, 0) {
        Some(i) => Some(hw[i].1),
        None => None,
    }
}

proof fn lemma_index(hw: Seq<(usize, usize)>, slot: usize, i: int)
    requires
        0 <= i <= hw.len(),
    ensures
        match water_index(hw, slot, i) {
            Some(k) => i <= k < hw.len() && hw[k].0 == slot,
            None => forall|k: int| i <= k < hw.len() ==> (#[trigger] hw[k]).0 != slot,
        },
    decreases hw.len() - i,
{
    if i < hw.len() && hw[i].0 != slot {
        lemma_index(hw, slot, i + 1);
    }
}

proof fn lemma_index_is(hw: Seq<(usize, usize)>, slot: usize, k: int)
    requires
        distinct_slots(hw),
        0 <= k < hw.len(),
        hw[k].0 == slot,
    ensures
        water_index(hw, slot, 0) == Some(k),
{
    lemma_index(hw, slot, 0);
    let i = water_index(hw, slot, 0)->0;
    if i < k {
        assert(hw[i].0 != hw[k].0);
    } else if k < i {
        assert(hw[k].0 != hw[i].0);
    }
}

proof fn lemma_set(hw: Seq<(usize, usize)>, slot: usize, used: usize, s: usize)
    requires
        levels_ok(hw),
        used <= 32,
    ensures
        levels_ok(water_set(hw, slot, used)),
        level(water_set(hw, slot, used), slot) == Some(used),
        s != slot ==> level(water_set(hw, slot, used), s) == level(hw, s),
{
    let new = water_set(hw, slot, used);
    lemma_index(hw, slot, 0);
    match water_index(hw, slot, 0) {
        Some(i) => {
            assert(distinct_slots(new));
            lemma_index_is(new, slot, i);
        },
        None => {
            assert(distinct_slots(new));
            lemma_index_is(new, slot, hw.len() as int);
        },
    }
    if s != slot {
        lemma_index(hw, s, 0);
        lemma_index(new, s, 0);
        match water_index(hw, s, 0) {
            Some(k) => {
                assert(new[k] == hw[k]);
                lemma_index_is(new, s, k);
            },
            None => {
                match water_index(new, s, 0) {
                    Some(k) => {
                        if k < hw.len() {
                            assert(hw[k].0 != s);
                        }
                    },
                    None => {},
                }
            },
        }
    }
}

proof fn lemma_raise(hw: Seq<(usize, usize)>, slot: usize, used: usize, s: usize)
    requires
        levels_ok(hw),
        used <= 32,
    ensures
        levels_ok(water_raise(hw, slot, used)),
        level(water_raise(hw, slot, used), slot) matches Some(l) && l >= used,
        level(hw, s) matches Some(l) ==> (level(water_raise(hw, slot, used), s) matches Some(k)
            && k >= l),
{
    lemma_index(hw, slot, 0);
    match water_index(hw, slot, 0) {
        Some(i) => {
            if hw[i].1 < used {
                assert(water_raise(hw, slot, used) == water_set(hw, slot, used));
                lemma_set(hw, slot, used, s);
            }
        },
        None => {
            assert(water_raise(hw, slot, used) == water_set(hw, slot, used));
            lemma_set(hw, slot, used, s);
        },
    }
}

/// A committed place that can be: within a slot or from its start, and within what can be
/// counted.
pub open spec fn sound_place(f: StorageField, append: usize) -> bool {
    &&& in_slot(f)
    &&& f.offset_in_slot + f.size <= usize::MAX
    &&& f.slot + span_of(f.offset_in_slot, f.size) <= append
}

/// Every byte of a placed field lies before `append`, and below the level of its slot
/// where that is known.
spec fn covered(f: StorageField, hw: Seq<(usize, usize)>, append: usize) -> bool {
    forall|b: int|
        #![trigger holds_byte(f, b)]
        holds_byte(f, b) ==> {
            &&& b / 32 < append
            &&& (level(hw, (b / 32) as usize) matches Some(l) ==> b % 32 < l)
        }
}

/// The levels know every slot of a field.
spec fn known(f: StorageField, hw: Seq<(usize, usize)>) -> bool {
    forall|b: int|
        #![trigger holds_byte(f, b)]
        holds_byte(f, b) ==> (level(hw, (b / 32) as usize) matches Some(l) && b % 32 < l)
}

proof fn lemma_span(
    hw: Seq<(usize, usize)>,
    slot: usize,
    total: usize,
    span: nat,
    n: nat,
    s: usize,
)
    requires
        levels_ok(hw),
        n <= span,
        slot + span <= usize::MAX,
        span == words(total as nat) || (span == 1 && total == 0),
    ensures
        levels_ok(span_fold(hw, slot, total, span, n)),
        level(hw, s) matches Some(l) ==> (level(span_fold(hw, slot, total, span, n), s) matches Some(
            k,
        ) && k >= l),
        slot <= s < slot + n ==> (level(span_fold(hw, slot, total, span, n), s) matches Some(k)
            && k >= span_used(total, span, (s - slot) as nat)),
    decreases n,
{
    if n > 0 {
        let m = (n - 1) as nat;
        lemma_span(hw, slot, total, span, m, s);
        let before = span_fold(hw, slot, total, span, m);
        let at = slot.wrapping_add(m as usize);
        assert(at == slot + m);
        let used = span_used(total, span, m);
        assert(used <= 32);
        lemma_raise(before, at, used, s);
    }
}

proof fn lemma_committed_known(hw: Seq<(usize, usize)>, f: StorageField, append: usize)
    requires
        levels_ok(hw),
        sound_place(f, append),
    ensures
        ({
            let total = f.offset_in_slot.wrapping_add(f.size);
            let span = span_of(f.offset_in_slot, f.size);
            let new = span_fold(hw, f.slot, total, span, span);
            &&& levels_ok(new)
            &&& known(f, new)
            &&& forall|g: StorageField| known(g, hw) ==> #[trigger] known(g, new)
        }),
{
    let total = f.offset_in_slot.wrapping_add(f.size);
    let span = span_of(f.offset_in_slot, f.size);
    let new = span_fold(hw, f.slot, total, span, span);
    assert(total == f.offset_in_slot + f.size);
    lemma_span(hw, f.slot, total, span, span, 0);
    assert forall|b: int| #[trigger] holds_byte(f, b) implies (level(new, (b / 32) as usize) matches Some(
        l,
    ) && b % 32 < l) by {
        let s = (b / 32) as usize;
        let i = b / 32 - f.slot;
        assert(0 <= i < span);
        lemma_span(hw, f.slot, total, span, span, s);
        let u = span_used(total, span, i as nat);
        assert(b % 32 < u);
    }
    assert forall|g: StorageField| known(g, hw) implies #[trigger] known(g, new) by {
        assert forall|b: int| #[trigger] holds_byte(g, b) implies (level(
            new,
            (b / 32) as usize,
        ) matches Some(l) && b % 32 < l) by {
            lemma_span(hw, f.slot, total, span, span, (b / 32) as usize);
        }
    }
}

/// The place that a lock commits a field to.
pub open spec fn committed_place(c: LocV) -> StorageField {
    StorageField { slot: c.slot, offset_in_slot: c.offset, size: c.size, is_transient: false }
}

/// Every committed place is sound, and no two of them share a byte.
pub open spec fn sound_lock(committed: Map<Seq<char>, LocV>, append: usize) -> bool {
    &&& forall|k: Seq<char>| #[trigger]
        committed.contains_key(k) ==> sound_place(committed_place(committed[k]), append)
    &&& forall|k: Seq<char>, q: Seq<char>|
        #![trigger committed.contains_key(k), committed.contains_key(q)]
        committed.contains_key(k) && committed.contains_key(q) && k != q ==> apart(
            committed_place(committed[k]),
            committed_place(committed[q]),
        )
}

/// No field is declared twice.
pub open spec fn distinct_names(fields: Seq<FieldV>) -> bool {
    forall|i: int, j: int|
        0 <= i < j < fields.len() ==> (#[trigger] fields[i]).name != (#[trigger] fields[j]).name
}

proof fn lemma_lock_fold(
    class: Seq<char>,
    committed: Map<Seq<char>, LocV>,
    fields: Seq<FieldV>,
    ws: Seq<usize>,
    append: usize,
    n: nat,
)
    requires
        n <= fields.len(),
        sound_lock(committed, append),
        distinct_names(fields),
    ensures
        lock_fold(class, committed, fields, ws, n) matches Ok(st) ==> {
            &&& levels_ok(st.hw)
            &&& all_apart(st.placed)
            &&& forall|i: int|
                0 <= i < st.placed.len() ==> known((#[trigger] st.placed[i]).1, st.hw)
                    && committed.contains_key(st.placed[i].0) && st.placed[i].1 == committed_place(
                    committed[st.placed[i].0],
                )
            &&& forall|i: int|
                0 <= i < st.placed.len() ==> exists|k: int|
                    0 <= k < n && (#[trigger] fields[k]).name == (#[trigger] st.placed[i]).0
            &&& forall|k: int|
                0 <= k < n && committed.contains_key((#[trigger] fields[k]).name) ==> st.placed.contains(
                    (fields[k].name, committed_place(committed[fields[k].name])),
                )
            &&& forall|i: int| 0 <= i < st.fresh.len() ==> 0 <= #[trigger] st.fresh[i] < n
        },
    decreases n,
{
    if n > 0 {
        let m = (n - 1) as nat;
        lemma_lock_fold(class, committed, fields, ws, append, m);
        match lock_fold(class, committed, fields, ws, m) {
            Err(_) => {},
            Ok(a) => {
                match lock_fold(class, committed, fields, ws, n) {
                    Err(_) => {},
                    Ok(b) => {
                        let name = fields[n - 1].name;
                        if committed.contains_key(name) {
                            let f = committed_place(committed[name]);
                            lemma_committed_known(a.hw, f, append);
                            assert(b.placed =~= a.placed.push((name, f)));
                            assert forall|i: int, j: int| 0 <= i < j < b.placed.len() implies apart(
                                (#[trigger] b.placed[i]).1,
                                (#[trigger] b.placed[j]).1,
                            ) by {
                                if j == a.placed.len() {
                                    let k = choose|k: int|
                                        0 <= k < m && (#[trigger] fields[k]).name == a.placed[i].0;
                                    assert(fields[k].name != fields[n - 1].name);
                                    assert(committed.contains_key(a.placed[i].0));
                                    assert(committed.contains_key(name));
                                } else {
                                    assert(apart(a.placed[i].1, a.placed[j].1));
                                }
                            }
                            assert forall|i: int| 0 <= i < b.placed.len() implies known(
                                (#[trigger] b.placed[i]).1,
                                b.hw,
                            ) && committed.contains_key(b.placed[i].0) && b.placed[i].1
                                == committed_place(committed[b.placed[i].0]) by {
                                if i < a.placed.len() {
                                    assert(known(a.placed[i].1, a.hw));
                                }
                            }
                            assert forall|i: int| 0 <= i < b.placed.len() implies exists|k: int|
                                0 <= k < n && (#[trigger] fields[k]).name == (#[trigger] b.placed[i]).0 by {
                                if i < a.placed.len() {
                                    let k = choose|k: int|
                                        0 <= k < m && (#[trigger] fields[k]).name == a.placed[i].0;
                                    assert(fields[k].name == b.placed[i].0);
                                } else {
                                    assert(fields[n - 1].name == b.placed[i].0);
                                }
                            }
                            assert forall|k: int|
                                0 <= k < n && committed.contains_key(
                                    (#[trigger] fields[k]).name,
                                ) implies b.placed.contains(
                                (fields[k].name, committed_place(committed[fields[k].name])),
                            ) by {
                                let e = (fields[k].name, committed_place(committed[fields[k].name]));
                                if k < m {
                                    assert(a.placed.contains(e));
                                    let x = choose|x: int| 0 <= x < a.placed.len() && a.placed[x] == e;
                                    assert(b.placed[x] == e);
                                } else {
                                    assert(b.placed[a.placed.len() as int] == e);
                                }
                            }
                        } else {
                            assert(b.placed == a.placed);
                            assert forall|i: int| 0 <= i < b.placed.len() implies exists|k: int|
                                0 <= k < n && (#[trigger] fields[k]).name == (#[trigger] b.placed[i]).0 by {
                                let k = choose|k: int|
                                    0 <= k < m && (#[trigger] fields[k]).name == a.placed[i].0;
                                assert(fields[k].name == b.placed[i].0);
                            }
                            assert forall|i: int| 0 <= i < b.fresh.len() implies 0
                                <= #[trigger] b.fresh[i] < n by {
                                if i < a.fresh.len() {
                                    assert(b.fresh[i] == a.fresh[i]);
                                }
                            }
                        }
                    },
                }
            },
        }
    }
}

/// What holds while new fields are placed.
spec fn fresh_ok(st: FreshV) -> bool {
    &&& levels_ok(st.hw)
    &&& all_apart(st.placed)
    &&& forall|i: int|
        0 <= i < st.placed.len() ==> covered((#[trigger] st.placed[i]).1, st.hw, st.append)
    &&& forall|s: usize| #[trigger] level(st.hw, s) is Some ==> s < st.append
    &&& forall|i: int|
        0 <= i < st.placed.len() ==> sound_place((#[trigger] st.placed[i]).1, st.append)
            && !st.placed[i].1.is_transient
}

proof fn lemma_fresh_step(st: FreshV, name: Seq<char>, w: usize)
    requires
        fresh_ok(st),
        st.append + words(w as nat) + 1 <= usize::MAX,
    ensures
        fresh_ok(fresh_step(st, name, w)),
        fresh_step(st, name, w).placed.len() == st.placed.len() + 1,
        fresh_step(st, name, w).append <= st.append + words(w as nat) + (if w == 0 {
            1int
        } else {
            0
        }),
{
    let b = fresh_step(st, name, w);
    let n = st.placed.len() as int;
    let f = b.placed[n].1;
    assert(b.placed =~= st.placed.push(b.placed[n]));
    if w > 32 {
        assert forall|i: int| 0 <= i < n implies apart((#[trigger] st.placed[i]).1, f) by {
            assert forall|x: int| !(#[trigger] holds_byte(st.placed[i].1, x) && holds_byte(f, x)) by {
                if holds_byte(st.placed[i].1, x) {
                    assert(x / 32 < st.append);
                }
            }
        }
        assert forall|i: int| 0 <= i < b.placed.len() implies covered(
            (#[trigger] b.placed[i]).1,
            b.hw,
            b.append,
        ) by {
            if i < n {
                assert(covered(st.placed[i].1, st.hw, st.append));
            } else {
                assert forall|x: int| #[trigger] holds_byte(f, x) implies x / 32 < b.append && (level(
                    b.hw,
                    (x / 32) as usize,
                ) matches Some(l) ==> x % 32 < l) by {
                    let s = (x / 32) as usize;
                    if level(st.hw, s) is Some {
                        assert(s < st.append);
                    }
                }
            }
        }
    } else {
        let gap = gap_of(st.hw, w, st.hw.len());
        if gap is Some {
            lemma_gap_slot(st.hw, w);
        }
        let slot = f.slot;
        let offset = f.offset_in_slot;
        assert(offset + w <= 32);
        assert(gap is Some ==> level(st.hw, slot) == Some(offset));
        assert(gap is None ==> slot == st.append && offset == 0);
        assert forall|i: int| 0 <= i < n implies apart((#[trigger] st.placed[i]).1, f) by {
            assert(covered(st.placed[i].1, st.hw, st.append));
            assert forall|x: int| !(#[trigger] holds_byte(st.placed[i].1, x) && holds_byte(f, x)) by {
                if holds_byte(st.placed[i].1, x) && holds_byte(f, x) {
                    assert(x / 32 == slot);
                    assert(x % 32 >= offset);
                }
            }
        }
        lemma_set(st.hw, slot, (offset + w) as usize, slot);
        assert forall|s: usize| #[trigger] level(b.hw, s) is Some implies s < b.append by {
            lemma_set(st.hw, slot, (offset + w) as usize, s);
            if s != slot {
                assert(level(st.hw, s) is Some);
            } else if gap is Some {
                assert(level(st.hw, slot) is Some);
            }
        }
        assert forall|i: int| 0 <= i < b.placed.len() implies covered(
            (#[trigger] b.placed[i]).1,
            b.hw,
            b.append,
        ) by {
            let g = b.placed[i].1;
            assert forall|x: int| #[trigger] holds_byte(g, x) implies x / 32 < b.append && (level(
                b.hw,
                (x / 32) as usize,
            ) matches Some(l) ==> x % 32 < l) by {
                let s = (x / 32) as usize;
                if i < n {
                    assert(covered(st.placed[i].1, st.hw, st.append));
                    assert(x / 32 < st.append);
                    lemma_set(st.hw, slot, (offset + w) as usize, s);
                    if s == slot && gap is Some {
                        assert(x % 32 < offset);
                    }
                } else {
                    assert(x / 32 == slot);
                    if gap is Some {
                        assert(level(st.hw, slot) is Some);
                    }
                }
            }
        }
    }
    assert forall|i: int, j: int| 0 <= i < j < b.placed.len() implies apart(
        (#[trigger] b.placed[i]).1,
        (#[trigger] b.placed[j]).1,
    ) by {
        if j < n {
            assert(apart(st.placed[i].1, st.placed[j].1));
        } else {
            assert(apart(st.placed[i].1, f));
        }
    }
    assert(f.offset_in_slot.wrapping_add(f.size) == f.offset_in_slot + f.size);
    assert(w <= 32 ==> span_of(f.offset_in_slot, f.size) == 1);
    assert(w <= 32 ==> f.slot < b.append);
    assert forall|i: int| 0 <= i < b.placed.len() implies sound_place(
        (#[trigger] b.placed[i]).1,
        b.append,
    ) && !b.placed[i].1.is_transient by {
        if i < n {
            assert(sound_place(st.placed[i].1, st.append));
        }
    }
}

/// How many slots new fields need at most, behind everything that is committed.
pub open spec fn room_for(ws: Seq<usize>, order: Seq<int>, n: nat) -> nat {
    slots_for(ws, order, n) + n
}

proof fn lemma_fresh_fold(st: FreshV, fields: Seq<FieldV>, ws: Seq<usize>, order: Seq<int>, n: nat)
    requires
        fresh_ok(st),
        st.append + room_for(ws, order, n) + 1 <= usize::MAX,
    ensures
        fresh_ok(fresh_fold(st, fields, ws, order, n)),
        fresh_fold(st, fields, ws, order, n).placed.len() == st.placed.len() + n,
        fresh_fold(st, fields, ws, order, n).append <= st.append + room_for(ws, order, n),
        forall|i: int|
            0 <= i < st.placed.len() ==> (#[trigger] fresh_fold(st, fields, ws, order, n).placed[i])
                == st.placed[i],
    decreases n,
{
    if n > 0 {
        let m = (n - 1) as nat;
        lemma_fresh_fold(st, fields, ws, order, m);
        let a = fresh_fold(st, fields, ws, order, m);
        lemma_fresh_step(a, fields[order[n - 1]].name, ws[order[n - 1]]);
        let b = fresh_fold(st, fields, ws, order, n);
        assert forall|i: int| 0 <= i < st.placed.len() implies (#[trigger] b.placed[i])
            == st.placed[i] by {
            assert(b.placed[i] == a.placed[i]);
        }
    }
}

/// Under a sound lock, every committed field is still declared and keeps its slot, its
/// offset and its size, and no two fields of the new layout share a byte, old or new. The
/// slots must be countable.
pub proof fn law_lock_is_kept(
    class: Seq<char>,
    fields: Seq<FieldV>,
    ws: Seq<usize>,
    committed: Map<Seq<char>, LocV>,
    append: usize,
)
    requires
        fields.len() == ws.len(),
        sound_lock(committed, append),
        distinct_names(fields),
        lock_fold(class, committed, fields, ws, fields.len()) matches Ok(st) ==> ({
            let order = fresh_order(st.fresh, fields, ws, st.fresh.len());
            append + room_for(ws, order, order.len()) + 1 <= usize::MAX
        }),
    ensures
        pack_locked_spec(class, fields, ws, committed, append) matches Ok((p, end)) ==> {
            &&& all_apart(p)
            &&& forall|i: int|
                0 <= i < p.len() ==> sound_place((#[trigger] p[i]).1, end)
                    && !p[i].1.is_transient
            &&& forall|k: Seq<char>| #[trigger]
                committed.contains_key(k) ==> declares(fields, k) && p.contains(
                    (k, committed_place(committed[k])),
                )
        },
{
    if pack_locked_spec(class, fields, ws, committed, append) is Ok {
        lemma_lock_fold(class, committed, fields, ws, append, fields.len());
        let st = lock_fold(class, committed, fields, ws, fields.len())->Ok_0;
        let order = fresh_order(st.fresh, fields, ws, st.fresh.len());
        let f0 = FreshV { placed: st.placed, hw: st.hw, append };
        assert forall|i: int| 0 <= i < st.placed.len() implies covered(
            (#[trigger] st.placed[i]).1,
            st.hw,
            append,
        ) by {
            let f = st.placed[i].1;
            assert(known(f, st.hw));
            assert(sound_place(f, append));
            assert forall|b: int| #[trigger] holds_byte(f, b) implies b / 32 < append && (level(
                st.hw,
                (b / 32) as usize,
            ) matches Some(l) ==> b % 32 < l) by {
                assert(b / 32 < f.slot + span_of(f.offset_in_slot, f.size));
            }
        }
        lemma_levels_bounded(class, committed, fields, ws, append, fields.len());
        lemma_fresh_fold(f0, fields, ws, order, order.len());
        let end = fresh_fold(f0, fields, ws, order, order.len());
        assert forall|k: Seq<char>| #[trigger] committed.contains_key(k) implies declares(fields, k)
            && end.placed.contains((k, committed_place(committed[k]))) by {
            assert(declares(fields, k));
            let i = choose|i: int| 0 <= i < fields.len() && (#[trigger] fields[i]).name == k;
            let e = (k, committed_place(committed[k]));
            assert(committed.contains_key(fields[i].name));
            assert(st.placed.contains(e));
            let x = choose|x: int| 0 <= x < st.placed.len() && st.placed[x] == e;
            assert(end.placed[x] == f0.placed[x]);
        }
    }
}

proof fn lemma_span_bounded(
    hw: Seq<(usize, usize)>,
    slot: usize,
    total: usize,
    span: nat,
    n: nat,
    append: usize,
)
    requires
        levels_ok(hw),
        n <= span,
        slot + span <= append,
        span == words(total as nat) || (span == 1 && total == 0),
        forall|s: usize| #[trigger] level(hw, s) is Some ==> s < append,
    ensures
        levels_ok(span_fold(hw, slot, total, span, n)),
        forall|s: usize| #[trigger] level(span_fold(hw, slot, total, span, n), s) is Some ==> s
            < append,
    decreases n,
{
    if n > 0 {
        let m = (n - 1) as nat;
        lemma_span_bounded(hw, slot, total, span, m, append);
        let before = span_fold(hw, slot, total, span, m);
        let at = slot.wrapping_add(m as usize);
        let used = span_used(total, span, m);
        assert(at == slot + m);
        assert(used <= 32);
        let after = span_fold(hw, slot, total, span, n);
        lemma_raise(before, at, used, at);
        assert forall|s: usize| #[trigger] level(after, s) is Some implies s < append by {
            if s != at {
                lemma_index(before, at, 0);
                match water_index(before, at, 0) {
                    Some(i) => {
                        if before[i].1 < used {
                            lemma_set(before, at, used, s);
                            assert(after == water_set(before, at, used));
                        }
                    },
                    None => {
                        lemma_set(before, at, used, s);
                        assert(after == water_set(before, at, used));
                    },
                }
                assert(level(before, s) is Some);
            }
        }
    }
}

proof fn lemma_levels_bounded(
    class: Seq<char>,
    committed: Map<Seq<char>, LocV>,
    fields: Seq<FieldV>,
    ws: Seq<usize>,
    append: usize,
    n: nat,
)
    requires
        n <= fields.len(),
        sound_lock(committed, append),
    ensures
        lock_fold(class, committed, fields, ws, n) matches Ok(st) ==> levels_ok(st.hw) && forall|
            s: usize,
        | #[trigger] level(st.hw, s) is Some ==> s < append,
    decreases n,
{
    if n > 0 {
        let m = (n - 1) as nat;
        lemma_levels_bounded(class, committed, fields, ws, append, m);
        match lock_fold(class, committed, fields, ws, m) {
            Err(_) => {},
            Ok(a) => {
                let name = fields[n - 1].name;
                if committed.contains_key(name) && committed[name].size == ws[n - 1]
                    && committed[name].type_text == suffix_spec(fields[n - 1].type_def) {
                    let c = committed[name];
                    let f = committed_place(c);
                    assert(sound_place(f, append));
                    let span = span_of(c.offset, c.size);
                    lemma_span_bounded(
                        a.hw,
                        c.slot,
                        c.offset.wrapping_add(c.size),
                        span,
                        span,
                        append,
                    );
                }
            },
        }
    }
}

proof fn lemma_resized(
    class: Seq<char>,
    committed: Map<Seq<char>, LocV>,
    fields: Seq<FieldV>,
    ws: Seq<usize>,
    i: int,
    n: nat,
)
    requires
        0 <= i < n <= fields.len(),
        committed.contains_key(fields[i].name),
        committed[fields[i].name].size != ws[i] || committed[fields[i].name].type_text
            != suffix_spec(fields[i].type_def),
    ensures
        lock_fold(class, committed, fields, ws, n) is Err,
    decreases n,
{
    if i < n - 1 {
        lemma_resized(class, committed, fields, ws, i, (n - 1) as nat);
    }
}

/// A program that drops a committed field, or changes the size or the type of one, is
/// refused.
pub proof fn law_unsafe_changes_are_refused(
    class: Seq<char>,
    fields: Seq<FieldV>,
    ws: Seq<usize>,
    committed: Map<Seq<char>, LocV>,
    append: usize,
)
    requires
        (exists|k: Seq<char>| #[trigger] committed.contains_key(k) && !declares(fields, k)) || (
        exists|i: int|
            0 <= i < fields.len() && committed.contains_key((#[trigger] fields[i]).name)
                && (committed[fields[i].name].size != ws[i] || committed[fields[i].name].type_text
                != suffix_spec(fields[i].type_def))),
    ensures
        pack_locked_spec(class, fields, ws, committed, append) is Err,
{
    if removed_field(committed, fields) is None {
        let i = choose|i: int|
            0 <= i < fields.len() && committed.contains_key((#[trigger] fields[i]).name)
                && (committed[fields[i].name].size != ws[i] || committed[fields[i].name].type_text
                != suffix_spec(fields[i].type_def));
        lemma_resized(class, committed, fields, ws, i, fields.len());
    }
}

pub(crate) proof fn lemma_pack_names(
    fields: Seq<FieldV>,
    ws: Seq<usize>,
    order: Seq<int>,
    start: usize,
    tr: bool,
    n: nat,
)
    ensures
        pack_fold(fields, ws, order, start, tr, n).placed.len() == n,
        forall|i: int|
            0 <= i < n ==> (#[trigger] pack_fold(fields, ws, order, start, tr, n).placed[i]).0
                == fields[order[i]].name && pack_fold(fields, ws, order, start, tr, n).placed[i].1.size
                == ws[order[i]] && pack_fold(
                fields,
                ws,
                order,
                start,
                tr,
                n,
            ).placed[i].1.is_transient == tr,
    decreases n,
{
    if n > 0 {
        lemma_pack_names(fields, ws, order, start, tr, (n - 1) as nat);
        let a = pack_fold(fields, ws, order, start, tr, (n - 1) as nat).placed;
        let b = pack_fold(fields, ws, order, start, tr, n).placed;
        assert forall|i: int| 0 <= i < n implies (#[trigger] b[i]).0 == fields[order[i]].name
            && b[i].1.size == ws[order[i]] && b[i].1.is_transient == tr by {
            if i < n - 1 {
                assert(b[i] == a[i]);
            }
        }
    }
}

pub(crate) proof fn lemma_last_placed(p: Seq<(Seq<char>, StorageField)>, name: Seq<char>, i: int, n: nat)
    requires
        0 <= i < n <= p.len(),
        p[i].0 == name,
        forall|j: int| i < j < n ==> (#[trigger] p[j]).0 != name,
    ensures
        last_placed(p, name, n) == Some(p[i].1),
    decreases n,
{
    if i < n - 1 {
        lemma_last_placed(p, name, i, (n - 1) as nat);
    }
}

/// Every field has a place.
pub open spec fn places(fields: Seq<FieldV>, ws: Seq<usize>, p: Seq<(Seq<char>, StorageField)>) -> bool {
    forall|k: int|
        0 <= k < fields.len() ==> (last_placed(p, (#[trigger] fields[k]).name, p.len()) matches Some(
            f,
        ) && f.size == ws[k] && !f.is_transient)
}

pub(crate) proof fn lemma_places(fields: Seq<FieldV>, ws: Seq<usize>, start: usize)
    requires
        fields.len() == ws.len(),
        distinct_names(fields),
    ensures
        places(fields, ws, pack_storage_spec(fields, ws, start, false).0),
{
    let order = size_order(ws, ws.len());
    let p = pack_storage_spec(fields, ws, start, false).0;
    law_size_order(ws, ws.len());
    lemma_pack_names(fields, ws, order, start, false, ws.len());
    assert forall|k: int| 0 <= k < fields.len() implies (last_placed(
        p,
        (#[trigger] fields[k]).name,
        p.len(),
    ) matches Some(f) && f.size == ws[k] && !f.is_transient) by {
        assert(order.contains(k));
        let i = choose|i: int| 0 <= i < order.len() && order[i] == k;
        assert(p[i].0 == fields[k].name);
        assert forall|j: int| i < j < p.len() implies (#[trigger] p[j]).0 != fields[k].name by {
            assert(goes_before(ws, order[i], order[j]));
            let m = order[j];
            assert(0 <= m < ws.len());
            if m < k {
                assert(fields[m].name != fields[k].name);
            } else {
                assert(fields[k].name != fields[m].name);
            }
        }
        lemma_last_placed(p, fields[k].name, i, p.len());
    }
}

proof fn lemma_manifest(
    fields: Seq<FieldV>,
    ws: Seq<usize>,
    p: Seq<(Seq<char>, StorageField)>,
    n: nat,
)
    requires
        n <= fields.len(),
        distinct_names(fields),
        places(fields, ws, p),
        forall|k: int|
            0 <= k < fields.len() ==> !(#[trigger] fields[k]).is_const && !fields[k].is_transient,
    ensures
        forall|k: int|
            0 <= k < n ==> class_manifest(fields, p, n).contains_key((#[trigger] fields[k]).name)
                && Some(committed_place(class_manifest(fields, p, n)[fields[k].name]))
                == last_placed(p, fields[k].name, p.len()) && class_manifest(
                fields,
                p,
                n,
            )[fields[k].name].type_text == suffix_spec(fields[k].type_def),
        forall|q: Seq<char>| #[trigger]
            class_manifest(fields, p, n).contains_key(q) ==> declares(fields, q),
    decreases n,
{
    if n > 0 {
        lemma_manifest(fields, ws, p, (n - 1) as nat);
        let a = class_manifest(fields, p, (n - 1) as nat);
        let b = class_manifest(fields, p, n);
        let f = fields[n - 1];
        assert(last_placed(p, f.name, p.len()) is Some);
        assert forall|k: int| 0 <= k < n implies b.contains_key((#[trigger] fields[k]).name)
            && Some(committed_place(b[fields[k].name])) == last_placed(
            p,
            fields[k].name,
            p.len(),
        ) && b[fields[k].name].type_text == suffix_spec(fields[k].type_def) by {
            if k < n - 1 {
                assert(fields[k].name != fields[n - 1].name);
            }
        }
        assert forall|q: Seq<char>| #[trigger] b.contains_key(q) implies declares(fields, q) by {
            if q != f.name {
                assert(a.contains_key(q));
            } else {
                assert(fields[n - 1].name == q);
            }
        }
    }
}

pub(crate) proof fn lemma_all_committed(
    class: Seq<char>,
    committed: Map<Seq<char>, LocV>,
    fields: Seq<FieldV>,
    ws: Seq<usize>,
    n: nat,
)
    requires
        n <= fields.len(),
        forall|k: int|
            0 <= k < fields.len() ==> committed.contains_key((#[trigger] fields[k]).name)
                && committed[fields[k].name].size == ws[k] && committed[fields[k].name].type_text
                == suffix_spec(fields[k].type_def),
    ensures
        lock_fold(class, committed, fields, ws, n) matches Ok(st) && st.fresh.len() == 0
            && st.placed == Seq::new(
            n,
            |k: int| (fields[k].name, committed_place(committed[fields[k].name])),
        ),
    decreases n,
{
    if n > 0 {
        lemma_all_committed(class, committed, fields, ws, (n - 1) as nat);
        let b = lock_fold(class, committed, fields, ws, n)->Ok_0;
        assert(b.placed =~= Seq::new(
            n,
            |k: int| (fields[k].name, committed_place(committed[fields[k].name])),
        ));
    } else {
        let b = lock_fold(class, committed, fields, ws, n)->Ok_0;
        assert(b.placed =~= Seq::new(
            n,
            |k: int| (fields[k].name, committed_place(committed[fields[k].name])),
        ));
    }
}

/// A contract that is built again under the lock that its first build wrote is accepted,
/// and every field is where it was.
pub proof fn law_lock_of_a_build(
    class: Seq<char>,
    fields: Seq<FieldV>,
    ws: Seq<usize>,
    start: usize,
    append: usize,
)
    requires
        fields.len() == ws.len(),
        distinct_names(fields),
        forall|k: int|
            0 <= k < fields.len() ==> !(#[trigger] fields[k]).is_const && !fields[k].is_transient,
    ensures
        ({
            let p = pack_storage_spec(fields, ws, start, false).0;
            let m = class_manifest(fields, p, fields.len());
            pack_locked_spec(class, fields, ws, m, append) matches Ok((q, end)) && end == append
                && q.len() == fields.len() && forall|k: int|
                0 <= k < fields.len() ==> (#[trigger] q[k]).0 == fields[k].name && Some(q[k].1)
                    == last_placed(p, fields[k].name, p.len())
        }),
{
    let p = pack_storage_spec(fields, ws, start, false).0;
    let m = class_manifest(fields, p, fields.len());
    lemma_places(fields, ws, start);
    lemma_manifest(fields, ws, p, fields.len());
    assert forall|k: int| 0 <= k < fields.len() implies m.contains_key((#[trigger] fields[k]).name)
        && m[fields[k].name].size == ws[k] && m[fields[k].name].type_text == suffix_spec(
        fields[k].type_def,
    ) by {
        assert(Some(committed_place(m[fields[k].name])) == last_placed(
            p,
            fields[k].name,
            p.len(),
        ));
    }
    lemma_all_committed(class, m, fields, ws, fields.len());
    assert(removed_field(m, fields) is None);
    let st = lock_fold(class, m, fields, ws, fields.len())->Ok_0;
    let order = fresh_order(st.fresh, fields, ws, st.fresh.len());
    assert(order.len() == 0);
    let q = pack_locked_spec(class, fields, ws, m, append)->Ok_0.0;
    assert forall|k: int| 0 <= k < fields.len() implies (#[trigger] q[k]).0 == fields[k].name
        && Some(q[k].1) == last_placed(p, fields[k].name, p.len()) by {
        assert(m.contains_key(fields[k].name));
    }
}

} // verus!
