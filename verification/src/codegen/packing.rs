//! How fields are packed: into 32-byte storage slots, into memory, and into
//! the space that an earlier deployment has left.
use crate::ast::{fields_v, ClassField, FieldV};
use crate::codegen::{suffix_spec, type_suffix};
use crate::codegen::yul::{max_one, word_count, words};
use crate::names::{ascending, SortedMap};
use crate::text::{
    cat5, dec, dec_text, lemma_less_irreflexive, lemma_less_total, less, same, text_less,
};
use vstd::prelude::*;

verus! {

/// Where a storage-backed field lives: its first slot, and the bytes it takes
/// there, counted from the low end. Transient slots are a space of their own.
#[derive(Clone, Copy, Debug)]
pub struct StorageField {
    pub slot: usize,
    pub offset_in_slot: usize,
    pub size: usize,
    pub is_transient: bool,
}

/// Where a field of an instance lives: its bytes, counted from the base.
#[derive(Clone, Copy, Debug)]
pub struct MemoryField {
    pub offset: usize,
    pub size: usize,
}

/// The committed position of one field.
#[derive(Debug)]
pub struct FieldLoc {
    pub slot: usize,
    pub offset: usize,
    pub size: usize,
    pub type_text: String,
}

/// The view of a [`FieldLoc`].
pub struct LocV {
    pub slot: usize,
    pub offset: usize,
    pub size: usize,
    pub type_text: Seq<char>,
}

impl FieldLoc {
    pub open spec fn view(&self) -> LocV {
        LocV { slot: self.slot, offset: self.offset, size: self.size, type_text: self.type_text@ }
    }
}

/// The committed positions of the fields of one contract.
pub struct ClassLayout {
    pub fields: SortedMap<FieldLoc>,
}

pub open spec fn locs_v(m: Map<Seq<char>, FieldLoc>) -> Map<Seq<char>, LocV> {
    Map::new(|k: Seq<char>| m.contains_key(k), |k: Seq<char>| m[k]@)
}

impl ClassLayout {
    pub open spec fn view(&self) -> Map<Seq<char>, LocV> {
        locs_v(self.fields@)
    }
}

/// Fields with their positions, in the order in which they were placed.
pub open spec fn placed_v(v: Seq<(String, StorageField)>) -> Seq<(Seq<char>, StorageField)> {
    Seq::new(v.len(), |i: int| (v[i].0@, v[i].1))
}

/// Fields with their memory positions, in the order in which they were placed.
pub open spec fn mem_placed_v(v: Seq<(String, MemoryField)>) -> Seq<(Seq<char>, MemoryField)> {
    Seq::new(v.len(), |i: int| (v[i].0@, v[i].1))
}

pub open spec fn ints(v: Seq<usize>) -> Seq<int> {
    Seq::new(v.len(), |i: int| v[i] as int)
}

/// The first place, from `i` on, of a field narrower than `w`.
pub open spec fn place_at(order: Seq<int>, ws: Seq<usize>, w: usize, i: int) -> int
    decreases order.len() - i,
{
    if i >= order.len() {
        order.len() as int
    } else if ws[order[i]] < w {
        i
    } else {
        place_at(order, ws, w, i + 1)
    }
}

/// The first `n` fields ordered by width, the widest first; fields of the same
/// width stay in the order of their declaration.
pub open spec fn size_order(ws: Seq<usize>, n: nat) -> Seq<int>
    decreases n,
{
    if n == 0 {
        Seq::empty()
    } else {
        let o = size_order(ws, (n - 1) as nat);
        o.insert(place_at(o, ws, ws[n - 1], 0), n - 1)
    }
}

proof fn lemma_place_at(order: Seq<int>, ws: Seq<usize>, w: usize, i: int)
    requires
        0 <= i <= order.len(),
    ensures
        i <= place_at(order, ws, w, i) <= order.len(),
        forall|k: int| i <= k < place_at(order, ws, w, i) ==> ws[#[trigger] order[k]] >= w,
        place_at(order, ws, w, i) < order.len() ==> ws[order[place_at(order, ws, w, i)]] < w,
    decreases order.len() - i,
{
    if i < order.len() && ws[order[i]] >= w {
        lemma_place_at(order, ws, w, i + 1);
    }
}

/// Whether the field at `a` goes before the field at `b`.
pub open spec fn goes_before(ws: Seq<usize>, a: int, b: int) -> bool {
    ws[a] > ws[b] || (ws[a] == ws[b] && a < b)
}

/// The order of packing names each of the first `n` fields once, and puts the
/// wider of two fields first, and of two equally wide ones the one declared
/// first.
pub proof fn law_size_order(ws: Seq<usize>, n: nat)
    requires
        n <= ws.len(),
    ensures
        size_order(ws, n).len() == n,
        forall|i: int| 0 <= i < n ==> 0 <= #[trigger] size_order(ws, n)[i] < n,
        forall|k: int| 0 <= k < n ==> size_order(ws, n).contains(k),
        forall|i: int, j: int|
            0 <= i < j < n ==> goes_before(
                ws,
                #[trigger] size_order(ws, n)[i],
                #[trigger] size_order(ws, n)[j],
            ),
    decreases n,
{
    if n > 0 {
        let m = (n - 1) as nat;
        law_size_order(ws, m);
        let o = size_order(ws, m);
        let p = place_at(o, ws, ws[n - 1], 0);
        lemma_place_at(o, ws, ws[n - 1], 0);
        let r = size_order(ws, n);
        assert(r == o.insert(p, n - 1));
        assert forall|k: int| 0 <= k < n implies r.contains(k) by {
            if k == n - 1 {
                assert(r[p] == k);
            } else {
                assert(o.contains(k));
                let x = choose|x: int| 0 <= x < o.len() && o[x] == k;
                if x < p {
                    assert(r[x] == k);
                } else {
                    assert(r[x + 1] == k);
                }
            }
        }
        assert forall|i: int, j: int| 0 <= i < j < n implies goes_before(
            ws,
            #[trigger] r[i],
            #[trigger] r[j],
        ) by {
            let x = if i < p {
                i
            } else {
                i - 1
            };
            let y = if j < p {
                j
            } else {
                j - 1
            };
            if i == p {
                assert(r[j] == o[y]);
                assert(ws[o[p]] < ws[n - 1]);
                if y > p {
                    assert(goes_before(ws, o[p], o[y]));
                }
            } else if j == p {
                assert(r[i] == o[x]);
                assert(ws[o[x]] >= ws[n - 1]);
            } else {
                assert(goes_before(ws, o[x], o[y]));
            }
        }
        assert forall|i: int| 0 <= i < n implies 0 <= #[trigger] r[i] < n by {
            if i < p {
                assert(r[i] == o[i]);
            } else if i > p {
                assert(r[i] == o[i - 1]);
            }
        }
    }
}

/// The fields by width, the widest first.
pub fn size_sorted_indices(ws: &Vec<usize>) -> (r: Vec<usize>)
    ensures
        ints(r@) == size_order(ws@, ws@.len()),
        r@.len() == ws@.len(),
        forall|i: int| 0 <= i < r@.len() ==> (#[trigger] r@[i]) < ws@.len(),
{
    let mut out: Vec<usize> = Vec::new();
    let mut n: usize = 0;
    assert(ints(out@) =~= size_order(ws@, 0));
    while n < ws.len()
        invariant
            n <= ws@.len(),
            out@.len() == n,
            ints(out@) == size_order(ws@, n as nat),
            forall|i: int| 0 <= i < n ==> (#[trigger] out@[i]) < n,
        decreases ws@.len() - n,
    {
        let w: usize = ws[n];
        let mut p: usize = 0;
        while p < out.len() && !(ws[out[p]] < w)
            invariant
                p <= out@.len(),
                out@.len() == n,
                n < ws@.len(),
                w == ws@[n as int],
                forall|i: int| 0 <= i < n ==> (#[trigger] out@[i]) < n,
                place_at(ints(out@), ws@, w, 0) == place_at(ints(out@), ws@, w, p as int),
            decreases out@.len() - p,
        {
            p += 1;
        }
        let ghost before = out@;
        out.insert(p, n);
        proof {
            assert(ints(out@) =~= ints(before).insert(p as int, n as int));
            assert forall|i: int| 0 <= i < n + 1 implies (#[trigger] out@[i]) < n + 1 by {
                if i < p {
                    assert(out@[i] == before[i]);
                } else if i > p {
                    assert(out@[i] == before[i - 1]);
                }
            }
        }
        n += 1;
    }
    out
}

/// The state of the storage packer: the running slot, how many of its bytes
/// are taken, and what has been placed.
pub struct PackV {
    pub slot: usize,
    pub used: usize,
    pub placed: Seq<(Seq<char>, StorageField)>,
}

/// Places one field of `w` bytes. One wider than a slot starts a fresh slot
/// and takes whole slots; any other goes behind its predecessor where it still
/// fits, and into a fresh slot where it does not.
pub open spec fn pack_step(st: PackV, name: Seq<char>, w: usize, tr: bool) -> PackV {
    if w > 32 {
        let s = if st.used > 0 {
            st.slot.wrapping_add(1)
        } else {
            st.slot
        };
        PackV {
            slot: s.wrapping_add(words(w as nat) as usize),
            used: 0,
            placed: st.placed.push(
                (name, StorageField { slot: s, offset_in_slot: 0, size: w, is_transient: tr }),
            ),
        }
    } else {
        let fits = st.used + w <= 32;
        let s = if fits {
            st.slot
        } else {
            st.slot.wrapping_add(1)
        };
        let u = if fits {
            st.used
        } else {
            0
        };
        PackV {
            slot: s,
            used: (u + w) as usize,
            placed: st.placed.push(
                (name, StorageField { slot: s, offset_in_slot: u, size: w, is_transient: tr }),
            ),
        }
    }
}

/// What the packer has done after the first `n` fields of `order`.
pub open spec fn pack_fold(
    fields: Seq<FieldV>,
    ws: Seq<usize>,
    order: Seq<int>,
    start: usize,
    tr: bool,
    n: nat,
) -> PackV
    decreases n,
{
    if n == 0 {
        PackV { slot: start, used: 0, placed: Seq::empty() }
    } else {
        let st = pack_fold(fields, ws, order, start, tr, (n - 1) as nat);
        pack_step(st, fields[order[n - 1]].name, ws[order[n - 1]], tr)
    }
}

/// The packing of `fields`, whose widths are `ws`, from slot `start` on: the
/// positions, and the first slot behind them.
pub open spec fn pack_storage_spec(
    fields: Seq<FieldV>,
    ws: Seq<usize>,
    start: usize,
    tr: bool,
) -> (Seq<(Seq<char>, StorageField)>, usize) {
    let st = pack_fold(fields, ws, size_order(ws, ws.len()), start, tr, ws.len());
    (
        st.placed,
        if st.used > 0 {
            st.slot.wrapping_add(1)
        } else {
            st.slot
        },
    )
}

pub fn pack_storage_fields(
    fields: &Vec<ClassField>,
    ws: &Vec<usize>,
    start: usize,
    tr: bool,
) -> (r: (Vec<(String, StorageField)>, usize))
    requires
        fields@.len() == ws@.len(),
    ensures
        (placed_v(r.0@), r.1) == pack_storage_spec(fields_v(fields@), ws@, start, tr),
{
    let order = size_sorted_indices(ws);
    let mut placed: Vec<(String, StorageField)> = Vec::new();
    let mut slot: usize = start;
    let mut used: usize = 0;
    let mut i: usize = 0;
    let ghost fs = fields_v(fields@);
    let ghost ord = ints(order@);
    assert(placed_v(placed@) =~= Seq::<(Seq<char>, StorageField)>::empty());
    while i < order.len()
        invariant
            i <= order@.len(),
            order@.len() == ws@.len(),
            fields@.len() == ws@.len(),
            fs == fields_v(fields@),
            ord == ints(order@),
            used <= 32,
            forall|k: int| 0 <= k < order@.len() ==> (#[trigger] order@[k]) < ws@.len(),
            pack_fold(fs, ws@, ord, start, tr, i as nat) == (PackV {
                slot,
                used,
                placed: placed_v(placed@),
            }),
        decreases order@.len() - i,
    {
        let idx: usize = order[i];
        let f: &ClassField = &fields[idx];
        let w: usize = ws[idx];
        let ghost before = placed_v(placed@);
        if w > 32 {
            if used > 0 {
                slot = slot.wrapping_add(1);
                used = 0;
            }
            let sf = StorageField { slot, offset_in_slot: 0, size: w, is_transient: tr };
            placed.push((f.name.clone(), sf));
            assert(placed_v(placed@) =~= before.push((f.name@, sf)));
            slot = slot.wrapping_add(word_count(w));
        } else {
            if used + w > 32 {
                slot = slot.wrapping_add(1);
                used = 0;
            }
            let sf = StorageField { slot, offset_in_slot: used, size: w, is_transient: tr };
            placed.push((f.name.clone(), sf));
            assert(placed_v(placed@) =~= before.push((f.name@, sf)));
            used += w;
        }
        i += 1;
    }
    let next = if used > 0 {
        slot.wrapping_add(1)
    } else {
        slot
    };
    (placed, next)
}

/// The first `n` fields of `order` side by side in memory, and where the next
/// one would start.
pub open spec fn mem_fold(fields: Seq<FieldV>, ws: Seq<usize>, order: Seq<int>, n: nat) -> (
    Seq<(Seq<char>, MemoryField)>,
    usize,
)
    decreases n,
{
    if n == 0 {
        (Seq::empty(), 0)
    } else {
        let (placed, off) = mem_fold(fields, ws, order, (n - 1) as nat);
        let w = ws[order[n - 1]];
        (
            placed.push((fields[order[n - 1]].name, MemoryField { offset: off, size: w })),
            off.wrapping_add(w),
        )
    }
}

/// The memory layout of `fields`, whose widths are `ws`, and its total size.
pub open spec fn pack_memory_spec(fields: Seq<FieldV>, ws: Seq<usize>) -> (
    Seq<(Seq<char>, MemoryField)>,
    usize,
) {
    mem_fold(fields, ws, size_order(ws, ws.len()), ws.len())
}

pub fn pack_memory_fields(fields: &Vec<ClassField>, ws: &Vec<usize>) -> (r: (
    Vec<(String, MemoryField)>,
    usize,
))
    requires
        fields@.len() == ws@.len(),
    ensures
        (mem_placed_v(r.0@), r.1) == pack_memory_spec(fields_v(fields@), ws@),
{
    let order = size_sorted_indices(ws);
    let mut placed: Vec<(String, MemoryField)> = Vec::new();
    let mut offset: usize = 0;
    let mut i: usize = 0;
    let ghost fs = fields_v(fields@);
    let ghost ord = ints(order@);
    assert(mem_placed_v(placed@) =~= Seq::<(Seq<char>, MemoryField)>::empty());
    while i < order.len()
        invariant
            i <= order@.len(),
            order@.len() == ws@.len(),
            fields@.len() == ws@.len(),
            fs == fields_v(fields@),
            ord == ints(order@),
            forall|k: int| 0 <= k < order@.len() ==> (#[trigger] order@[k]) < ws@.len(),
            mem_fold(fs, ws@, ord, i as nat) == (mem_placed_v(placed@), offset),
        decreases order@.len() - i,
    {
        let idx: usize = order[i];
        let f: &ClassField = &fields[idx];
        let w: usize = ws[idx];
        let ghost before = mem_placed_v(placed@);
        let mf = MemoryField { offset, size: w };
        placed.push((f.name.clone(), mf));
        assert(mem_placed_v(placed@) =~= before.push((f.name@, mf)));
        offset = offset.wrapping_add(w);
        i += 1;
    }
    (placed, offset)
}

/// How far each slot is filled, as pairs of a slot and its used bytes.
pub open spec fn water_index(hw: Seq<(usize, usize)>, slot: usize, i: int) -> Option<int>
    decreases hw.len() - i,
{
    if i >= hw.len() {
        None
    } else if hw[i].0 == slot {
        Some(i)
    } else {
        water_index(hw, slot, i + 1)
    }
}

/// The fill levels with `slot` set to `used`.
pub open spec fn water_set(hw: Seq<(usize, usize)>, slot: usize, used: usize) -> Seq<(usize, usize)> {
    match water_index(hw, slot, 0) {
        Some(i) => hw.update(i, (slot, used)),
        None => hw.push((slot, used)),
    }
}

/// The fill levels with `slot` filled at least up to `used`.
pub open spec fn water_raise(hw: Seq<(usize, usize)>, slot: usize, used: usize) -> Seq<
    (usize, usize),
> {
    match water_index(hw, slot, 0) {
        Some(i) => if hw[i].1 < used {
            hw.update(i, (slot, used))
        } else {
            hw
        },
        None => hw.push((slot, used)),
    }
}

fn find_water(hw: &Vec<(usize, usize)>, slot: usize) -> (r: Option<usize>)
    ensures
        match r {
            Some(i) => i < hw@.len() && water_index(hw@, slot, 0) == Some(i as int)
                && hw@[i as int].0 == slot,
            None => water_index(hw@, slot, 0) is None,
        },
{
    let mut i: usize = 0;
    while i < hw.len()
        invariant
            i <= hw@.len(),
            water_index(hw@, slot, 0) == water_index(hw@, slot, i as int),
        decreases hw@.len() - i,
    {
        if hw[i].0 == slot {
            return Some(i);
        }
        i += 1;
    }
    None
}

fn raise_water(hw: &mut Vec<(usize, usize)>, slot: usize, used: usize)
    ensures
        final(hw)@ == water_raise(old(hw)@, slot, used),
{
    match find_water(hw, slot) {
        Some(i) => {
            if hw[i].1 < used {
                hw.set(i, (slot, used));
            }
        },
        None => {
            hw.push((slot, used));
        },
    }
}

fn set_water(hw: &mut Vec<(usize, usize)>, slot: usize, used: usize)
    ensures
        final(hw)@ == water_set(old(hw)@, slot, used),
{
    match find_water(hw, slot) {
        Some(i) => {
            hw.set(i, (slot, used));
        },
        None => {
            hw.push((slot, used));
        },
    }
}

/// How many slots a committed field reaches into.
pub open spec fn span_of(offset: usize, size: usize) -> nat {
    let n = words(offset.wrapping_add(size) as nat);
    if n == 0 {
        1
    } else {
        n
    }
}

/// How many bytes of its `i`th slot a field takes whose bytes end at `total`
/// and reach into `span` slots.
pub open spec fn span_used(total: usize, span: nat, i: nat) -> usize {
    if i + 1 == span {
        let rest = total - i * 32;
        if rest > 32 {
            32
        } else {
            rest as usize
        }
    } else {
        32
    }
}

/// The fill levels once the first `n` slots of a field are taken.
pub open spec fn span_fold(
    hw: Seq<(usize, usize)>,
    slot: usize,
    total: usize,
    span: nat,
    n: nat,
) -> Seq<(usize, usize)>
    decreases n,
{
    if n == 0 {
        hw
    } else {
        water_raise(
            span_fold(hw, slot, total, span, (n - 1) as nat),
            slot.wrapping_add((n - 1) as usize),
            span_used(total, span, (n - 1) as nat),
        )
    }
}

/// The first pass over the fields of a locked contract: committed fields are
/// put where they were, new ones are set aside.
pub struct LockV {
    pub placed: Seq<(Seq<char>, StorageField)>,
    pub hw: Seq<(usize, usize)>,
    /// The positions of the new fields, in the order of declaration.
    pub fresh: Seq<int>,
}

/// The message for a field whose width is not the committed one.
pub open spec fn resized_msg(class: Seq<char>, field: Seq<char>, was: usize, now: usize) -> Seq<char> {
    "Storage-lock violation in '"@ + class + "': field '"@ + field + "' changed size ("@ + (dec(
        was as nat,
    ) + " -> "@ + dec(now as nat)
        + " bytes). This would move or overlap committed storage; keep its type stable across an upgrade."@)
}

/// The message for a field whose type is not the committed one.
pub open spec fn retyped_msg(class: Seq<char>, field: Seq<char>, was: Seq<char>, now: Seq<char>) -> Seq<
    char,
> {
    "Storage-lock violation in '"@ + class + "': field '"@ + field + "' changed type ("@ + (was
        + " -> "@ + now
        + "). This would read committed storage as something else; keep its type stable across an upgrade."@)
}

/// The message for a committed field that is gone.
pub open spec fn removed_msg(class: Seq<char>, field: Seq<char>) -> Seq<char> {
    "Storage-lock violation in '"@ + class + "': committed field '"@ + field
        + "' was removed. Existing storage would be orphaned, removing a locked field is unsafe for an upgrade. Re-add it (or start a new lock for a fresh deployment)."@
}

pub open spec fn lock_fold(
    class: Seq<char>,
    committed: Map<Seq<char>, LocV>,
    fields: Seq<FieldV>,
    ws: Seq<usize>,
    n: nat,
) -> Result<LockV, Seq<char>>
    decreases n,
{
    if n == 0 {
        Ok(LockV { placed: Seq::empty(), hw: Seq::empty(), fresh: Seq::empty() })
    } else {
        match lock_fold(class, committed, fields, ws, (n - 1) as nat) {
            Err(e) => Err(e),
            Ok(st) => {
                let name = fields[n - 1].name;
                let w = ws[n - 1];
                if !committed.contains_key(name) {
                    Ok(LockV { fresh: st.fresh.push(n - 1), ..st })
                } else if committed[name].size != w {
                    Err(resized_msg(class, name, committed[name].size, w))
                } else if committed[name].type_text != suffix_spec(fields[n - 1].type_def) {
                    Err(
                        retyped_msg(
                            class,
                            name,
                            committed[name].type_text,
                            suffix_spec(fields[n - 1].type_def),
                        ),
                    )
                } else {
                    let c = committed[name];
                    let span = span_of(c.offset, c.size);
                    Ok(
                        LockV {
                            placed: st.placed.push(
                                (
                                    name,
                                    StorageField {
                                        slot: c.slot,
                                        offset_in_slot: c.offset,
                                        size: c.size,
                                        is_transient: false,
                                    },
                                ),
                            ),
                            hw: span_fold(
                                st.hw,
                                c.slot,
                                c.offset.wrapping_add(c.size),
                                span,
                                span,
                            ),
                            fresh: st.fresh,
                        },
                    )
                }
            },
        }
    }
}

/// Whether field `a` is placed before field `b`: the wider first, then by name.
pub open spec fn fresh_before(fields: Seq<FieldV>, ws: Seq<usize>, a: int, b: int) -> bool {
    ws[a] > ws[b] || (ws[a] == ws[b] && text_less(fields[a].name, fields[b].name))
}

/// The first place, from `i` on, of a field that `f` goes before.
pub open spec fn fresh_at(order: Seq<int>, fields: Seq<FieldV>, ws: Seq<usize>, f: int, i: int) -> int
    decreases order.len() - i,
{
    if i >= order.len() {
        order.len() as int
    } else if fresh_before(fields, ws, f, order[i]) {
        i
    } else {
        fresh_at(order, fields, ws, f, i + 1)
    }
}

/// The first `n` new fields in the order in which they are placed.
pub open spec fn fresh_order(fresh: Seq<int>, fields: Seq<FieldV>, ws: Seq<usize>, n: nat) -> Seq<int>
    decreases n,
{
    if n == 0 {
        Seq::empty()
    } else {
        let o = fresh_order(fresh, fields, ws, (n - 1) as nat);
        o.insert(fresh_at(o, fields, ws, fresh[n - 1], 0), fresh[n - 1])
    }
}

/// The least of the first `n` slots with `w` free bytes.
pub open spec fn gap_of(hw: Seq<(usize, usize)>, w: usize, n: nat) -> Option<usize>
    decreases n,
{
    if n == 0 {
        None
    } else {
        let best = gap_of(hw, w, (n - 1) as nat);
        let (slot, used) = hw[n - 1];
        if 32 - used >= w {
            match best {
                Some(b) => if slot < b {
                    Some(slot)
                } else {
                    best
                },
                None => Some(slot),
            }
        } else {
            best
        }
    }
}

/// The state while new fields are placed.
pub struct FreshV {
    pub placed: Seq<(Seq<char>, StorageField)>,
    pub hw: Seq<(usize, usize)>,
    /// The first slot behind everything.
    pub append: usize,
}

/// Places a new field of `w` bytes: into the first gap that holds it, else
/// behind everything.
pub open spec fn fresh_step(st: FreshV, name: Seq<char>, w: usize) -> FreshV {
    if w > 32 {
        FreshV {
            placed: st.placed.push(
                (
                    name,
                    StorageField { slot: st.append, offset_in_slot: 0, size: w, is_transient: false },
                ),
            ),
            hw: st.hw,
            append: st.append.wrapping_add(words(w as nat) as usize),
        }
    } else {
        let gap = gap_of(st.hw, w, st.hw.len());
        let slot = match gap {
            Some(s) => s,
            None => st.append,
        };
        let offset = match gap {
            Some(s) => st.hw[water_index(st.hw, s, 0)->0].1,
            None => 0,
        };
        FreshV {
            placed: st.placed.push(
                (name, StorageField { slot, offset_in_slot: offset, size: w, is_transient: false }),
            ),
            hw: water_set(st.hw, slot, offset.wrapping_add(w)),
            append: match gap {
                Some(_) => st.append,
                None => st.append.wrapping_add(1),
            },
        }
    }
}

pub open spec fn fresh_fold(
    st: FreshV,
    fields: Seq<FieldV>,
    ws: Seq<usize>,
    order: Seq<int>,
    n: nat,
) -> FreshV
    decreases n,
{
    if n == 0 {
        st
    } else {
        fresh_step(
            fresh_fold(st, fields, ws, order, (n - 1) as nat),
            fields[order[n - 1]].name,
            ws[order[n - 1]],
        )
    }
}

pub open spec fn declares(fields: Seq<FieldV>, name: Seq<char>) -> bool {
    exists|i: int| 0 <= i < fields.len() && (#[trigger] fields[i]).name == name
}

/// Whether `k` is the first committed field, by name, that is not declared.
pub open spec fn least_removed(
    committed: Map<Seq<char>, LocV>,
    fields: Seq<FieldV>,
    k: Seq<char>,
) -> bool {
    &&& committed.contains_key(k)
    &&& !declares(fields, k)
    &&& forall|q: Seq<char>| #[trigger]
        committed.contains_key(q) && !declares(fields, q) ==> !text_less(q, k)
}

/// The first committed field, by name, that is not declared any more.
pub open spec fn removed_field(committed: Map<Seq<char>, LocV>, fields: Seq<FieldV>) -> Option<
    Seq<char>,
> {
    if exists|k: Seq<char>| #[trigger] committed.contains_key(k) && !declares(fields, k) {
        Some(choose|k: Seq<char>| #[trigger] least_removed(committed, fields, k))
    } else {
        None
    }
}

proof fn lemma_least_removed(committed: Map<Seq<char>, LocV>, fields: Seq<FieldV>, k: Seq<char>)
    requires
        least_removed(committed, fields, k),
    ensures
        removed_field(committed, fields) == Some(k),
{
    let c = choose|k: Seq<char>| #[trigger] least_removed(committed, fields, k);
    lemma_less_total(c, k);
}

/// The packing of a contract under a lock: the positions, and the first slot
/// behind everything; or why the lock refuses the contract.
pub open spec fn pack_locked_spec(
    class: Seq<char>,
    fields: Seq<FieldV>,
    ws: Seq<usize>,
    committed: Map<Seq<char>, LocV>,
    append: usize,
) -> Result<(Seq<(Seq<char>, StorageField)>, usize), Seq<char>> {
    match removed_field(committed, fields) {
        Some(k) => Err(removed_msg(class, k)),
        None => match lock_fold(class, committed, fields, ws, fields.len()) {
            Err(e) => Err(e),
            Ok(st) => {
                let order = fresh_order(st.fresh, fields, ws, st.fresh.len());
                let end = fresh_fold(
                    FreshV { placed: st.placed, hw: st.hw, append },
                    fields,
                    ws,
                    order,
                    order.len(),
                );
                Ok((end.placed, end.append))
            },
        },
    }
}

fn declares_field(fields: &Vec<ClassField>, name: &str) -> (r: bool)
    ensures
        r == declares(fields_v(fields@), name@),
{
    let mut i: usize = 0;
    while i < fields.len()
        invariant
            i <= fields@.len(),
            forall|k: int| 0 <= k < i ==> (#[trigger] fields_v(fields@)[k]).name != name@,
        decreases fields@.len() - i,
    {
        if same(fields[i].name.as_str(), name) {
            assert(fields_v(fields@)[i as int].name == name@);
            return true;
        }
        i += 1;
    }
    false
}

fn find_removed(committed: &ClassLayout, fields: &Vec<ClassField>) -> (r: Option<String>)
    ensures
        match r {
            Some(k) => removed_field(committed@, fields_v(fields@)) == Some(k@),
            None => removed_field(committed@, fields_v(fields@)) is None,
        },
{
    let n = committed.fields.len();
    let ghost order = committed.fields.order();
    let ghost fs = fields_v(fields@);
    let mut i: usize = 0;
    while i < n
        invariant
            i <= n,
            n == order.len(),
            order == committed.fields.order(),
            ascending(order),
            forall|k: Seq<char>| #[trigger]
                committed.fields@.contains_key(k) <==> order.contains(k),
            fs == fields_v(fields@),
            forall|j: int| 0 <= j < i ==> declares(fs, #[trigger] order[j]),
        decreases n - i,
    {
        let k = committed.fields.key_at(i);
        if !declares_field(fields, k.as_str()) {
            proof {
                assert forall|q: Seq<char>| #[trigger]
                    committed@.contains_key(q) && !declares(fs, q) implies !text_less(q, k@) by {
                    assert(committed.fields@.contains_key(q));
                    let x = choose|x: int| 0 <= x < order.len() && order[x] == q;
                    if x == i {
                        lemma_less_irreflexive(k@);
                    } else if x > i {
                        assert(text_less(order[i as int], order[x]));
                        if text_less(q, k@) {
                            crate::text::lemma_less_transitive(k@, q, k@);
                            lemma_less_irreflexive(k@);
                        }
                    } else {
                        assert(declares(fs, order[x]));
                    }
                }
                assert(least_removed(committed@, fs, k@));
                lemma_least_removed(committed@, fs, k@);
            }
            return Some(k.clone());
        }
        i += 1;
    }
    proof {
        assert forall|k: Seq<char>| #[trigger] committed@.contains_key(k) implies declares(fs, k) by {
            assert(committed.fields@.contains_key(k));
            let x = choose|x: int| 0 <= x < order.len() && order[x] == k;
            assert(declares(fs, order[x]));
        }
    }
    None
}

fn find_gap(hw: &Vec<(usize, usize)>, w: usize) -> (r: Option<usize>)
    requires
        w <= 32,
        forall|i: int| 0 <= i < hw@.len() ==> (#[trigger] hw@[i]).1 <= 32,
    ensures
        r == gap_of(hw@, w, hw@.len()),
{
    let mut best: Option<usize> = None;
    let mut i: usize = 0;
    while i < hw.len()
        invariant
            i <= hw@.len(),
            w <= 32,
            forall|i: int| 0 <= i < hw@.len() ==> (#[trigger] hw@[i]).1 <= 32,
            best == gap_of(hw@, w, i as nat),
        decreases hw@.len() - i,
    {
        let slot: usize = hw[i].0;
        let used: usize = hw[i].1;
        if 32 - used >= w {
            best = match best {
                Some(b) => if slot < b {
                    Some(slot)
                } else {
                    Some(b)
                },
                None => Some(slot),
            };
        }
        i += 1;
    }
    best
}

proof fn lemma_gap(hw: Seq<(usize, usize)>, w: usize, n: nat)
    requires
        n <= hw.len(),
        gap_of(hw, w, n) is Some,
    ensures
        exists|i: int| 0 <= i < n && (#[trigger] hw[i]).0 == gap_of(hw, w, n)->0 && 32 - hw[i].1 >= w,
    decreases n,
{
    if n > 0 {
        let best = gap_of(hw, w, (n - 1) as nat);
        if best is Some {
            lemma_gap(hw, w, (n - 1) as nat);
        }
        if gap_of(hw, w, n)->0 == hw[n - 1].0 && 32 - hw[n - 1].1 >= w {
            assert(hw[n - 1].0 == gap_of(hw, w, n)->0);
        }
    }
}

/// No slot is listed twice.
pub open spec fn distinct_slots(hw: Seq<(usize, usize)>) -> bool {
    forall|i: int, j: int| 0 <= i < j < hw.len() ==> (#[trigger] hw[i]).0 != (#[trigger] hw[j]).0
}

/// The fill levels are those of 32-byte slots.
pub open spec fn levels_ok(hw: Seq<(usize, usize)>) -> bool {
    &&& distinct_slots(hw)
    &&& forall|i: int| 0 <= i < hw.len() ==> (#[trigger] hw[i]).1 <= 32
}

proof fn lemma_water_index(hw: Seq<(usize, usize)>, slot: usize, i: int)
    requires
        0 <= i <= hw.len(),
    ensures
        match water_index(hw, slot, i) {
            Some(k) => i <= k < hw.len() && hw[k].0 == slot,
            None => forall|k: int| i <= k < hw.len() ==> (#[trigger] hw[k]).0 != slot,
        },
    decreases hw.len() - i,
{
    if i < hw.len() && hw[i].0 != slot {
        lemma_water_index(hw, slot, i + 1);
    }
}

proof fn lemma_water_ok(hw: Seq<(usize, usize)>, slot: usize, used: usize)
    requires
        levels_ok(hw),
        used <= 32,
    ensures
        levels_ok(water_raise(hw, slot, used)),
        levels_ok(water_set(hw, slot, used)),
{
    lemma_water_index(hw, slot, 0);
}

pub proof fn lemma_gap_slot(hw: Seq<(usize, usize)>, w: usize)
    requires
        levels_ok(hw),
        gap_of(hw, w, hw.len()) is Some,
    ensures
        water_index(hw, gap_of(hw, w, hw.len())->0, 0) is Some,
        ({
            let k = water_index(hw, gap_of(hw, w, hw.len())->0, 0)->0;
            0 <= k < hw.len() && hw[k].0 == gap_of(hw, w, hw.len())->0 && hw[k].1 + w <= 32
        }),
{
    let s = gap_of(hw, w, hw.len())->0;
    lemma_gap(hw, w, hw.len());
    lemma_water_index(hw, s, 0);
    let i = choose|i: int| 0 <= i < hw.len() && (#[trigger] hw[i]).0 == s && 32 - hw[i].1 >= w;
    let k = water_index(hw, s, 0)->0;
    if i < k {
        assert(hw[i].0 != hw[k].0);
    } else if k < i {
        assert(hw[k].0 != hw[i].0);
    }
}

/// Packs a contract under a lock: every committed field keeps its place, new
/// fields go into gaps or behind everything, and a contract that would move or
/// reinterpret a committed field is refused. `append` is the first slot behind
/// everything, before and after.
pub fn pack_storage_fields_locked(
    class: &str,
    fields: &Vec<ClassField>,
    ws: &Vec<usize>,
    committed: &ClassLayout,
    append: &mut usize,
) -> (r: Result<Vec<(String, StorageField)>, String>)
    requires
        fields@.len() == ws@.len(),
    ensures
        match r {
            Ok(p) => pack_locked_spec(class@, fields_v(fields@), ws@, committed@, *old(append)) == Ok::<
                (Seq<(Seq<char>, StorageField)>, usize),
                Seq<char>,
            >((placed_v(p@), *final(append))),
            Err(e) => pack_locked_spec(class@, fields_v(fields@), ws@, committed@, *old(append)) == Err::<
                (Seq<(Seq<char>, StorageField)>, usize),
                Seq<char>,
            >(e@),
        },
{
    let ghost fs = fields_v(fields@);
    match find_removed(committed, fields) {
        Some(k) => {
            return Err(
                cat5(
                    "Storage-lock violation in '",
                    class,
                    "': committed field '",
                    k.as_str(),
                    "' was removed. Existing storage would be orphaned, removing a locked field is unsafe for an upgrade. Re-add it (or start a new lock for a fresh deployment).",
                ),
            );
        },
        None => {},
    }
    let mut placed: Vec<(String, StorageField)> = Vec::new();
    let mut hw: Vec<(usize, usize)> = Vec::new();
    let mut fresh: Vec<usize> = Vec::new();
    let mut n: usize = 0;
    assert(placed_v(placed@) =~= Seq::<(Seq<char>, StorageField)>::empty());
    assert(ints(fresh@) =~= Seq::<int>::empty());
    while n < fields.len()
        invariant
            n <= fields@.len(),
            fields@.len() == ws@.len(),
            fs == fields_v(fields@),
            removed_field(committed@, fs) is None,
            levels_ok(hw@),
            *append == *old(append),
            forall|k: int| 0 <= k < fresh@.len() ==> (#[trigger] fresh@[k]) < fields@.len(),
            lock_fold(class@, committed@, fs, ws@, n as nat) == Ok::<LockV, Seq<char>>(
                LockV { placed: placed_v(placed@), hw: hw@, fresh: ints(fresh@) },
            ),
        decreases fields@.len() - n,
    {
        let f: &ClassField = &fields[n];
        let w: usize = ws[n];
        match committed.fields.get(f.name.as_str()) {
            Some(fl) => {
                if fl.size != w {
                    let mut e = cat5(
                        "Storage-lock violation in '",
                        class,
                        "': field '",
                        f.name.as_str(),
                        "' changed size (",
                    );
                    let mut tail = dec_text(fl.size);
                    tail.append(" -> ");
                    tail.append(dec_text(w).as_str());
                    tail.append(
                        " bytes). This would move or overlap committed storage; keep its type stable across an upgrade.",
                    );
                    e.append(tail.as_str());
                    proof {
                        lemma_lock_err(class@, committed@, fs, ws@, n as nat + 1, fs.len());
                    }
                    return Err(e);
                }
                let now = type_suffix(&f.type_def);
                if !same(fl.type_text.as_str(), now.as_str()) {
                    let mut e = cat5(
                        "Storage-lock violation in '",
                        class,
                        "': field '",
                        f.name.as_str(),
                        "' changed type (",
                    );
                    let mut tail = fl.type_text.clone();
                    tail.append(" -> ");
                    tail.append(now.as_str());
                    tail.append(
                        "). This would read committed storage as something else; keep its type stable across an upgrade.",
                    );
                    e.append(tail.as_str());
                    proof {
                        lemma_lock_err(class@, committed@, fs, ws@, n as nat + 1, fs.len());
                    }
                    return Err(e);
                }
                let sf = StorageField {
                    slot: fl.slot,
                    offset_in_slot: fl.offset,
                    size: fl.size,
                    is_transient: false,
                };
                let ghost before = placed_v(placed@);
                placed.push((f.name.clone(), sf));
                assert(placed_v(placed@) =~= before.push((f.name@, sf)));
                let total: usize = fl.offset.wrapping_add(fl.size);
                let span: usize = max_one(word_count(total));
                let ghost hw0 = hw@;
                let mut i: usize = 0;
                while i < span
                    invariant
                        i <= span,
                        span == span_of(fl.offset, fl.size),
                        total == fl.offset.wrapping_add(fl.size),
                        levels_ok(hw@),
                        hw@ == span_fold(hw0, fl.slot, total, span as nat, i as nat),
                    decreases span - i,
                {
                    let used: usize = if i + 1 == span {
                        let rest: usize = total - i * 32;
                        if rest > 32 {
                            32
                        } else {
                            rest
                        }
                    } else {
                        32
                    };
                    proof {
                        lemma_water_ok(hw@, fl.slot.wrapping_add(i), used);
                    }
                    raise_water(&mut hw, fl.slot.wrapping_add(i), used);
                    i += 1;
                }
            },
            None => {
                let ghost before = ints(fresh@);
                fresh.push(n);
                assert(ints(fresh@) =~= before.push(n as int));
            },
        }
        n += 1;
    }
    let mut order: Vec<usize> = Vec::new();
    let mut k: usize = 0;
    assert(ints(order@) =~= fresh_order(ints(fresh@), fs, ws@, 0));
    while k < fresh.len()
        invariant
            k <= fresh@.len(),
            fields@.len() == ws@.len(),
            fs == fields_v(fields@),
            order@.len() == k,
            forall|j: int| 0 <= j < fresh@.len() ==> (#[trigger] fresh@[j]) < fields@.len(),
            forall|j: int| 0 <= j < order@.len() ==> (#[trigger] order@[j]) < fields@.len(),
            ints(order@) == fresh_order(ints(fresh@), fs, ws@, k as nat),
        decreases fresh@.len() - k,
    {
        let f: usize = fresh[k];
        let mut p: usize = 0;
        while p < order.len() && !(ws[f] > ws[order[p]] || (ws[f] == ws[order[p]] && less(
            fields[f].name.as_str(),
            fields[order[p]].name.as_str(),
        )))
            invariant
                p <= order@.len(),
                fields@.len() == ws@.len(),
                fs == fields_v(fields@),
                f < fields@.len(),
                forall|j: int| 0 <= j < order@.len() ==> (#[trigger] order@[j]) < fields@.len(),
                fresh_at(ints(order@), fs, ws@, f as int, 0) == fresh_at(
                    ints(order@),
                    fs,
                    ws@,
                    f as int,
                    p as int,
                ),
            decreases order@.len() - p,
        {
            p += 1;
        }
        let ghost before = order@;
        order.insert(p, f);
        proof {
            assert(ints(order@) =~= ints(before).insert(p as int, f as int));
            assert forall|j: int| 0 <= j < order@.len() implies (#[trigger] order@[j])
                < fields@.len() by {
                if j < p {
                    assert(order@[j] == before[j]);
                } else if j > p {
                    assert(order@[j] == before[j - 1]);
                }
            }
        }
        k += 1;
    }
    let ghost start = FreshV { placed: placed_v(placed@), hw: hw@, append: *append };
    let ghost ord = ints(order@);
    let mut j: usize = 0;
    while j < order.len()
        invariant
            j <= order@.len(),
            fields@.len() == ws@.len(),
            fs == fields_v(fields@),
            ord == ints(order@),
            forall|i: int| 0 <= i < order@.len() ==> (#[trigger] order@[i]) < fields@.len(),
            levels_ok(hw@),
            fresh_fold(start, fs, ws@, ord, j as nat) == (FreshV {
                placed: placed_v(placed@),
                hw: hw@,
                append: *append,
            }),
        decreases order@.len() - j,
    {
        let idx: usize = order[j];
        let f: &ClassField = &fields[idx];
        let w: usize = ws[idx];
        let ghost before = placed_v(placed@);
        if w > 32 {
            let sf = StorageField {
                slot: *append,
                offset_in_slot: 0,
                size: w,
                is_transient: false,
            };
            placed.push((f.name.clone(), sf));
            assert(placed_v(placed@) =~= before.push((f.name@, sf)));
            *append = append.wrapping_add(word_count(w));
        } else {
            let gap = find_gap(&hw, w);
            let mut slot: usize = *append;
            let mut offset: usize = 0;
            match gap {
                Some(s) => {
                    proof {
                        lemma_gap_slot(hw@, w);
                    }
                    slot = s;
                    match find_water(&hw, s) {
                        Some(i) => {
                            offset = hw[i].1;
                        },
                        None => {},
                    }
                },
                None => {
                    *append = append.wrapping_add(1);
                },
            }
            let sf = StorageField { slot, offset_in_slot: offset, size: w, is_transient: false };
            placed.push((f.name.clone(), sf));
            assert(placed_v(placed@) =~= before.push((f.name@, sf)));
            proof {
                lemma_water_ok(hw@, slot, (offset + w) as usize);
            }
            set_water(&mut hw, slot, offset.wrapping_add(w));
        }
        j += 1;
    }
    Ok(placed)
}

proof fn lemma_lock_err(
    class: Seq<char>,
    committed: Map<Seq<char>, LocV>,
    fields: Seq<FieldV>,
    ws: Seq<usize>,
    n: nat,
    m: nat,
)
    requires
        n <= m,
        lock_fold(class, committed, fields, ws, n) is Err,
    ensures
        lock_fold(class, committed, fields, ws, m) == lock_fold(class, committed, fields, ws, n),
    decreases m,
{
    if n < m {
        lemma_lock_err(class, committed, fields, ws, n, (m - 1) as nat);
    }
}

} // verus!
