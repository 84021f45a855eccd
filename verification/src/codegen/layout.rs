//! Where everything lives: sizes, memory layouts, storage slots, and the
//! storage lock that keeps slots stable across upgrades.
use crate::ast::{
    body_v, fields_v, ClassDecl, ClassField, ClassV, Expr, ExprV, FieldV, FnV, SpannedV, Spanned,
    Statement, StmtV, Type, TypeV,
};
use crate::ast::{arms_v, find_method, method_named, ArmV, MatchArm};
use crate::codegen::packing::{
    locs_v, mem_placed_v, pack_locked_spec, pack_memory_fields, pack_memory_spec,
    pack_storage_fields, pack_storage_fields_locked, pack_storage_spec, placed_v, span_of, ClassLayout,
    FieldLoc, LocV, MemoryField, StorageField,
};
use crate::codegen::yul::{
    at_least_one, literal_spec, literal_u128, max_one, numeric_meta, numeric_spec, opt_text, str_type,
    is_str_type, word_count, words,
};
use crate::codegen::{suffix_spec, type_suffix};
use crate::names::{ascending, NameMap, SortedMap};
use crate::semantic::{scalar_enum, TypeChecker, WorldV};
use crate::text::{cat3, dec, dec_u128, same, texts};
use vstd::arithmetic::power2::{lemma2_to64, pow2};
use vstd::prelude::*;

verus! {

broadcast use crate::ast::group_views;

/// The storage-layout lockfile: the committed positions of every contract.
pub struct StorageManifest {
    pub version: u32,
    pub classes: SortedMap<ClassLayout>,
}

pub open spec fn layouts_v(m: Map<Seq<char>, ClassLayout>) -> Map<Seq<char>, Map<Seq<char>, LocV>> {
    Map::new(|k: Seq<char>| m.contains_key(k), |k: Seq<char>| m[k]@)
}

impl StorageManifest {
    pub open spec fn view(&self) -> Map<Seq<char>, Map<Seq<char>, LocV>> {
        layouts_v(self.classes@)
    }
}

pub open spec fn opt_manifest_v(m: Option<StorageManifest>) -> Option<
    Map<Seq<char>, Map<Seq<char>, LocV>>,
> {
    match m {
        Some(m) => Some(m@),
        None => None,
    }
}

/// The byte width of an integer or boolean narrower than a word.
pub open spec fn scalar_width_spec(n: Seq<char>) -> Option<usize> {
    if n == "u8"@ || n == "i8"@ || n == "bool"@ {
        Some(1)
    } else if n == "u16"@ || n == "i16"@ {
        Some(2)
    } else if n == "u32"@ || n == "i32"@ {
        Some(4)
    } else if n == "u64"@ || n == "i64"@ {
        Some(8)
    } else if n == "u128"@ || n == "i128"@ {
        Some(16)
    } else {
        None
    }
}

fn scalar_width(n: &str) -> (r: Option<usize>)
    ensures
        r == scalar_width_spec(n@),
{
    if same(n, "u8") || same(n, "i8") || same(n, "bool") {
        Some(1)
    } else if same(n, "u16") || same(n, "i16") {
        Some(2)
    } else if same(n, "u32") || same(n, "i32") {
        Some(4)
    } else if same(n, "u64") || same(n, "i64") {
        Some(8)
    } else if same(n, "u128") || same(n, "i128") {
        Some(16)
    } else {
        None
    }
}

/// The memory size of a type in bytes, given the sizes of the classes that
/// have been laid out.
pub open spec fn size_spec(w: WorldV, sizes: Map<Seq<char>, usize>, t: TypeV) -> usize
    decreases t,
{
    match t {
        TypeV::Primitive(n) => match scalar_width_spec(n) {
            Some(b) => b,
            None => if n == "u256"@ || n == "i256"@ || n == "f32"@ || n == "f64"@ {
                32
            } else if sizes.contains_key(n) {
                sizes[n]
            } else if w.classes.contains_key(n) {
                32
            } else if scalar_enum(w, t) {
                1
            } else if w.enums.contains_key(n) {
                64
            } else {
                32
            },
        },
        TypeV::FixedArray(inner, n) => size_spec(w, sizes, *inner).wrapping_mul(n),
        _ => 32,
    }
}

fn size_in(tc: &TypeChecker, sizes: &NameMap<usize>, t: &Type) -> (r: usize)
    ensures
        r == size_spec(tc.world(), sizes@, t@),
    decreases t,
{
    match t {
        Type::Primitive(n) => match scalar_width(n.as_str()) {
            Some(b) => b,
            None => if same(n.as_str(), "u256") || same(n.as_str(), "i256") || same(
                n.as_str(),
                "f32",
            ) || same(n.as_str(), "f64") {
                32
            } else {
                match sizes.get(n.as_str()) {
                    Some(s) => *s,
                    None => if tc.loaded_classes.has(n.as_str()) {
                        32
                    } else if tc.is_scalar_enum(t) {
                        1
                    } else if tc.loaded_enums.has(n.as_str()) {
                        64
                    } else {
                        32
                    },
                }
            },
        },
        Type::FixedArray(inner, n) => size_in(tc, sizes, inner).wrapping_mul(*n),
        _ => 32,
    }
}

/// The bytes a field takes: a text is one word, a fixed array whole words.
pub open spec fn field_width_spec(w: WorldV, sizes: Map<Seq<char>, usize>, t: TypeV) -> usize {
    if str_type(t) {
        32
    } else {
        match t {
            TypeV::FixedArray(inner, n) => {
                let bytes = size_spec(w, sizes, *inner).wrapping_mul(n);
                at_least_one(words(bytes as nat) as usize).wrapping_mul(32)
            },
            _ => size_spec(w, sizes, t),
        }
    }
}

fn field_width(tc: &TypeChecker, sizes: &NameMap<usize>, t: &Type) -> (r: usize)
    ensures
        r == field_width_spec(tc.world(), sizes@, t@),
{
    if is_str_type(t) {
        32
    } else {
        match t {
            Type::FixedArray(inner, n) => {
                let bytes = size_in(tc, sizes, inner).wrapping_mul(*n);
                max_one(word_count(bytes)).wrapping_mul(32)
            },
            _ => size_in(tc, sizes, t),
        }
    }
}

pub open spec fn widths_spec(w: WorldV, sizes: Map<Seq<char>, usize>, fields: Seq<FieldV>) -> Seq<usize> {
    Seq::new(fields.len(), |i: int| field_width_spec(w, sizes, fields[i].type_def))
}

fn widths(tc: &TypeChecker, sizes: &NameMap<usize>, fields: &Vec<ClassField>) -> (r: Vec<usize>)
    ensures
        r@ == widths_spec(tc.world(), sizes@, fields_v(fields@)),
        r@.len() == fields@.len(),
{
    let mut out: Vec<usize> = Vec::new();
    let mut i: usize = 0;
    while i < fields.len()
        invariant
            i <= fields@.len(),
            out@.len() == i,
            forall|k: int|
                0 <= k < i ==> #[trigger] out@[k] == field_width_spec(
                    tc.world(),
                    sizes@,
                    fields@[k].type_def@,
                ),
        decreases fields@.len() - i,
    {
        out.push(field_width(tc, sizes, &fields[i].type_def));
        i += 1;
    }
    assert(out@ =~= widths_spec(tc.world(), sizes@, fields_v(fields@)));
    out
}

/// The key of a field of a class.
pub open spec fn field_key(class: Seq<char>, field: Seq<char>) -> Seq<char> {
    class + "."@ + field
}

/// The map with the first `n` placements of `class` put in.
pub open spec fn put_placed(
    m: Map<Seq<char>, StorageField>,
    class: Seq<char>,
    placed: Seq<(Seq<char>, StorageField)>,
    n: nat,
) -> Map<Seq<char>, StorageField>
    decreases n,
{
    if n == 0 {
        m
    } else {
        put_placed(m, class, placed, (n - 1) as nat).insert(
            field_key(class, placed[n - 1].0),
            placed[n - 1].1,
        )
    }
}

/// The map with the first `n` memory placements of `class` put in.
pub open spec fn put_mem(
    m: Map<Seq<char>, MemoryField>,
    class: Seq<char>,
    placed: Seq<(Seq<char>, MemoryField)>,
    n: nat,
) -> Map<Seq<char>, MemoryField>
    decreases n,
{
    if n == 0 {
        m
    } else {
        put_mem(m, class, placed, (n - 1) as nat).insert(
            field_key(class, placed[n - 1].0),
            placed[n - 1].1,
        )
    }
}

/// The whole layout.
pub struct LayV {
    pub mem: Map<Seq<char>, MemoryField>,
    pub sizes: Map<Seq<char>, usize>,
    /// Storage positions relative to the first slot of a struct.
    pub structs: Map<Seq<char>, StorageField>,
    pub storage: Map<Seq<char>, StorageField>,
    pub manifest: Map<Seq<char>, Map<Seq<char>, LocV>>,
}

pub open spec fn empty_lay() -> LayV {
    LayV {
        mem: Map::empty(),
        sizes: Map::empty(),
        structs: Map::empty(),
        storage: Map::empty(),
        manifest: Map::empty(),
    }
}

/// The memory layouts of the first `n` classes, in the order of registration.
/// A class that is not laid out yet counts as one word.
pub open spec fn mem_layouts(w: WorldV, n: nat) -> LayV
    decreases n,
{
    if n == 0 {
        empty_lay()
    } else {
        let st = mem_layouts(w, (n - 1) as nat);
        let name = w.class_order[n - 1];
        if !w.classes.contains_key(name) {
            st
        } else {
            let fs = w.classes[name].fields;
            let (placed, total) = pack_memory_spec(fs, widths_spec(w, st.sizes, fs));
            LayV {
                mem: put_mem(st.mem, name, placed, placed.len()),
                sizes: st.sizes.insert(
                    name,
                    if total == 0 {
                        32
                    } else {
                        total
                    },
                ),
                ..st
            }
        }
    }
}

/// The relative storage layouts of the first `n` classes added to `lay`.
pub open spec fn struct_layouts(w: WorldV, lay: LayV, n: nat) -> LayV
    decreases n,
{
    if n == 0 {
        lay
    } else {
        let st = struct_layouts(w, lay, (n - 1) as nat);
        let name = w.class_order[n - 1];
        if !w.classes.contains_key(name) {
            st
        } else {
            let fs = w.classes[name].fields;
            let placed = pack_storage_spec(fs, widths_spec(w, st.sizes, fs), 0, false).0;
            LayV { structs: put_placed(st.structs, name, placed, placed.len()), ..st }
        }
    }
}

/// The first slot behind a committed field.
pub open spec fn end_of(l: LocV) -> usize {
    l.slot.wrapping_add(span_of(l.offset, l.size) as usize)
}

/// Whether `e` is the first slot behind all committed fields.
pub open spec fn is_end(m: Map<Seq<char>, LocV>, e: usize) -> bool {
    &&& forall|k: Seq<char>| #[trigger] m.contains_key(k) ==> end_of(m[k]) <= e
    &&& e == 0 || exists|k: Seq<char>| #[trigger] m.contains_key(k) && end_of(m[k]) == e
}

pub open spec fn committed_end(m: Map<Seq<char>, LocV>) -> usize {
    choose|e: usize| is_end(m, e)
}

proof fn lemma_committed_end(m: Map<Seq<char>, LocV>, e: usize)
    requires
        is_end(m, e),
    ensures
        committed_end(m) == e,
{
    let c = committed_end(m);
    assert(is_end(m, c));
    if c > 0 {
        let k = choose|k: Seq<char>| #[trigger] m.contains_key(k) && end_of(m[k]) == c;
        assert(end_of(m[k]) <= e);
    }
    if e > 0 {
        let k = choose|k: Seq<char>| #[trigger] m.contains_key(k) && end_of(m[k]) == e;
        assert(end_of(m[k]) <= c);
    }
}

/// The fields that own storage of one kind: const fields own none.
pub open spec fn stored_fields(fields: Seq<FieldV>, tr: bool) -> Seq<FieldV> {
    fields.filter(|f: FieldV| !f.is_const && f.is_transient == tr)
}

/// The last of the first `n` placements of `name`.
pub open spec fn last_placed(placed: Seq<(Seq<char>, StorageField)>, name: Seq<char>, n: nat) -> Option<
    StorageField,
>
    decreases n,
{
    if n == 0 {
        None
    } else if placed[n - 1].0 == name {
        Some(placed[n - 1].1)
    } else {
        last_placed(placed, name, (n - 1) as nat)
    }
}

/// What the manifest records of the first `n` fields of a contract.
pub open spec fn class_manifest(
    fields: Seq<FieldV>,
    placed: Seq<(Seq<char>, StorageField)>,
    n: nat,
) -> Map<Seq<char>, LocV>
    decreases n,
{
    if n == 0 {
        Map::empty()
    } else {
        let m = class_manifest(fields, placed, (n - 1) as nat);
        let f = fields[n - 1];
        if f.is_transient || f.is_const {
            m
        } else {
            match last_placed(placed, f.name, placed.len()) {
                Some(sf) => m.insert(
                    f.name,
                    LocV {
                        slot: sf.slot,
                        offset: sf.offset_in_slot,
                        size: sf.size,
                        type_text: suffix_spec(f.type_def),
                    },
                ),
                None => m,
            }
        }
    }
}

/// The committed positions of a class, where the lock has any.
pub open spec fn committed_of(
    lock: Option<Map<Seq<char>, Map<Seq<char>, LocV>>>,
    name: Seq<char>,
) -> Option<Map<Seq<char>, LocV>> {
    match lock {
        Some(m) => if m.contains_key(name) {
            Some(m[name])
        } else {
            None
        },
        None => None,
    }
}

/// Where the storage fields of one contract go: under its lock where there is
/// one, else packed from slot 0; transient fields from slot 0 of their own.
pub open spec fn contract_placement(
    w: WorldV,
    sizes: Map<Seq<char>, usize>,
    c: ClassV,
    name: Seq<char>,
    committed: Option<Map<Seq<char>, LocV>>,
) -> Result<Seq<(Seq<char>, StorageField)>, Seq<char>> {
    let per = stored_fields(c.fields, false);
    let tra = stored_fields(c.fields, true);
    let tail = pack_storage_spec(tra, widths_spec(w, sizes, tra), 0, true).0;
    match committed {
        Some(m) => match pack_locked_spec(
            name,
            per,
            widths_spec(w, sizes, per),
            m,
            committed_end(m),
        ) {
            Ok(p) => Ok(p.0 + tail),
            Err(e) => Err(e),
        },
        None => Ok(pack_storage_spec(per, widths_spec(w, sizes, per), 0, false).0 + tail),
    }
}

/// The storage of the first `n` classes added to `lay`.
pub open spec fn storage_layouts(
    w: WorldV,
    lay: LayV,
    lock: Option<Map<Seq<char>, Map<Seq<char>, LocV>>>,
    n: nat,
) -> Result<LayV, Seq<char>>
    decreases n,
{
    if n == 0 {
        Ok(lay)
    } else {
        match storage_layouts(w, lay, lock, (n - 1) as nat) {
            Err(e) => Err(e),
            Ok(st) => {
                let name = w.class_order[n - 1];
                if !w.classes.contains_key(name) || !w.classes[name].is_global || name
                    == "Message"@ || name == "Block"@ {
                    Ok(st)
                } else {
                    let c = w.classes[name];
                    match contract_placement(w, st.sizes, c, name, committed_of(lock, name)) {
                        Err(e) => Err(e),
                        Ok(placed) => Ok(
                            LayV {
                                storage: put_placed(st.storage, name, placed, placed.len()),
                                manifest: st.manifest.insert(
                                    name,
                                    class_manifest(c.fields, placed, c.fields.len()),
                                ),
                                ..st
                            },
                        ),
                    }
                }
            },
        }
    }
}

/// The layout of everything that has been declared, under `lock`.
pub open spec fn layout_spec(
    w: WorldV,
    lock: Option<Map<Seq<char>, Map<Seq<char>, LocV>>>,
) -> Result<LayV, Seq<char>> {
    let n = w.class_order.len();
    storage_layouts(w, struct_layouts(w, mem_layouts(w, n), n), lock, n)
}

pub struct LayoutEngine<'a> {
    pub type_checker: &'a TypeChecker,
    pub storage_fields: NameMap<StorageField>,
    pub memory_fields: NameMap<MemoryField>,
    pub packed_class_size: NameMap<usize>,
    pub struct_storage_fields: NameMap<StorageField>,
    /// The layout in use, ready to be written back as the lock.
    pub manifest_out: StorageManifest,
}

impl<'a> LayoutEngine<'a> {
    pub open spec fn lay(&self) -> LayV {
        LayV {
            mem: self.memory_fields@,
            sizes: self.packed_class_size@,
            structs: self.struct_storage_fields@,
            storage: self.storage_fields@,
            manifest: self.manifest_out@,
        }
    }

    pub open spec fn world(&self) -> WorldV {
        self.type_checker.world()
    }

    /// The layout without a lock.
    pub fn new(type_checker: &'a TypeChecker) -> (r: Self)
        ensures
            r.world() == type_checker.world(),
            layout_spec(type_checker.world(), None) == Ok::<LayV, Seq<char>>(r.lay()),
            r.manifest_out.version == 1,
    {
        proof {
            lemma_unlocked(
                type_checker.world(),
                struct_layouts(
                    type_checker.world(),
                    mem_layouts(type_checker.world(), type_checker.world().class_order.len()),
                    type_checker.world().class_order.len(),
                ),
                type_checker.world().class_order.len(),
            );
        }
        match Self::with_lock(type_checker, None) {
            Ok(e) => e,
            Err(_) => {
                assert(false);
                Self::blank(type_checker)
            },
        }
    }

    fn blank(type_checker: &'a TypeChecker) -> (r: Self)
        ensures
            r.type_checker == type_checker,
            r.lay() == empty_lay(),
            r.manifest_out.version == 1,
    {
        let r = LayoutEngine {
            type_checker,
            storage_fields: NameMap::new(),
            memory_fields: NameMap::new(),
            packed_class_size: NameMap::new(),
            struct_storage_fields: NameMap::new(),
            manifest_out: StorageManifest { version: 1, classes: SortedMap::new() },
        };
        assert(r.manifest_out@ =~= empty_lay().manifest);
        r
    }

    /// The layout under `lock`: committed fields keep their slots, and a
    /// program that would move one is refused.
    pub fn with_lock(type_checker: &'a TypeChecker, lock: Option<StorageManifest>) -> (r: Result<
        Self,
        String,
    >)
        ensures
            match r {
                Ok(e) => e.world() == type_checker.world() && layout_spec(
                    type_checker.world(),
                    opt_manifest_v(lock),
                ) == Ok::<LayV, Seq<char>>(e.lay()) && e.manifest_out.version == 1,
                Err(m) => layout_spec(type_checker.world(), opt_manifest_v(lock)) == Err::<
                    LayV,
                    Seq<char>,
                >(m@),
            },
    {
        let mut engine = Self::blank(type_checker);
        engine.allocate_memory_layouts();
        engine.allocate_struct_layouts();
        match engine.allocate_storage(&lock) {
            Ok(_) => Ok(engine),
            Err(e) => Err(e),
        }
    }

    fn allocate_memory_layouts(&mut self)
        requires
            old(self).lay() == empty_lay(),
        ensures
            final(self).type_checker == old(self).type_checker,
            final(self).manifest_out.version == old(self).manifest_out.version,
            final(self).lay() == mem_layouts(
                old(self).world(),
                old(self).world().class_order.len(),
            ),
    {
        let tc = self.type_checker;
        let ghost w = tc.world();
        let mut n: usize = 0;
        while n < tc.class_order.len()
            invariant
                n <= tc.class_order@.len(),
                w == tc.world(),
                self.type_checker == tc,
                self.manifest_out.version == old(self).manifest_out.version,
                self.lay() == mem_layouts(w, n as nat),
            decreases tc.class_order@.len() - n,
        {
            let name = tc.class_order[n].as_str();
            assert(w.class_order[n as int] == name@);
            match tc.loaded_classes.get(name) {
                Some(c) => {
                    assert(w.classes[name@] == c@);
                    let ws = widths(tc, &self.packed_class_size, &c.fields);
                    let (placed, total) = pack_memory_fields(&c.fields, &ws);
                    let ghost st = self.lay();
                    let ghost pv = mem_placed_v(placed@);
                    let mut i: usize = 0;
                    while i < placed.len()
                        invariant
                            i <= placed@.len(),
                            pv == mem_placed_v(placed@),
                            self.type_checker == tc,
                            self.manifest_out.version == old(self).manifest_out.version,
                            self.lay() == (LayV { mem: put_mem(st.mem, name@, pv, i as nat), ..st }),
                        decreases placed@.len() - i,
                    {
                        self.memory_fields.insert(
                            cat3(name, ".", placed[i].0.as_str()),
                            placed[i].1,
                        );
                        i += 1;
                    }
                    let size: usize = if total == 0 {
                        32
                    } else {
                        total
                    };
                    self.packed_class_size.insert(tc.class_order[n].clone(), size);
                },
                None => {},
            }
            n += 1;
        }
    }

    fn allocate_struct_layouts(&mut self)
        ensures
            final(self).type_checker == old(self).type_checker,
            final(self).manifest_out.version == old(self).manifest_out.version,
            final(self).lay() == struct_layouts(
                old(self).world(),
                old(self).lay(),
                old(self).world().class_order.len(),
            ),
    {
        let tc = self.type_checker;
        let ghost w = tc.world();
        let ghost lay0 = self.lay();
        let mut n: usize = 0;
        while n < tc.class_order.len()
            invariant
                n <= tc.class_order@.len(),
                w == tc.world(),
                self.type_checker == tc,
                self.manifest_out.version == old(self).manifest_out.version,
                self.lay() == struct_layouts(w, lay0, n as nat),
            decreases tc.class_order@.len() - n,
        {
            let name = tc.class_order[n].as_str();
            assert(w.class_order[n as int] == name@);
            match tc.loaded_classes.get(name) {
                Some(c) => {
                    assert(w.classes[name@] == c@);
                    let ws = widths(tc, &self.packed_class_size, &c.fields);
                    let (placed, _next) = pack_storage_fields(&c.fields, &ws, 0, false);
                    let ghost st = self.lay();
                    let ghost pv = placed_v(placed@);
                    let mut i: usize = 0;
                    while i < placed.len()
                        invariant
                            i <= placed@.len(),
                            pv == placed_v(placed@),
                            self.type_checker == tc,
                            self.manifest_out.version == old(self).manifest_out.version,
                            self.lay() == (LayV {
                                structs: put_placed(st.structs, name@, pv, i as nat),
                                ..st
                            }),
                        decreases placed@.len() - i,
                    {
                        self.struct_storage_fields.insert(
                            cat3(name, ".", placed[i].0.as_str()),
                            placed[i].1,
                        );
                        i += 1;
                    }
                },
                None => {},
            }
            n += 1;
        }
    }

    fn allocate_storage(&mut self, lock: &Option<StorageManifest>) -> (r: Result<(), String>)
        ensures
            final(self).type_checker == old(self).type_checker,
            final(self).manifest_out.version == old(self).manifest_out.version,
            match r {
                Ok(_) => storage_layouts(
                    old(self).world(),
                    old(self).lay(),
                    opt_manifest_v(*lock),
                    old(self).world().class_order.len(),
                ) == Ok::<LayV, Seq<char>>(final(self).lay()),
                Err(e) => storage_layouts(
                    old(self).world(),
                    old(self).lay(),
                    opt_manifest_v(*lock),
                    old(self).world().class_order.len(),
                ) == Err::<LayV, Seq<char>>(e@),
            },
    {
        let tc = self.type_checker;
        let ghost w = tc.world();
        let ghost lay0 = self.lay();
        let ghost lv = opt_manifest_v(*lock);
        let mut n: usize = 0;
        while n < tc.class_order.len()
            invariant
                n <= tc.class_order@.len(),
                w == tc.world(),
                lv == opt_manifest_v(*lock),
                self.type_checker == tc,
                old(self).type_checker == tc,
                old(self).lay() == lay0,
                self.manifest_out.version == old(self).manifest_out.version,
                storage_layouts(w, lay0, lv, n as nat) == Ok::<LayV, Seq<char>>(self.lay()),
            decreases tc.class_order@.len() - n,
        {
            let name = tc.class_order[n].as_str();
            assert(w.class_order[n as int] == name@);
            match tc.loaded_classes.get(name) {
                Some(c) => {
                    assert(w.classes[name@] == c@);
                    if c.is_global && !same(name, "Message") && !same(name, "Block") {
                        match place_contract(tc, &self.packed_class_size, c, name, lock) {
                            Ok(placed) => {
                                self.record_contract(c, name, &placed);
                            },
                            Err(e) => {
                                proof {
                                    lemma_storage_err(
                                        w,
                                        lay0,
                                        lv,
                                        n as nat + 1,
                                        w.class_order.len(),
                                    );
                                }
                                return Err(e);
                            },
                        }
                    }
                },
                None => {},
            }
            n += 1;
        }
        Ok(())
    }

    fn record_contract(
        &mut self,
        c: &ClassDecl,
        name: &str,
        placed: &Vec<(String, StorageField)>,
    )
        ensures
            final(self).type_checker == old(self).type_checker,
            final(self).manifest_out.version == old(self).manifest_out.version,
            final(self).lay() == (LayV {
                storage: put_placed(
                    old(self).lay().storage,
                    name@,
                    placed_v(placed@),
                    placed@.len(),
                ),
                manifest: old(self).lay().manifest.insert(
                    name@,
                    class_manifest(c@.fields, placed_v(placed@), c@.fields.len()),
                ),
                ..old(self).lay()
            }),
    {
        let ghost pv = placed_v(placed@);
        let ghost st = self.lay();
        let mut out: SortedMap<FieldLoc> = SortedMap::new();
        let mut i: usize = 0;
        assert(locs_v(out@) =~= class_manifest(c@.fields, pv, 0));
        while i < c.fields.len()
            invariant
                i <= c.fields@.len(),
                pv == placed_v(placed@),
                locs_v(out@) == class_manifest(c@.fields, pv, i as nat),
            decreases c.fields@.len() - i,
        {
            let f = &c.fields[i];
            assert(c@.fields[i as int] == f@);
            if !(f.is_transient || f.is_const) {
                match find_placed(placed, f.name.as_str()) {
                    Some(sf) => {
                        let loc = FieldLoc {
                            slot: sf.slot,
                            offset: sf.offset_in_slot,
                            size: sf.size,
                            type_text: type_suffix(&f.type_def),
                        };
                        let ghost before = out@;
                        out.insert(f.name.clone(), loc);
                        assert(locs_v(out@) =~= locs_v(before).insert(f.name@, loc@));
                    },
                    None => {},
                }
            }
            i += 1;
        }
        let layout = ClassLayout { fields: out };
        let ghost before = self.manifest_out.classes@;
        self.manifest_out.classes.insert(String::from_str(name), layout);
        assert(self.manifest_out@ =~= layouts_v(before).insert(name@, layout@));
        let ghost st1 = self.lay();
        let mut k: usize = 0;
        while k < placed.len()
            invariant
                k <= placed@.len(),
                pv == placed_v(placed@),
                self.type_checker == old(self).type_checker,
                self.manifest_out.version == old(self).manifest_out.version,
                self.lay() == (LayV { storage: put_placed(st.storage, name@, pv, k as nat), ..st1 }),
            decreases placed@.len() - k,
        {
            self.storage_fields.insert(cat3(name, ".", placed[k].0.as_str()), placed[k].1);
            k += 1;
        }
    }

    /// The memory size of a type in bytes.
    pub fn size_of(&self, t: &Type) -> (r: usize)
        ensures
            r == size_spec(self.world(), self.lay().sizes, t@),
    {
        size_in(self.type_checker, &self.packed_class_size, t)
    }

    pub fn struct_storage_field(&self, class: &str, property: &str) -> (r: Option<StorageField>)
        ensures
            r == field_in(self.lay().structs, class@, property@),
    {
        match self.struct_storage_fields.get(cat3(class, ".", property).as_str()) {
            Some(f) => Some(*f),
            None => None,
        }
    }

    pub fn storage_field(&self, class: &str, property: &str) -> (r: Option<StorageField>)
        ensures
            r == field_in(self.lay().storage, class@, property@),
    {
        match self.storage_fields.get(cat3(class, ".", property).as_str()) {
            Some(f) => Some(*f),
            None => None,
        }
    }

    pub fn memory_field(&self, class: &str, property: &str) -> (r: Option<MemoryField>)
        ensures
            r == mem_field_in(self.lay().mem, class@, property@),
    {
        match self.memory_fields.get(cat3(class, ".", property).as_str()) {
            Some(f) => Some(*f),
            None => None,
        }
    }
}

/// What a layout says of a field.
pub open spec fn field_in(m: Map<Seq<char>, StorageField>, class: Seq<char>, f: Seq<char>) -> Option<
    StorageField,
> {
    if m.contains_key(field_key(class, f)) {
        Some(m[field_key(class, f)])
    } else {
        None
    }
}

/// What a memory layout says of a field.
pub open spec fn mem_field_in(m: Map<Seq<char>, MemoryField>, class: Seq<char>, f: Seq<char>) -> Option<
    MemoryField,
> {
    if m.contains_key(field_key(class, f)) {
        Some(m[field_key(class, f)])
    } else {
        None
    }
}

fn find_placed(placed: &Vec<(String, StorageField)>, name: &str) -> (r: Option<StorageField>)
    ensures
        r == last_placed(placed_v(placed@), name@, placed@.len()),
{
    let mut n: usize = placed.len();
    while n > 0
        invariant
            n <= placed@.len(),
            last_placed(placed_v(placed@), name@, placed@.len()) == last_placed(
                placed_v(placed@),
                name@,
                n as nat,
            ),
        decreases n,
    {
        if same(placed[n - 1].0.as_str(), name) {
            return Some(placed[n - 1].1);
        }
        n -= 1;
    }
    None
}

fn pick_fields(fields: &Vec<ClassField>, tr: bool) -> (r: Vec<ClassField>)
    ensures
        fields_v(r@) == stored_fields(fields_v(fields@), tr),
{
    let ghost pred = |f: FieldV| !f.is_const && f.is_transient == tr;
    let ghost fs = fields_v(fields@);
    let mut out: Vec<ClassField> = Vec::new();
    let mut i: usize = 0;
    reveal(Seq::filter);
    assert(fields_v(out@) =~= fs.take(0).filter(pred));
    while i < fields.len()
        invariant
            i <= fields@.len(),
            fs == fields_v(fields@),
            pred == (|f: FieldV| !f.is_const && f.is_transient == tr),
            fields_v(out@) == fs.take(i as int).filter(pred),
        decreases fields@.len() - i,
    {
        let f = &fields[i];
        let ghost before = fields_v(out@);
        proof {
            reveal(Seq::filter);
            assert(fs.take(i + 1).drop_last() =~= fs.take(i as int));
            assert(fs.take(i + 1).last() == f@);
        }
        if !f.is_const && f.is_transient == tr {
            let c = f.clone();
            out.push(c);
            assert(fields_v(out@) =~= before.push(f@));
        }
        i += 1;
    }
    assert(fs.take(fs.len() as int) =~= fs);
    out
}

fn find_end(cl: &ClassLayout) -> (r: usize)
    ensures
        r == committed_end(cl@),
{
    let n = cl.fields.len();
    let ghost order = cl.fields.order();
    let mut e: usize = 0;
    let mut i: usize = 0;
    while i < n
        invariant
            i <= n,
            n == order.len(),
            order == cl.fields.order(),
            forall|k: Seq<char>| #[trigger] cl.fields@.contains_key(k) <==> order.contains(k),
            forall|j: int| 0 <= j < i ==> end_of(cl@[#[trigger] order[j]]) <= e,
            e == 0 || exists|j: int| 0 <= j < i && end_of(cl@[#[trigger] order[j]]) == e,
        decreases n - i,
    {
        let fl = cl.fields.value_at(i);
        let at = fl.slot.wrapping_add(max_one(word_count(fl.offset.wrapping_add(fl.size))));
        assert(cl@[order[i as int]] == fl@);
        if at > e {
            e = at;
        }
        i += 1;
    }
    proof {
        assert forall|k: Seq<char>| #[trigger] cl@.contains_key(k) implies end_of(cl@[k]) <= e by {
            assert(cl.fields@.contains_key(k));
            let x = choose|x: int| 0 <= x < order.len() && order[x] == k;
            assert(end_of(cl@[order[x]]) <= e);
        }
        if e > 0 {
            let j = choose|j: int| 0 <= j < n && end_of(cl@[#[trigger] order[j]]) == e;
            assert(order.contains(order[j]));
            assert(cl.fields@.contains_key(order[j]));
            assert(cl@.contains_key(order[j]));
        }
        lemma_committed_end(cl@, e);
    }
    e
}

fn place_contract(
    tc: &TypeChecker,
    sizes: &NameMap<usize>,
    c: &ClassDecl,
    name: &str,
    lock: &Option<StorageManifest>,
) -> (r: Result<Vec<(String, StorageField)>, String>)
    ensures
        match r {
            Ok(p) => contract_placement(
                tc.world(),
                sizes@,
                c@,
                name@,
                committed_of(opt_manifest_v(*lock), name@),
            ) == Ok::<Seq<(Seq<char>, StorageField)>, Seq<char>>(placed_v(p@)),
            Err(e) => contract_placement(
                tc.world(),
                sizes@,
                c@,
                name@,
                committed_of(opt_manifest_v(*lock), name@),
            ) == Err::<Seq<(Seq<char>, StorageField)>, Seq<char>>(e@),
        },
{
    let per = pick_fields(&c.fields, false);
    let tra = pick_fields(&c.fields, true);
    let pw = widths(tc, sizes, &per);
    let tw = widths(tc, sizes, &tra);
    let (mut tail, _) = pack_storage_fields(&tra, &tw, 0, true);
    let committed: Option<&ClassLayout> = match lock {
        Some(m) => m.classes.get(name),
        None => None,
    };
    match committed {
        Some(cl) => {
            let mut append: usize = find_end(cl);
            match pack_storage_fields_locked(name, &per, &pw, cl, &mut append) {
                Ok(mut p) => {
                    let ghost a = placed_v(p@);
                    let ghost b = placed_v(tail@);
                    p.append(&mut tail);
                    assert(placed_v(p@) =~= a + b);
                    Ok(p)
                },
                Err(e) => Err(e),
            }
        },
        None => {
            let (mut p, _) = pack_storage_fields(&per, &pw, 0, false);
            let ghost a = placed_v(p@);
            let ghost b = placed_v(tail@);
            p.append(&mut tail);
            assert(placed_v(p@) =~= a + b);
            Ok(p)
        },
    }
}

proof fn lemma_storage_err(
    w: WorldV,
    lay: LayV,
    lock: Option<Map<Seq<char>, Map<Seq<char>, LocV>>>,
    n: nat,
    m: nat,
)
    requires
        n <= m,
        storage_layouts(w, lay, lock, n) is Err,
    ensures
        storage_layouts(w, lay, lock, m) == storage_layouts(w, lay, lock, n),
    decreases m,
{
    if n < m {
        lemma_storage_err(w, lay, lock, n, (m - 1) as nat);
    }
}

proof fn lemma_unlocked(w: WorldV, lay: LayV, n: nat)
    ensures
        storage_layouts(w, lay, None, n) is Ok,
    decreases n,
{
    if n > 0 {
        lemma_unlocked(w, lay, (n - 1) as nat);
    }
}

} // verus!
