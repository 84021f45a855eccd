use gumc::ast::{ClassField, Type};
use gumc::codegen::layout::{LayoutEngine, StorageManifest};
use gumc::codegen::packing::{
    pack_memory_fields, pack_storage_fields, pack_storage_fields_locked, size_sorted_indices, ClassLayout,
    FieldLoc,
};
use gumc::names::SortedMap;
use gumc::parser::parse_program;
use gumc::semantic::TypeChecker;

fn checked(src: &str) -> TypeChecker {
    let p = parse_program(src).unwrap_or_else(|e| panic!("{:?}", e));
    let mut tc = TypeChecker::new();
    let im = tc.start(&p);
    tc.check(&p, &im).unwrap_or_else(|e| panic!("{:?}", e));
    tc
}

fn at(e: &LayoutEngine, class: &str, field: &str) -> (usize, usize, usize, bool) {
    let f = e.storage_field(class, field).unwrap_or_else(|| panic!("no {}.{}", class, field));
    (f.slot, f.offset_in_slot, f.size, f.is_transient)
}

fn field(name: &str, t: &str) -> ClassField {
    ClassField {
        is_const: false,
        is_transient: false,
        type_def: Type::Primitive(t.to_string()),
        name: name.to_string(),
    }
}

#[test]
fn small_fields_share_a_slot() {
    let tc = checked("contract C:
    u8 a
    u256 b
    Account c
    bool d
    transient u256 t
    const u256 k
    fn new():
        C.k = 7
");
    let e = LayoutEngine::new(&tc);
    assert_eq!(at(&e, "C", "b"), (0, 0, 32, false));
    assert_eq!(at(&e, "C", "c"), (1, 0, 32, false));
    assert_eq!(at(&e, "C", "a"), (2, 0, 1, false));
    assert_eq!(at(&e, "C", "d"), (2, 1, 1, false));
    assert_eq!(at(&e, "C", "t"), (0, 0, 32, true));
    assert!(e.storage_field("C", "k").is_none());
    assert!(e.storage_field("C", "nope").is_none());
}

#[test]
fn wide_fields_take_whole_slots() {
    let tc = checked("class S:
    u8 x
    u256 y
contract C:
    [u256; 3] xs
    S s
    [u256] ys
    u8 z
");
    let e = LayoutEngine::new(&tc);
    assert_eq!(at(&e, "C", "xs"), (0, 0, 96, false));
    assert_eq!(e.size_of(&Type::Primitive("S".to_string())), 33);
    let (x, y) = (e.memory_field("S", "x").unwrap(), e.memory_field("S", "y").unwrap());
    assert_eq!((y.offset, y.size), (0, 32));
    assert_eq!((x.offset, x.size), (32, 1));
}

#[test]
fn the_sizes_of_types() {
    let tc = checked("enum E:
    A
    B
enum P:
    X(u256 v)
    Y
contract C:
    u256 q
");
    let e = LayoutEngine::new(&tc);
    let p = |n: &str| e.size_of(&Type::Primitive(n.to_string()));
    assert_eq!((p("bool"), p("u8"), p("u16"), p("i32"), p("u64"), p("i128")), (1, 1, 2, 4, 8, 16));
    assert_eq!((p("Account"), p("u256"), p("String")), (32, 32, 32));
    assert_eq!((p("E"), p("P")), (1, 64));
    assert_eq!(e.size_of(&Type::FixedArray(Box::new(Type::Primitive("u16".to_string())), 5)), 10);
    assert_eq!(e.size_of(&Type::Array(Box::new(Type::Primitive("u16".to_string())))), 32);
}

#[test]
fn the_widest_goes_first_and_ties_keep_their_order() {
    assert_eq!(size_sorted_indices(&vec![1, 32, 20, 32, 1]), vec![1, 3, 2, 0, 4]);
    assert_eq!(size_sorted_indices(&vec![]), Vec::<usize>::new());
}

#[test]
fn fields_do_not_overlap() {
    let fs = vec![field("a", "u8"), field("b", "u128"), field("c", "u128"), field("d", "u64")];
    let (placed, next) = pack_storage_fields(&fs, &vec![1, 16, 16, 8], 5, false);
    let got: Vec<(String, usize, usize)> =
        placed.iter().map(|(n, f)| (n.clone(), f.slot, f.offset_in_slot)).collect();
    assert_eq!(
        got,
        vec![
            ("b".to_string(), 5, 0),
            ("c".to_string(), 5, 16),
            ("d".to_string(), 6, 0),
            ("a".to_string(), 6, 8)
        ]
    );
    assert_eq!(next, 7);
}

#[test]
fn memory_has_no_gaps() {
    let fs = vec![field("a", "u8"), field("b", "u256"), field("c", "u16")];
    let (placed, size) = pack_memory_fields(&fs, &vec![1, 32, 2]);
    let got: Vec<(String, usize)> = placed.iter().map(|(n, f)| (n.clone(), f.offset)).collect();
    assert_eq!(got, vec![("b".to_string(), 0), ("c".to_string(), 32), ("a".to_string(), 34)]);
    assert_eq!(size, 35);
}

fn loc(slot: usize, offset: usize, size: usize, t: &str) -> FieldLoc {
    FieldLoc { slot, offset, size, type_text: t.to_string() }
}

fn lock_of(fields: Vec<(&str, FieldLoc)>) -> ClassLayout {
    let mut m = SortedMap::new();
    for (n, l) in fields {
        m.insert(n.to_string(), l);
    }
    ClassLayout { fields: m }
}

#[test]
fn a_lock_keeps_committed_fields() {
    let lock = lock_of(vec![("x", loc(3, 4, 8, "u64"))]);
    let fs = vec![field("n", "u256"), field("x", "u64"), field("s", "u8")];
    let mut append = 4;
    let placed = pack_storage_fields_locked("C", &fs, &vec![32, 8, 1], &lock, &mut append).unwrap();
    let mut got: Vec<(String, usize, usize)> =
        placed.iter().map(|(n, f)| (n.clone(), f.slot, f.offset_in_slot)).collect();
    got.sort();
    // the wide newcomer goes behind everything, the small one into the gap
    assert_eq!(
        got,
        vec![("n".to_string(), 4, 0), ("s".to_string(), 3, 12), ("x".to_string(), 3, 4)]
    );
    assert_eq!(append, 5);
}

#[test]
fn a_lock_refuses_what_would_move_storage() {
    let lock = lock_of(vec![("x", loc(0, 0, 8, "u64"))]);
    let mut append = 1;
    assert_eq!(
        pack_storage_fields_locked("C", &vec![field("x", "u128")], &vec![16], &lock, &mut append).unwrap_err(),
        "Storage-lock violation in 'C': field 'x' changed size (8 -> 16 bytes). This would move or overlap committed storage; keep its type stable across an upgrade."
    );
    let gone = pack_storage_fields_locked("C", &vec![field("y", "u64")], &vec![8], &lock, &mut append).unwrap_err();
    assert!(gone.starts_with("Storage-lock violation in 'C'"), "{}", gone);
    assert!(gone.contains("'x'"), "{}", gone);
}

#[test]
fn a_build_is_its_own_lock() {
    let v1 = checked("contract C:
    u256 a
    u8 b
");
    let first = LayoutEngine::new(&v1);
    let lock: StorageManifest = first.manifest_out;
    assert_eq!(lock.version, 1);
    let v2 = checked("contract C:
    u8 b
    u256 a
    u256 c
    u16 d
");
    let second = LayoutEngine::with_lock(&v2, Some(lock)).unwrap_or_else(|e| panic!("{}", e));
    assert_eq!(at(&second, "C", "a"), (0, 0, 32, false));
    assert_eq!(at(&second, "C", "b"), (1, 0, 1, false));
    assert_eq!(at(&second, "C", "c"), (2, 0, 32, false));
    assert_eq!(at(&second, "C", "d"), (1, 1, 2, false));
}

#[test]
fn a_const_is_folded_when_it_is_known() {
    let tc = checked("contract C:
    const u256 a
    const u8 b
    const u256 c
    fn new(u256 x):
        C.a = 1000
        C.b = 255
        C.c = x
");
    let e = LayoutEngine::new(&tc);
    assert_eq!(e.const_field_value("C", "a").as_deref(), Some("1000"));
    assert_eq!(e.const_field_value("C", "b").as_deref(), Some("255"));
    assert_eq!(e.const_field_value("C", "c"), None);
    assert_eq!(e.patched_immutables("C"), vec!["c"]);
    assert_eq!(e.immutable_fields("C").len(), 3);
    assert!(e.immutable_field("C", "a").is_some() && e.immutable_field("C", "z").is_none());
}

#[test]
fn a_lock_refuses_another_type_of_the_same_size() {
    let lock = || {
        let mut classes = SortedMap::new();
        classes.insert("C".to_string(), lock_of(vec![("x", loc(0, 0, 32, "u256"))]));
        StorageManifest { version: 1, classes }
    };
    let signed = checked("contract C:
    i256 x
");
    match LayoutEngine::with_lock(&signed, Some(lock())) {
        Ok(_) => panic!("accepted"),
        Err(e) => assert_eq!(
            e,
            "Storage-lock violation in 'C': field 'x' changed type (u256 -> i256). This would read committed storage as something else; keep its type stable across an upgrade."
        ),
    }
    let same = checked("contract C:
    u256 x
");
    assert!(LayoutEngine::with_lock(&same, Some(lock())).is_ok());
}

#[test]
fn a_rebuild_changes_nothing() {
    let tc = checked("contract C:
    u8 a
    u256 b
    transient u256 t
    const u256 k
    [u256; 3] xs
    u16 c
    fn new():
        C.k = 7
");
    let first = LayoutEngine::new(&tc);
    let before: Vec<_> = ["a", "b", "t", "xs", "c"].iter().map(|f| at(&first, "C", f)).collect();
    let kept = first.manifest_out.classes.get("C").unwrap().fields.get("c").unwrap().slot;
    let second = LayoutEngine::with_lock(&tc, Some(first.manifest_out)).unwrap_or_else(|e| panic!("{}", e));
    let after: Vec<_> = ["a", "b", "t", "xs", "c"].iter().map(|f| at(&second, "C", f)).collect();
    assert_eq!(before, after);
    assert_eq!(second.manifest_out.classes.get("C").unwrap().fields.get("c").unwrap().slot, kept);
    assert!(second.storage_field("C", "k").is_none());
}

#[test]
fn a_contract_lies_as_a_struct_of_its_fields() {
    let tc = checked("contract C:
    u8 a
    u256 b
    u16 c
");
    let e = LayoutEngine::new(&tc);
    for f in ["a", "b", "c", "nope"] {
        let s = e.struct_storage_field("C", f).map(|x| (x.slot, x.offset_in_slot, x.size, x.is_transient));
        assert_eq!(s, e.storage_field("C", f).map(|x| (x.slot, x.offset_in_slot, x.size, x.is_transient)));
    }
    assert!(e.storage_field("C", "nope").is_none());
}
