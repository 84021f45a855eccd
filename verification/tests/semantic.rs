use gumc::ast::{Expr, Type};
use gumc::parser::parse_program;
use gumc::semantic::modules::{local_path, Imports, Source};
use gumc::semantic::{is_infer, super_name, SymbolInfo, TypeChecker};
use gumc::stdlib::lookup;

fn prim(n: &str) -> Type {
    Type::Primitive(n.to_string())
}

fn errors(src: &str) -> Vec<String> {
    let p = parse_program(src).unwrap_or_else(|e| panic!("{:?}", e));
    let mut tc = TypeChecker::new();
    let im = tc.start(&p);
    match tc.check(&p, &im) {
        Ok(()) => vec![],
        Err(e) => e,
    }
}

fn ended(e: Vec<String>, text: &str) {
    assert_eq!(e.len(), 1, "{:?}", e);
    assert!(e[0].contains(text), "{}", e[0]);
}

#[test]
fn scopes_nest() {
    let mut tc = TypeChecker::new();
    tc.push_scope();
    tc.insert_symbol("x".to_string(), SymbolInfo { type_def: prim("u8"), is_const: true });
    tc.insert_symbol("y".to_string(), SymbolInfo { type_def: prim("bool"), is_const: true });
    tc.push_scope();
    tc.insert_symbol("x".to_string(), SymbolInfo { type_def: prim("String"), is_const: false });
    assert!(matches!(tc.lookup_symbol("x"), Some(i) if !i.is_const));
    assert!(matches!(tc.lookup_symbol("y"), Some(i) if i.is_const));
    assert!(tc.lookup_symbol("z").is_none());
    tc.pop_scope();
    assert!(matches!(tc.lookup_symbol("x"), Some(i) if i.is_const));
    tc.pop_scope();
    assert!(tc.lookup_symbol("x").is_none());
}

#[test]
fn expressions_have_types() {
    let mut tc = TypeChecker::new();
    tc.push_scope();
    tc.insert_symbol("n".to_string(), SymbolInfo { type_def: prim("u64"), is_const: true });
    let t = tc.eval_type(&Expr::Identifier("n".to_string())).unwrap();
    assert!(matches!(t, Type::Primitive(p) if p == "u64"));
    assert_eq!(
        tc.eval_type(&Expr::Identifier("m".to_string())).unwrap_err(),
        "Undefined identifier: m"
    );
    assert!(is_infer(&prim("_infer")) && !is_infer(&prim("u8")));
    assert_eq!(super_name("get"), "super_get");
}

#[test]
fn enums_with_payloads_are_told_apart() {
    let p = parse_program("enum E:
    A
    B
enum P:
    X(u256 v)
    Y
").unwrap();
    let mut tc = TypeChecker::new();
    let im = tc.start(&p);
    tc.check(&p, &im).unwrap();
    assert!(!tc.enum_has_payload("E") && tc.enum_has_payload("P"));
    assert!(tc.is_scalar_enum(&prim("E")) && !tc.is_scalar_enum(&prim("P")));
    assert!(tc.is_payload_enum(&prim("P")) && !tc.is_payload_enum(&prim("u8")));
}

#[test]
fn a_use_names_a_module_and_a_symbol() {
    let p = parse_program("use gum.defaults.Account
use lib.tools.Math
use gum.nope.Thing
use plain
").unwrap();
    let mut tc = TypeChecker::new();
    let mut im: Imports = tc.start(&p);
    let mut seen = vec![];
    while let Some(s) = im.next("src") {
        seen.push(s);
    }
    assert_eq!(im.errors.len(), 1);
    assert_eq!(
        im.errors[0],
        "Module Error: 'gum.nope.Thing' does not name anything in the standard library. Modules: gum.defaults."
    );
    assert!(seen.contains(&Source::Std {
        use_path: "gum.defaults.Account".to_string(),
        module: "gum.defaults".to_string(),
        symbol: Some("Account".to_string()),
    }));
    assert!(seen.contains(&Source::Local {
        use_path: "lib.tools.Math".to_string(),
        direct: local_path("src", "lib.tools.Math"),
        fallback: Some((local_path("src", "lib.tools"), "Math".to_string())),
    }));
    assert!(seen.contains(&Source::Local {
        use_path: "plain".to_string(),
        direct: local_path("src", "plain"),
        fallback: None,
    }));
}

#[test]
fn a_local_path_follows_the_dots() {
    assert_eq!(local_path("src", "lib.tools"), "src/lib/tools.gum");
}

#[test]
fn a_symbol_that_is_not_there_is_reported() {
    let p = parse_program("use lib.Missing\nuse lib.Here\n").unwrap();
    let mut tc = TypeChecker::new();
    let mut im = tc.start(&p);
    while let Some(s) = im.next(".") {
        if let Source::Local { use_path, fallback: Some((path, symbol)), .. } = s {
            let parsed = if im.knows(&path) { None } else { Some(parse_program("class Here:\n    u256 x\nclass Other:\n    u256 y\n")) };
            tc.load(&mut im, &use_path, &path, Some(symbol), parsed);
        }
    }
    let missing = im.missing_symbols();
    assert_eq!(missing.len(), 1);
    assert!(missing[0].contains("Missing"), "{}", missing[0]);
    assert!(tc.loaded_classes.has("Here"));
    // only what is wanted, and what that needs, is merged
    assert!(!tc.loaded_classes.has("Other"));
}

#[test]
fn an_import_brings_what_it_needs() {
    let p = parse_program("use lib.Outer\n").unwrap();
    let mut tc = TypeChecker::new();
    let mut im = tc.start(&p);
    while let Some(s) = im.next(".") {
        if let Source::Local { use_path, fallback: Some((path, symbol)), .. } = s {
            tc.load(
                &mut im,
                &use_path,
                &path,
                Some(symbol),
                Some(parse_program("class Inner:\n    u256 x\nclass Outer:\n    Inner i\nclass Loose:\n    u256 y\n")),
            );
        }
    }
    assert!(tc.loaded_classes.has("Outer") && tc.loaded_classes.has("Inner"));
    assert!(!tc.loaded_classes.has("Loose"));
}

#[test]
fn an_unreadable_module_is_reported() {
    let p = parse_program("use lib.Thing\n").unwrap();
    let mut tc = TypeChecker::new();
    let mut im = tc.start(&p);
    im.next(".");
    im.note_missing("lib.Thing", "./lib/Thing.gum", Some("./lib.gum"), "not found");
    assert_eq!(
        tc.check(&p, &im).unwrap_err()[0],
        "Module Error: cannot read module 'lib.Thing', tried ./lib/Thing.gum and ./lib.gum: not found"
    );
}

#[test]
fn the_standard_library_checks() {
    let p = parse_program(lookup("gum.defaults").unwrap()).unwrap_or_else(|e| panic!("{:?}", e));
    let mut tc = TypeChecker::new();
    let im = tc.start(&p);
    tc.check(&p, &im).unwrap_or_else(|e| panic!("{:?}", e));
}

#[test]
fn an_interface_parent_must_be_implemented() {
    ended(errors("interface I:
    fn go(u256 a) -> bool
[I]
contract C:
    u256 x
"), "go");
}

#[test]
fn inheritance_may_not_turn_in_a_circle() {
    let e = errors("[B]
class A:
    u256 x
[A]
class B:
    u256 y
");
    assert!(!e.is_empty());
}

#[test]
fn a_name_must_be_declared() {
    ended(errors("contract C:
    export fn f() -> u256:
        return nope
"), "Undefined identifier: nope");
}

#[test]
fn one_bad_body_does_not_hide_another() {
    let e = errors("contract C:
    export fn f() -> u256:
        return a
    export fn g() -> u256:
        return b
");
    assert_eq!(e.len(), 2);
    assert!(e[0].contains("a") && e[1].contains("b"));
}

#[test]
fn what_a_block_declares_ends_with_it() {
    ended(errors("contract C:
    export fn f(bool p) -> u256:
        if p:
            u256 x = 1
        return x
"), "Undefined identifier: x");
}

#[test]
fn an_operand_must_fit() {
    assert!(!errors("contract C:
    export fn f(bool p) -> u256:
        return p + 1
").is_empty());
    assert!(!errors("contract C:
    export fn f(u256 a):
        if a:
            return
").is_empty());
}

#[test]
fn an_export_stands_in_a_contract() {
    assert!(!errors("export fn f() -> u256:
    return 1
").is_empty());
}

#[test]
fn a_long_line_of_parents_is_followed_to_its_end() {
    let mut src = String::from("class C0:\n    u256 f0\n");
    for i in 1..12 {
        src.push_str(&format!("[C{}]\nclass C{}:\n    u256 f{}\n", i - 1, i, i));
    }
    let p = parse_program(&src).unwrap_or_else(|e| panic!("{:?}", e));
    let mut tc = TypeChecker::new();
    let im = tc.start(&p);
    tc.check(&p, &im).unwrap_or_else(|e| panic!("{:?}", e));
    let last = tc.loaded_classes.get("C11").unwrap();
    let names: Vec<String> = last.fields.iter().map(|f| f.name.clone()).collect();
    assert_eq!(names, (0..12).map(|i| format!("f{}", i)).collect::<Vec<_>>());
}

#[test]
fn a_class_holds_what_its_parent_gives() {
    let p = parse_program("class P:
    u256 a
    fn one(self) -> u256:
        return 1
    fn two(self) -> u256:
        return 2
[P]
class K:
    u8 b
    fn three(self) -> u256:
        return 3
    fn two(self) -> u256:
        return super.two() + 20
").unwrap_or_else(|e| panic!("{:?}", e));
    let mut tc = TypeChecker::new();
    let im = tc.start(&p);
    tc.check(&p, &im).unwrap_or_else(|e| panic!("{:?}", e));
    let k = tc.loaded_classes.get("K").unwrap();
    let fields: Vec<&str> = k.fields.iter().map(|f| f.name.as_str()).collect();
    let methods: Vec<&str> = k.methods.iter().map(|m| m.name.as_str()).collect();
    assert_eq!(fields, vec!["a", "b"]);
    assert_eq!(methods, vec!["one", "two", "three", "super_two"]);
    assert_eq!(tc.loaded_classes.get("P").unwrap().methods.len(), 2);
}
