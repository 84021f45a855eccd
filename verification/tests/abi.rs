use gumc::ast::{ClassDecl, ClassField, Declaration, Parameter, Type};
use gumc::codegen::abi::AbiGenerator;
use gumc::codegen::layout::LayoutEngine;
use gumc::codegen::mutability::{
    analyze_class, analyze_external_calls, is_read_only, makes_external_call, state_mutability,
};
use gumc::codegen::yul::{byte_width, is_abi_scalar, keccak256_hex};
use gumc::codegen::translator::Translator;
use gumc::codegen::{generic_suffix, type_suffix};
use gumc::names::NameSet;
use gumc::parser::parse_program;
use gumc::semantic::TypeChecker;

const SRC: &str = "enum E:
    A
    B
class P:
    u256 x
    String s
interface I:
    fn go(u256 a)
contract C:
    u256 n
    export fn pure_one(u256 a) -> u256:
        return a + 1
    export fn view_one() -> u256:
        return C.n
    export fn write_one(P p, [E] es, Account who):
        C.n = 1
    export fn through() -> u256:
        return self.view_one()
    export payable fn pay():
        C.n = 2
    export fn out(Account t):
        I(t).go(1)
    fn hidden():
        C.n = 3
";

fn parts() -> (TypeChecker, ClassDecl) {
    let p = parse_program(SRC).unwrap_or_else(|e| panic!("{:?}", e));
    let mut tc = TypeChecker::new();
    let im = tc.start(&p);
    tc.check(&p, &im).unwrap_or_else(|e| panic!("{:?}", e));
    let mut found = None;
    for d in p.declarations {
        if let Declaration::Class(c) = d {
            if c.name == "C" {
                found = Some(c);
            }
        }
    }
    (tc, found.unwrap())
}

fn prim(n: &str) -> Type {
    Type::Primitive(n.to_string())
}

#[test]
fn mutability_is_inferred() {
    let (tc, c) = parts();
    let m = analyze_class(&tc, &c);
    let of = |n: &str| {
        let f = c.methods.iter().find(|f| f.name == n).unwrap();
        (state_mutability(f, &m), is_read_only(f, &m))
    };
    assert_eq!(of("pure_one"), ("pure", true));
    assert_eq!(of("view_one"), ("view", true));
    // a call on the contract itself does what the function does
    assert_eq!(of("through"), ("view", true));
    assert_eq!(of("write_one"), ("nonpayable", false));
    assert_eq!(of("pay"), ("payable", false));
    assert_eq!(of("out"), ("nonpayable", false));
}

#[test]
fn calls_to_other_contracts_are_seen() {
    let (tc, c) = parts();
    let m = analyze_external_calls(&tc, &c);
    let of = |n: &str| makes_external_call(c.methods.iter().find(|f| f.name == n).unwrap(), &m);
    assert!(of("out"));
    assert!(!of("pay") && !of("through") && !of("hidden"));
}

#[test]
fn types_have_their_wire_names() {
    let (tc, _) = parts();
    let g = AbiGenerator::new(&tc);
    assert_eq!(g.map_type(&prim("u8")), "uint8");
    assert_eq!(g.map_type(&prim("i256")), "int256");
    assert_eq!(g.map_type(&prim("Account")), "address");
    assert_eq!(g.map_type(&prim("b4")), "bytes4");
    assert_eq!(g.map_type(&prim("Bytes")), "bytes");
    assert_eq!(g.map_type(&prim("String")), "string");
    assert_eq!(g.map_type(&prim("E")), "uint8");
    assert_eq!(g.map_type(&prim("P")), "tuple");
    let nested = Type::FixedArray(Box::new(Type::Array(Box::new(prim("u16")))), 2);
    assert_eq!(g.map_type(&nested), "uint16[][2]");
    assert_eq!(g.signature_type(&Type::Array(Box::new(prim("P")))), "(uint256,string)[]");
    let parts = g.generate_components(&prim("P"));
    assert_eq!((parts[0].name.as_str(), parts[0].type_text.as_str()), ("x", "uint256"));
    assert_eq!((parts[1].name.as_str(), parts[1].type_text.as_str()), ("s", "string"));
}

#[test]
fn selectors_are_hashes_of_signatures() {
    let (tc, c) = parts();
    let g = AbiGenerator::new(&tc);
    assert_eq!(
        keccak256_hex("Transfer(address,address,uint256)"),
        "0xddf252ad1be2c89b69c2b068fc378daa952ba7f163c4a11628f55a4df523b3ef"
    );
    let ps = vec![
        Parameter { is_mut: false, type_def: prim("Account"), name: "to".to_string() },
        Parameter { is_mut: false, type_def: prim("u256"), name: "v".to_string() },
    ];
    assert_eq!(g.params_selector("transfer", &ps), "0xa9059cbb");
    assert_eq!(
        g.calculate_error_selector("Error", &vec![Parameter { is_mut: false, type_def: prim("String"), name: "m".to_string() }]),
        "0x08c379a0"
    );
    let w = c.methods.iter().find(|f| f.name == "write_one").unwrap();
    let expected = &keccak256_hex("write_one((uint256,string),uint8[],address)")[..10];
    assert_eq!(g.calculate_selector(w), expected);
}

#[test]
fn only_exports_have_entries() {
    let p = parse_program(SRC).unwrap();
    let (tc, c) = parts();
    let g = AbiGenerator::new(&tc);
    let entries = g.generate_abi(&p, &c, &analyze_class(&tc, &c));
    let names: Vec<&str> = entries.iter().filter(|e| e.entry_type == "function").map(|e| e.name.as_str()).collect();
    assert_eq!(names, vec!["pure_one", "view_one", "write_one", "through", "pay", "out"]);
    let w = entries.iter().find(|e| e.name == "write_one").unwrap();
    assert_eq!(w.inputs.len(), 3);
    assert_eq!(w.inputs[0].type_text, "tuple");
    assert_eq!(w.inputs[0].components.len(), 2);
    assert_eq!(w.inputs[1].type_text, "uint8[]");
    assert_eq!(w.outputs.as_ref().unwrap().len(), 0);
    let v = entries.iter().find(|e| e.name == "view_one").unwrap();
    assert_eq!(v.outputs.as_ref().unwrap()[0].type_text, "uint256");
}

#[test]
fn suffixes_name_instantiations() {
    assert_eq!(type_suffix(&prim("u256")), "u256");
    assert_eq!(generic_suffix(&vec![prim("u8"), prim("bool")]), "u8_bool");
}

#[test]
fn fixed_bytes_have_widths() {
    assert_eq!(byte_width("b1"), Some(1));
    assert_eq!(byte_width("b32"), Some(32));
    assert_eq!(byte_width("b33"), None);
    assert_eq!(byte_width("b0"), None);
    assert_eq!(byte_width("bool"), None);
    assert!(is_abi_scalar(&prim("u64")) && is_abi_scalar(&prim("bool")) && !is_abi_scalar(&prim("String")));
}

#[test]
fn a_function_called_get_is_no_collection_read() {
    let p = parse_program("interface I:
    fn go(u256 a)
contract C:
    Account t
    [u256] v
    fn get():
        I(C.t).go(1)
    fn push(u256 a):
        C.v.push(a)
    export fn f():
        C.get()
    export fn g():
        self.push(1)
    export fn h() -> u256:
        return C.v.get(0)
").unwrap_or_else(|e| panic!("{:?}", e));
    let mut tc = TypeChecker::new();
    let im = tc.start(&p);
    tc.check(&p, &im).unwrap_or_else(|e| panic!("{:?}", e));
    let c = tc.loaded_classes.get("C").unwrap();
    let calls = analyze_external_calls(&tc, c);
    let of = |n: &str| makes_external_call(c.methods.iter().find(|f| f.name == n).unwrap(), &calls);
    assert!(of("get") && of("f"));
    assert!(!of("g") && !of("h"));
    let m = analyze_class(&tc, c);
    let effect = |n: &str| state_mutability(c.methods.iter().find(|f| f.name == n).unwrap(), &m);
    assert_eq!((effect("f"), effect("g"), effect("h")), ("nonpayable", "nonpayable", "view"));
}

fn of_fields(name: &str, fields: Vec<(&str, Type)>) -> ClassDecl {
    ClassDecl {
        is_global: false,
        is_extern: false,
        name: name.to_string(),
        generic_params: vec![],
        parents: vec![],
        fields: fields
            .into_iter()
            .map(|(n, t)| ClassField { is_const: false, is_transient: false, type_def: t, name: n.to_string() })
            .collect(),
        methods: vec![],
    }
}

#[test]
fn classes_are_opened_all_the_way_down() {
    let mut tc = TypeChecker::new();
    tc.loaded_classes.insert("In".to_string(), of_fields("In", vec![("s", prim("String"))]));
    tc.loaded_classes.insert("Out".to_string(), of_fields("Out", vec![("i", prim("In")), ("n", prim("u8"))]));
    let g = AbiGenerator::new(&tc);
    assert_eq!(g.signature_type(&prim("Out")), "((string),uint8)");
    let parts = g.generate_components(&Type::Array(Box::new(prim("Out"))));
    assert_eq!(parts.len(), 2);
    assert_eq!(parts[0].components.len(), 1);
    let e = LayoutEngine::new(&tc);
    let (a, b) = (NameSet::new(), NameSet::new());
    let tr = Translator::new(&e, &g, &a, &b, false);
    assert!(tr.abi_is_dynamic(&prim("Out")));
    assert!(tr.abi_is_dynamic(&Type::FixedArray(Box::new(prim("Out")), 2)));
    assert!(!tr.abi_is_dynamic(&prim("u256")));
}

#[test]
fn nested_fixed_arrays_have_codecs() {
    let tc = TypeChecker::new();
    let g = AbiGenerator::new(&tc);
    let e = LayoutEngine::new(&tc);
    let (a, b) = (NameSet::new(), NameSet::new());
    let mut tr = Translator::new(&e, &g, &a, &b, false);
    let pair = Type::FixedArray(Box::new(prim("u256")), 2);
    let square = Type::FixedArray(Box::new(pair), 2);
    assert_eq!(tr.abi_head_bytes(&square), 128);
    let cd = tr.ensure_abi_cd(&square).unwrap();
    assert_eq!(tr.ensure_abi_cd(&square), Some(cd));
    assert!(tr.ensure_abi_mem(&square).is_some());
    let (put, size) = tr.ensure_abi_put(&square).unwrap();
    assert_ne!(put, size);
    assert!(tr.helper_thunks.get(&put).unwrap().starts_with(&format!("function {}(dst, ptr)", put)));
    assert!(tr.helper_thunks.get(&size).unwrap().starts_with(&format!("function {}(ptr)", size)));
    let texts = Type::Array(Box::new(prim("String")));
    let (put_texts, size_texts) = tr.ensure_abi_put(&texts).unwrap();
    for (name, head) in [(put_texts, "(dst, ptr)"), (size_texts, "(ptr)")] {
        assert!(tr.helper_thunks.get(&name).unwrap().starts_with(&format!("function {}{}", name, head)));
    }
    assert_eq!(tr.ensure_abi_put(&square), Some((put, size)));
    assert!(tr.ensure_abi_cd(&Type::FixedArray(Box::new(prim("u8")), 2)).is_some());
    assert!(tr.ensure_abi_cd(&Type::Array(Box::new(square))).is_some());
}

#[test]
fn a_value_is_cut_to_its_type() {
    let tc = TypeChecker::new();
    let g = AbiGenerator::new(&tc);
    let e = LayoutEngine::new(&tc);
    let (a, b) = (NameSet::new(), NameSet::new());
    let tr = Translator::new(&e, &g, &a, &b, false);
    assert_eq!(tr.mask_for_type("x", &prim("u8")), "and(x, 0xff)");
    assert_eq!(tr.mask_for_type("x", &prim("u256")), "x");
}

#[test]
fn another_contract_is_not_the_class_itself() {
    let p = parse_program("contract Other:
    u256 n
    fn go() -> u256:
        return 1
contract C:
    u256 n
    fn go() -> u256:
        return 1
    export fn f() -> u256:
        return Other.go()
    export fn g() -> u256:
        return C.go()
").unwrap_or_else(|e| panic!("{:?}", e));
    let mut tc = TypeChecker::new();
    let im = tc.start(&p);
    let _ = tc.check(&p, &im);
    let c = tc.loaded_classes.get("C").unwrap();
    let m = analyze_class(&tc, c);
    let effect = |n: &str| state_mutability(c.methods.iter().find(|f| f.name == n).unwrap(), &m);
    assert_eq!((effect("f"), effect("g")), ("nonpayable", "pure"));
}
