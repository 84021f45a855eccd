use gumc::ast::{Declaration, Expr, FStringSegment, Statement, Type};
use gumc::parser::exprs::{binop_prec, is_right_assoc};
use gumc::parser::parse_program;

fn body(src: &str) -> Vec<Statement> {
    let text = format!("contract C:\n    fn f():\n        {}\n", src.replace('\n', "\n        "));
    let p = parse_program(&text).unwrap_or_else(|e| panic!("{:?}", e));
    match p.declarations.into_iter().next() {
        Some(Declaration::Class(c)) => c.methods.into_iter().next().unwrap().body.into_iter().map(|s| s.node).collect(),
        d => panic!("{:?}", d),
    }
}

fn expr(src: &str) -> Expr {
    match body(&format!("x = {}", src)).remove(0) {
        Statement::Assignment { value, .. } => value,
        s => panic!("{:?}", s),
    }
}

/// An expression with its grouping written out.
fn shown(e: &Expr) -> String {
    match e {
        Expr::Number(n) => n.clone(),
        Expr::Identifier(n) => n.clone(),
        Expr::StringLiteral(s) => format!("'{}'", s),
        Expr::BinaryOp { left, operator, right } => format!("({} {} {})", shown(left), operator, shown(right)),
        Expr::Neg(x) => format!("-{}", shown(x)),
        Expr::Not(x) => format!("!{}", shown(x)),
        Expr::PropertyAccess { base, property } => format!("{}.{}", shown(base), property),
        Expr::IndexAccess { base, index } => format!("{}[{}]", shown(base), shown(index)),
        Expr::MethodCall { base, method, args } => {
            format!("{}.{}({})", shown(base), method, args.iter().map(shown).collect::<Vec<_>>().join(", "))
        }
        Expr::FnCall { name, args } => {
            format!("{}({})", name, args.iter().map(shown).collect::<Vec<_>>().join(", "))
        }
        Expr::ArrayLiteral(es) => format!("[{}]", es.iter().map(shown).collect::<Vec<_>>().join(", ")),
        e => format!("{:?}", e),
    }
}

#[test]
fn multiplication_binds_tighter_than_addition() {
    assert_eq!(shown(&expr("a + b * c")), "(a + (b * c))");
    assert_eq!(shown(&expr("(a + b) * c")), "((a + b) * c)");
    assert_eq!(shown(&expr("a - b - c")), "((a - b) - c)");
    assert_eq!(shown(&expr("a < b + 1 && c || d")), "(((a < (b + 1)) && c) || d)");
    assert_eq!(shown(&expr("a == b != c")), "((a == b) != c)");
}

#[test]
fn powers_group_to_the_right() {
    assert_eq!(shown(&expr("a ** b ** c")), "(a ** (b ** c))");
    assert_eq!(shown(&expr("2 * a ** b")), "(2 * (a ** b))");
    assert!(is_right_assoc("**") && !is_right_assoc("-"));
    assert!(binop_prec("||") < binop_prec("&&"));
    assert!(binop_prec("&&") < binop_prec("=="));
    assert!(binop_prec("+") < binop_prec("*"));
    assert!(binop_prec("*") < binop_prec("**"));
}

#[test]
fn suffixes_chain() {
    assert_eq!(shown(&expr("C.m[k].field.go(1, x)[2]")), "C.m[k].field.go(1, x)[2]");
    assert_eq!(shown(&expr("-a.b + !c")), "(-a.b + !c)");
    assert_eq!(shown(&expr("[1, 2 + 3]")), "[1, (2 + 3)]");
}

#[test]
fn an_f_string_has_its_segments() {
    match expr("f\"balance: {amt + 1}!\"") {
        Expr::FString(segs) => {
            assert_eq!(segs.len(), 3);
            assert!(matches!(&segs[0], FStringSegment::Literal(t) if t == "balance: "));
            assert!(matches!(&segs[1], FStringSegment::Interp(e) if shown(e) == "(amt + 1)"));
            assert!(matches!(&segs[2], FStringSegment::Literal(t) if t == "!"));
        }
        e => panic!("{:?}", e),
    }
}

#[test]
fn locals_say_whether_they_change() {
    let b = body("u256 a = 1\nmut u256 b = 2\nvar c = 3\nmut var d = 4");
    let flags: Vec<(bool, String)> = b
        .iter()
        .map(|s| match s {
            Statement::VarDecl { is_mut, name, .. } => (*is_mut, name.clone()),
            s => panic!("{:?}", s),
        })
        .collect();
    assert_eq!(
        flags,
        vec![
            (false, "a".to_string()),
            (true, "b".to_string()),
            (false, "c".to_string()),
            (true, "d".to_string())
        ]
    );
}

#[test]
fn a_compound_assignment_is_written_out() {
    match body("x += 2").remove(0) {
        Statement::Assignment { target, value } => {
            assert_eq!(shown(&target), "x");
            assert_eq!(shown(&value), "(x + 2)");
        }
        s => panic!("{:?}", s),
    }
}

#[test]
fn blocks_nest() {
    match body("if a:\n    return\nelse:\n    while b:\n        delete x").remove(0) {
        Statement::IfElse { if_body, else_body, .. } => {
            assert!(matches!(&if_body[0].node, Statement::Return { value: None }));
            assert!(matches!(&else_body.unwrap()[0].node, Statement::WhileLoop { .. }));
        }
        s => panic!("{:?}", s),
    }
    match body("try:\n    a.go()\ncatch:\n    revert E(1)").remove(0) {
        Statement::TryCatch { try_body, catch_body } => {
            assert_eq!((try_body.len(), catch_body.len()), (1, 1));
        }
        s => panic!("{:?}", s),
    }
    match body("match s:\n    Active:\n        return\n    Shape(r):\n        return").remove(0) {
        Statement::Match { arms, .. } => {
            assert_eq!(arms[0].variant, "Active");
            assert_eq!(arms[0].payload_var, None);
            assert_eq!(arms[1].payload_var.as_deref(), Some("r"));
        }
        s => panic!("{:?}", s),
    }
}

#[test]
fn a_contract_has_its_parts() {
    let p = parse_program("use gum.defaults.Account
[A, B]
contract C:
    const u256 k
    transient u256 t
    HashMap(Account, [u8; 4]) m
    export payable fn pay(mut u256 x) -> [u256]:
        return x
    [Test]
    fn check():
        return
").unwrap();
    assert!(matches!(&p.declarations[0], Declaration::Use(u) if u.path == "gum.defaults.Account"));
    match &p.declarations[1] {
        Declaration::Class(c) => {
            assert!(c.is_global);
            assert_eq!(c.parents, vec!["A", "B"]);
            assert!(c.fields[0].is_const && !c.fields[0].is_transient);
            assert!(c.fields[1].is_transient);
            match &c.fields[2].type_def {
                Type::Generic { name, args } => {
                    assert_eq!(name, "HashMap");
                    assert!(matches!(&args[1], Type::FixedArray(_, 4)));
                }
                t => panic!("{:?}", t),
            }
            assert_eq!(c.methods[0].modifiers, vec!["export", "payable"]);
            assert!(c.methods[0].parameters[0].is_mut);
            assert!(matches!(&c.methods[0].return_type, Some(Type::Array(_))));
            assert_eq!(c.methods[1].attributes, vec!["Test"]);
        }
        d => panic!("{:?}", d),
    }
}

#[test]
fn every_broken_part_is_reported() {
    let e = parse_program("contract C:
    fn f():
        x = = 1
    fn g():
        return 1
    fn h():
        ) y
enum 7:
    A
").unwrap_err();
    assert_eq!(e.len(), 3, "{:?}", e);
    for m in &e {
        assert!(m.starts_with("Syntax Error"), "{}", m);
    }
}

#[test]
fn a_bad_indent_is_the_only_error() {
    let e = parse_program("contract C:\n    u256 x\n  u256 y\n").unwrap_err();
    assert_eq!(e.len(), 1);
    assert!(e[0].contains("Indentation error on line 3"), "{:?}", e);
}

#[test]
fn brackets_nest_as_deep_as_they_are_written() {
    let deep = format!("{}x{}", "(".repeat(60), ")".repeat(60));
    assert_eq!(shown(&expr(&deep)), "x");
    let calls = format!("{}x{}", "f(".repeat(12), ")".repeat(12));
    assert_eq!(shown(&expr(&calls)), calls);
}
