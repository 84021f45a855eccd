use gumc::indent::preprocess;

#[test]
fn blocks_become_braces() {
    let src = "contract C:\n    u256 x\n\n    export fn f() -> u256:\n        return C.x\n";
    assert_eq!(
        preprocess(src).unwrap(),
        "contract C {\n    u256 x;\n\n    export fn f() -> u256 {\n        return C.x; } }\n"
    );
}

#[test]
fn a_comment_stays_behind_its_line() {
    assert_eq!(
        preprocess("enum E:  // kinds\n    A // one: two\n// done\n").unwrap(),
        "enum E { // kinds\n    A; // one: two\n } // done\n"
    );
    assert_eq!(preprocess("fn f():\n    log(\"a // b\")\n").unwrap(), "fn f() {\n    log(\"a // b\"); }\n");
}

#[test]
fn a_hash_starts_a_comment_too() {
    assert_eq!(preprocess("# demo\nu256 x  # here\n").unwrap(), "// demo\nu256 x; // here\n");
}

#[test]
fn an_attribute_takes_no_semicolon() {
    assert_eq!(
        preprocess("[Base]\nclass D:\n    u256 y\n").unwrap(),
        "[Base]\nclass D {\n    u256 y; }\n"
    );
}

#[test]
fn an_unsafe_block_is_kept_as_written() {
    assert_eq!(
        preprocess("fn f():\n    unsafe:\n        x := add(1, 2)\n        y := 3\n    return\n").unwrap(),
        "fn f() {\n    unsafe {\n        x := add(1, 2)\n        y := 3 }\n    return; }\n"
    );
}

#[test]
fn an_empty_block_is_closed_at_once() {
    assert_eq!(preprocess("class A:\nclass B:\n").unwrap(), "class A { }\nclass B { }\n");
}

#[test]
fn an_indent_that_matches_no_block_is_an_error() {
    assert_eq!(
        preprocess("class A:\n    u256 x\n  u256 y\n").unwrap_err(),
        "Indentation error on line 3: inconsistent indent (got 2, expected 0)"
    );
    assert_eq!(
        preprocess("u256 x\n  u256 y\n").unwrap_err(),
        "Indentation error on line 2: inconsistent indent (got 2, expected 0)"
    );
}

#[test]
fn braces_balance() {
    let out = preprocess("a:\n  b:\n    c:\n      d\n  e:\n    f\n").unwrap();
    assert_eq!(out.matches('{').count(), 4);
    assert_eq!(out.matches('}').count(), 4);
}

#[test]
fn nothing_stays_nothing() {
    assert_eq!(preprocess("").unwrap(), "");
}
