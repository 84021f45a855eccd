use gumc::runner::{
    decode_revert, outcome, outcome_line, revert_reason, summary, test_call, test_names, CallAction,
    Cheats, TestOutcome,
};
use gumc::ast::Declaration;
use gumc::parser::parse_program;

fn error_string(text: &[u8]) -> Vec<u8> {
    let mut v = vec![0x08, 0xc3, 0x79, 0xa0];
    v.extend([0u8; 31]);
    v.push(32);
    v.extend([0u8; 31]);
    v.push(text.len() as u8);
    v.extend_from_slice(text);
    v
}

#[test]
fn a_revert_without_data_has_no_reason() {
    assert_eq!(decode_revert(&[]), "reverted with no reason");
}

#[test]
fn an_assert_string_is_quoted() {
    assert_eq!(decode_revert(&error_string(b"zero deposit")), "\"zero deposit\"");
}

#[test]
fn bytes_that_are_no_text_are_replaced() {
    assert_eq!(decode_revert(&error_string(&[0x61, 0xff, 0x62])), "\"a\u{fffd}b\"");
}

#[test]
fn the_reason_is_the_text_that_was_read() {
    assert_eq!(revert_reason(&error_string(b"xy"), "read"), "\"read\"");
    assert_eq!(revert_reason(&[], "read"), "reverted with no reason");
}

#[test]
fn a_string_that_does_not_fit_is_a_custom_error() {
    let mut v = error_string(b"abc");
    v[67] = 4;
    assert_eq!(decode_revert(&v), "reverted with custom error 0x08c379a0");
    v[60] = 0xff;
    assert_eq!(decode_revert(&v), "reverted with custom error 0x08c379a0");
}

#[test]
fn a_panic_shows_its_code() {
    let mut v = vec![0x4e, 0x48, 0x7b, 0x71];
    v.extend([0u8; 31]);
    v.push(0x11);
    assert_eq!(decode_revert(&v), "Panic(0x11)");
    v[35] = 1;
    assert_eq!(decode_revert(&v), "Panic(0x01)");
}

#[test]
fn a_custom_error_shows_its_selector() {
    assert_eq!(decode_revert(&[0xde, 0xad, 0xbe, 0xef, 1, 2]), "reverted with custom error 0xdeadbeef");
    assert_eq!(decode_revert(&[0xde]), "reverted with custom error 0xde");
}

#[test]
fn a_test_is_called_by_its_selector() {
    // keccak256("transfer()") and keccak256("name()")
    assert_eq!(test_call("name"), vec![0x06, 0xfd, 0xde, 0x03]);
    assert_eq!(test_call("totalSupply"), vec![0x18, 0x16, 0x0d, 0xdd]);
}

#[test]
fn only_marked_functions_are_tests() {
    let p = parse_program("contract T:
    u256 n
    fn helper() -> u256:
        return T.n
    [Test]
    fn first():
        T.n = 1
    [Test]
    fn second():
        T.n = 2
").unwrap();
    match &p.declarations[0] {
        Declaration::Class(c) => assert_eq!(test_names(c), vec!["first", "second"]),
        d => panic!("{:?}", d),
    }
}

#[test]
fn an_outcome_is_one_line() {
    let ok = outcome("a", true, &[]);
    assert_eq!(ok, TestOutcome { name: "a".to_string(), passed: true, reason: None });
    assert_eq!(outcome_line(&ok), "  ok    a");
    let bad = outcome("b", false, &[]);
    assert_eq!(bad.reason.as_deref(), Some("reverted with no reason"));
    assert_eq!(outcome_line(&bad), "  FAIL  b: reverted with no reason");
    assert_eq!(summary(&vec![ok, bad]), "2 tests, 1 passed, 1 failed");
    assert_eq!(summary(&vec![outcome("a", true, &[])]), "1 test, 1 passed, 0 failed");
    assert_eq!(summary(&vec![]), "0 tests, 0 passed, 0 failed");
}

fn vm() -> Vec<u8> {
    vec![
        0x71, 0x09, 0x70, 0x9e, 0xcf, 0xa9, 0x1a, 0x80, 0x62, 0x6f, 0xf3, 0x98, 0x9d, 0x68, 0xf6, 0x7f,
        0x5b, 0x1d, 0xd1, 0x2d,
    ]
}

#[test]
fn the_sender_stays_until_it_is_changed() {
    let mut c = Cheats::new();
    let other = vec![7u8; 20];
    assert_eq!(c.on_call(&other, &[]), CallAction::AsIs);
    let mut data = vec![0x06, 0x44, 0x7d, 0x56];
    data.extend([0u8; 12]);
    data.extend([0xaa; 20]);
    assert_eq!(c.on_call(&vm(), &data), CallAction::Swallow);
    assert_eq!(c.on_call(&other, &[]), CallAction::From(vec![0xaa; 20]));
    // a cheatcode that names nobody
    assert_eq!(c.on_call(&vm(), &[1, 2, 3, 4]), CallAction::Swallow);
    assert_eq!(c.on_call(&other, &[9]), CallAction::From(vec![0xaa; 20]));
    data[35] = 0xbb;
    assert_eq!(c.on_call(&vm(), &data), CallAction::Swallow);
    let mut next = vec![0xaa; 20];
    next[19] = 0xbb;
    assert_eq!(c.on_call(&other, &[]), CallAction::From(next));
}
