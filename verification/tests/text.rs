use gumc::names::{NameMap, NameSet, SortedMap};
use gumc::text::{
    cat3, cut, dec_mul, dec_sum, dec_text, dec_u128, hex_text, indent, join, less, lines, lower,
    parse_u128, parse_usize, repeat, starts_with, trim,
};

#[test]
fn numbers_are_written_and_read() {
    assert_eq!(dec_u128(0), "0");
    assert_eq!(dec_u128(u128::MAX), "340282366920938463463374607431768211455");
    assert_eq!(dec_text(305), "305");
    assert_eq!(dec_mul(usize::MAX, 2), "36893488147419103230");
    assert_eq!(dec_sum(usize::MAX, 1), "18446744073709551616");
    assert_eq!(parse_u128("340282366920938463463374607431768211455"), Some(u128::MAX));
    assert_eq!(parse_u128("340282366920938463463374607431768211456"), None);
    assert_eq!(parse_usize("+12"), Some(12));
    assert_eq!(parse_usize("+"), None);
    assert_eq!(parse_usize(""), None);
    assert_eq!(parse_usize("1_0"), None);
}

#[test]
fn bytes_are_written_in_hex() {
    assert_eq!(hex_text(&[0x00, 0x0f, 0xa9, 0xff]), "000fa9ff");
    assert_eq!(hex_text(&[]), "");
}

#[test]
fn text_is_cut_and_joined() {
    assert_eq!(cat3("a", "", "b"), "ab");
    assert_eq!(join(&vec!["a".to_string(), "b".to_string()], ", "), "a, b");
    assert_eq!(join(&vec![], ", "), "");
    assert_eq!(cut("a.b..c...d", '.'), vec!["a.b", "c", ".d"]);
    assert_eq!(lines("a\r\nb\n\nc"), vec!["a", "b", "", "c"]);
    assert_eq!(lines("a\n"), vec!["a"]);
    assert_eq!(indent("  ", "a\nb"), "  a\n  b\n");
    assert_eq!(repeat("ab", 3), "ababab");
    assert_eq!(trim(" \t a b \n"), "a b");
    assert_eq!(lower("gum.Defaults"), "gum.defaults");
    assert!(starts_with("object", "obj") && !starts_with("ob", "obj"));
    assert!(less("a", "b") && less("a", "aa") && !less("b", "a") && !less("a", "a"));
}

#[test]
fn a_map_of_names_keeps_the_last_value() {
    let mut m: NameMap<u8> = NameMap::new();
    m.insert("b".to_string(), 1);
    m.insert("a".to_string(), 2);
    m.insert("b".to_string(), 3);
    assert_eq!(m.len(), 2);
    assert_eq!(m.get("b"), Some(&3));
    assert_eq!(m.get("c"), None);
    assert!(m.has("a") && !m.has("c"));
}

#[test]
fn a_sorted_map_walks_in_order() {
    let mut m: SortedMap<u8> = SortedMap::new();
    for (k, v) in [("b", 1), ("a", 2), ("c", 3), ("b", 4)] {
        m.insert(k.to_string(), v);
    }
    assert_eq!(m.len(), 3);
    assert_eq!((m.key_at(0).as_str(), *m.value_at(0)), ("a", 2));
    assert_eq!((m.key_at(1).as_str(), *m.value_at(1)), ("b", 4));
    assert_eq!(m.drain(), vec![2, 4, 3]);
    assert_eq!(m.len(), 0);
}

#[test]
fn a_set_says_what_is_new() {
    let mut s = NameSet::new();
    assert!(s.insert("a".to_string()));
    assert!(!s.insert("a".to_string()));
    assert!(s.contains("a") && !s.contains("b"));
}
