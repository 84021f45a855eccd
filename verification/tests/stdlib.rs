use gumc::stdlib::{is_std_path, known_modules, lookup, split_module};

#[test]
fn the_paths_contracts_write_all_split_into_module_and_symbol() {
    for (p, want) in [
        ("gum.defaults.Account", "Account"),
        ("gum.defaults.Block", "Block"),
        ("gum.defaults.String", "String"),
        ("gum.defaults.Message", "Message"),
        ("gum.defaults.crypto", "crypto"),
        ("gum.defaults.vec", "vec"),
    ] {
        let (m, s) = split_module(p).unwrap_or_else(|| panic!("{} did not split", p));
        assert_eq!(m, "gum.defaults", "{}", p);
        assert_eq!(s.as_deref(), Some(want), "{}", p);
    }
}

#[test]
fn a_bare_module_path_has_no_symbol() {
    assert_eq!(
        split_module("gum.defaults"),
        Some(("gum.defaults".to_string(), None))
    );
}

#[test]
fn an_unknown_module_does_not_split() {
    assert!(split_module("gum.nope.Thing").is_none());
    assert!(split_module("gum.defaults.Account.deeper").is_none());
}

#[test]
fn every_embedded_module_is_non_empty() {
    for k in known_modules() {
        let src = lookup(k).unwrap();
        assert!(!src.trim().is_empty(), "{} embedded empty", k);
    }
}

#[test]
fn only_paths_below_gum_go_to_the_standard_library() {
    assert!(is_std_path("gum.defaults"));
    assert!(is_std_path("gum."));
    assert!(!is_std_path("gum"));
    assert!(!is_std_path("lib.gum.x"));
}

#[test]
fn a_module_is_looked_up_whatever_the_case() {
    assert_eq!(lookup("GUM.Defaults"), lookup("gum.defaults"));
    assert_eq!(lookup("gum.other"), None);
    assert_eq!(known_modules(), vec!["gum.defaults"]);
}
