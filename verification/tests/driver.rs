use gumc::driver::{bytecode_line, error_report, output_path};

#[test]
fn the_bytecode_follows_its_heading() {
    let out = "Warning: x\n\n======= a.yul (EVM) =======\n\nBinary representation:\n\n  600a\n\nmore\n";
    assert_eq!(bytecode_line(out).unwrap(), "600a");
    assert!(bytecode_line("nothing here\n600a\n").is_none());
    assert!(bytecode_line("Binary representation:\n \n").is_none());
}

#[test]
fn every_contract_has_its_own_file() {
    assert_eq!(output_path("out.bin", "C"), "out_C.bin");
    assert_eq!(output_path("a.bin/out.bin", "C"), "a_C.bin/out_C.bin");
    assert_eq!(output_path("out", "C"), "out_C.bin");
    assert_eq!(output_path("out.binary", "C"), "out.binary_C.bin");
    assert_eq!(output_path("bin", "C"), "bin_C.bin");
}

#[test]
fn errors_are_counted_and_numbered() {
    assert_eq!(error_report("syntax", &vec!["a".to_string()]), "\n1 syntax error found:\n  1. a");
    assert_eq!(
        error_report("semantic", &vec!["a".to_string(), "b".to_string()]),
        "\n2 semantic errors found:\n  1. a\n  2. b"
    );
}
