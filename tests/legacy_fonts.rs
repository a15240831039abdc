use tachfileto_runtime::legacy_fonts::dictionary_match;
use tachfileto_runtime::legacy_fonts::{detect_and_convert, validate_by_dictionary, VietnameseEncoding};

#[test]
fn test_tcvn3_conversion() {
    let input = "C«ng tr×nh x©y dùng";
    let (encoding, output) = detect_and_convert(input);
    assert_eq!(encoding, VietnameseEncoding::Tcvn3);
    assert_eq!(output, "Công trình xây dựng");
}

#[test]
fn test_unknown() {
    let input = "Hello world";
    let (encoding, output) = detect_and_convert(input);
    assert_eq!(encoding, VietnameseEncoding::Unknown);
    assert_eq!(output, "Hello world");
}

#[test]
fn vni_glyphs_are_converted() {
    let (encoding, output) = detect_and_convert("Øèo");
    assert_eq!(encoding, VietnameseEncoding::Vni);
    assert_eq!(output, "Àèo");
}

#[test]
fn empty_text_is_unknown() {
    let (encoding, output) = detect_and_convert("");
    assert_eq!(encoding, VietnameseEncoding::Unknown);
    assert_eq!(output, "");
}

#[test]
fn dictionary_check() {
    assert!(validate_by_dictionary("CÔNG TRÌNH"));
    assert!(!validate_by_dictionary("hello"));
}

#[test]
fn dictionary_match_on_lowered_text() {
    assert!(dictionary_match("hạng mục 3"));
    assert!(!dictionary_match("HẠNG MỤC"));
}
