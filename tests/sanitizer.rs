use tachfileto_runtime::sanitizer::SimdSanitizer;

#[test]
fn test_basic_space_collapse() {
    let input = b"Hello     World";
    let expected = b"Hello World";
    assert_eq!(SimdSanitizer::fast_clean(input), expected);
}

#[test]
fn test_control_char_removal() {
    let input = b"Hello\x00\x01\x02World";
    let expected = b"HelloWorld";
    assert_eq!(SimdSanitizer::fast_clean(input), expected);
}

#[test]
fn test_leading_trailing_spaces() {
    let input = b"   Hello World   ";
    let expected = b"Hello World";
    assert_eq!(SimdSanitizer::fast_clean(input), expected);
}

#[test]
fn test_unicode_safety() {
    let input = "Hello 世界".as_bytes();
    let expected = input;
    assert_eq!(SimdSanitizer::fast_clean(input), expected);
}

#[test]
fn test_consistency_across_paths() {
    let test_cases = vec![
        b"Simple text".to_vec(),
        b"Multiple    spaces".to_vec(),
        b"\x00\x01Control\x02chars".to_vec(),
        b"   Leading and trailing   ".to_vec(),
        b"Mixed\x00   spaces".to_vec(),
        "Unicode 世界 test".as_bytes().to_vec(),
    ];

    for case in test_cases {
        assert!(
            SimdSanitizer::verify_consistency(&case),
            "Consistency check failed for: {:?}",
            case
        );
    }
}

#[test]
fn test_small_input_fallback() {
    let small_input = b"Hi";
    let expected = b"Hi";
    assert_eq!(SimdSanitizer::fast_clean(small_input), expected);
}

#[test]
fn test_empty_input() {
    let empty = b"";
    let expected = b"";
    assert_eq!(SimdSanitizer::fast_clean(empty), expected);
}

#[test]
fn only_spaces_and_controls_clean_to_nothing() {
    assert_eq!(SimdSanitizer::scalar_clean(b"  \x01 \x02  "), b"");
}

#[test]
fn long_input_is_cleaned_like_short() {
    let mut input = Vec::new();
    for _ in 0..20 {
        input.extend_from_slice(b"ab  \x07c ");
    }
    let out = SimdSanitizer::fast_clean(&input);
    assert_eq!(out, SimdSanitizer::scalar_clean(&input));
    assert!(out.starts_with(b"ab c ab c"));
    assert!(!out.ends_with(b" "));
}
