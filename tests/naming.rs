use tachfileto_runtime::naming::{FileOrigin, NamingContract};

#[test]
fn api_test_naming_contract_validation() {
    let valid_name = "TFT_a1b2c3d4_page_001_1234567890.tft_cache";
    let (valid, _) = NamingContract::validate(valid_name);
    assert!(valid);

    let invalid_prefix = "cache_a1b2c3d4_page_001_1234567890.tft_cache";
    let (valid, reasons) = NamingContract::validate(invalid_prefix);
    assert!(!valid);
    assert!(reasons.iter().any(|r| r.contains("TFT_")));

    let invalid_suffix = "TFT_a1b2c3d4_page_001_1234567890.tmp";
    let (valid, reasons) = NamingContract::validate(invalid_suffix);
    assert!(!valid);
    assert!(reasons.iter().any(|r| r.contains("tft_cache")));
}

#[test]
fn phase_3_tests_test_naming_contract_validation() {
    assert_eq!(
        NamingContract::classify("TFT_abc123_page_001_1609459200.tft_cache"),
        FileOrigin::Owned
    );
    assert_eq!(
        NamingContract::classify("cache_abc123_page_001.tft_cache"),
        FileOrigin::Alien
    );
    assert_eq!(NamingContract::classify("TFT_abc123.tmp"), FileOrigin::Alien);
    assert_eq!(NamingContract::classify("my_file.pdf"), FileOrigin::Alien);
}

#[test]
fn test_file_origin_classification() {
    let ghost_file = "TFT_abc123_page_001_1609459200.tft_cache";
    assert_eq!(NamingContract::classify(ghost_file), FileOrigin::Owned);

    let user_file = "my_important_document.pdf";
    assert_eq!(NamingContract::classify(user_file), FileOrigin::Alien);
}

#[test]
fn test_ghost_classification() {
    let ghost_file = "TFT_abc123_page_001_1609459200.tft_cache";
    assert_eq!(NamingContract::classify(ghost_file), FileOrigin::Owned);
}

#[test]
fn test_alien_classification() {
    let alien_file = "my_important_document.pdf";
    assert_eq!(NamingContract::classify(alien_file), FileOrigin::Alien);
}

#[test]
fn naming_rejects_too_few_parts() {
    let (valid, reasons) = NamingContract::validate("TFT_tempfile_exec.tft_cache");
    assert!(!valid);
    assert_eq!(reasons, vec!["Invalid format: need at least 3 underscore-separated parts".to_string()]);
}

#[test]
fn naming_rejects_non_numeric_timestamp() {
    let (valid, reasons) = NamingContract::validate("TFT_a_b_c1_d.tft_cache");
    assert!(!valid);
    assert_eq!(reasons, vec!["Timestamp part is not numeric".to_string()]);
}

#[test]
fn naming_accepts_exactly_three_parts() {
    let (valid, reasons) = NamingContract::validate("TFT_x_page_001.tft_cache");
    assert!(valid);
    assert!(reasons.is_empty());
}

#[test]
fn naming_rejects_prefix_and_suffix_alone() {
    assert_eq!(NamingContract::classify("TFT_.tft_cache"), FileOrigin::Alien);
    assert_eq!(NamingContract::classify(""), FileOrigin::Alien);
}

#[test]
fn unicode_numeric_timestamp_is_accepted() {
    assert_eq!(NamingContract::classify("TFT_a_b_\u{663}.tft_cache"), FileOrigin::Owned);
}
