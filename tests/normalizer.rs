use tachfileto_runtime::normalizer::{
    best_match, cmd_normalize_columns, cmd_normalize_descriptions, ColumnType, TerminologyNormalizer,
    FUZZY_THRESHOLD_BITS,
};

#[test]
fn test_normalize_exact_match_nvl() {
    let normalizer = TerminologyNormalizer::new();
    let result = normalizer.normalize("cp nvl");

    assert_eq!(result.standardized, "chi phí nguyên vật liệu");
    assert_eq!(result.category, "vật tư");
    assert_eq!(result.original, "cp nvl");
}

#[test]
fn test_normalize_exact_match_labor() {
    let normalizer = TerminologyNormalizer::new();
    let result = normalizer.normalize("tiền công");

    assert_eq!(result.standardized, "chi phí nhân công");
    assert_eq!(result.category, "nhân công");
}

#[test]
fn test_normalize_fuzzy_match() {
    let normalizer = TerminologyNormalizer::new();
    let result = normalizer.normalize("cp nguyen vat lieu");
    assert_eq!(result.standardized, "chi phí nguyên vật liệu");
    assert_eq!(result.category, "vật tư");
}

#[test]
fn test_normalize_case_insensitive() {
    let normalizer = TerminologyNormalizer::new();

    let result1 = normalizer.normalize("CP NVL");
    let result2 = normalizer.normalize("Cp Nvl");
    let result3 = normalizer.normalize("cp nvl");

    assert_eq!(result1.standardized, result2.standardized);
    assert_eq!(result2.standardized, result3.standardized);
}

#[test]
fn test_normalize_whitespace_trimming() {
    let normalizer = TerminologyNormalizer::new();
    let result = normalizer.normalize("  tiền công  ");
    assert_eq!(result.standardized, "chi phí nhân công");
}

#[test]
fn test_normalize_unknown_term() {
    let normalizer = TerminologyNormalizer::new();
    let result = normalizer.normalize("xyz abc 123");
    assert_eq!(result.standardized, "xyz abc 123");
    assert_eq!(result.category, "khác");
}

#[test]
fn test_normalize_transport() {
    let normalizer = TerminologyNormalizer::new();

    let result1 = normalizer.normalize("vc");
    let result2 = normalizer.normalize("phí vận chuyển");

    assert_eq!(result1.standardized, "vận chuyển");
    assert_eq!(result1.category, "logistics");
    assert_eq!(result2.standardized, "vận chuyển");
    assert_eq!(result2.category, "logistics");
}

#[test]
fn test_cmd_normalize_descriptions_batch() {
    let descriptions = vec!["cp nvl".to_string(), "tiền công".to_string(), "vc".to_string()];

    let result = cmd_normalize_descriptions(descriptions).unwrap();

    assert_eq!(result.len(), 3);
    assert_eq!(result[0].standardized, "chi phí nguyên vật liệu");
    assert_eq!(result[1].standardized, "chi phí nhân công");
    assert_eq!(result[2].standardized, "vận chuyển");
}

#[test]
fn test_jaro_winkler_threshold() {
    let normalizer = TerminologyNormalizer::new();
    let result = normalizer.normalize("cp nhan cong");
    assert_eq!(result.standardized, "chi phí nhân công");
    assert_eq!(result.category, "nhân công");
}

#[test]
fn clean_text_lowercases_and_trims() {
    let normalizer = TerminologyNormalizer::new();
    assert_eq!(normalizer.clean_text("  Tiền CÔNG \t"), "tiền công");
    assert_eq!(normalizer.clean_text("   "), "");
}

#[test]
fn best_match_takes_first_highest_above_threshold() {
    let low = 0.5f64.to_bits();
    let high = 0.9f64.to_bits();
    let higher = 0.95f64.to_bits();
    assert_eq!(best_match(&vec![low, low]), None);
    assert_eq!(best_match(&vec![low, high, higher, higher]), Some(2));
    assert_eq!(best_match(&vec![FUZZY_THRESHOLD_BITS]), None);
    assert_eq!(best_match(&vec![]), None);
}

#[test]
fn standardize_scored_uses_given_scores() {
    let normalizer = TerminologyNormalizer::new();
    let mut scores = vec![0.0f64.to_bits(); 12];
    scores[9] = 0.99f64.to_bits();
    assert_eq!(normalizer.standardize_scored("zz", &scores), "vận chuyển");
    let none = vec![0.0f64.to_bits(); 12];
    assert_eq!(normalizer.standardize_scored("zz", &none), "zz");
    assert_eq!(normalizer.standardize_scored("vc", &none), "vận chuyển");
}

#[test]
fn test_normalize_column_amount() {
    let normalizer = TerminologyNormalizer::new();
    let result = normalizer.normalize_column_name("Thành tiền (VNĐ)");
    assert_eq!(result.normalized_name, "thanh_tien");
    assert_eq!(result.column_type, ColumnType::Amount);
}

#[test]
fn test_normalize_column_calculated() {
    let normalizer = TerminologyNormalizer::new();
    let result = normalizer.normalize_column_name("KL Tính Toán");
    assert_eq!(result.normalized_name, "khoi_luong_tinh_toan");
    assert_eq!(result.column_type, ColumnType::Calculated);
}

#[test]
fn test_normalize_column_measured() {
    let normalizer = TerminologyNormalizer::new();
    let result = normalizer.normalize_column_name("Đo Lường Thực Tế");
    assert_eq!(result.normalized_name, "khoi_luong_thuc_te");
    assert_eq!(result.column_type, ColumnType::Measured);
}

#[test]
fn test_normalize_column_status() {
    let normalizer = TerminologyNormalizer::new();
    let result = normalizer.normalize_column_name("Trạng Thái");
    assert_eq!(result.normalized_name, "trang_thai");
    assert_eq!(result.column_type, ColumnType::Status);
}

#[test]
fn test_normalize_column_other() {
    let normalizer = TerminologyNormalizer::new();
    let result = normalizer.normalize_column_name("Ghi Chú");
    assert_eq!(result.column_type, ColumnType::Other);
    assert!(result.normalized_name.contains("ghi"));
}

#[test]
fn test_cmd_normalize_columns() {
    let columns = vec!["Thành tiền".to_string(), "Tính toán".to_string(), "Status".to_string()];
    let results = cmd_normalize_columns(columns).unwrap();
    assert_eq!(results.len(), 3);
    assert_eq!(results[0].column_type, ColumnType::Amount);
    assert_eq!(results[1].column_type, ColumnType::Calculated);
    assert_eq!(results[2].column_type, ColumnType::Status);
}

#[test]
fn column_key_falls_back_to_snake_case() {
    let normalizer = TerminologyNormalizer::new();
    let result = normalizer.normalize_column_name("  Mã   Vật-Tư ");
    assert_eq!(result.normalized_name, "ma_vat_tu");
    assert_eq!(result.column_type, ColumnType::Other);
    assert_eq!(normalizer.normalize_column_name("STT").normalized_name, "stt");
    assert_eq!(normalizer.normalize_column_name("Đơn giá").normalized_name, "don_gia");
}

#[test]
fn column_from_lowered_classifies_given_text() {
    let normalizer = TerminologyNormalizer::new();
    let r = normalizer.column_from_lowered("X", "don vi tinh");
    assert_eq!(r.normalized_name, "don_vi");
    assert_eq!(r.original_name, "X");
    assert_eq!(normalizer.column_from_lowered("Y", "  ").normalized_name, "");
}
