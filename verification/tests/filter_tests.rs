use chrono::NaiveDate;
use goose_db::filter::{
    apply_date_filter, count_matching_rows, i32_from_le_bytes, row_group_selected,
    FILTER_DATE_DAYS,
};

#[test]
fn test_filter_date() {
    // Verify our date constant
    let date = NaiveDate::from_ymd_opt(1998, 9, 2).unwrap();
    let epoch = NaiveDate::from_ymd_opt(1970, 1, 1).unwrap();
    let days = (date - epoch).num_days() as i32;
    assert_eq!(days, FILTER_DATE_DAYS);
}

#[test]
fn test_date_mask_matches_threshold_comparison() {
    let dates = vec![
        FILTER_DATE_DAYS - 1,
        FILTER_DATE_DAYS,
        FILTER_DATE_DAYS + 1,
        0,
        -5,
        i32::MAX,
    ];
    let mask = apply_date_filter(&dates);
    assert_eq!(mask, vec![true, true, false, true, true, false]);
}

#[test]
fn test_date_mask_handles_empty_input() {
    assert!(apply_date_filter(&Vec::new()).is_empty());
    assert_eq!(count_matching_rows(&Vec::new()), 0);
}

#[test]
fn test_count_matching_rows_counts_passing_dates() {
    let dates = vec![10000, 20000, 10471, 10472, 1];
    assert_eq!(count_matching_rows(&dates), 3);
}

#[test]
fn test_i32_from_le_bytes_decodes_signed_values() {
    assert_eq!(i32_from_le_bytes(&vec![0x47, 0x28, 0x00, 0x00]), 10311);
    assert_eq!(i32_from_le_bytes(&vec![0xFF, 0xFF, 0xFF, 0xFF]), -1);
    assert_eq!(i32_from_le_bytes(&10471i32.to_le_bytes().to_vec()), 10471);
}

#[test]
fn test_row_group_pruning_decision() {
    // No statistic: the group must be scanned.
    assert!(row_group_selected(&None));
    // Minimum below or at the threshold: scanned.
    assert!(row_group_selected(&Some(10471i32.to_le_bytes().to_vec())));
    assert!(row_group_selected(&Some(1i32.to_le_bytes().to_vec())));
    // Minimum already past the threshold: pruned.
    assert!(!row_group_selected(&Some(10472i32.to_le_bytes().to_vec())));
    // A statistic that is not a four-byte day count: scanned.
    assert!(row_group_selected(&Some(vec![1, 2])));
}
