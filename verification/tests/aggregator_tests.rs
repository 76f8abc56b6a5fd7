use goose_db::aggregator::{hash_key, unhash_key, AggState, Aggregator, QueryResult, Ratio};
use goose_db::EngineError;

fn ratio_to_f64(r: Ratio) -> f64 {
    (r.num as f64 / r.den as f64) / 100.0
}

#[test]
fn test_hash_key() {
    // Test all 6 possible combinations
    assert_eq!(hash_key(b'A', b'F'), 0);
    assert_eq!(hash_key(b'A', b'O'), 1);
    assert_eq!(hash_key(b'N', b'F'), 2);
    assert_eq!(hash_key(b'N', b'O'), 3);
    assert_eq!(hash_key(b'R', b'F'), 4);
    assert_eq!(hash_key(b'R', b'O'), 5);
}

#[test]
fn test_unhash_key() {
    for idx in 0..6 {
        let (flag, status) = unhash_key(idx);
        assert_eq!(hash_key(flag, status), idx);
    }
}

#[test]
fn test_unknown_flag_falls_back_to_slot_zero_family() {
    // The documented policy: an unknown flag byte maps to the slot family
    // of 'A' rather than being dropped or corrupting another slot.
    assert_eq!(hash_key(b'X', b'F'), 0);
    assert_eq!(hash_key(b'X', b'O'), 1);
}

/// A four-row batch, all 'A'/'F', quantities 1..4, price 10, no discount
/// or tax, as scale-2 decimals.
fn simple_batch() -> (Vec<u8>, Vec<u8>, Vec<i128>, Vec<i128>, Vec<i128>, Vec<i128>) {
    (
        vec![b'A'; 4],
        vec![b'F'; 4],
        vec![100, 200, 300, 400],
        vec![1000; 4],
        vec![0; 4],
        vec![0; 4],
    )
}

#[test]
fn test_end_to_end_all_rows_selected() {
    let (flag, status, qty, price, disc, tax) = simple_batch();
    let mut agg = Aggregator::new();
    agg.aggregate_batch(&vec![true; 4], &flag, &status, &qty, &price, &disc, &tax)
        .unwrap();
    let rows = agg.get_results();
    assert_eq!(rows.len(), 1);
    let r = &rows[0];
    assert_eq!(r.returnflag, b'A');
    assert_eq!(r.linestatus, b'F');
    assert_eq!(r.count, 4);
    assert_eq!(r.sum_qty as f64 / 100.0, 10.0);
    assert_eq!(r.sum_base_price as f64 / 100.0, 40.0);
    assert_eq!(r.sum_disc_price as f64 / 10000.0, 40.0);
    assert_eq!(r.sum_charge as f64 / 1000000.0, 40.0);
    assert_eq!(ratio_to_f64(r.avg_qty), 2.5);
    assert_eq!(ratio_to_f64(r.avg_price), 10.0);
    assert_eq!(ratio_to_f64(r.avg_disc), 0.0);
}

#[test]
fn test_end_to_end_masked_rows_dropped() {
    let (flag, status, qty, price, disc, tax) = simple_batch();
    let mut agg = Aggregator::new();
    agg.aggregate_batch(
        &vec![true, false, true, false],
        &flag,
        &status,
        &qty,
        &price,
        &disc,
        &tax,
    )
    .unwrap();
    let rows = agg.get_results();
    assert_eq!(rows.len(), 1);
    assert_eq!(rows[0].count, 2);
    assert_eq!(rows[0].sum_qty as f64 / 100.0, 4.0);
}

#[test]
fn test_end_to_end_two_batches_two_groups_ordered() {
    let mut agg = Aggregator::new();
    agg.aggregate_batch(
        &vec![true; 2],
        &vec![b'A'; 2],
        &vec![b'F'; 2],
        &vec![100, 100],
        &vec![500, 500],
        &vec![0, 0],
        &vec![0, 0],
    )
    .unwrap();
    agg.aggregate_batch(
        &vec![true; 3],
        &vec![b'R'; 3],
        &vec![b'O'; 3],
        &vec![100, 100, 100],
        &vec![500, 500, 500],
        &vec![0, 0, 0],
        &vec![0, 0, 0],
    )
    .unwrap();
    let rows = agg.get_results();
    assert_eq!(rows.len(), 2);
    assert_eq!((rows[0].returnflag, rows[0].linestatus), (b'A', b'F'));
    assert_eq!((rows[1].returnflag, rows[1].linestatus), (b'R', b'O'));
    assert_eq!(rows[0].count, 2);
    assert_eq!(rows[1].count, 3);
}

#[test]
fn test_all_false_mask_leaves_accumulators_unchanged() {
    let (flag, status, qty, price, disc, tax) = simple_batch();
    let mut agg = Aggregator::new();
    agg.aggregate_batch(&vec![false; 4], &flag, &status, &qty, &price, &disc, &tax)
        .unwrap();
    for state in agg.states.iter() {
        assert_eq!(*state, AggState::zeroed());
    }
    assert!(agg.get_results().is_empty());
}

#[test]
fn test_finalize_twice_returns_identical_rows() {
    let (flag, status, qty, price, disc, tax) = simple_batch();
    let mut agg = Aggregator::new();
    agg.aggregate_batch(&vec![true; 4], &flag, &status, &qty, &price, &disc, &tax)
        .unwrap();
    let first: Vec<QueryResult> = agg.get_results();
    let second: Vec<QueryResult> = agg.get_results();
    assert_eq!(first, second);
}

#[test]
fn test_batch_split_does_not_change_totals() {
    let flag: Vec<u8> = vec![b'A', b'N', b'R', b'A', b'N', b'R', b'A', b'N'];
    let status: Vec<u8> = vec![b'F', b'O', b'F', b'O', b'F', b'O', b'F', b'O'];
    let qty: Vec<i128> = vec![100, 200, 300, 400, 500, 600, 700, 800];
    let price: Vec<i128> = vec![1000, 1100, 1200, 1300, 1400, 1500, 1600, 1700];
    let disc: Vec<i128> = vec![0, 5, 10, 0, 5, 10, 0, 5];
    let tax: Vec<i128> = vec![0, 2, 4, 6, 0, 2, 4, 6];

    let mut serial = Aggregator::new();
    serial
        .aggregate_batch(&vec![true; 8], &flag, &status, &qty, &price, &disc, &tax)
        .unwrap();

    let mut split = Aggregator::new();
    for (lo, hi) in [(0usize, 3usize), (3, 5), (5, 8)] {
        split
            .aggregate_batch(
                &vec![true; hi - lo],
                &flag[lo..hi].to_vec(),
                &status[lo..hi].to_vec(),
                &qty[lo..hi].to_vec(),
                &price[lo..hi].to_vec(),
                &disc[lo..hi].to_vec(),
                &tax[lo..hi].to_vec(),
            )
            .unwrap();
    }
    assert_eq!(serial.get_results(), split.get_results());
}

#[test]
fn test_results_strictly_ordered_without_duplicate_keys() {
    let mut agg = Aggregator::new();
    // Feed the six groups in scattered order.
    let flag: Vec<u8> = vec![b'R', b'A', b'N', b'R', b'A', b'N'];
    let status: Vec<u8> = vec![b'O', b'F', b'O', b'F', b'O', b'F'];
    let ones: Vec<i128> = vec![100; 6];
    let zeros: Vec<i128> = vec![0; 6];
    agg.aggregate_batch(&vec![true; 6], &flag, &status, &ones, &ones, &zeros, &zeros)
        .unwrap();
    let rows = agg.get_results();
    assert_eq!(rows.len(), 6);
    for pair in rows.windows(2) {
        let a = (pair[0].returnflag, pair[0].linestatus);
        let b = (pair[1].returnflag, pair[1].linestatus);
        assert!(a < b);
    }
}

#[test]
fn test_shape_mismatch_rejected_without_mutation() {
    let mut agg = Aggregator::new();
    let r = agg.aggregate_batch(
        &vec![true; 2],
        &vec![b'A'; 3],
        &vec![b'F'; 2],
        &vec![100; 2],
        &vec![100; 2],
        &vec![0; 2],
        &vec![0; 2],
    );
    assert_eq!(r, Err(EngineError::ShapeMismatch));
    assert!(agg.get_results().is_empty());
}

#[test]
fn test_out_of_range_value_rejected_without_mutation() {
    let mut agg = Aggregator::new();
    let r = agg.aggregate_batch(
        &vec![true; 1],
        &vec![b'A'],
        &vec![b'F'],
        &vec![2_000_000_000_000],
        &vec![100],
        &vec![0],
        &vec![0],
    );
    assert_eq!(r, Err(EngineError::ValueOutOfRange));
    assert!(agg.get_results().is_empty());
}

#[test]
fn test_average_of_empty_group_is_exactly_zero() {
    let empty = AggState::zeroed();
    assert_eq!(empty.avg_qty(), Ratio { num: 0, den: 1 });
    assert_eq!(ratio_to_f64(empty.avg_qty()), 0.0);
    assert_eq!(ratio_to_f64(empty.avg_price()), 0.0);
    assert_eq!(ratio_to_f64(empty.avg_disc()), 0.0);
}

#[test]
fn test_average_is_exact_ratio_of_sum_and_count() {
    let mut agg = Aggregator::new();
    agg.aggregate_batch(
        &vec![true; 3],
        &vec![b'N'; 3],
        &vec![b'F'; 3],
        &vec![100, 200, 400],
        &vec![1000, 2000, 4000],
        &vec![10, 20, 30],
        &vec![0, 0, 0],
    )
    .unwrap();
    let rows = agg.get_results();
    assert_eq!(rows.len(), 1);
    let r = &rows[0];
    assert_eq!(r.avg_qty, Ratio { num: 700, den: 3 });
    assert_eq!(r.avg_price, Ratio { num: 7000, den: 3 });
    assert_eq!(r.avg_disc, Ratio { num: 60, den: 3 });
    // sum / count under IEEE-754 division, exactly as the ratio converts.
    assert_eq!(ratio_to_f64(r.avg_disc), 0.2);
}

#[test]
fn test_merge_sums_all_fields() {
    let mut a = AggState {
        sum_disc_price: 10,
        sum_charge: 20,
        count: 2,
        sum_qty: 30,
        sum_base_price: 40,
        sum_discount: 50,
    };
    let b = AggState {
        sum_disc_price: 1,
        sum_charge: 2,
        count: 1,
        sum_qty: 3,
        sum_base_price: 4,
        sum_discount: 5,
    };
    a.merge(&b);
    assert_eq!(a.count, 3);
    assert_eq!(a.sum_disc_price, 11);
    assert_eq!(a.sum_charge, 22);
    assert_eq!(a.sum_qty, 33);
    assert_eq!(a.sum_base_price, 44);
    assert_eq!(a.sum_discount, 55);
    assert!(!a.is_empty());
    assert!(AggState::zeroed().is_empty());
}
