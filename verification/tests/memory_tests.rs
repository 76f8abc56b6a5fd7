use goose_db::memory::{AlignedColumn, NativeBatch};

#[test]
fn test_aligned_column_operations() {
    let mut col = AlignedColumn::from_vec(vec![1.0, 2.0, 3.0]);
    assert_eq!(col.len(), 3);
    assert!(!col.is_empty());

    col.push(4.0);
    assert_eq!(col.len(), 4);
    assert_eq!(col.as_vec()[0], 1.0);
}

#[test]
fn test_native_batch_creation() {
    let batch = NativeBatch::with_capacity(1000);
    assert_eq!(batch.num_rows, 0);
    assert_eq!(batch.quantity.len(), 0);
}

#[test]
fn test_aligned_column_round_trip() {
    let mut col: AlignedColumn<i128> = AlignedColumn::with_capacity(8);
    assert!(col.is_empty());
    col.push(7);
    col.as_vec_mut().push(9);
    assert_eq!(col.clone().into_vec(), vec![7, 9]);
    let empty: AlignedColumn<u8> = AlignedColumn::default();
    assert_eq!(empty.len(), 0);
}
