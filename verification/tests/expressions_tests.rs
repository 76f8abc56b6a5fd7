use goose_db::expressions::{derived_values, evaluate_expressions};
use goose_db::EngineError;

#[test]
fn test_discount_tax_derivation() {
    // price 100.00, discount 0.10, tax 0.05 as scale-2 decimals.
    let exprs = evaluate_expressions(&vec![10000], &vec![10], &vec![5]).unwrap();
    assert_eq!(exprs.disc_price, vec![900000]);
    assert_eq!(exprs.charge, vec![94500000]);
    // Exactly 90.0 and 94.5 once brought back to whole units.
    assert_eq!(exprs.disc_price[0] as f64 / 10000.0, 90.0);
    assert_eq!(exprs.charge[0] as f64 / 1000000.0, 94.5);
}

#[test]
fn test_vectorized_and_scalar_strategies_agree() {
    let price: Vec<i128> = vec![10000, 2500, 999, 0];
    let discount: Vec<i128> = vec![10, 0, 100, 50];
    let tax: Vec<i128> = vec![5, 8, 0, 100];
    let exprs = evaluate_expressions(&price, &discount, &tax).unwrap();
    for i in 0..price.len() {
        let (dp, ch) = derived_values(price[i], discount[i], tax[i]);
        assert_eq!(exprs.disc_price[i], dp);
        assert_eq!(exprs.charge[i], ch);
        assert_eq!(dp, price[i] * (100 - discount[i]));
        assert_eq!(ch, dp * (100 + tax[i]));
    }
}

#[test]
fn test_expressions_shape_mismatch() {
    let r = evaluate_expressions(&vec![100, 200], &vec![0], &vec![0, 0]);
    assert_eq!(r.err(), Some(EngineError::ShapeMismatch));
}

#[test]
fn test_expressions_value_out_of_range() {
    let r = evaluate_expressions(&vec![100], &vec![2_000_000], &vec![0]);
    assert_eq!(r.err(), Some(EngineError::ValueOutOfRange));
}

#[test]
fn test_empty_columns_give_empty_expressions() {
    let exprs = evaluate_expressions(&Vec::new(), &Vec::new(), &Vec::new()).unwrap();
    assert!(exprs.disc_price.is_empty());
    assert!(exprs.charge.is_empty());
}
