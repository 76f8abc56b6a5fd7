//! Elementwise evaluation of the two derived expressions.
//!
//! For each row, `disc_price = extendedprice * (1 - discount)` and
//! `charge = disc_price * (1 + tax)`. Measures and rates are scale-2
//! decimals carried as integers, so the products are exact: `disc_price`
//! is a scale-4 decimal and `charge` a scale-6 decimal. Evaluating a whole
//! column ahead of aggregation and evaluating row by row inside the
//! aggregation loop are interchangeable: both compute `disc_price_of` and
//! `charge_of`, so they agree on every row.

use vstd::prelude::*;

use crate::EngineError;
use crate::MEASURE_BOUND;
use crate::RATE_BOUND;
use crate::ROW_BOUND;

verus! {

/// The derived price of one row: `price * (100 - discount)`, a scale-4
/// decimal when `price` and `discount` are scale-2 decimals.
pub open spec fn disc_price_of(price: int, discount: int) -> int {
    price * (100 - discount)
}

/// The derived charge of one row: `price * (100 - discount) * (100 + tax)`,
/// a scale-6 decimal when the three inputs are scale-2 decimals.
pub open spec fn charge_of(price: int, discount: int, tax: int) -> int {
    disc_price_of(price, discount) * (100 + tax)
}

/// Whether one row's measures lie inside the engine's documented bounds.
pub open spec fn row_values_in_bounds(price: i128, discount: i128, tax: i128) -> bool {
    &&& -MEASURE_BOUND <= price <= MEASURE_BOUND
    &&& -RATE_BOUND <= discount <= RATE_BOUND
    &&& -RATE_BOUND <= tax <= RATE_BOUND
}

/// The product of two bounded factors is bounded by the product of the
/// bounds.
pub proof fn lemma_abs_mul(a: int, b: int, bound_a: int, bound_b: int)
    by (nonlinear_arith)
    requires
        -bound_a <= a <= bound_a,
        -bound_b <= b <= bound_b,
        0 <= bound_a,
        0 <= bound_b,
    ensures
        -(bound_a * bound_b) <= a * b <= bound_a * bound_b,
{
}

/// Both derived expressions of a row with in-bounds inputs are bounded by
/// `ROW_BOUND`.
pub proof fn lemma_derived_bounds(price: int, discount: int, tax: int)
    requires
        -MEASURE_BOUND <= price <= MEASURE_BOUND,
        -RATE_BOUND <= discount <= RATE_BOUND,
        -RATE_BOUND <= tax <= RATE_BOUND,
    ensures
        -ROW_BOUND <= disc_price_of(price, discount) <= ROW_BOUND,
        -ROW_BOUND <= charge_of(price, discount, tax) <= ROW_BOUND,
{
    lemma_abs_mul(price, 100 - discount, MEASURE_BOUND as int, 100 + RATE_BOUND as int);
    lemma_abs_mul(
        disc_price_of(price, discount),
        100 + tax,
        MEASURE_BOUND as int * (100 + RATE_BOUND as int),
        100 + RATE_BOUND as int,
    );
    assert(MEASURE_BOUND as int * (100 + RATE_BOUND as int) <= ROW_BOUND) by (nonlinear_arith);
    assert(MEASURE_BOUND as int * (100 + RATE_BOUND as int) * (100 + RATE_BOUND as int)
        <= ROW_BOUND) by (nonlinear_arith);
}

/// Evaluate the two derived expressions of a single row. This is the
/// scalar strategy: the aggregation loop may call it inline instead of
/// materializing whole derived columns, and both strategies return the
/// same values because both are pinned to `disc_price_of` and `charge_of`.
pub fn derived_values(price: i128, discount: i128, tax: i128) -> (r: (i128, i128))
    requires
        row_values_in_bounds(price, discount, tax),
    ensures
        r.0 == disc_price_of(price as int, discount as int),
        r.1 == charge_of(price as int, discount as int, tax as int),
        -ROW_BOUND <= r.0 <= ROW_BOUND,
        -ROW_BOUND <= r.1 <= ROW_BOUND,
{
    proof {
        lemma_derived_bounds(price as int, discount as int, tax as int);
    }
    let disc_price: i128 = price * (100 - discount);
    let charge: i128 = disc_price * (100 + tax);
    (disc_price, charge)
}

/// The two derived columns of a batch, parallel to the input columns:
/// `disc_price` at scale 4 and `charge` at scale 6.
pub struct ComputedExpressions {
    pub disc_price: Vec<i128>,
    pub charge: Vec<i128>,
}

/// Evaluate the derived expressions for every row of a batch.
///
/// Returns `ShapeMismatch` exactly when the three columns disagree in
/// length, `ValueOutOfRange` exactly when the shapes agree but some row
/// carries a measure or rate outside the documented bounds, and otherwise
/// the two derived columns, each value pinned to its defining expression.
pub fn evaluate_expressions(price: &Vec<i128>, discount: &Vec<i128>, tax: &Vec<i128>) -> (r:
    Result<ComputedExpressions, EngineError>)
    ensures
        r is Err ==> r == Err::<ComputedExpressions, EngineError>(expressions_error(
            price@,
            discount@,
            tax@,
        )),
        r is Ok <==> columns_well_formed(price@, discount@, tax@),
        r matches Ok(c) ==> {
            &&& c.disc_price@.len() == price@.len()
            &&& c.charge@.len() == price@.len()
            &&& forall|i: int|
                0 <= i < price@.len() ==> c.disc_price@[i] == disc_price_of(
                    price@[i] as int,
                    discount@[i] as int,
                )
            &&& forall|i: int|
                0 <= i < price@.len() ==> c.charge@[i] == charge_of(
                    price@[i] as int,
                    discount@[i] as int,
                    tax@[i] as int,
                )
        },
{
    let n = price.len();
    if discount.len() != n || tax.len() != n {
        return Err(EngineError::ShapeMismatch);
    }
    let mut i: usize = 0;
    while i < n
        invariant
            n == price@.len() == discount@.len() == tax@.len(),
            0 <= i <= n,
            forall|j: int|
                0 <= j < i ==> row_values_in_bounds(price@[j], discount@[j], tax@[j]),
        decreases n - i,
    {
        if price[i] > MEASURE_BOUND || price[i] < -MEASURE_BOUND || discount[i] > RATE_BOUND
            || discount[i] < -RATE_BOUND || tax[i] > RATE_BOUND || tax[i] < -RATE_BOUND {
            return Err(EngineError::ValueOutOfRange);
        }
        i = i + 1;
    }
    let mut disc_price: Vec<i128> = Vec::with_capacity(n);
    let mut charge: Vec<i128> = Vec::with_capacity(n);
    let mut i: usize = 0;
    while i < n
        invariant
            n == price@.len() == discount@.len() == tax@.len(),
            0 <= i <= n,
            forall|j: int|
                0 <= j < n ==> row_values_in_bounds(price@[j], discount@[j], tax@[j]),
            disc_price@.len() == i,
            charge@.len() == i,
            forall|j: int|
                0 <= j < i ==> disc_price@[j] == disc_price_of(
                    price@[j] as int,
                    discount@[j] as int,
                ),
            forall|j: int|
                0 <= j < i ==> charge@[j] == charge_of(
                    price@[j] as int,
                    discount@[j] as int,
                    tax@[j] as int,
                ),
        decreases n - i,
    {
        let (dp, ch) = derived_values(price[i], discount[i], tax[i]);
        disc_price.push(dp);
        charge.push(ch);
        i = i + 1;
    }
    Ok(ComputedExpressions { disc_price, charge })
}

/// Whether three parallel columns agree in length and every row is in
/// bounds; exactly the inputs on which expression evaluation succeeds.
pub open spec fn columns_well_formed(price: Seq<i128>, discount: Seq<i128>, tax: Seq<i128>) -> bool {
    &&& discount.len() == price.len()
    &&& tax.len() == price.len()
    &&& forall|i: int| 0 <= i < price.len() ==> row_values_in_bounds(price[i], discount[i], tax[i])
}

/// The error expression evaluation reports for ill-formed columns: a shape
/// mismatch takes precedence over an out-of-range value.
pub open spec fn expressions_error(price: Seq<i128>, discount: Seq<i128>, tax: Seq<i128>) -> EngineError {
    if discount.len() != price.len() || tax.len() != price.len() {
        EngineError::ShapeMismatch
    } else {
        EngineError::ValueOutOfRange
    }
}

} // verus!
