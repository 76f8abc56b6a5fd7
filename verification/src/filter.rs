//! The date predicate: a row-selection mask from a single range
//! comparison against the ship-date column, plus the row-group pruning
//! decision the reader applies to the same predicate.

use vstd::prelude::*;

verus! {

/// The filter threshold as days since the epoch.
pub const FILTER_DATE_DAYS: i32 = 10471;

/// Relies on `arrow::compute::kernels::cmp::lt_eq`: the elementwise `<=`
/// comparison of a primitive array against a same-typed scalar. Per its
/// source the kernel errors only on length or type mismatches, which a
/// one-element scalar of the same primitive type never triggers, and it
/// compares the values buffer entry by entry.
#[verifier::external_body]
fn lt_eq_mask(days: &Vec<i32>, threshold: i32) -> (mask: Vec<bool>)
    ensures
        mask@.len() == days@.len(),
        forall|i: int| 0 <= i < days@.len() ==> mask@[i] == (days@[i] <= threshold),
{
    let column = arrow::array::Date32Array::from(days.clone());
    let scalar = arrow::array::Scalar::new(arrow::array::Date32Array::from(vec![threshold]));
    match arrow::compute::kernels::cmp::lt_eq(&column, &scalar) {
        Ok(m) => (0..m.len()).map(|i| m.value(i)).collect(),
        Err(_) => Vec::new(),
    }
}

/// Evaluate the date predicate over a batch: a boolean per row, true
/// exactly where the ship date is on or before the threshold. Handles
/// zero-length input; pure, no state.
pub fn apply_date_filter(shipdate: &Vec<i32>) -> (mask: Vec<bool>)
    ensures
        mask@.len() == shipdate@.len(),
        forall|i: int| 0 <= i < shipdate@.len() ==> mask@[i] == (shipdate@[i] <= FILTER_DATE_DAYS),
{
    lt_eq_mask(shipdate, FILTER_DATE_DAYS)
}

/// The number of dates among the first `n` that pass the filter.
pub open spec fn count_passing_upto(shipdate: Seq<i32>, n: int) -> int
    decreases n,
{
    if n <= 0 {
        0
    } else {
        count_passing_upto(shipdate, n - 1) + if shipdate[n - 1] <= FILTER_DATE_DAYS {
            1int
        } else {
            0int
        }
    }
}

/// The number of rows of a batch that pass the date filter.
pub fn count_matching_rows(shipdate: &Vec<i32>) -> (count: usize)
    ensures
        count == count_passing_upto(shipdate@, shipdate@.len() as int),
{
    let mask = apply_date_filter(shipdate);
    let n = mask.len();
    let mut count: usize = 0;
    let mut i: usize = 0;
    while i < n
        invariant
            n == mask@.len() == shipdate@.len(),
            forall|j: int| 0 <= j < n ==> mask@[j] == (shipdate@[j] <= FILTER_DATE_DAYS),
            0 <= i <= n,
            count <= i,
            count == count_passing_upto(shipdate@, i as int),
        decreases n - i,
    {
        if mask[i] {
            count = count + 1;
        }
        i = i + 1;
    }
    count
}

/// The signed 32-bit integer held by four little-endian bytes.
pub open spec fn le_i32_of(b: Seq<u8>) -> int {
    let unsigned = b[0] + 256 * b[1] + 65536 * b[2] + 16777216 * b[3];
    if unsigned >= 0x8000_0000 {
        unsigned - 0x1_0000_0000
    } else {
        unsigned
    }
}

/// Decode a signed 32-bit integer from four little-endian bytes.
pub fn i32_from_le_bytes(b: &Vec<u8>) -> (value: i32)
    requires
        b@.len() == 4,
    ensures
        value as int == le_i32_of(b@),
{
    let unsigned: i64 = b[0] as i64 + 256 * (b[1] as i64) + 65536 * (b[2] as i64) + 16777216 * (
    b[3] as i64);
    if unsigned >= 0x8000_0000 {
        (unsigned - 0x1_0000_0000) as i32
    } else {
        unsigned as i32
    }
}

/// Whether a row group may hold rows that pass the date filter, judged
/// from its minimum-value statistic: pruned only when the statistic is
/// present, is a four-byte little-endian day count, and already exceeds
/// the threshold.
pub open spec fn row_group_selected_spec(min_stat: Option<Vec<u8>>) -> bool {
    match min_stat {
        Option::None => true,
        Option::Some(b) => !(b@.len() == 4 && le_i32_of(b@) > FILTER_DATE_DAYS),
    }
}

/// Decide from a row group's minimum-value statistic whether the reader
/// must scan it: a group is skipped only when its recorded minimum ship
/// date already fails the filter, so pruning never drops a passing row.
pub fn row_group_selected(min_stat: &Option<Vec<u8>>) -> (selected: bool)
    ensures
        selected == row_group_selected_spec(*min_stat),
{
    match min_stat {
        Option::None => true,
        Option::Some(b) => {
            if b.len() == 4 {
                i32_from_le_bytes(b) <= FILTER_DATE_DAYS
            } else {
                true
            }
        },
    }
}

} // verus!
