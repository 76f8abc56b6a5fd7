//! A vectorized filter-evaluate-aggregate engine for a fixed analytical
//! rollup over columnar batches of order-line records.
//!
//! The engine filters rows by a date threshold, evaluates two derived
//! expressions per row, and folds the selected rows into a fixed six-slot
//! grouped accumulator addressed by a perfect hash of the (flag, status)
//! key pair. Monetary measures are scale-2 decimals carried as integers,
//! so every sum the engine reports is exact; averages are exact rationals.

use vstd::prelude::*;

pub mod aggregator;
pub mod columns;
pub mod expressions;
pub mod filter;
pub mod memory;
pub mod query;

verus! {

/// Largest magnitude accepted for a quantity or price measure
/// (a scale-2 decimal, so ten billion whole units).
pub const MEASURE_BOUND: i128 = 1_000_000_000_000;

/// Largest magnitude accepted for a discount or tax rate
/// (a scale-2 decimal, so rates up to ten thousand to one).
pub const RATE_BOUND: i128 = 1_000_000;

/// A bound on the magnitude of any single row's contribution to any
/// accumulator field; chosen so that `MEASURE_BOUND * (100 + RATE_BOUND)^2`
/// stays below it.
pub const ROW_BOUND: i128 = 2_000_000_000_000_000_000_000_000;

/// Largest row count a single accumulator slot may reach. Together with
/// `ROW_BOUND` this keeps every sum, even after merging all banks,
/// far inside the `i128` range.
pub const MAX_GROUP_COUNT: u64 = 10_000_000_000_000;

/// Largest row count a merged accumulator may reach: the four banks
/// merged together.
pub const MERGED_COUNT_MAX: u64 = 40_000_000_000_000;

/// An error surfaced by the engine. All errors are local and synchronous;
/// a failed call never partially mutates accumulator state.
#[derive(Clone, Copy, PartialEq, Eq, Structural, Debug)]
pub enum EngineError {
    /// Columns handed to one operation have unequal lengths.
    ShapeMismatch,
    /// A measure or rate lies outside the engine's documented bounds.
    ValueOutOfRange,
    /// A decimal column carries a scale the engine does not normalize.
    UnsupportedScale,
}

} // verus!
