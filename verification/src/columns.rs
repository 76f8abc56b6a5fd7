//! Ingestion of decimal measure columns.
//!
//! The batch source stores measures as fixed-point decimals: a raw 128-bit
//! integer per row plus one scale for the column. The engine works at
//! scale 2, so a column is normalized by multiplying every raw value by
//! ten to the power that brings it to scale 2. The normalization is exact;
//! columns whose scale exceeds 2 are rejected rather than rounded.

use vstd::prelude::*;

use crate::EngineError;
use crate::MEASURE_BOUND;

verus! {

/// Ten to a small non-negative power.
pub open spec fn pow10(e: int) -> int
    decreases e,
{
    if e <= 0 {
        1
    } else {
        10 * pow10(e - 1)
    }
}

/// Whether a decimal column can be normalized to scale 2: its scale is in
/// [0, 2] and every raw value is within the measure bound.
pub open spec fn decimal_column_ok(raw: Seq<i128>, scale: int) -> bool {
    &&& 0 <= scale <= 2
    &&& forall|i: int|
        0 <= i < raw.len() ==> -MEASURE_BOUND <= #[trigger] raw[i] <= MEASURE_BOUND
}

/// The error reported for a decimal column that cannot be normalized: an
/// out-of-range scale takes precedence over an out-of-range value.
pub open spec fn decimal_column_error(raw: Seq<i128>, scale: int) -> EngineError {
    if !(0 <= scale <= 2) {
        EngineError::UnsupportedScale
    } else {
        EngineError::ValueOutOfRange
    }
}

/// The column's values normalized to scale 2.
pub open spec fn scaled_values(raw: Seq<i128>, scale: int) -> Seq<i128> {
    Seq::new(raw.len(), |i: int| (raw[i] * pow10(2 - scale)) as i128)
}

/// Normalize one decimal measure column to scale 2.
///
/// Returns `UnsupportedScale` exactly when `scale` lies outside [0, 2],
/// `ValueOutOfRange` exactly when the scale is fine but some raw value
/// exceeds the measure bound, and otherwise the raw values each multiplied
/// by ten to the power that brings them to scale 2.
pub fn decimal_column_scaled(raw: &Vec<i128>, scale: i8) -> (r: Result<Vec<i128>, EngineError>)
    ensures
        r is Ok <==> decimal_column_ok(raw@, scale as int),
        r is Err ==> r == Err::<Vec<i128>, EngineError>(decimal_column_error(raw@, scale as int)),
        r matches Ok(vals) ==> vals@ == scaled_values(raw@, scale as int),
{
    if scale < 0 || scale > 2 {
        return Err(EngineError::UnsupportedScale);
    }
    let factor: i128 = if scale == 2 {
        1
    } else if scale == 1 {
        10
    } else {
        100
    };
    proof {
        assert(pow10(0) == 1);
        assert(pow10(1) == 10);
        assert(pow10(2) == 100);
        assert(factor == pow10(2 - scale as int));
    }
    let n = raw.len();
    let mut out: Vec<i128> = Vec::with_capacity(n);
    let mut i: usize = 0;
    while i < n
        invariant
            n == raw@.len(),
            0 <= i <= n,
            0 <= scale <= 2,
            1 <= factor <= 100,
            factor == pow10(2 - scale as int),
            out@.len() == i,
            forall|j: int| 0 <= j < i ==> -MEASURE_BOUND <= #[trigger] raw@[j] <= MEASURE_BOUND,
            forall|j: int| 0 <= j < i ==> out@[j] == scaled_values(raw@, scale as int)[j],
        decreases n - i,
    {
        let value = raw[i];
        if value > MEASURE_BOUND || value < -MEASURE_BOUND {
            assert(!decimal_column_ok(raw@, scale as int));
            return Err(EngineError::ValueOutOfRange);
        }
        proof {
            crate::expressions::lemma_abs_mul(
                value as int,
                factor as int,
                MEASURE_BOUND as int,
                100,
            );
        }
        out.push(value * factor);
        i = i + 1;
    }
    proof {
        assert(out@ =~= scaled_values(raw@, scale as int));
    }
    Ok(out)
}

} // verus!
