//! The per-batch pipeline: evaluate the date predicate, then fold the
//! selected rows into the aggregator with the derived expressions computed
//! inline. The caller pulls batches from its source, normalizes the
//! decimal columns to scale 2, and hands the plain columns here; reading
//! and reporting stay outside the engine.

use vstd::prelude::*;

use crate::aggregator::aggregate_error;
use crate::aggregator::bank_total_upto;
use crate::aggregator::batch_view;
use crate::aggregator::engine_asgn;
use crate::aggregator::totals_of;
use crate::aggregator::add_totals;
use crate::aggregator::Aggregator;
use crate::aggregator::BatchView;
use crate::filter::apply_date_filter;
use crate::filter::FILTER_DATE_DAYS;
use crate::memory::NativeBatch;
use crate::EngineError;

verus! {

/// The view of a batch whose selection mask is the date predicate: a row
/// is selected exactly when its ship date is on or before the threshold.
pub open spec fn date_filtered_view(
    shipdate: Seq<i32>,
    flag: Seq<u8>,
    status: Seq<u8>,
    qty: Seq<i128>,
    price: Seq<i128>,
    disc: Seq<i128>,
    tax: Seq<i128>,
) -> BatchView {
    BatchView {
        mask: Seq::new(shipdate.len(), |i: int| shipdate[i] <= FILTER_DATE_DAYS),
        flag,
        status,
        qty,
        price,
        disc,
        tax,
    }
}

/// The view of a native batch under the date predicate.
pub open spec fn native_batch_view(batch: NativeBatch) -> BatchView {
    date_filtered_view(
        batch.shipdate@,
        batch.returnflag@,
        batch.linestatus@,
        batch.quantity@,
        batch.extendedprice@,
        batch.discount@,
        batch.tax@,
    )
}

/// Drive one batch through the pipeline: mask the rows by the date
/// predicate and fold the selected rows into the aggregator, evaluating
/// the derived expressions row by row.
///
/// The outcome is exactly that of `aggregate_batch` under the date mask:
/// a shape or bounds error leaves the accumulator untouched, and on
/// success every slot grows by precisely the contribution of its rows.
pub fn process_batch(agg: &mut Aggregator, batch: &NativeBatch) -> (r: Result<(), EngineError>)
    requires
        old(agg).wf(),
        old(agg).headroom(batch.shipdate@.len() as int),
    ensures
        final(agg).wf(),
        ({
            let v = native_batch_view(*batch);
            &&& (r is Ok <==> v.consistent() && v.in_bounds())
            &&& (r is Err ==> r == Err::<(), EngineError>(aggregate_error(v))
                && final(agg).states@ == old(agg).states@)
            &&& (r is Ok ==> forall|bank: int, g: int|
                0 <= bank < 4 && 0 <= g < 6 ==> totals_of(#[trigger] final(agg).state(bank, g))
                    == add_totals(
                    totals_of(old(agg).state(bank, g)),
                    bank_total_upto(v, engine_asgn(v.mask.len() as int), bank, g, v.mask.len() as int),
                ))
        }),
{
    let ghost v = native_batch_view(*batch);
    let mask = apply_date_filter(batch.shipdate.as_vec());
    proof {
        assert(mask@ =~= v.mask);
        assert(batch_view(
            mask@,
            batch.returnflag@,
            batch.linestatus@,
            batch.quantity@,
            batch.extendedprice@,
            batch.discount@,
            batch.tax@,
        ) == v);
    }
    agg.aggregate_batch(
        &mask,
        batch.returnflag.as_vec(),
        batch.linestatus.as_vec(),
        batch.quantity.as_vec(),
        batch.extendedprice.as_vec(),
        batch.discount.as_vec(),
        batch.tax.as_vec(),
    )
}

} // verus!
