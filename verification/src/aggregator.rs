//! Perfect-hash array aggregation over the six (returnflag, linestatus)
//! group keys.
//!
//! A fixed six-slot array replaces a general hash table, since the key
//! domain is known statically: returnflag is one of `A`, `N`, `R` and
//! linestatus is one of `F`, `O`. Rows are spread over four independent
//! accumulator banks to break the read-modify-write dependency chain of a
//! single shared accumulator; the banks are merged element-wise before
//! results are read, and the per-group totals are independent of how rows
//! were assigned to banks.

use vstd::prelude::*;

use crate::expressions::charge_of;
use crate::expressions::disc_price_of;
use crate::EngineError;
use crate::MAX_GROUP_COUNT;
use crate::MEASURE_BOUND;
use crate::MERGED_COUNT_MAX;
use crate::RATE_BOUND;
use crate::ROW_BOUND;

verus! {

/// The flag byte for returned items.
pub const FLAG_A: u8 = 65;

/// The flag byte for items neither returned nor refused.
pub const FLAG_N: u8 = 78;

/// The flag byte for refused items.
pub const FLAG_R: u8 = 82;

/// The status byte for finalized lines.
pub const STATUS_F: u8 = 70;

/// The status byte for open lines.
pub const STATUS_O: u8 = 79;

/// The byte reported when a slot index outside [0, 6) is unhashed.
pub const FLAG_UNKNOWN: u8 = 63;

/// The dense slot index of a (flag, status) key pair.
///
/// Flag bytes outside the known alphabet fall back deterministically to
/// the slot family of `FLAG_A`; status bytes other than `STATUS_O` are
/// treated as `STATUS_F`. The fallback is a documented policy choice:
/// unknown keys are never dropped silently, they land in a defined slot.
pub open spec fn hash_spec(flag: u8, status: u8) -> int {
    let flag_idx: int = if flag == FLAG_A {
        0
    } else if flag == FLAG_N {
        1
    } else if flag == FLAG_R {
        2
    } else {
        0
    };
    let status_idx: int = if status == STATUS_O {
        1
    } else {
        0
    };
    flag_idx * 2 + status_idx
}

/// The flag byte of a dense slot index.
pub open spec fn unhash_flag_spec(idx: int) -> u8 {
    if 0 <= idx < 2 {
        FLAG_A
    } else if 2 <= idx < 4 {
        FLAG_N
    } else if 4 <= idx < 6 {
        FLAG_R
    } else {
        FLAG_UNKNOWN
    }
}

/// The status byte of a dense slot index.
pub open spec fn unhash_status_spec(idx: int) -> u8 {
    if idx % 2 == 1 {
        STATUS_O
    } else {
        STATUS_F
    }
}

/// Whether a flag byte belongs to the known alphabet.
pub open spec fn valid_flag(flag: u8) -> bool {
    flag == FLAG_A || flag == FLAG_N || flag == FLAG_R
}

/// Whether a status byte belongs to the known alphabet.
pub open spec fn valid_status(status: u8) -> bool {
    status == STATUS_F || status == STATUS_O
}

/// Perfect hash from a (returnflag, linestatus) byte pair to a slot
/// index in [0, 6).
pub fn hash_key(flag: u8, status: u8) -> (idx: usize)
    ensures
        idx == hash_spec(flag, status),
        idx < 6,
{
    let flag_idx: usize = if flag == FLAG_N {
        1
    } else if flag == FLAG_R {
        2
    } else {
        0
    };
    let status_idx: usize = if status == STATUS_O {
        1
    } else {
        0
    };
    flag_idx * 2 + status_idx
}

/// The (returnflag, linestatus) byte pair of a slot index; the inverse of
/// `hash_key` on [0, 6).
pub fn unhash_key(idx: usize) -> (key: (u8, u8))
    ensures
        key.0 == unhash_flag_spec(idx as int),
        key.1 == unhash_status_spec(idx as int),
        idx < 6 ==> hash_spec(key.0, key.1) == idx,
{
    let flag: u8 = if idx < 2 {
        FLAG_A
    } else if idx < 4 {
        FLAG_N
    } else if idx < 6 {
        FLAG_R
    } else {
        FLAG_UNKNOWN
    };
    let status: u8 = if idx % 2 == 1 {
        STATUS_O
    } else {
        STATUS_F
    };
    (flag, status)
}

/// The perfect-hash mapping is a bijection between the six valid
/// (flag, status) pairs and the slot indices [0, 6): unhashing any slot
/// and hashing the pair again returns the slot, and hashing any valid
/// pair and unhashing the slot returns the pair.
pub proof fn lemma_perfect_hash_bijection()
    ensures
        forall|i: int|
            0 <= i < 6 ==> hash_spec(unhash_flag_spec(i), unhash_status_spec(i)) == i,
        forall|flag: u8, status: u8|
            valid_flag(flag) && valid_status(status) ==> {
                let i = hash_spec(flag, status);
                &&& 0 <= i < 6
                &&& unhash_flag_spec(i) == flag
                &&& unhash_status_spec(i) == status
            },
{
}

/// Aggregation state for a single group in a single bank: five running
/// scale-mixed decimal sums and a row count. All fields start at zero and
/// only ever grow in magnitude by one row's bounded contribution at a time.
#[derive(Clone, Copy, PartialEq, Eq, Structural, Debug)]
pub struct AggState {
    /// Sum of `extendedprice * (100 - discount)`, a scale-4 decimal.
    pub sum_disc_price: i128,
    /// Sum of `extendedprice * (100 - discount) * (100 + tax)`, a scale-6
    /// decimal.
    pub sum_charge: i128,
    /// Number of rows folded into this state.
    pub count: u64,
    /// Sum of quantities, a scale-2 decimal.
    pub sum_qty: i128,
    /// Sum of extended prices, a scale-2 decimal.
    pub sum_base_price: i128,
    /// Sum of discount rates, a scale-2 decimal.
    pub sum_discount: i128,
}

/// The unbounded mathematical totals that an accumulator state stands for.
pub struct GroupTotals {
    pub sum_qty: int,
    pub sum_base_price: int,
    pub sum_disc_price: int,
    pub sum_charge: int,
    pub sum_discount: int,
    pub count: int,
}

/// The totals all zero.
pub open spec fn zero_totals() -> GroupTotals {
    GroupTotals {
        sum_qty: 0,
        sum_base_price: 0,
        sum_disc_price: 0,
        sum_charge: 0,
        sum_discount: 0,
        count: 0,
    }
}

/// Field-wise sum of two totals.
pub open spec fn add_totals(a: GroupTotals, b: GroupTotals) -> GroupTotals {
    GroupTotals {
        sum_qty: a.sum_qty + b.sum_qty,
        sum_base_price: a.sum_base_price + b.sum_base_price,
        sum_disc_price: a.sum_disc_price + b.sum_disc_price,
        sum_charge: a.sum_charge + b.sum_charge,
        sum_discount: a.sum_discount + b.sum_discount,
        count: a.count + b.count,
    }
}

/// The totals held by an accumulator state.
pub open spec fn totals_of(s: AggState) -> GroupTotals {
    GroupTotals {
        sum_qty: s.sum_qty as int,
        sum_base_price: s.sum_base_price as int,
        sum_disc_price: s.sum_disc_price as int,
        sum_charge: s.sum_charge as int,
        sum_discount: s.sum_discount as int,
        count: s.count as int,
    }
}

/// Whether every sum of a state is bounded by its row count times the
/// per-row contribution bound.
pub open spec fn sums_bounded(s: AggState) -> bool {
    &&& -(s.count * ROW_BOUND) <= s.sum_qty <= s.count * ROW_BOUND
    &&& -(s.count * ROW_BOUND) <= s.sum_base_price <= s.count * ROW_BOUND
    &&& -(s.count * ROW_BOUND) <= s.sum_disc_price <= s.count * ROW_BOUND
    &&& -(s.count * ROW_BOUND) <= s.sum_charge <= s.count * ROW_BOUND
    &&& -(s.count * ROW_BOUND) <= s.sum_discount <= s.count * ROW_BOUND
}

/// Well-formedness of one bank slot: the count is within the per-slot
/// budget and every sum is bounded by the count.
pub open spec fn wf_state(s: AggState) -> bool {
    &&& s.count <= MAX_GROUP_COUNT
    &&& sums_bounded(s)
}

impl AggState {
    /// The state with all sums and the count exactly zero.
    pub fn zeroed() -> (s: Self)
        ensures
            s == AggState::zero_spec(),
            totals_of(s) == zero_totals(),
            wf_state(s),
    {
        AggState {
            sum_disc_price: 0,
            sum_charge: 0,
            count: 0,
            sum_qty: 0,
            sum_base_price: 0,
            sum_discount: 0,
        }
    }

    /// The all-zero state.
    pub open spec fn zero_spec() -> AggState {
        AggState {
            sum_disc_price: 0,
            sum_charge: 0,
            count: 0,
            sum_qty: 0,
            sum_base_price: 0,
            sum_discount: 0,
        }
    }

    /// Merge another state into this one by pairwise summation of all
    /// fields. Merging is associative and commutative on the totals, so
    /// any merge order over banks yields the same per-group totals.
    pub fn merge(&mut self, other: &AggState)
        requires
            sums_bounded(*old(self)),
            sums_bounded(*other),
            old(self).count + other.count <= MERGED_COUNT_MAX,
        ensures
            totals_of(*final(self)) == add_totals(totals_of(*old(self)), totals_of(*other)),
            sums_bounded(*final(self)),
            final(self).count == old(self).count + other.count,
    {
        proof {
            lemma_merge_bounds(*old(self), *other);
        }
        self.sum_disc_price = self.sum_disc_price + other.sum_disc_price;
        self.sum_charge = self.sum_charge + other.sum_charge;
        self.count = self.count + other.count;
        self.sum_qty = self.sum_qty + other.sum_qty;
        self.sum_base_price = self.sum_base_price + other.sum_base_price;
        self.sum_discount = self.sum_discount + other.sum_discount;
    }

    /// Whether this group has received no rows.
    pub fn is_empty(&self) -> (r: bool)
        ensures
            r == (self.count == 0),
    {
        self.count == 0
    }

    /// The average quantity as an exact rational: zero when the count is
    /// zero, else exactly `sum_qty / count`.
    pub fn avg_qty(&self) -> (r: Ratio)
        ensures
            r == avg_ratio(self.sum_qty, self.count),
            self.count == 0 ==> r.num == 0 && r.den == 1,
            self.count > 0 ==> r.num == self.sum_qty && r.den == self.count,
    {
        if self.count == 0 {
            Ratio { num: 0, den: 1 }
        } else {
            Ratio { num: self.sum_qty, den: self.count }
        }
    }

    /// The average base price as an exact rational.
    pub fn avg_price(&self) -> (r: Ratio)
        ensures
            r == avg_ratio(self.sum_base_price, self.count),
            self.count == 0 ==> r.num == 0 && r.den == 1,
            self.count > 0 ==> r.num == self.sum_base_price && r.den == self.count,
    {
        if self.count == 0 {
            Ratio { num: 0, den: 1 }
        } else {
            Ratio { num: self.sum_base_price, den: self.count }
        }
    }

    /// The average discount rate as an exact rational.
    pub fn avg_disc(&self) -> (r: Ratio)
        ensures
            r == avg_ratio(self.sum_discount, self.count),
            self.count == 0 ==> r.num == 0 && r.den == 1,
            self.count > 0 ==> r.num == self.sum_discount && r.den == self.count,
    {
        if self.count == 0 {
            Ratio { num: 0, den: 1 }
        } else {
            Ratio { num: self.sum_discount, den: self.count }
        }
    }
}

/// An exact rational average: `num / den` with `den` never zero. A group
/// with no rows averages to exactly zero, encoded as 0 / 1.
#[derive(Clone, Copy, PartialEq, Eq, Structural, Debug)]
pub struct Ratio {
    pub num: i128,
    pub den: u64,
}

/// The exact rational average of a sum over a count.
pub open spec fn avg_ratio(sum: i128, count: u64) -> Ratio {
    if count == 0 {
        Ratio { num: 0, den: 1 }
    } else {
        Ratio { num: sum, den: count }
    }
}

/// Summing two count-bounded sums stays inside `i128` when the combined
/// count respects the merged budget.
proof fn lemma_merge_bounds(a: AggState, b: AggState)
    requires
        sums_bounded(a),
        sums_bounded(b),
        a.count + b.count <= MERGED_COUNT_MAX,
    ensures
        -((a.count + b.count) * ROW_BOUND) <= a.sum_qty + b.sum_qty
            <= (a.count + b.count) * ROW_BOUND,
        -((a.count + b.count) * ROW_BOUND) <= a.sum_base_price + b.sum_base_price
            <= (a.count + b.count) * ROW_BOUND,
        -((a.count + b.count) * ROW_BOUND) <= a.sum_disc_price + b.sum_disc_price
            <= (a.count + b.count) * ROW_BOUND,
        -((a.count + b.count) * ROW_BOUND) <= a.sum_charge + b.sum_charge
            <= (a.count + b.count) * ROW_BOUND,
        -((a.count + b.count) * ROW_BOUND) <= a.sum_discount + b.sum_discount
            <= (a.count + b.count) * ROW_BOUND,
        (a.count + b.count) * ROW_BOUND <= MERGED_COUNT_MAX * ROW_BOUND < i128::MAX,
{
    assert((a.count + b.count) * ROW_BOUND == a.count * ROW_BOUND + b.count * ROW_BOUND)
        by (nonlinear_arith);
    assert((a.count + b.count) * ROW_BOUND <= MERGED_COUNT_MAX * ROW_BOUND) by (nonlinear_arith)
        requires
            a.count + b.count <= MERGED_COUNT_MAX,
    ;
}

} // verus!

verus! {

/// A batch as the aggregator sees it: a selection mask and six parallel
/// columns. Measures and rates are scale-2 decimals carried as integers.
pub struct BatchView {
    pub mask: Seq<bool>,
    pub flag: Seq<u8>,
    pub status: Seq<u8>,
    pub qty: Seq<i128>,
    pub price: Seq<i128>,
    pub disc: Seq<i128>,
    pub tax: Seq<i128>,
}

/// The view of a batch given as plain column vectors.
pub open spec fn batch_view(
    mask: Seq<bool>,
    flag: Seq<u8>,
    status: Seq<u8>,
    qty: Seq<i128>,
    price: Seq<i128>,
    disc: Seq<i128>,
    tax: Seq<i128>,
) -> BatchView {
    BatchView { mask, flag, status, qty, price, disc, tax }
}

impl BatchView {
    /// Whether the mask and all six columns have the same length.
    pub open spec fn consistent(self) -> bool {
        &&& self.flag.len() == self.mask.len()
        &&& self.status.len() == self.mask.len()
        &&& self.qty.len() == self.mask.len()
        &&& self.price.len() == self.mask.len()
        &&& self.disc.len() == self.mask.len()
        &&& self.tax.len() == self.mask.len()
    }

    /// Whether the measures of row `i` lie inside the engine's bounds.
    pub open spec fn row_in_bounds(self, i: int) -> bool {
        &&& -MEASURE_BOUND <= self.qty[i] <= MEASURE_BOUND
        &&& crate::expressions::row_values_in_bounds(self.price[i], self.disc[i], self.tax[i])
    }

    /// Whether every row of the batch is in bounds.
    pub open spec fn in_bounds(self) -> bool {
        forall|i: int| 0 <= i < self.mask.len() ==> self.row_in_bounds(i)
    }

    /// Whether row `i` is selected by the mask and belongs to group `g`.
    pub open spec fn selected(self, g: int, i: int) -> bool {
        self.mask[i] && hash_spec(self.flag[i], self.status[i]) == g
    }

    /// The contribution of row `i` to the totals of its group.
    pub open spec fn row_delta(self, i: int) -> GroupTotals {
        GroupTotals {
            sum_qty: self.qty[i] as int,
            sum_base_price: self.price[i] as int,
            sum_disc_price: disc_price_of(self.price[i] as int, self.disc[i] as int),
            sum_charge: charge_of(self.price[i] as int, self.disc[i] as int, self.tax[i] as int),
            sum_discount: self.disc[i] as int,
            count: 1,
        }
    }
}

/// The totals contributed to group `g` by the rows in [0, n) that `asgn`
/// assigns to `bank`.
pub open spec fn bank_total_upto(
    v: BatchView,
    asgn: Seq<int>,
    bank: int,
    g: int,
    n: int,
) -> GroupTotals
    decreases n,
{
    if n <= 0 {
        zero_totals()
    } else {
        let prev = bank_total_upto(v, asgn, bank, g, n - 1);
        if v.selected(g, n - 1) && asgn[n - 1] == bank {
            add_totals(prev, v.row_delta(n - 1))
        } else {
            prev
        }
    }
}

/// The totals contributed to group `g` by all selected rows in [0, n),
/// regardless of banks: what one serial accumulator would hold.
pub open spec fn group_total_upto(v: BatchView, g: int, n: int) -> GroupTotals
    decreases n,
{
    if n <= 0 {
        zero_totals()
    } else {
        let prev = group_total_upto(v, g, n - 1);
        if v.selected(g, n - 1) {
            add_totals(prev, v.row_delta(n - 1))
        } else {
            prev
        }
    }
}

/// The totals contributed to group `g` by all selected rows of the batch.
pub open spec fn group_total(v: BatchView, g: int) -> GroupTotals {
    group_total_upto(v, g, v.mask.len() as int)
}

/// The bank the engine assigns to row `i` of a batch of `n` rows:
/// rows of the full chunks of four rotate over the four banks, and the
/// leftover rows that do not fill a chunk all go to bank zero.
pub open spec fn engine_bank(i: int, n: int) -> int {
    if i < 4 * (n / 4) {
        i % 4
    } else {
        0
    }
}

/// The engine's bank assignment for a whole batch of `n` rows.
pub open spec fn engine_asgn(n: int) -> Seq<int> {
    Seq::new(n as nat, |i: int| engine_bank(i, n))
}

/// A bank never receives more rows than the batch holds.
pub proof fn lemma_bank_count_le(v: BatchView, asgn: Seq<int>, bank: int, g: int, n: int)
    requires
        n >= 0,
    ensures
        0 <= bank_total_upto(v, asgn, bank, g, n).count <= n,
    decreases n,
{
    if n > 0 {
        lemma_bank_count_le(v, asgn, bank, g, n - 1);
    }
}

} // verus!

verus! {

/// The grouping aggregator: four banks of six accumulator slots, held as
/// one flat vector of 24 states, slot `bank * 6 + group`.
pub struct Aggregator {
    pub states: Vec<AggState>,
}

impl Aggregator {
    /// The accumulator state of `group` in `bank`.
    pub open spec fn state(self, bank: int, g: int) -> AggState {
        self.states@[bank * 6 + g]
    }

    /// Well-formedness: 24 slots, each within its budget.
    pub open spec fn wf(self) -> bool {
        &&& self.states@.len() == 24
        &&& forall|k: int| 0 <= k < 24 ==> wf_state(#[trigger] self.states@[k])
    }

    /// Whether every slot can still take `n` more rows.
    pub open spec fn headroom(self, n: int) -> bool {
        forall|k: int| 0 <= k < 24 ==> (#[trigger] self.states@[k]).count + n <= MAX_GROUP_COUNT
    }

    /// A fresh aggregator with every slot of every bank exactly zero.
    pub fn new() -> (a: Self)
        ensures
            a.wf(),
            forall|k: int| 0 <= k < 24 ==> #[trigger] a.states@[k] == AggState::zero_spec(),
    {
        let mut states: Vec<AggState> = Vec::with_capacity(24);
        let mut k: usize = 0;
        while k < 24
            invariant
                states@.len() == k,
                k <= 24,
                forall|j: int| 0 <= j < k ==> #[trigger] states@[j] == AggState::zero_spec(),
            decreases 24 - k,
        {
            states.push(AggState::zeroed());
            k = k + 1;
        }
        Aggregator { states }
    }

    /// Fold one masked batch into the accumulator banks.
    ///
    /// Rows are validated first, so a rejected batch has precisely zero
    /// effect: `ShapeMismatch` exactly when the mask and the six columns
    /// disagree in length, `ValueOutOfRange` exactly when the shapes agree
    /// but some row carries an out-of-bounds measure. On success, the
    /// totals of every slot grow by exactly the contribution of the rows
    /// the engine's bank assignment routes there: the selected rows of the
    /// batch, split by `engine_bank` and keyed by the perfect hash.
    pub fn aggregate_batch(
        &mut self,
        mask: &Vec<bool>,
        returnflag: &Vec<u8>,
        linestatus: &Vec<u8>,
        quantity: &Vec<i128>,
        price: &Vec<i128>,
        discount: &Vec<i128>,
        tax: &Vec<i128>,
    ) -> (r: Result<(), EngineError>)
        requires
            old(self).wf(),
            old(self).headroom(mask@.len() as int),
        ensures
            final(self).wf(),
            ({
                let v = batch_view(mask@, returnflag@, linestatus@, quantity@, price@, discount@, tax@);
                &&& (r is Ok <==> v.consistent() && v.in_bounds())
                &&& (r is Err ==> r == Err::<(), EngineError>(aggregate_error(v))
                    && final(self).states@ == old(self).states@)
                &&& (r is Ok ==> forall|bank: int, g: int|
                    0 <= bank < 4 && 0 <= g < 6 ==> totals_of(#[trigger] final(self).state(bank, g))
                        == add_totals(
                        totals_of(old(self).state(bank, g)),
                        bank_total_upto(
                            v,
                            engine_asgn(v.mask.len() as int),
                            bank,
                            g,
                            v.mask.len() as int,
                        ),
                    ))
            }),
    {
        let ghost v = batch_view(mask@, returnflag@, linestatus@, quantity@, price@, discount@, tax@);
        let n = mask.len();
        if returnflag.len() != n || linestatus.len() != n || quantity.len() != n
            || price.len() != n || discount.len() != n || tax.len() != n {
            return Err(EngineError::ShapeMismatch);
        }
        let ghost pre: Aggregator = *self;
        let mut i: usize = 0;
        while i < n
            invariant
                n == v.mask.len(),
                v.consistent(),
                v == batch_view(mask@, returnflag@, linestatus@, quantity@, price@, discount@, tax@),
                0 <= i <= n,
                forall|j: int| 0 <= j < i ==> v.row_in_bounds(j),
                *self == pre,
                pre.wf(),
                pre.headroom(n as int),
            decreases n - i,
        {
            if quantity[i] > MEASURE_BOUND || quantity[i] < -MEASURE_BOUND
                || price[i] > MEASURE_BOUND || price[i] < -MEASURE_BOUND
                || discount[i] > RATE_BOUND || discount[i] < -RATE_BOUND
                || tax[i] > RATE_BOUND || tax[i] < -RATE_BOUND {
                assert(!v.row_in_bounds(i as int));
                assert(!v.in_bounds());
                return Err(EngineError::ValueOutOfRange);
            }
            i = i + 1;
        }
        let ghost asgn = engine_asgn(n as int);
        let chunked: usize = (n / 4) * 4;
        let mut i: usize = 0;
        while i < n
            invariant
                self.states@.len() == 24,
                pre.states@.len() == 24,
                n == v.mask.len(),
                v.consistent(),
                v.in_bounds(),
                v == batch_view(mask@, returnflag@, linestatus@, quantity@, price@, discount@, tax@),
                asgn == engine_asgn(n as int),
                chunked == 4 * (n as int / 4),
                0 <= i <= n,
                pre.wf(),
                pre.headroom(n as int),
                forall|k: int| 0 <= k < 24 ==> wf_state(#[trigger] self.states@[k]),
                forall|bank: int, g: int|
                    0 <= bank < 4 && 0 <= g < 6 ==> totals_of(#[trigger] self.state(bank, g))
                        == add_totals(
                        totals_of(pre.state(bank, g)),
                        bank_total_upto(v, asgn, bank, g, i as int),
                    ),
            decreases n - i,
        {
            let ghost snap: Aggregator = *self;
            let selected = mask[i];
            if selected {
                let bank: usize = if i < chunked {
                    i % 4
                } else {
                    0
                };
                let g: usize = hash_key(returnflag[i], linestatus[i]);
                let idx: usize = bank * 6 + g;
                assert(v.selected(g as int, i as int));
                assert(asgn[i as int] == bank as int);
                let st: AggState = self.states[idx];
                proof {
                    lemma_bank_count_le(v, asgn, bank as int, g as int, i as int);
                    assert(totals_of(self.state(bank as int, g as int)) == add_totals(
                        totals_of(pre.state(bank as int, g as int)),
                        bank_total_upto(v, asgn, bank as int, g as int, i as int),
                    ));
                    assert(st == snap.state(bank as int, g as int));
                    assert(wf_state(st));
                    assert(pre.states@[bank as int * 6 + g as int].count + n <= MAX_GROUP_COUNT);
                    assert(st.count < MAX_GROUP_COUNT);
                    assert(v.row_in_bounds(i as int));
                    lemma_room_for_row(st);
                }
                let (dp, ch) = crate::expressions::derived_values(price[i], discount[i], tax[i]);
                let new_st = AggState {
                    sum_disc_price: st.sum_disc_price + dp,
                    sum_charge: st.sum_charge + ch,
                    count: st.count + 1,
                    sum_qty: st.sum_qty + quantity[i],
                    sum_base_price: st.sum_base_price + price[i],
                    sum_discount: st.sum_discount + discount[i],
                };
                self.states.set(idx, new_st);
                proof {
                    assert(wf_state(new_st));
                    assert(totals_of(new_st) == add_totals(totals_of(st), v.row_delta(i as int)));
                    assert forall|bank2: int, g2: int|
                        0 <= bank2 < 4 && 0 <= g2 < 6 implies totals_of(
                        #[trigger] self.state(bank2, g2),
                    ) == add_totals(
                        totals_of(pre.state(bank2, g2)),
                        bank_total_upto(v, asgn, bank2, g2, i as int + 1),
                    ) by {
                        let k = bank2 * 6 + g2;
                        assert(0 <= k < 24);
                        assert(totals_of(snap.state(bank2, g2)) == add_totals(
                            totals_of(pre.state(bank2, g2)),
                            bank_total_upto(v, asgn, bank2, g2, i as int),
                        ));
                        if bank2 == bank as int && g2 == g as int {
                            assert(self.states@[k] == new_st);
                            assert(bank_total_upto(v, asgn, bank2, g2, i as int + 1)
                                == add_totals(
                                bank_total_upto(v, asgn, bank2, g2, i as int),
                                v.row_delta(i as int),
                            ));
                            assert(totals_of(new_st) == add_totals(
                                totals_of(pre.state(bank2, g2)),
                                add_totals(
                                    bank_total_upto(v, asgn, bank2, g2, i as int),
                                    v.row_delta(i as int),
                                ),
                            ));
                        } else {
                            assert(k != idx as int);
                            assert(self.states@[k] == snap.states@[k]);
                            assert(!(v.selected(g2, i as int) && asgn[i as int] == bank2));
                            assert(bank_total_upto(v, asgn, bank2, g2, i as int + 1)
                                == bank_total_upto(v, asgn, bank2, g2, i as int));
                        }
                    }
                }
            } else {
                proof {
                    assert forall|bank2: int, g2: int|
                        0 <= bank2 < 4 && 0 <= g2 < 6 implies bank_total_upto(
                        v,
                        asgn,
                        bank2,
                        g2,
                        i as int + 1,
                    ) == bank_total_upto(v, asgn, bank2, g2, i as int) by {
                        assert(!v.mask[i as int]);
                    }
                }
            }
            i = i + 1;
        }
        Ok(())
    }
}

/// The error aggregation reports for a rejected batch: a shape mismatch
/// takes precedence over an out-of-range value.
pub open spec fn aggregate_error(v: BatchView) -> EngineError {
    if !v.consistent() {
        EngineError::ShapeMismatch
    } else {
        EngineError::ValueOutOfRange
    }
}

/// The per-slot budget keeps one more row inside `i128` range.
proof fn lemma_slot_budget()
    ensures
        MAX_GROUP_COUNT * ROW_BOUND + ROW_BOUND < i128::MAX,
        MERGED_COUNT_MAX * ROW_BOUND < i128::MAX,
{
    assert(MAX_GROUP_COUNT * ROW_BOUND + ROW_BOUND < i128::MAX) by (nonlinear_arith);
    assert(MERGED_COUNT_MAX * ROW_BOUND < i128::MAX) by (nonlinear_arith);
}

/// A slot below its count budget can absorb one more bounded row without
/// leaving the `i128` range or its count-scaled sum bound.
proof fn lemma_room_for_row(st: AggState)
    requires
        wf_state(st),
        st.count < MAX_GROUP_COUNT,
    ensures
        st.count * ROW_BOUND + ROW_BOUND == (st.count + 1) * ROW_BOUND,
        (st.count + 1) * ROW_BOUND <= MAX_GROUP_COUNT * ROW_BOUND,
        MAX_GROUP_COUNT * ROW_BOUND + ROW_BOUND < i128::MAX,
{
    assert(st.count * ROW_BOUND + ROW_BOUND == (st.count + 1) * ROW_BOUND) by (nonlinear_arith);
    assert((st.count + 1) * ROW_BOUND <= MAX_GROUP_COUNT * ROW_BOUND) by (nonlinear_arith)
        requires
            st.count < MAX_GROUP_COUNT,
    ;
    lemma_slot_budget();
}

} // verus!

verus! {

/// One finalized result row: the group key, the five sums, the count, and
/// three exact rational averages.
#[derive(Clone, Copy, PartialEq, Eq, Structural, Debug)]
pub struct QueryResult {
    pub returnflag: u8,
    pub linestatus: u8,
    /// Scale-2 decimal.
    pub sum_qty: i128,
    /// Scale-2 decimal.
    pub sum_base_price: i128,
    /// Scale-4 decimal.
    pub sum_disc_price: i128,
    /// Scale-6 decimal.
    pub sum_charge: i128,
    /// Scale-2 decimal.
    pub sum_discount: i128,
    pub count: u64,
    /// Scale-2 decimal ratio.
    pub avg_qty: Ratio,
    /// Scale-2 decimal ratio.
    pub avg_price: Ratio,
    /// Scale-2 decimal ratio.
    pub avg_disc: Ratio,
}

/// Strict ascending order of result rows by (returnflag, linestatus).
pub open spec fn key_lt(a: QueryResult, b: QueryResult) -> bool {
    a.returnflag < b.returnflag || (a.returnflag == b.returnflag && a.linestatus < b.linestatus)
}

/// The slot index a result row's key hashes back to.
pub open spec fn key_rank(q: QueryResult) -> int {
    hash_spec(q.returnflag, q.linestatus)
}

/// The totals of group `g` with all four banks merged element-wise.
pub open spec fn merged_total(a: Aggregator, g: int) -> GroupTotals {
    add_totals(
        add_totals(
            add_totals(totals_of(a.state(0, g)), totals_of(a.state(1, g))),
            totals_of(a.state(2, g)),
        ),
        totals_of(a.state(3, g)),
    )
}

/// The finalized row of group `g`: the key unhashed from the slot index,
/// the merged sums, and the exact rational averages.
pub open spec fn result_row(a: Aggregator, g: int) -> QueryResult {
    let t = merged_total(a, g);
    QueryResult {
        returnflag: unhash_flag_spec(g),
        linestatus: unhash_status_spec(g),
        sum_qty: t.sum_qty as i128,
        sum_base_price: t.sum_base_price as i128,
        sum_disc_price: t.sum_disc_price as i128,
        sum_charge: t.sum_charge as i128,
        sum_discount: t.sum_discount as i128,
        count: t.count as u64,
        avg_qty: avg_ratio(t.sum_qty as i128, t.count as u64),
        avg_price: avg_ratio(t.sum_base_price as i128, t.count as u64),
        avg_disc: avg_ratio(t.sum_discount as i128, t.count as u64),
    }
}

/// The finalized rows of the groups with slot index below `g`, in slot
/// order, groups without rows dropped.
pub open spec fn results_upto(a: Aggregator, g: int) -> Seq<QueryResult>
    decreases g,
{
    if g <= 0 {
        Seq::empty()
    } else if merged_total(a, g - 1).count != 0 {
        results_upto(a, g - 1).push(result_row(a, g - 1))
    } else {
        results_upto(a, g - 1)
    }
}

/// The full finalized result sequence of an aggregator: one row per
/// non-empty group, ordered by slot index, hence by (flag, status).
pub open spec fn results_spec(a: Aggregator) -> Seq<QueryResult> {
    results_upto(a, 6)
}

/// Every row of `results_upto(a, g)` is the finalized row of a non-empty
/// group below `g`, and the rows are strictly sorted by their keys.
pub proof fn lemma_results_sorted(a: Aggregator, g: int)
    requires
        0 <= g <= 6,
    ensures
        forall|i: int|
            0 <= i < results_upto(a, g).len() ==> {
                let q = #[trigger] results_upto(a, g)[i];
                &&& 0 <= key_rank(q) < g
                &&& q == result_row(a, key_rank(q))
                &&& merged_total(a, key_rank(q)).count != 0
            },
        forall|i: int, j: int|
            0 <= i < j < results_upto(a, g).len() ==> key_lt(
                results_upto(a, g)[i],
                results_upto(a, g)[j],
            ),
    decreases g,
{
    if g > 0 {
        lemma_results_sorted(a, g - 1);
        if merged_total(a, g - 1).count != 0 {
            let q = result_row(a, g - 1);
            assert(hash_spec(unhash_flag_spec(g - 1), unhash_status_spec(g - 1)) == g - 1);
            assert(key_rank(q) == g - 1);
            assert forall|i: int|
                0 <= i < results_upto(a, g - 1).len() implies key_lt(
                #[trigger] results_upto(a, g - 1)[i],
                q,
            ) by {
                let p = results_upto(a, g - 1)[i];
                assert(0 <= key_rank(p) < g - 1);
                assert(p.returnflag == unhash_flag_spec(key_rank(p)));
                assert(p.linestatus == unhash_status_spec(key_rank(p)));
            }
        }
    }
}

impl Aggregator {
    /// Finalize: merge the four banks element-wise, drop groups without
    /// rows, and emit one row per surviving group in ascending slot order,
    /// which is ascending (returnflag, linestatus) order with no duplicate
    /// keys. Finalization reads the accumulator state without mutating it,
    /// so repeated calls return identical sequences.
    pub fn get_results(&self) -> (r: Vec<QueryResult>)
        requires
            self.wf(),
        ensures
            r@ == results_spec(*self),
            forall|i: int, j: int| 0 <= i < j < r@.len() ==> key_lt(r@[i], r@[j]),
    {
        let mut out: Vec<QueryResult> = Vec::new();
        let mut g: usize = 0;
        while g < 6
            invariant
                self.wf(),
                0 <= g <= 6,
                out@ == results_upto(*self, g as int),
            decreases 6 - g,
        {
            let mut m: AggState = self.states[g];
            proof {
                lemma_slot_budget();
            }
            m.merge(&self.states[6 + g]);
            m.merge(&self.states[12 + g]);
            m.merge(&self.states[18 + g]);
            assert(totals_of(m) == merged_total(*self, g as int));
            if m.count > 0 {
                let (flag, status) = unhash_key(g);
                let row = QueryResult {
                    returnflag: flag,
                    linestatus: status,
                    sum_qty: m.sum_qty,
                    sum_base_price: m.sum_base_price,
                    sum_disc_price: m.sum_disc_price,
                    sum_charge: m.sum_charge,
                    sum_discount: m.sum_discount,
                    count: m.count,
                    avg_qty: m.avg_qty(),
                    avg_price: m.avg_price(),
                    avg_disc: m.avg_disc(),
                };
                assert(row == result_row(*self, g as int));
                out.push(row);
            }
            g = g + 1;
        }
        proof {
            lemma_results_sorted(*self, 6);
        }
        out
    }
}

} // verus!

verus! {

/// Mask exclusivity: rows the mask rejects contribute nothing. A batch
/// whose mask is all false has zero totals for every group, serially and
/// in every bank under every assignment.
pub proof fn lemma_mask_exclusivity(v: BatchView, asgn: Seq<int>, bank: int, g: int, n: int)
    requires
        0 <= n,
        forall|i: int| 0 <= i < n ==> !v.mask[i],
    ensures
        bank_total_upto(v, asgn, bank, g, n) == zero_totals(),
        group_total_upto(v, g, n) == zero_totals(),
    decreases n,
{
    if n > 0 {
        lemma_mask_exclusivity(v, asgn, bank, g, n - 1);
    }
}

/// Aggregating a batch whose mask is all false leaves every accumulator
/// slot of every bank unchanged: the relation `aggregate_batch` ensures
/// collapses to equality of the old and new states.
pub proof fn lemma_all_false_mask_no_effect(pre: Aggregator, post: Aggregator, v: BatchView)
    requires
        pre.states@.len() == 24,
        post.states@.len() == 24,
        forall|i: int| 0 <= i < v.mask.len() ==> !v.mask[i],
        forall|bank: int, g: int|
            0 <= bank < 4 && 0 <= g < 6 ==> totals_of(#[trigger] post.state(bank, g))
                == add_totals(
                totals_of(pre.state(bank, g)),
                bank_total_upto(v, engine_asgn(v.mask.len() as int), bank, g, v.mask.len() as int),
            ),
    ensures
        post.states@ == pre.states@,
{
    assert forall|k: int| 0 <= k < 24 implies post.states@[k] == pre.states@[k] by {
        let bank = k / 6;
        let g = k % 6;
        lemma_mask_exclusivity(
            v,
            engine_asgn(v.mask.len() as int),
            bank,
            g,
            v.mask.len() as int,
        );
        assert(totals_of(post.state(bank, g)) == add_totals(
            totals_of(pre.state(bank, g)),
            bank_total_upto(v, engine_asgn(v.mask.len() as int), bank, g, v.mask.len() as int),
        ));
        assert(totals_of(post.states@[k]) == totals_of(pre.states@[k]));
    }
    assert(post.states@ =~= pre.states@);
}

/// The sum of the totals of banks [0, nbanks) for group `g` over rows
/// [0, n), under the assignment `asgn`.
pub open spec fn banks_sum_upto(
    v: BatchView,
    asgn: Seq<int>,
    nbanks: int,
    g: int,
    n: int,
) -> GroupTotals
    decreases nbanks,
{
    if nbanks <= 0 {
        zero_totals()
    } else {
        add_totals(
            banks_sum_upto(v, asgn, nbanks - 1, g, n),
            bank_total_upto(v, asgn, nbanks - 1, g, n),
        )
    }
}

/// With no rows, the sum over any number of banks is zero.
proof fn lemma_banks_sum_empty(v: BatchView, asgn: Seq<int>, nbanks: int, g: int)
    requires
        0 <= nbanks,
    ensures
        banks_sum_upto(v, asgn, nbanks, g, 0) == zero_totals(),
    decreases nbanks,
{
    if nbanks > 0 {
        lemma_banks_sum_empty(v, asgn, nbanks - 1, g);
    }
}

/// Extending the row range by one row changes the sum over banks by that
/// row's contribution exactly when the row is selected and assigned to one
/// of the banks counted.
proof fn lemma_banks_sum_step(v: BatchView, asgn: Seq<int>, nbanks: int, g: int, n: int)
    requires
        0 <= nbanks,
        n >= 1,
    ensures
        banks_sum_upto(v, asgn, nbanks, g, n) == if v.selected(g, n - 1) && 0 <= asgn[n - 1]
            < nbanks {
            add_totals(banks_sum_upto(v, asgn, nbanks, g, n - 1), v.row_delta(n - 1))
        } else {
            banks_sum_upto(v, asgn, nbanks, g, n - 1)
        },
    decreases nbanks,
{
    if nbanks > 0 {
        lemma_banks_sum_step(v, asgn, nbanks - 1, g, n);
    }
}

/// Merge associativity over bank partitions: for any assignment of rows to
/// banks [0, nbanks), merging the per-bank totals of a group recovers
/// exactly the totals a single serial accumulator would hold, whatever the
/// partition.
pub proof fn lemma_bank_partition_total(
    v: BatchView,
    asgn: Seq<int>,
    nbanks: int,
    g: int,
    n: int,
)
    requires
        0 <= n,
        1 <= nbanks,
        forall|i: int| 0 <= i < n ==> 0 <= #[trigger] asgn[i] < nbanks,
    ensures
        banks_sum_upto(v, asgn, nbanks, g, n) == group_total_upto(v, g, n),
    decreases n,
{
    if n == 0 {
        lemma_banks_sum_empty(v, asgn, nbanks, g);
    } else {
        lemma_bank_partition_total(v, asgn, nbanks, g, n - 1);
        lemma_banks_sum_step(v, asgn, nbanks, g, n);
    }
}

/// The engine's own assignment routes every row to one of the four banks.
pub proof fn lemma_engine_asgn_in_range(n: int)
    requires
        0 <= n,
    ensures
        forall|i: int| 0 <= i < n ==> 0 <= #[trigger] engine_asgn(n)[i] < 4,
{
}

/// The headline consequence for the engine: after folding a batch, the
/// merged totals of each group grow by exactly the serial totals of the
/// batch's selected rows, independently of the four-bank split.
pub proof fn lemma_aggregate_updates_merged_totals(
    pre: Aggregator,
    post: Aggregator,
    v: BatchView,
    g: int,
)
    requires
        0 <= g < 6,
        pre.states@.len() == 24,
        post.states@.len() == 24,
        forall|bank: int, g2: int|
            0 <= bank < 4 && 0 <= g2 < 6 ==> totals_of(#[trigger] post.state(bank, g2))
                == add_totals(
                totals_of(pre.state(bank, g2)),
                bank_total_upto(v, engine_asgn(v.mask.len() as int), bank, g2, v.mask.len() as int),
            ),
    ensures
        merged_total(post, g) == add_totals(merged_total(pre, g), group_total(v, g)),
{
    let n = v.mask.len() as int;
    let asgn = engine_asgn(n);
    lemma_engine_asgn_in_range(n);
    lemma_bank_partition_total(v, asgn, 4, g, n);
    assert(banks_sum_upto(v, asgn, 1, g, n) == add_totals(
        banks_sum_upto(v, asgn, 0, g, n),
        bank_total_upto(v, asgn, 0, g, n),
    ));
    assert(banks_sum_upto(v, asgn, 2, g, n) == add_totals(
        banks_sum_upto(v, asgn, 1, g, n),
        bank_total_upto(v, asgn, 1, g, n),
    ));
    assert(banks_sum_upto(v, asgn, 3, g, n) == add_totals(
        banks_sum_upto(v, asgn, 2, g, n),
        bank_total_upto(v, asgn, 2, g, n),
    ));
    assert(banks_sum_upto(v, asgn, 4, g, n) == add_totals(
        banks_sum_upto(v, asgn, 3, g, n),
        bank_total_upto(v, asgn, 3, g, n),
    ));
}

/// Idempotent finalization: the result sequence is a pure function of the
/// accumulator state, so two finalizations without intervening aggregation
/// return identical ordered sequences.
pub proof fn lemma_finalize_idempotent(a: Aggregator, r1: Seq<QueryResult>, r2: Seq<QueryResult>)
    requires
        r1 == results_spec(a),
        r2 == results_spec(a),
    ensures
        r1 == r2,
{
}

} // verus!

verus! {

impl Default for Aggregator {
    /// A fresh aggregator, as `new` builds it.
    fn default() -> (a: Self)
        ensures
            a.wf(),
            forall|k: int| 0 <= k < 24 ==> #[trigger] a.states@[k] == AggState::zero_spec(),
    {
        Aggregator::new()
    }
}

} // verus!
