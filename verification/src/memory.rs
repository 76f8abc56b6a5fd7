//! Cache-friendly columnar storage.
//!
//! A column is a growable, indexable sequence of fixed-width elements.
//! Alignment of the backing buffer to a cache line is a layout hint, not a
//! correctness requirement; the contracts here speak only of the contents.

use vstd::prelude::*;

verus! {

/// A column vector wrapper around contiguous storage.
///
/// The view of an `AlignedColumn<T>` is the sequence of its elements.
#[derive(Clone, Debug)]
pub struct AlignedColumn<T> {
    data: Vec<T>,
}

impl<T> AlignedColumn<T> {
    /// The sequence of elements held by this column.
    pub closed spec fn view(&self) -> Seq<T> {
        self.data@
    }

    /// Create a new empty column with room for `capacity` elements.
    pub fn with_capacity(capacity: usize) -> (c: Self)
        ensures
            c@ == Seq::<T>::empty(),
    {
        Self { data: Vec::with_capacity(capacity) }
    }

    /// Create a new column owning the elements of `data`.
    pub fn from_vec(data: Vec<T>) -> (c: Self)
        ensures
            c@ == data@,
    {
        Self { data }
    }

    /// The number of elements in the column.
    pub fn len(&self) -> (n: usize)
        ensures
            n == self@.len(),
    {
        self.data.len()
    }

    /// Whether the column holds no elements.
    pub fn is_empty(&self) -> (r: bool)
        ensures
            r == (self@.len() == 0),
    {
        self.data.len() == 0
    }

    /// Append one element at the end of the column.
    pub fn push(&mut self, value: T)
        ensures
            final(self)@ == old(self)@.push(value),
    {
        self.data.push(value);
    }

    /// Borrow the underlying vector.
    pub fn as_vec(&self) -> (v: &Vec<T>)
        ensures
            v@ == self@,
    {
        &self.data
    }

    /// Borrow the underlying vector mutably.
    pub fn as_vec_mut(&mut self) -> (v: &mut Vec<T>)
        ensures
            v@ == old(self)@,
            final(self)@ == final(v)@,
    {
        &mut self.data
    }

    /// Consume the column and return the underlying vector.
    pub fn into_vec(self) -> (v: Vec<T>)
        ensures
            v@ == self@,
    {
        self.data
    }
}

impl<T> Default for AlignedColumn<T> {
    /// An empty column.
    fn default() -> (c: Self)
        ensures
            c@ == Seq::<T>::empty(),
    {
        Self { data: Vec::new() }
    }
}

/// One batch of order-line records held natively by the engine: parallel
/// columns of key bytes, scale-2 decimal measures, and day-count dates.
#[derive(Clone, Debug)]
pub struct NativeBatch {
    pub num_rows: usize,
    pub returnflag: AlignedColumn<u8>,
    pub linestatus: AlignedColumn<u8>,
    pub quantity: AlignedColumn<i128>,
    pub extendedprice: AlignedColumn<i128>,
    pub discount: AlignedColumn<i128>,
    pub tax: AlignedColumn<i128>,
    pub shipdate: AlignedColumn<i32>,
}

impl NativeBatch {
    /// Whether all columns agree with the recorded row count.
    pub open spec fn wf(&self) -> bool {
        &&& self.returnflag@.len() == self.num_rows
        &&& self.linestatus@.len() == self.num_rows
        &&& self.quantity@.len() == self.num_rows
        &&& self.extendedprice@.len() == self.num_rows
        &&& self.discount@.len() == self.num_rows
        &&& self.tax@.len() == self.num_rows
        &&& self.shipdate@.len() == self.num_rows
    }

    /// Create a new empty batch.
    pub fn new() -> (b: Self)
        ensures
            b.wf(),
            b.num_rows == 0,
    {
        Self {
            num_rows: 0,
            returnflag: AlignedColumn::default(),
            linestatus: AlignedColumn::default(),
            quantity: AlignedColumn::default(),
            extendedprice: AlignedColumn::default(),
            discount: AlignedColumn::default(),
            tax: AlignedColumn::default(),
            shipdate: AlignedColumn::default(),
        }
    }

    /// Create a new empty batch with room for `capacity` rows per column.
    pub fn with_capacity(capacity: usize) -> (b: Self)
        ensures
            b.wf(),
            b.num_rows == 0,
    {
        Self {
            num_rows: 0,
            returnflag: AlignedColumn::with_capacity(capacity),
            linestatus: AlignedColumn::with_capacity(capacity),
            quantity: AlignedColumn::with_capacity(capacity),
            extendedprice: AlignedColumn::with_capacity(capacity),
            discount: AlignedColumn::with_capacity(capacity),
            tax: AlignedColumn::with_capacity(capacity),
            shipdate: AlignedColumn::with_capacity(capacity),
        }
    }
}

impl Default for NativeBatch {
    /// An empty batch.
    fn default() -> (b: Self)
        ensures
            b.wf(),
            b.num_rows == 0,
    {
        Self::new()
    }
}

} // verus!
