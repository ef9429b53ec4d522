//! The Arrow column builders that gather the recorded samples, one struct per
//! value width, each holding an Arrow `PrimitiveBuilder` (or the finished
//! `PrimitiveArray`) with a name for the values it holds.
use vstd::prelude::*;
use arrow::array::{ArrayBuilder, PrimitiveArray, PrimitiveBuilder};
use arrow::datatypes::{UInt16Type, UInt32Type, UInt64Type};

verus! {

/// A column of `u64` values being gathered for the next record batch.
#[verifier::external_body]
pub struct U64Column {
    builder: PrimitiveBuilder<UInt64Type>,
}

/// A finished column of `u64` values, ready to be put in a record batch.
#[verifier::external_body]
pub struct U64Array {
    pub array: PrimitiveArray<UInt64Type>,
}

/// The values appended to a `u64` column since it was made or last finished.
pub uninterp spec fn u64_column(c: U64Column) -> Seq<u64>;

/// The values of a finished `u64` column.
pub uninterp spec fn u64_array(a: U64Array) -> Seq<u64>;

impl U64Column {
    /// `PrimitiveBuilder::new`: a column that holds no value yet.
    #[verifier::external_body]
    pub fn new() -> (c: Self)
        ensures
            u64_column(c) == Seq::<u64>::empty(),
    {
        U64Column { builder: PrimitiveBuilder::new() }
    }

    /// `PrimitiveBuilder::append_value`: pushes `v` at the end of the column.
    #[verifier::external_body]
    pub fn append(&mut self, v: u64)
        ensures
            u64_column(*final(self)) == u64_column(*old(self)).push(v),
    {
        self.builder.append_value(v)
    }

    /// `ArrayBuilder::len` of a `PrimitiveBuilder`: the number of values it holds.
    #[verifier::external_body]
    pub fn len(&self) -> (n: usize)
        ensures
            n == u64_column(*self).len(),
    {
        self.builder.len()
    }

    /// `PrimitiveBuilder::finish`: the array of the values gathered, in order; the
    /// column is left empty.
    #[verifier::external_body]
    pub fn finish(&mut self) -> (a: U64Array)
        ensures
            u64_array(a) == u64_column(*old(self)),
            u64_column(*final(self)) == Seq::<u64>::empty(),
    {
        U64Array { array: self.builder.finish() }
    }
}

/// A column of `u32` values being gathered for the next record batch.
#[verifier::external_body]
pub struct U32Column {
    builder: PrimitiveBuilder<UInt32Type>,
}

/// A finished column of `u32` values, ready to be put in a record batch.
#[verifier::external_body]
pub struct U32Array {
    pub array: PrimitiveArray<UInt32Type>,
}

/// The values appended to a `u32` column since it was made or last finished.
pub uninterp spec fn u32_column(c: U32Column) -> Seq<u32>;

/// The values of a finished `u32` column.
pub uninterp spec fn u32_array(a: U32Array) -> Seq<u32>;

impl U32Column {
    /// `PrimitiveBuilder::new`: a column that holds no value yet.
    #[verifier::external_body]
    pub fn new() -> (c: Self)
        ensures
            u32_column(c) == Seq::<u32>::empty(),
    {
        U32Column { builder: PrimitiveBuilder::new() }
    }

    /// `PrimitiveBuilder::append_value`: pushes `v` at the end of the column.
    #[verifier::external_body]
    pub fn append(&mut self, v: u32)
        ensures
            u32_column(*final(self)) == u32_column(*old(self)).push(v),
    {
        self.builder.append_value(v)
    }

    /// `ArrayBuilder::len` of a `PrimitiveBuilder`: the number of values it holds.
    #[verifier::external_body]
    pub fn len(&self) -> (n: usize)
        ensures
            n == u32_column(*self).len(),
    {
        self.builder.len()
    }

    /// `PrimitiveBuilder::finish`: the array of the values gathered, in order; the
    /// column is left empty.
    #[verifier::external_body]
    pub fn finish(&mut self) -> (a: U32Array)
        ensures
            u32_array(a) == u32_column(*old(self)),
            u32_column(*final(self)) == Seq::<u32>::empty(),
    {
        U32Array { array: self.builder.finish() }
    }
}

/// A column of `u16` values being gathered for the next record batch.
#[verifier::external_body]
pub struct U16Column {
    builder: PrimitiveBuilder<UInt16Type>,
}

/// A finished column of `u16` values, ready to be put in a record batch.
#[verifier::external_body]
pub struct U16Array {
    pub array: PrimitiveArray<UInt16Type>,
}

/// The values appended to a `u16` column since it was made or last finished.
pub uninterp spec fn u16_column(c: U16Column) -> Seq<u16>;

/// The values of a finished `u16` column.
pub uninterp spec fn u16_array(a: U16Array) -> Seq<u16>;

impl U16Column {
    /// `PrimitiveBuilder::new`: a column that holds no value yet.
    #[verifier::external_body]
    pub fn new() -> (c: Self)
        ensures
            u16_column(c) == Seq::<u16>::empty(),
    {
        U16Column { builder: PrimitiveBuilder::new() }
    }

    /// `PrimitiveBuilder::append_value`: pushes `v` at the end of the column.
    #[verifier::external_body]
    pub fn append(&mut self, v: u16)
        ensures
            u16_column(*final(self)) == u16_column(*old(self)).push(v),
    {
        self.builder.append_value(v)
    }

    /// `ArrayBuilder::len` of a `PrimitiveBuilder`: the number of values it holds.
    #[verifier::external_body]
    pub fn len(&self) -> (n: usize)
        ensures
            n == u16_column(*self).len(),
    {
        self.builder.len()
    }

    /// `PrimitiveBuilder::finish`: the array of the values gathered, in order; the
    /// column is left empty.
    #[verifier::external_body]
    pub fn finish(&mut self) -> (a: U16Array)
        ensures
            u16_array(a) == u16_column(*old(self)),
            u16_column(*final(self)) == Seq::<u16>::empty(),
    {
        U16Array { array: self.builder.finish() }
    }
}

} // verus!
