//! The growable array of right-row indices that a probe fills.

use polars_arrow::array::MutablePrimitiveArray;
use vstd::prelude::*;

verus! {

/// A `MutablePrimitiveArray` of 32-bit row indices. Nothing of its inside is
/// known here but through `idx_values`.
#[verifier::external_body]
pub struct IdxBuffer {
    inner: MutablePrimitiveArray<u32>,
}

/// The values that an index array holds, in the order in which they were
/// appended.
pub uninterp spec fn idx_values(a: IdxBuffer) -> Seq<u32>;

/// `MutablePrimitiveArray::new`: a new array holds no value.
#[verifier::external_body]
pub(crate) fn idx_new() -> (a: IdxBuffer)
    ensures
        idx_values(a) == Seq::<u32>::empty(),
{
    IdxBuffer { inner: MutablePrimitiveArray::new() }
}

/// `MutablePrimitiveArray::clear`: afterwards the array holds no value.
#[verifier::external_body]
pub(crate) fn idx_clear(a: &mut IdxBuffer)
    ensures
        idx_values(*final(a)) == Seq::<u32>::empty(),
{
    a.inner.clear()
}

/// `MutablePrimitiveArray::push_value`: appends the value at the end.
#[verifier::external_body]
pub(crate) fn idx_push_value(a: &mut IdxBuffer, value: u32)
    ensures
        idx_values(*final(a)) == idx_values(*old(a)).push(value),
{
    a.inner.push_value(value)
}

/// `MutablePrimitiveArray::extend_constant` with a present value: appends
/// `additional` copies of it at the end.
#[verifier::external_body]
pub(crate) fn idx_extend_constant(a: &mut IdxBuffer, additional: usize, value: u32)
    requires
        idx_values(*old(a)).len() + additional <= usize::MAX,
    ensures
        idx_values(*final(a)) == idx_values(*old(a)) + Seq::new(additional as nat, |j: int| value),
{
    a.inner.extend_constant(additional, Some(value))
}

/// `MutablePrimitiveArray::values`: hands out the values held, in order.
#[verifier::external_body]
pub(crate) fn idx_to_vec(a: &IdxBuffer) -> (v: Vec<u32>)
    ensures
        v@ == idx_values(*a),
{
    a.inner.values().clone()
}

} // verus!
