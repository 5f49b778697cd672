//! Variable-size binary elements: lists of bytes.
use vstd::prelude::*;
use crate::fixed_size_primitive::FixedSizePrimitiveArray;
use crate::validity::NonNullable;
use crate::variable_size_list::VariableSizeListArray;

verus! {

/// Variable-size binary elements.
///
/// Item `i` is the range of the byte array between offsets `i` and `i + 1`.
/// A nullable array also holds a validity bitmap; a null item is empty.
pub type VariableSizeBinaryArray<N = NonNullable, O = i32> = VariableSizeListArray<
    FixedSizePrimitiveArray<u8, NonNullable>,
    N,
    O,
>;

/// Variable-size binary elements, using `i32` offset values.
pub type BinaryArray<N = NonNullable> = VariableSizeBinaryArray<N, i32>;

/// Variable-size binary elements, using `i64` offset values.
pub type LargeBinaryArray<N = NonNullable> = VariableSizeBinaryArray<N, i64>;

} // verus!
