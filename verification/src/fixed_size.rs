//! Types with a fixed size that are stored in primitive value buffers.
use vstd::prelude::*;

verus! {

/// Types with a known, fixed size that can be stored in a value buffer.
///
/// Null slots of nullable arrays hold [`FixedSize::zero`].
pub trait FixedSize: Copy + Sized {
    /// The default value of this type.
    spec fn spec_zero() -> Self;

    /// Returns the default value of this type.
    fn zero() -> (r: Self)
        ensures
            r == Self::spec_zero(),
    ;
}

impl FixedSize for u8 {
    open spec fn spec_zero() -> Self {
        0
    }

    fn zero() -> (r: Self) {
        0
    }
}

impl FixedSize for u16 {
    open spec fn spec_zero() -> Self {
        0
    }

    fn zero() -> (r: Self) {
        0
    }
}

impl FixedSize for u32 {
    open spec fn spec_zero() -> Self {
        0
    }

    fn zero() -> (r: Self) {
        0
    }
}

impl FixedSize for u64 {
    open spec fn spec_zero() -> Self {
        0
    }

    fn zero() -> (r: Self) {
        0
    }
}

impl FixedSize for u128 {
    open spec fn spec_zero() -> Self {
        0
    }

    fn zero() -> (r: Self) {
        0
    }
}

impl FixedSize for usize {
    open spec fn spec_zero() -> Self {
        0
    }

    fn zero() -> (r: Self) {
        0
    }
}

impl FixedSize for i8 {
    open spec fn spec_zero() -> Self {
        0
    }

    fn zero() -> (r: Self) {
        0
    }
}

impl FixedSize for i16 {
    open spec fn spec_zero() -> Self {
        0
    }

    fn zero() -> (r: Self) {
        0
    }
}

impl FixedSize for i32 {
    open spec fn spec_zero() -> Self {
        0
    }

    fn zero() -> (r: Self) {
        0
    }
}

impl FixedSize for i64 {
    open spec fn spec_zero() -> Self {
        0
    }

    fn zero() -> (r: Self) {
        0
    }
}

impl FixedSize for i128 {
    open spec fn spec_zero() -> Self {
        0
    }

    fn zero() -> (r: Self) {
        0
    }
}

impl FixedSize for isize {
    open spec fn spec_zero() -> Self {
        0
    }

    fn zero() -> (r: Self) {
        0
    }
}

impl<T: FixedSize, const N: usize> FixedSize for [T; N] {
    open spec fn spec_zero() -> Self {
        vstd::array::spec_array_fill_for_copy_type::<T, N>(T::spec_zero())
    }

    fn zero() -> (r: Self) {
        vstd::array::array_fill_for_copy_types::<T, N>(T::zero())
    }
}

} // verus!
