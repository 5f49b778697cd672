//! Logical arrays: items of a user type stored through a fixed-size physical
//! item type.
use vstd::prelude::*;
use crate::fixed_size::FixedSize;
use crate::fixed_size_primitive::FixedSizePrimitiveArray;
use crate::validity::NonNullable;

verus! {

/// A type stored in arrays as a fixed-size physical item.
pub trait LogicalArrayType: Copy + Sized {
    /// The physical item type.
    type Item: FixedSize;

    /// The physical item that stands for a value.
    spec fn spec_convert_into(self) -> Self::Item;

    /// The value that a physical item stands for.
    spec fn spec_convert_from(value: Self::Item) -> Self;

    /// Converts a value into its physical item.
    fn convert_into(self) -> (r: Self::Item)
        ensures
            r == self.spec_convert_into(),
    ;

    /// Converts a physical item back into a value.
    fn convert_from(value: Self::Item) -> (r: Self)
        ensures
            r == Self::spec_convert_from(value),
    ;
}

/// Conversion of an item read from an array into a logical value.
pub trait LogicalFrom<T>: Sized {
    /// The value obtained from `value`.
    spec fn spec_logical_from(value: T) -> Self;

    /// Converts `value`.
    fn from(value: T) -> (r: Self)
        ensures
            r == Self::spec_logical_from(value),
    ;
}

/// An array of logical values, stored as their physical items.
pub struct LogicalArray<T: LogicalArrayType> {
    inner: FixedSizePrimitiveArray<T::Item, NonNullable>,
}

impl<T: LogicalArrayType> LogicalArray<T> {
    /// The stored physical items.
    pub closed spec fn items(&self) -> Seq<T::Item> {
        self.inner.values()
    }

    /// Builds an array from the given values, converting each into its
    /// physical item.
    pub fn from_values(values: &[T]) -> (r: Self)
        ensures
            r.items() == values@.map_values(|v: T| v.spec_convert_into()),
    {
        let mut items: Vec<T::Item> = Vec::new();
        let mut i: usize = 0;
        while i < values.len()
            invariant
                i <= values@.len(),
                items@ == values@.map_values(|v: T| v.spec_convert_into()).take(i as int),
            decreases values@.len() - i,
        {
            items.push(values[i].convert_into());
            i = i + 1;
            assert(items@ =~= values@.map_values(|v: T| v.spec_convert_into()).take(i as int));
        }
        assert(items@ =~= values@.map_values(|v: T| v.spec_convert_into()));
        LogicalArray { inner: FixedSizePrimitiveArray::from_values(items.as_slice()) }
    }

    /// Returns the number of items.
    pub fn len(&self) -> (r: usize)
        ensures
            r == self.items().len(),
    {
        self.inner.as_slice().len()
    }

    /// Returns `true` when this array holds no items.
    pub fn is_empty(&self) -> (r: bool)
        ensures
            r == (self.items().len() == 0),
    {
        self.inner.as_slice().len() == 0
    }

    /// Returns the physical array.
    pub fn physical(&self) -> (r: &FixedSizePrimitiveArray<T::Item, NonNullable>)
        ensures
            r.values() == self.items(),
    {
        &self.inner
    }

    /// Returns the logical values, each converted from its physical item with
    /// [`LogicalFrom`].
    pub fn iter(&self) -> (r: Vec<T>)
        where T: LogicalFrom<T::Item>,
        ensures
            r@ == self.items().map_values(|x: T::Item| T::spec_logical_from(x)),
    {
        let items = self.inner.as_slice();
        let mut out: Vec<T> = Vec::new();
        let mut i: usize = 0;
        while i < items.len()
            invariant
                items@ == self.items(),
                i <= items@.len(),
                out@ == self.items().map_values(|x: T::Item| T::spec_logical_from(x)).take(
                    i as int,
                ),
            decreases items@.len() - i,
        {
            out.push(T::from(items[i]));
            i = i + 1;
            assert(out@ =~= self.items().map_values(|x: T::Item| T::spec_logical_from(x)).take(
                i as int,
            ));
        }
        assert(out@ =~= self.items().map_values(|x: T::Item| T::spec_logical_from(x)));
        out
    }

    /// Returns the logical values, each converted back with
    /// [`LogicalArrayType::convert_from`].
    pub fn to_vec(&self) -> (r: Vec<T>)
        ensures
            r@ == self.items().map_values(|x: T::Item| T::spec_convert_from(x)),
    {
        let items = self.inner.as_slice();
        let mut out: Vec<T> = Vec::new();
        let mut i: usize = 0;
        while i < items.len()
            invariant
                items@ == self.items(),
                i <= items@.len(),
                out@ == self.items().map_values(|x: T::Item| T::spec_convert_from(x)).take(
                    i as int,
                ),
            decreases items@.len() - i,
        {
            out.push(T::convert_from(items[i]));
            i = i + 1;
            assert(out@ =~= self.items().map_values(|x: T::Item| T::spec_convert_from(x)).take(
                i as int,
            ));
        }
        assert(out@ =~= self.items().map_values(|x: T::Item| T::spec_convert_from(x)));
        out
    }
}


/// When [`LogicalFrom`] inverts [`LogicalArrayType::convert_into`], reading
/// an array back with [`LogicalArray::iter`] gives the values it was built
/// from with [`LogicalArray::from_values`].
pub proof fn lemma_logical_round_trip<T: LogicalArrayType + LogicalFrom<T::Item>>(values: Seq<T>)
    requires
        forall|x: T| T::spec_logical_from(#[trigger] x.spec_convert_into()) == x,
    ensures
        values.map_values(|v: T| v.spec_convert_into()).map_values(
            |x: T::Item| T::spec_logical_from(x),
        ) == values,
{
    assert(values.map_values(|v: T| v.spec_convert_into()).map_values(
        |x: T::Item| T::spec_logical_from(x),
    ) =~= values) by {
        assert forall|i: int| 0 <= i < values.len() implies values.map_values(
            |v: T| v.spec_convert_into(),
        ).map_values(|x: T::Item| T::spec_logical_from(x))[i] == values[i] by {
            assert(T::spec_logical_from(values[i].spec_convert_into()) == values[i]);
        }
    }
}

} // verus!
