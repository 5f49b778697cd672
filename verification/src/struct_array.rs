//! Struct arrays: each item is a value of a struct type, stored field by
//! field in one array per field.
use vstd::prelude::*;
use crate::bitmap::Bitmap;
use crate::validity::{
    NonNullable, Nullability, Nullable, all_valid_bitmap, count_none, lemma_count_none, presence,
    valid_at, validity_wf,
};

verus! {

/// The arrays of the fields of a struct type, which store its values field
/// by field. Struct types provide them (see [`StructArrayType`]).
pub trait StructColumns<T>: Sized {
    /// The number of values stored.
    spec fn stored(&self) -> usize;

    /// The value stored at `index`.
    spec fn stored_at(&self, index: usize) -> T;

    /// Returns field arrays that store no value.
    fn empty() -> (r: Self)
        ensures
            r.stored() == 0,
    ;

    /// Returns the number of values stored.
    fn len(&self) -> (r: usize)
        ensures
            r == self.stored(),
    ;

    /// Appends a value: each field goes to the array of its field.
    fn push_value(&mut self, value: T)
        requires
            old(self).stored() + 8 <= usize::MAX,
        ensures
            final(self).stored() == old(self).stored() + 1,
            final(self).stored_at(old(self).stored()) == value,
            forall|i: usize|
                i < old(self).stored() ==> #[trigger] final(self).stored_at(i) == old(
                    self,
                ).stored_at(i),
    ;

    /// Returns the value stored at `index`, which must be in bounds.
    fn value_at(&self, index: usize) -> (r: T)
        requires
            index < self.stored(),
        ensures
            r == self.stored_at(index),
    ;
}

/// Struct types that can be stored in a [`StructArray`].
pub trait StructArrayType: Sized {
    /// The arrays of the fields of this type.
    type Array: StructColumns<Self>;

    /// Returns the value stored for a null item of a nullable array.
    fn filler() -> Self;
}

/// Array of struct values: the fields are stored in the arrays of
/// `T::Array`, and a nullable array also holds a validity bitmap; the
/// fields of a null item hold the filler value.
pub struct StructArray<T: StructArrayType, N: Nullability = NonNullable> {
    /// The field arrays.
    columns: T::Array,
    /// The validity bitmap of nullable arrays.
    nulls: N,
}

impl<T: StructArrayType, N: Nullability> StructArray<T, N> {
    /// The field arrays.
    pub closed spec fn columns(&self) -> T::Array {
        self.columns
    }

    /// The validity bitmap.
    pub closed spec fn validity(&self) -> Option<Bitmap> {
        self.nulls.bitmap()
    }

    /// The values stored in the field arrays.
    pub open spec fn values(&self) -> Seq<T> {
        Seq::new(
            self.columns().stored() as nat,
            |i: int| self.columns().stored_at(i as usize),
        )
    }

    /// The validity bitmap matches the nullability and covers all values.
    pub open spec fn wf(&self) -> bool {
        validity_wf(self.validity(), N::nullable(), self.columns().stored() as nat)
    }

    /// Returns the number of items.
    pub fn len(&self) -> (r: usize)
        ensures
            r == self@.len(),
    {
        self.columns.len()
    }

    /// Returns `true` when this array holds no items.
    pub fn is_empty(&self) -> (r: bool)
        ensures
            r == (self@.len() == 0),
    {
        self.columns.len() == 0
    }

    /// Returns the field arrays.
    pub fn columns_ref(&self) -> (r: &T::Array)
        ensures
            *r == self.columns(),
    {
        &self.columns
    }

    /// Consumes this array and returns its field arrays.
    pub fn into_columns(self) -> (r: T::Array)
        ensures
            r == self.columns(),
    {
        self.columns
    }
}

impl<T: StructArrayType, N: Nullability> View for StructArray<T, N> {
    type V = Seq<Option<T>>;

    open spec fn view(&self) -> Seq<Option<T>> {
        Seq::new(
            self.values().len(),
            |i: int|
                if valid_at(self.validity(), i) {
                    Some(self.values()[i])
                } else {
                    None
                },
        )
    }
}

impl<T: StructArrayType> StructArray<T, NonNullable> {
    /// Returns an empty array.
    pub fn new() -> (r: Self)
        ensures
            r.wf(),
            r@ == Seq::<Option<T>>::empty(),
    {
        let r = StructArray { columns: T::Array::empty(), nulls: NonNullable };
        assert(r@ =~= Seq::<Option<T>>::empty());
        r
    }

    /// Appends a value. The number of items must stay within `usize`.
    pub fn push(&mut self, value: T)
        requires
            old(self).wf(),
            old(self)@.len() + 8 <= usize::MAX,
        ensures
            final(self).wf(),
            final(self)@ == old(self)@.push(Some(value)),
    {
        self.columns.push_value(value);
        assert(self.values() =~= old(self).values().push(value));
        assert(self@ =~= old(self)@.push(Some(value)));
    }

    /// Builds an array holding the given values. The number of items must
    /// stay within `usize`.
    pub fn from_values(values: Vec<T>) -> (r: Self)
        requires
            values@.len() + 8 <= usize::MAX,
        ensures
            r.wf(),
            r@ == values@.map_values(|v: T| Some(v)),
    {
        let ghost all = values@;
        let mut rest = values;
        let mut r = Self::new();
        let mut i: usize = 0;
        while rest.len() > 0
            invariant
                all.len() + 8 <= usize::MAX,
                i + rest@.len() == all.len(),
                rest@ == all.skip(i as int),
                r.wf(),
                r@ == all.map_values(|v: T| Some(v)).take(i as int),
            decreases rest@.len(),
        {
            let value = rest.remove(0);
            r.push(value);
            i = i + 1;
            assert(rest@ =~= all.skip(i as int));
            assert(r@ =~= all.map_values(|v: T| Some(v)).take(i as int));
        }
        assert(all.map_values(|v: T| Some(v)).take(i as int) =~= all.map_values(|v: T| Some(v)));
        r
    }

    /// Returns the value at `index`, which must be in bounds.
    pub fn index_checked(&self, index: usize) -> (r: T)
        requires
            index < self@.len(),
        ensures
            Some(r) == self@[index as int],
    {
        self.columns.value_at(index)
    }

    /// Returns the value at `index`, or `None` when it is out of bounds.
    pub fn index(&self, index: usize) -> (r: Option<T>)
        ensures
            r == (if index < self@.len() {
                self@[index as int]
            } else {
                None
            }),
    {
        if index < self.columns.len() {
            Some(self.columns.value_at(index))
        } else {
            None
        }
    }

    /// Returns the values of this array in order.
    pub fn into_vec(self) -> (r: Vec<T>)
        ensures
            r@.map_values(|v: T| Some(v)) == self@,
    {
        let n = self.columns.len();
        let mut out: Vec<T> = Vec::new();
        let mut i: usize = 0;
        while i < n
            invariant
                n == self@.len(),
                i <= n,
                out@.map_values(|v: T| Some(v)) == self@.take(i as int),
            decreases n - i,
        {
            let ghost before = out@;
            out.push(self.columns.value_at(i));
            assert(out@.map_values(|v: T| Some(v)) =~= before.map_values(|v: T| Some(v)).push(
                self@[i as int],
            ));
            i = i + 1;
            assert(out@.map_values(|v: T| Some(v)) =~= self@.take(i as int));
        }
        assert(self@.take(i as int) =~= self@);
        out
    }

    /// Converts this array into a nullable array in which all items are
    /// valid.
    pub fn into_nullable(self) -> (r: StructArray<T, Nullable>)
        requires
            self@.len() + 7 <= usize::MAX,
        ensures
            r.wf(),
            r@ == self@,
    {
        let validity = all_valid_bitmap(self.columns.len());
        let r = StructArray { columns: self.columns, nulls: Nullable::new(validity) };
        assert(r@ =~= self@);
        r
    }
}

impl<T: StructArrayType> StructArray<T, Nullable> {
    /// Returns an empty array.
    pub fn new() -> (r: Self)
        ensures
            r.wf(),
            r@ == Seq::<Option<T>>::empty(),
    {
        let r = StructArray { columns: T::Array::empty(), nulls: Nullable::new(Bitmap::new()) };
        assert(r@ =~= Seq::<Option<T>>::empty());
        r
    }

    /// Appends an item; the fields of a null item hold the filler value.
    /// The number of items must stay within `usize`.
    pub fn push(&mut self, item: Option<T>)
        requires
            old(self).wf(),
            old(self)@.len() + 8 <= usize::MAX,
        ensures
            final(self).wf(),
            final(self)@ == old(self)@.push(item),
    {
        let valid = item.is_some();
        let value = match item {
            Some(value) => value,
            None => T::filler(),
        };
        let ghost stored = value;
        self.columns.push_value(value);
        self.nulls.push(valid);
        assert(self.values() =~= old(self).values().push(stored));
        assert(self@ =~= old(self)@.push(item));
    }

    /// Builds a nullable array holding the given items. The number of items
    /// must stay within `usize`.
    pub fn from_options(items: Vec<Option<T>>) -> (r: Self)
        requires
            items@.len() + 8 <= usize::MAX,
        ensures
            r.wf(),
            r@ == items@,
    {
        let ghost all = items@;
        let mut rest = items;
        let mut r = Self::new();
        let mut i: usize = 0;
        while rest.len() > 0
            invariant
                all.len() + 8 <= usize::MAX,
                i + rest@.len() == all.len(),
                rest@ == all.skip(i as int),
                r.wf(),
                r@ == all.take(i as int),
            decreases rest@.len(),
        {
            let item = rest.remove(0);
            r.push(item);
            i = i + 1;
            assert(rest@ =~= all.skip(i as int));
            assert(r@ =~= all.take(i as int));
        }
        assert(all.take(i as int) =~= all);
        r
    }

    /// Returns the item at `index`, which must be in bounds.
    pub fn index_checked(&self, index: usize) -> (r: Option<T>)
        requires
            self.wf(),
            index < self@.len(),
        ensures
            r == self@[index as int],
    {
        if self.nulls.bitmap_ref().get_unchecked(index) {
            Some(self.columns.value_at(index))
        } else {
            None
        }
    }

    /// Returns the item at `index`, or `None` when it is out of bounds.
    pub fn index(&self, index: usize) -> (r: Option<Option<T>>)
        requires
            self.wf(),
        ensures
            r == (if index < self@.len() {
                Some(self@[index as int])
            } else {
                None
            }),
    {
        if index < self.columns.len() {
            Some(self.index_checked(index))
        } else {
            None
        }
    }

    /// Returns the items of this array in order.
    pub fn into_vec(self) -> (r: Vec<Option<T>>)
        requires
            self.wf(),
        ensures
            r@ == self@,
    {
        let n = self.columns.len();
        let mut out: Vec<Option<T>> = Vec::new();
        let mut i: usize = 0;
        while i < n
            invariant
                self.wf(),
                n == self@.len(),
                i <= n,
                out@ == self@.take(i as int),
            decreases n - i,
        {
            out.push(self.index_checked(i));
            i = i + 1;
            assert(out@ =~= self@.take(i as int));
        }
        assert(self@.take(i as int) =~= self@);
        out
    }

    /// Returns the validity bitmap.
    pub fn bitmap_ref(&self) -> (r: &Bitmap)
        requires
            self.wf(),
        ensures
            r.wf(),
            r.padding_clear(),
            r@ == presence(self@),
    {
        let r = self.nulls.bitmap_ref();
        assert(r@ =~= presence(self@));
        r
    }

    /// Returns whether the item at `index` is valid, or `None` when the index
    /// is out of bounds.
    pub fn is_valid(&self, index: usize) -> (r: Option<bool>)
        requires
            self.wf(),
        ensures
            r == (if index < self@.len() {
                Some(self@[index as int] is Some)
            } else {
                None
            }),
    {
        self.bitmap_ref().is_valid(index)
    }

    /// Returns whether the item at `index` is null, or `None` when the index
    /// is out of bounds.
    pub fn is_null(&self, index: usize) -> (r: Option<bool>)
        requires
            self.wf(),
        ensures
            r == (if index < self@.len() {
                Some(self@[index as int] is None)
            } else {
                None
            }),
    {
        self.bitmap_ref().is_null(index)
    }

    /// Returns the number of null items.
    pub fn null_count(&self) -> (r: usize)
        requires
            self.wf(),
        ensures
            r == count_none(self@),
    {
        let bitmap = self.bitmap_ref();
        proof {
            lemma_count_none(self@, bitmap@);
        }
        bitmap.null_count()
    }
}

} // verus!
