//! Arrays of unit values: only their number, and for nullable arrays their
//! validity, is stored.
use vstd::prelude::*;
use core::marker::PhantomData;
use crate::bitmap::Bitmap;
use crate::validity::{
    NonNullable, Nullability, Nullable, all_valid_bitmap, count_none, lemma_count_none,
    nullable_items, presence, presence_bitmap, validity_wf,
};

verus! {

/// Types with a single value, stored in a [`NullArray`].
pub trait Unit: Sized {
    /// The value of the type.
    spec fn spec_unit() -> Self;

    /// Returns the value of the type.
    fn unit() -> (r: Self)
        ensures
            r == Self::spec_unit(),
    ;
}

impl Unit for () {
    open spec fn spec_unit() -> () {
        ()
    }

    fn unit() -> (r: ()) {
    }
}

/// `n` copies of the unit value.
pub open spec fn units<T: Unit>(n: nat) -> Seq<T> {
    Seq::new(n, |i: int| T::spec_unit())
}

/// A number of unit values: only how many there are is stored.
pub struct Nulls<T: Unit> {
    /// The number of values.
    len: usize,
    /// The value type.
    marker: PhantomData<T>,
}

impl<T: Unit> View for Nulls<T> {
    type V = Seq<T>;

    closed spec fn view(&self) -> Seq<T> {
        units::<T>(self.len as nat)
    }
}

impl<T: Unit> Nulls<T> {
    /// Holds `len` unit values.
    pub fn new(len: usize) -> (r: Self)
        ensures
            r@ == units::<T>(len as nat),
    {
        Nulls { len, marker: PhantomData }
    }

    /// Holds as many unit values as are given.
    pub fn from_units(items: &[T]) -> (r: Self)
        ensures
            r@ == units::<T>(items@.len()),
    {
        Self::new(items.len())
    }

    /// Returns the number of values.
    pub fn len(&self) -> (r: usize)
        ensures
            r == self@.len(),
    {
        self.len
    }

    /// Returns `true` when there are no values.
    pub fn is_empty(&self) -> (r: bool)
        ensures
            r == (self@.len() == 0),
    {
        self.len == 0
    }

    /// Appends a unit value. The count must stay within `usize`.
    pub fn push(&mut self, item: T)
        requires
            old(self)@.len() < usize::MAX,
        ensures
            final(self)@ == old(self)@.push(T::spec_unit()),
    {
        self.len = self.len + 1;
        assert(self@ =~= old(self)@.push(T::spec_unit()));
    }

    /// Appends the given unit values. The count must stay within `usize`.
    pub fn extend(&mut self, items: &[T])
        requires
            old(self)@.len() + items@.len() <= usize::MAX,
        ensures
            final(self)@ == old(self)@ + units::<T>(items@.len()),
    {
        self.len = self.len + items.len();
        assert(self@ =~= old(self)@ + units::<T>(items@.len()));
    }

    /// Returns the value at `index`, which must be in bounds.
    pub fn index_checked(&self, index: usize) -> (r: T)
        requires
            index < self@.len(),
        ensures
            r == self@[index as int],
    {
        T::unit()
    }

    /// Returns the values in order.
    pub fn into_vec(self) -> (r: Vec<T>)
        ensures
            r@ == self@,
    {
        let mut out: Vec<T> = Vec::new();
        let mut i: usize = 0;
        while i < self.len
            invariant
                i <= self.len,
                out@ == units::<T>(i as nat),
            decreases self.len - i,
        {
            out.push(T::unit());
            i = i + 1;
            assert(out@ =~= units::<T>(i as nat));
        }
        out
    }
}

/// A sequence of unit values: only the number of items is stored, and for
/// a nullable array which of them are valid.
pub struct NullArray<T: Unit = (), N: Nullability = NonNullable> {
    /// The unit values.
    values: Nulls<T>,
    /// The validity bitmap of nullable arrays.
    nulls: N,
}

impl<T: Unit, N: Nullability> NullArray<T, N> {
    /// The number of items.
    pub closed spec fn items(&self) -> nat {
        self.values@.len()
    }

    /// The validity bitmap.
    pub closed spec fn validity(&self) -> Option<Bitmap> {
        self.nulls.bitmap()
    }

    /// The validity bitmap matches the nullability and the number of items.
    pub open spec fn wf(&self) -> bool {
        validity_wf(self.validity(), N::nullable(), self.items())
    }
}

impl<T: Unit, N: Nullability> View for NullArray<T, N> {
    type V = Seq<Option<T>>;

    open spec fn view(&self) -> Seq<Option<T>> {
        nullable_items(units::<T>(self.items()), self.validity())
    }
}

impl<T: Unit, N: Nullability> NullArray<T, N> {
    /// Returns the number of items.
    pub fn len(&self) -> (r: usize)
        ensures
            r == self@.len(),
    {
        self.values.len()
    }

    /// Returns `true` when this array holds no items.
    pub fn is_empty(&self) -> (r: bool)
        ensures
            r == (self@.len() == 0),
    {
        self.values.is_empty()
    }

    /// Returns the unit values.
    pub fn values(&self) -> (r: &Nulls<T>)
        ensures
            r@ == units::<T>(self@.len()),
    {
        &self.values
    }
}

impl<T: Unit> NullArray<T, NonNullable> {
    /// Builds an array of `len` items.
    pub fn with_len(len: usize) -> (r: Self)
        ensures
            r.wf(),
            r@ == units::<T>(len as nat).map_values(|u: T| Some(u)),
    {
        let r = NullArray { values: Nulls::new(len), nulls: NonNullable };
        assert(r@ =~= units::<T>(len as nat).map_values(|u: T| Some(u)));
        r
    }

    /// Appends an item. The number of items must stay within `usize`.
    pub fn push(&mut self, item: T)
        requires
            old(self).wf(),
            old(self)@.len() < usize::MAX,
        ensures
            final(self).wf(),
            final(self)@ == old(self)@.push(Some(T::spec_unit())),
    {
        self.values.push(item);
        assert(self@ =~= old(self)@.push(Some(T::spec_unit())));
    }

    /// Builds an array holding as many items as are given.
    pub fn from_units(items: &[T]) -> (r: Self)
        ensures
            r.wf(),
            r@ == units::<T>(items@.len()).map_values(|u: T| Some(u)),
    {
        Self::with_len(items.len())
    }

    /// Returns the item at `index`, or `None` when it is out of bounds.
    pub fn index(&self, index: usize) -> (r: Option<T>)
        ensures
            r == (if index < self@.len() {
                Some(T::spec_unit())
            } else {
                None
            }),
    {
        if index < self.values.len() {
            Some(T::unit())
        } else {
            None
        }
    }

    /// Returns the item at `index`, which must be in bounds.
    pub fn index_checked(&self, index: usize) -> (r: T)
        requires
            index < self@.len(),
        ensures
            r == T::spec_unit(),
    {
        T::unit()
    }

    /// Returns the items in order.
    pub fn into_vec(self) -> (r: Vec<T>)
        ensures
            r@ == units::<T>(self@.len()),
    {
        self.values.into_vec()
    }

    /// Converts this array into a nullable array in which all items are
    /// valid.
    pub fn into_nullable(self) -> (r: NullArray<T, Nullable>)
        requires
            self@.len() + 7 <= usize::MAX,
        ensures
            r.wf(),
            r@ == self@,
    {
        let validity = all_valid_bitmap(self.values.len());
        let r = NullArray { values: self.values, nulls: Nullable::new(validity) };
        assert(r@ =~= self@);
        r
    }
}

impl<T: Unit> NullArray<T, Nullable> {
    /// Returns an empty array.
    pub fn new() -> (r: Self)
        ensures
            r.wf(),
            r@ == Seq::<Option<T>>::empty(),
    {
        let r = NullArray { values: Nulls::new(0), nulls: Nullable::new(Bitmap::new()) };
        assert(r@ =~= Seq::<Option<T>>::empty());
        r
    }

    /// Appends an item, valid where it is present.
    pub fn push(&mut self, item: Option<T>)
        requires
            old(self).wf(),
            old(self)@.len() + 8 <= usize::MAX,
        ensures
            final(self).wf(),
            final(self)@ == old(self)@.push(
                match item {
                    Some(_) => Some(T::spec_unit()),
                    None => None,
                },
            ),
    {
        match item {
            Some(unit) => {
                self.values.push(unit);
                self.nulls.push(true);
            },
            None => {
                self.values.push(T::unit());
                self.nulls.push(false);
            },
        }
        assert(self@ =~= old(self)@.push(
            match item {
                Some(_) => Some(T::spec_unit()),
                None => None,
            },
        ));
    }

    /// Builds a nullable array holding as many items as are given, valid
    /// where they are present.
    pub fn from_options(items: &[Option<T>]) -> (r: Self)
        requires
            items.len() + 7 <= usize::MAX,
        ensures
            r.wf(),
            r@ == items@.map_values(
                |item: Option<T>|
                    match item {
                        Some(_) => Some(T::spec_unit()),
                        None => None,
                    },
            ),
    {
        let validity = presence_bitmap(items);
        let r = NullArray { values: Nulls::new(items.len()), nulls: Nullable::new(validity) };
        assert(r@ =~= items@.map_values(
            |item: Option<T>|
                match item {
                    Some(_) => Some(T::spec_unit()),
                    None => None,
                },
        ));
        r
    }

    /// Returns the validity bitmap.
    pub fn bitmap_ref(&self) -> (r: &Bitmap)
        requires
            self.wf(),
        ensures
            self.validity() == Some(*r),
            r@ == presence(self@),
    {
        let r = self.nulls.bitmap_ref();
        assert(r@ =~= presence(self@));
        r
    }

    /// Returns the item at `index`, which must be in bounds.
    pub fn index_checked(&self, index: usize) -> (r: Option<T>)
        requires
            self.wf(),
            index < self@.len(),
        ensures
            r == self@[index as int],
    {
        if self.nulls.bitmap_ref().get_unchecked(index) {
            Some(T::unit())
        } else {
            None
        }
    }

    /// Returns the item at `index`, or `None` when it is out of bounds.
    pub fn index(&self, index: usize) -> (r: Option<Option<T>>)
        requires
            self.wf(),
        ensures
            r == (if index < self@.len() {
                Some(self@[index as int])
            } else {
                None
            }),
    {
        if index < self.values.len() {
            Some(self.index_checked(index))
        } else {
            None
        }
    }

    /// Returns the items in order.
    pub fn into_vec(self) -> (r: Vec<Option<T>>)
        requires
            self.wf(),
        ensures
            r@ == self@,
    {
        let n = self.values.len();
        let mut out: Vec<Option<T>> = Vec::new();
        let mut i: usize = 0;
        while i < n
            invariant
                self.wf(),
                n == self@.len(),
                i <= n,
                out@ == self@.take(i as int),
            decreases n - i,
        {
            out.push(self.index_checked(i));
            i = i + 1;
            assert(out@ =~= self@.take(i as int));
        }
        assert(self@.take(i as int) =~= self@);
        out
    }

    /// Returns whether the item at `index` is valid, or `None` when the index
    /// is out of bounds.
    pub fn is_valid(&self, index: usize) -> (r: Option<bool>)
        requires
            self.wf(),
        ensures
            r == (if index < self@.len() {
                Some(self@[index as int] is Some)
            } else {
                None
            }),
    {
        self.bitmap_ref().is_valid(index)
    }

    /// Returns whether the item at `index` is null, or `None` when the index
    /// is out of bounds.
    pub fn is_null(&self, index: usize) -> (r: Option<bool>)
        requires
            self.wf(),
        ensures
            r == (if index < self@.len() {
                Some(self@[index as int] is None)
            } else {
                None
            }),
    {
        self.bitmap_ref().is_null(index)
    }

    /// Returns the number of null items.
    pub fn null_count(&self) -> (r: usize)
        requires
            self.wf(),
        ensures
            r == count_none(self@),
    {
        let bitmap = self.bitmap_ref();
        proof {
            lemma_count_none(self@, bitmap@);
        }
        bitmap.null_count()
    }
}

} // verus!
