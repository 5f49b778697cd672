//! Array with boolean values.
use vstd::prelude::*;
use crate::bitmap::Bitmap;
use crate::validity::{
    NonNullable, Nullability, Nullable,
    count_none, lemma_count_none, nullable_items, presence, presence_bitmap, validity_wf,
};

verus! {

/// Array with boolean values.
///
/// Values are stored using single bits in a [`Bitmap`]. A nullable array
/// also holds a validity bitmap; the value bit of a null item is unset.
pub struct BooleanArray<N: Nullability = NonNullable> {
    /// The value bits.
    values: Bitmap,
    /// The validity bitmap of nullable arrays.
    nulls: N,
}

impl<N: Nullability> BooleanArray<N> {
    /// The value bitmap.
    pub closed spec fn values(&self) -> Bitmap {
        self.values
    }

    /// The validity bitmap.
    pub closed spec fn validity(&self) -> Option<Bitmap> {
        self.nulls.bitmap()
    }

    /// The bitmaps are well formed and cover the same items.
    pub open spec fn wf(&self) -> bool {
        &&& self.values().wf()
        &&& validity_wf(self.validity(), N::nullable(), self.values()@.len())
    }
}

impl<N: Nullability> View for BooleanArray<N> {
    type V = Seq<Option<bool>>;

    open spec fn view(&self) -> Seq<Option<bool>> {
        nullable_items(self.values()@, self.validity())
    }
}

/// The value bit stored for an item: the item itself, or unset.
pub open spec fn bit_or_unset(item: Option<bool>) -> bool {
    match item {
        Some(value) => value,
        None => false,
    }
}

impl<N: Nullability> BooleanArray<N> {
    /// Returns the validity bitmap of a nullable array.
    pub fn validity_bitmap(&self) -> (r: Option<&Bitmap>)
        ensures
            r is None <==> self.validity() is None,
            r matches Some(b) ==> self.validity() == Some(*b),
    {
        self.nulls.bitmap_opt()
    }

    /// Returns the number of items in this array.
    pub fn len(&self) -> (r: usize)
        ensures
            r == self@.len(),
    {
        self.values.len()
    }

    /// Returns `true` when this array holds no items.
    pub fn is_empty(&self) -> (r: bool)
        ensures
            r == (self@.len() == 0),
    {
        self.values.is_empty()
    }

    /// Returns the value bitmap.
    pub fn value_bits(&self) -> (r: &Bitmap)
        ensures
            *r == self.values(),
    {
        &self.values
    }

    /// Returns the bytes of the value bitmap.
    pub fn buffer_ref(&self) -> (r: &[u8])
        ensures
            r@ == self.values().bytes(),
    {
        self.values.as_bytes()
    }

    /// Overwrites byte `index` of the value bitmap.
    pub fn set_byte(&mut self, index: usize, value: u8)
        requires
            old(self).wf(),
            index < old(self).values().bytes().len(),
        ensures
            final(self).wf(),
            final(self).validity() == old(self).validity(),
            final(self).values().nbits() == old(self).values().nbits(),
            final(self).values().bytes() == old(self).values().bytes().update(index as int, value),
    {
        self.values.set_byte(index, value);
    }
}

impl BooleanArray<NonNullable> {
    /// Builds an array that takes over the given value bitmap.
    pub fn from_bitmap(values: Bitmap) -> (r: Self)
        requires
            values.wf(),
        ensures
            r.wf(),
            r.values() == values,
            r@ == values@.map_values(|v: bool| Some(v)),
    {
        let r = BooleanArray { values, nulls: NonNullable };
        assert(r@ =~= values@.map_values(|v: bool| Some(v)));
        r
    }

    /// Consumes this array and returns its value bitmap.
    pub fn into_bitmap(self) -> (r: Bitmap)
        ensures
            r == self.values(),
    {
        self.values
    }

    /// Returns an empty array.
    pub fn new() -> (r: Self)
        ensures
            r.wf(),
            r.values().padding_clear(),
            r@ == Seq::<Option<bool>>::empty(),
    {
        let r = BooleanArray { values: Bitmap::new(), nulls: NonNullable };
        assert(r@ =~= Seq::<Option<bool>>::empty());
        r
    }

    /// Appends a value. The value bitmap must have no stray padding bits.
    pub fn push(&mut self, value: bool)
        requires
            old(self).wf(),
            old(self).values().padding_clear(),
            old(self)@.len() + 8 <= usize::MAX,
        ensures
            final(self).wf(),
            final(self).values().padding_clear(),
            final(self)@ == old(self)@.push(Some(value)),
    {
        self.values.push(value);
        assert(self@ =~= old(self)@.push(Some(value)));
    }

    /// Builds an array holding the given values.
    pub fn from_values(values: &[bool]) -> (r: Self)
        requires
            values.len() + 7 <= usize::MAX,
        ensures
            r.wf(),
            r.values()@ == values@,
            r.values().padding_clear(),
            r@ == values@.map_values(|v: bool| Some(v)),
    {
        let r = BooleanArray { values: Bitmap::from_bools(values), nulls: NonNullable };
        assert(r@ =~= values@.map_values(|v: bool| Some(v)));
        r
    }

    /// Returns the values of this array in order.
    pub fn iter(&self) -> (r: Vec<bool>)
        requires
            self.wf(),
        ensures
            r@ == self.values()@,
    {
        self.values.to_vec()
    }

    /// Consumes this array and returns its values in order.
    pub fn into_vec(self) -> (r: Vec<bool>)
        requires
            self.wf(),
        ensures
            r@ == self.values()@,
    {
        self.values.to_vec()
    }

    /// Returns the value at `index`, or `None` when it is out of bounds.
    pub fn index(&self, index: usize) -> (r: Option<bool>)
        requires
            self.wf(),
        ensures
            r == (if index < self@.len() {
                Some(self.values()@[index as int])
            } else {
                None
            }),
    {
        self.values.get(index)
    }

    /// Returns the value at `index`, which must be in bounds.
    pub fn index_checked(&self, index: usize) -> (r: bool)
        requires
            self.wf(),
            index < self@.len(),
        ensures
            r == self.values()@[index as int],
    {
        self.values.get_unchecked(index)
    }

    /// Converts this array into a nullable array in which all items are
    /// valid.
    pub fn into_nullable(self) -> (r: BooleanArray<Nullable>)
        requires
            self.wf(),
        ensures
            r.wf(),
            r.values() == self.values(),
            r@ == self.values()@.map_values(|v: bool| Some(v)),
    {
        let n = self.values.len();
        let mut flags: Vec<bool> = Vec::new();
        let mut i: usize = 0;
        while i < n
            invariant
                i <= n,
                flags@.len() == i,
                forall|j: int| 0 <= j < i ==> flags@[j],
            decreases n - i,
        {
            flags.push(true);
            i = i + 1;
        }
        proof {
            assert(8 * self.values().bytes().len() <= usize::MAX);
        }
        let validity = Bitmap::from_bools(flags.as_slice());
        let r = BooleanArray { values: self.values, nulls: Nullable::new(validity) };
        assert(r@ =~= self.values()@.map_values(|v: bool| Some(v)));
        r
    }
}

impl BooleanArray<Nullable> {
    /// Builds a nullable array from its value bitmap and validity bitmap,
    /// or returns `None` when they do not cover the same number of items or
    /// the validity bitmap has stray padding bits.
    pub fn from_parts(values: Bitmap, validity: Bitmap) -> (r: Option<Self>)
        requires
            values.wf(),
            validity.wf(),
        ensures
            r is Some <==> validity@.len() == values@.len() && validity.padding_clear(),
            r matches Some(a) ==> a.wf() && a.values() == values && a.validity() == Some(
                validity,
            ),
    {
        if validity.len() == values.len() && validity.padding_is_clear() {
            Some(BooleanArray { values, nulls: Nullable::new(validity) })
        } else {
            None
        }
    }

    /// Consumes this array and returns its value bitmap and validity
    /// bitmap.
    pub fn into_parts(self) -> (r: (Bitmap, Bitmap))
        ensures
            r.0 == self.values(),
            self.validity() == Some(r.1),
    {
        let BooleanArray { values, nulls } = self;
        (values, nulls.into_bitmap())
    }

    /// Returns an empty array.
    pub fn new() -> (r: Self)
        ensures
            r.wf(),
            r.values().padding_clear(),
            r@ == Seq::<Option<bool>>::empty(),
    {
        let r = BooleanArray { values: Bitmap::new(), nulls: Nullable::new(Bitmap::new()) };
        assert(r@ =~= Seq::<Option<bool>>::empty());
        r
    }

    /// Appends an item; the value bit of a null item is unset. The value
    /// bitmap must have no stray padding bits.
    pub fn push(&mut self, item: Option<bool>)
        requires
            old(self).wf(),
            old(self).values().padding_clear(),
            old(self)@.len() + 8 <= usize::MAX,
        ensures
            final(self).wf(),
            final(self).values().padding_clear(),
            final(self).values()@ == old(self).values()@.push(bit_or_unset(item)),
            final(self)@ == old(self)@.push(item),
    {
        let bit = match item {
            Some(value) => value,
            None => false,
        };
        self.values.push(bit);
        self.nulls.push(item.is_some());
        assert(self@ =~= old(self)@.push(item));
    }

    /// Builds a nullable array holding the given items. The value bit of a
    /// null item is unset.
    pub fn from_options(items: &[Option<bool>]) -> (r: Self)
        requires
            items.len() + 7 <= usize::MAX,
        ensures
            r.wf(),
            r@ == items@,
            r.values()@ == items@.map_values(|item: Option<bool>| bit_or_unset(item)),
            r.values().padding_clear(),
    {
        let mut bits: Vec<bool> = Vec::new();
        let mut i: usize = 0;
        while i < items.len()
            invariant
                i <= items.len(),
                bits@ == items@.map_values(|item: Option<bool>| bit_or_unset(item)).take(i as int),
            decreases items.len() - i,
        {
            let bit = match items[i] {
                Some(value) => value,
                None => false,
            };
            bits.push(bit);
            i = i + 1;
            assert(bits@ =~= items@.map_values(|item: Option<bool>| bit_or_unset(item)).take(
                i as int,
            ));
        }
        assert(bits@ =~= items@.map_values(|item: Option<bool>| bit_or_unset(item)));
        let values = Bitmap::from_bools(bits.as_slice());
        let validity = presence_bitmap(items);
        let r = BooleanArray { values, nulls: Nullable::new(validity) };
        assert(r@ =~= items@);
        r
    }

    /// Returns the item at `index`, which must be in bounds.
    pub fn index_checked(&self, index: usize) -> (r: Option<bool>)
        requires
            self.wf(),
            index < self@.len(),
        ensures
            r == self@[index as int],
    {
        let validity = self.nulls.bitmap_ref();
        if validity.get_unchecked(index) {
            Some(self.values.get_unchecked(index))
        } else {
            None
        }
    }

    /// Returns the item at `index`, or `None` when it is out of bounds.
    pub fn index(&self, index: usize) -> (r: Option<Option<bool>>)
        requires
            self.wf(),
        ensures
            r == (if index < self@.len() {
                Some(self@[index as int])
            } else {
                None
            }),
    {
        if index < self.values.len() {
            Some(self.index_checked(index))
        } else {
            None
        }
    }

    /// Returns the items of this array in order.
    pub fn iter(&self) -> (r: Vec<Option<bool>>)
        requires
            self.wf(),
        ensures
            r@ == self@,
    {
        let mut out: Vec<Option<bool>> = Vec::new();
        let mut i: usize = 0;
        while i < self.values.len()
            invariant
                self.wf(),
                i <= self@.len(),
                out@ == self@.take(i as int),
            decreases self@.len() - i,
        {
            out.push(self.index_checked(i));
            i = i + 1;
            assert(out@ =~= self@.take(i as int));
        }
        assert(out@ =~= self@);
        out
    }

    /// Consumes this array and returns its items in order.
    pub fn into_vec(self) -> (r: Vec<Option<bool>>)
        requires
            self.wf(),
        ensures
            r@ == self@,
    {
        self.iter()
    }

    /// Returns the validity bitmap.
    pub fn bitmap_ref(&self) -> (r: &Bitmap)
        requires
            self.wf(),
        ensures
            r.wf(),
            r.padding_clear(),
            r@ == presence(self@),
    {
        let r = self.nulls.bitmap_ref();
        assert(r@ =~= presence(self@));
        r
    }

    /// Returns whether the item at `index` is valid, or `None` when the index
    /// is out of bounds.
    pub fn is_valid(&self, index: usize) -> (r: Option<bool>)
        requires
            self.wf(),
        ensures
            r == (if index < self@.len() {
                Some(self@[index as int] is Some)
            } else {
                None
            }),
    {
        self.bitmap_ref().is_valid(index)
    }

    /// Returns whether the item at `index` is null, or `None` when the index
    /// is out of bounds.
    pub fn is_null(&self, index: usize) -> (r: Option<bool>)
        requires
            self.wf(),
        ensures
            r == (if index < self@.len() {
                Some(self@[index as int] is None)
            } else {
                None
            }),
    {
        self.bitmap_ref().is_null(index)
    }

    /// Returns the number of null items.
    pub fn null_count(&self) -> (r: usize)
        requires
            self.wf(),
        ensures
            r == count_none(self@),
    {
        let bitmap = self.bitmap_ref();
        proof {
            lemma_count_none(self@, bitmap@);
        }
        bitmap.null_count()
    }

    /// Returns `true` when no item is null.
    pub fn all_valid(&self) -> (r: bool)
        requires
            self.wf(),
        ensures
            r == (count_none(self@) == 0),
    {
        self.null_count() == 0
    }
}

} // verus!
