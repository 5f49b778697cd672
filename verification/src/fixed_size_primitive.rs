//! Array with fixed-size primitive values.
use vstd::prelude::*;
use crate::buffer::Buffer;
use crate::bitmap::Bitmap;
use crate::bits::{bit_at, count_false};
use crate::fixed_size::FixedSize;
use crate::offset::concat;
use crate::validity::{
    NonNullable, Nullability, Nullable,
    count_none, lemma_count_none, nullable_items, presence, presence_bitmap, valid_at,
    validity_wf,
};

verus! {

/// Array with primitive values.
///
/// The values are stored in a value buffer. A nullable array also holds a
/// validity bitmap; the value slot of a null item holds the default value.
pub struct FixedSizePrimitiveArray<T: FixedSize, N: Nullability = NonNullable> {
    /// The value buffer.
    values: Vec<T>,
    /// The validity bitmap of nullable arrays.
    nulls: N,
}

/// Array with `i8` values.
pub type Int8Array<N = NonNullable> = FixedSizePrimitiveArray<i8, N>;

/// Array with `i16` values.
pub type Int16Array<N = NonNullable> = FixedSizePrimitiveArray<i16, N>;

/// Array with `i32` values.
pub type Int32Array<N = NonNullable> = FixedSizePrimitiveArray<i32, N>;

/// Array with `i64` values.
pub type Int64Array<N = NonNullable> = FixedSizePrimitiveArray<i64, N>;

/// Array with `i128` values.
pub type Int128Array<N = NonNullable> = FixedSizePrimitiveArray<i128, N>;

/// Array with `u8` values.
pub type Uint8Array<N = NonNullable> = FixedSizePrimitiveArray<u8, N>;

/// Array with `u16` values.
pub type Uint16Array<N = NonNullable> = FixedSizePrimitiveArray<u16, N>;

/// Array with `u32` values.
pub type Uint32Array<N = NonNullable> = FixedSizePrimitiveArray<u32, N>;

/// Array with `u64` values.
pub type Uint64Array<N = NonNullable> = FixedSizePrimitiveArray<u64, N>;

/// Array with `u128` values.
pub type Uint128Array<N = NonNullable> = FixedSizePrimitiveArray<u128, N>;

/// Array with `isize` values.
pub type IsizeArray<N = NonNullable> = FixedSizePrimitiveArray<isize, N>;

/// Array with `usize` values.
pub type UsizeArray<N = NonNullable> = FixedSizePrimitiveArray<usize, N>;

/// Array of fixed-size binary values: `M` bytes per item.
pub type FixedSizeBinaryArray<const M: usize, N = NonNullable> = FixedSizePrimitiveArray<[u8; M], N>;

impl<T: FixedSize, N: Nullability> FixedSizePrimitiveArray<T, N> {
    /// The values in the value buffer.
    pub closed spec fn values(&self) -> Seq<T> {
        self.values@
    }

    /// The validity bitmap.
    pub closed spec fn validity(&self) -> Option<Bitmap> {
        self.nulls.bitmap()
    }

    /// The validity bitmap matches the nullability and the values.
    pub open spec fn wf(&self) -> bool {
        validity_wf(self.validity(), N::nullable(), self.values().len())
    }
}

impl<T: FixedSize, N: Nullability> View for FixedSizePrimitiveArray<T, N> {
    type V = Seq<Option<T>>;

    open spec fn view(&self) -> Seq<Option<T>> {
        nullable_items(self.values(), self.validity())
    }
}

/// The value stored for an item: the item itself, or the default value.
pub open spec fn value_or_zero<T: FixedSize>(item: Option<T>) -> T {
    match item {
        Some(value) => value,
        None => T::spec_zero(),
    }
}

impl<T: FixedSize, N: Nullability> FixedSizePrimitiveArray<T, N> {
    /// Returns the validity bitmap of a nullable array.
    pub fn validity_bitmap(&self) -> (r: Option<&Bitmap>)
        ensures
            r is None <==> self.validity() is None,
            r matches Some(b) ==> self.validity() == Some(*b),
    {
        self.nulls.bitmap_opt()
    }

    /// Returns the number of items in this array.
    pub fn len(&self) -> (r: usize)
        ensures
            r == self@.len(),
    {
        self.values.len()
    }

    /// Returns `true` when this array holds no items.
    pub fn is_empty(&self) -> (r: bool)
        ensures
            r == (self@.len() == 0),
    {
        self.values.len() == 0
    }

    /// Returns the value buffer.
    pub fn as_slice(&self) -> (r: &[T])
        ensures
            r@ == self.values(),
    {
        self.values.as_slice()
    }

    /// Consumes this array and returns its value buffer, without copying
    /// it (the slots of null items hold filler values).
    pub fn into_values(self) -> (r: Vec<T>)
        ensures
            r@ == self.values(),
    {
        self.values
    }
}

impl<T: FixedSize> FixedSizePrimitiveArray<T, NonNullable> {
    /// Builds an array holding the given values.
    pub fn from_values(values: &[T]) -> (r: Self)
        ensures
            r.wf(),
            r.values() == values@,
            r@ == values@.map_values(|v: T| Some(v)),
    {
        let mut out: Vec<T> = Vec::new();
        let mut i: usize = 0;
        while i < values.len()
            invariant
                i <= values.len(),
                out@ == values@.take(i as int),
            decreases values.len() - i,
        {
            out.push(values[i]);
            i = i + 1;
            assert(out@ =~= values@.take(i as int));
        }
        assert(out@ =~= values@);
        let r = FixedSizePrimitiveArray { values: out, nulls: NonNullable };
        assert(r@ =~= values@.map_values(|v: T| Some(v)));
        r
    }

    /// Builds an array that takes over the given value buffer.
    pub fn from_vec(values: Vec<T>) -> (r: Self)
        ensures
            r.wf(),
            r.values() == values@,
            r@ == values@.map_values(|v: T| Some(v)),
    {
        let r = FixedSizePrimitiveArray { values, nulls: NonNullable };
        assert(r@ =~= r.values().map_values(|v: T| Some(v)));
        r
    }

    /// Returns an empty array.
    pub fn new() -> (r: Self)
        ensures
            r.wf(),
            r.values() == Seq::<T>::empty(),
            r@ == Seq::<Option<T>>::empty(),
    {
        let r = FixedSizePrimitiveArray { values: Vec::new(), nulls: NonNullable };
        assert(r@ =~= Seq::<Option<T>>::empty());
        r
    }

    /// Appends a value.
    pub fn push(&mut self, value: T)
        requires
            old(self).wf(),
        ensures
            final(self).wf(),
            final(self).values() == old(self).values().push(value),
            final(self)@ == old(self)@.push(Some(value)),
    {
        self.values.push(value);
        assert(self@ =~= old(self)@.push(Some(value)));
    }

    /// Builds an array holding the items of a buffer.
    pub fn from_buffer<B: Buffer<T>>(buffer: &B) -> (r: Self)
        ensures
            r.wf(),
            r.values() == buffer.items(),
    {
        Self::from_values(buffer.as_slice())
    }

    /// Copies the values of this array into a buffer of the given kind.
    pub fn to_buffer<B: Buffer<T>>(&self) -> (r: B)
        ensures
            r.items() == self.values(),
    {
        B::from_slice(self.values.as_slice())
    }

    /// Returns the values of this array in order.
    pub fn iter(&self) -> (r: Vec<T>)
        ensures
            r@ == self.values(),
    {
        let mut out: Vec<T> = Vec::new();
        let mut i: usize = 0;
        while i < self.values.len()
            invariant
                i <= self.values@.len(),
                out@ == self.values@.take(i as int),
            decreases self.values@.len() - i,
        {
            out.push(self.values[i]);
            i = i + 1;
            assert(out@ =~= self.values@.take(i as int));
        }
        assert(out@ =~= self.values@);
        out
    }

    /// Consumes this array and returns its values in order.
    pub fn into_vec(self) -> (r: Vec<T>)
        ensures
            r@ == self.values(),
    {
        self.values
    }

    /// Returns the value at `index`, or `None` when it is out of bounds.
    pub fn index(&self, index: usize) -> (r: Option<T>)
        ensures
            r == (if index < self@.len() {
                Some(self.values()[index as int])
            } else {
                None
            }),
    {
        if index < self.values.len() {
            Some(self.values[index])
        } else {
            None
        }
    }

    /// Returns the value at `index`, which must be in bounds.
    pub fn index_checked(&self, index: usize) -> (r: T)
        requires
            index < self@.len(),
        ensures
            r == self.values()[index as int],
    {
        self.values[index]
    }

    /// Converts this array into a nullable array in which all items are
    /// valid.
    pub fn into_nullable(self) -> (r: FixedSizePrimitiveArray<T, Nullable>)
        requires
            self@.len() + 7 <= usize::MAX,
        ensures
            r.wf(),
            r.values() == self.values(),
            r@ == self.values().map_values(|v: T| Some(v)),
    {
        let n = self.values.len();
        let mut flags: Vec<bool> = Vec::new();
        let mut i: usize = 0;
        while i < n
            invariant
                i <= n,
                flags@.len() == i,
                forall|j: int| 0 <= j < i ==> flags@[j],
            decreases n - i,
        {
            flags.push(true);
            i = i + 1;
        }
        let validity = Bitmap::from_bools(flags.as_slice());
        let r = FixedSizePrimitiveArray { values: self.values, nulls: Nullable::new(validity) };
        assert(r@ =~= self.values().map_values(|v: T| Some(v)));
        r
    }
}

impl FixedSizePrimitiveArray<u8, NonNullable> {
    /// Returns the bytes of the value buffer.
    pub fn as_bytes(&self) -> (r: &[u8])
        ensures
            r@ == self.values(),
    {
        self.values.as_slice()
    }
}

impl<T: FixedSize, const M: usize, N: Nullability> FixedSizePrimitiveArray<[T; M], N> {
    /// Returns the items of all values, one value after the other.
    pub fn flatten(&self) -> (r: Vec<T>)
        ensures
            r@ == concat(self.values().map_values(|v: [T; M]| v@)),
    {
        let ghost views = self.values().map_values(|v: [T; M]| v@);
        let mut out: Vec<T> = Vec::new();
        let mut i: usize = 0;
        while i < self.values.len()
            invariant
                i <= self.values@.len(),
                views == self.values@.map_values(|v: [T; M]| v@),
                out@ == concat(views.take(i as int)),
            decreases self.values@.len() - i,
        {
            let value = self.values[i];
            let ghost before = out@;
            let mut j: usize = 0;
            while j < M
                invariant
                    j <= M,
                    value@.len() == M,
                    out@ == before + value@.take(j as int),
                decreases M - j,
            {
                out.push(value[j]);
                j = j + 1;
                assert(out@ =~= before + value@.take(j as int));
            }
            proof {
                assert(value@.take(j as int) =~= value@);
                assert(views.take(i + 1).drop_last() =~= views.take(i as int));
            }
            i = i + 1;
        }
        assert(views.take(i as int) =~= views);
        out
    }
}

impl<const M: usize, N: Nullability> FixedSizePrimitiveArray<[u8; M], N> {
    /// Returns the bytes of the value buffer: the bytes of each value, in
    /// order.
    pub fn as_bytes(&self) -> (r: Vec<u8>)
        ensures
            r@ == concat(self.values().map_values(|v: [u8; M]| v@)),
    {
        let ghost views = self.values().map_values(|v: [u8; M]| v@);
        let mut out: Vec<u8> = Vec::new();
        let mut i: usize = 0;
        while i < self.values.len()
            invariant
                i <= self.values@.len(),
                views == self.values@.map_values(|v: [u8; M]| v@),
                out@ == concat(views.take(i as int)),
            decreases self.values@.len() - i,
        {
            let value = self.values[i];
            let ghost before = out@;
            let mut j: usize = 0;
            while j < M
                invariant
                    j <= M,
                    value@.len() == M,
                    out@ == before + value@.take(j as int),
                decreases M - j,
            {
                out.push(value[j]);
                j = j + 1;
                assert(out@ =~= before + value@.take(j as int));
            }
            proof {
                assert(value@.take(j as int) =~= value@);
                assert(views.take(i + 1).drop_last() =~= views.take(i as int));
            }
            i = i + 1;
        }
        assert(views.take(i as int) =~= views);
        out
    }
}

impl<T: FixedSize> FixedSizePrimitiveArray<T, Nullable> {
    /// Builds a nullable array from its value buffer and validity bitmap, or
    /// returns `None` when the bitmap does not cover exactly the values or
    /// has stray padding bits.
    pub fn from_parts(values: Vec<T>, validity: Bitmap) -> (r: Option<Self>)
        requires
            validity.wf(),
        ensures
            r is Some <==> validity@.len() == values@.len() && validity.padding_clear(),
            r matches Some(a) ==> a.wf() && a.values() == values@ && a.validity() == Some(
                validity,
            ),
    {
        if validity.len() == values.len() && validity.padding_is_clear() {
            Some(FixedSizePrimitiveArray { values, nulls: Nullable::new(validity) })
        } else {
            None
        }
    }

    /// Consumes this array and returns its value buffer and validity bitmap.
    pub fn into_parts(self) -> (r: (Vec<T>, Bitmap))
        ensures
            r.0@ == self.values(),
            self.validity() == Some(r.1),
    {
        let FixedSizePrimitiveArray { values, nulls } = self;
        (values, nulls.into_bitmap())
    }

    /// Returns an empty array.
    pub fn new() -> (r: Self)
        ensures
            r.wf(),
            r.values() == Seq::<T>::empty(),
            r@ == Seq::<Option<T>>::empty(),
    {
        let r = FixedSizePrimitiveArray { values: Vec::new(), nulls: Nullable::new(Bitmap::new()) };
        assert(r@ =~= Seq::<Option<T>>::empty());
        r
    }

    /// Appends an item; the value slot of a null item holds the default
    /// value.
    pub fn push(&mut self, item: Option<T>)
        requires
            old(self).wf(),
            old(self)@.len() + 8 <= usize::MAX,
        ensures
            final(self).wf(),
            final(self).values() == old(self).values().push(value_or_zero(item)),
            final(self)@ == old(self)@.push(item),
    {
        let value = match item {
            Some(value) => value,
            None => T::zero(),
        };
        self.values.push(value);
        self.nulls.push(item.is_some());
        assert(self@ =~= old(self)@.push(item));
    }

    /// Builds a nullable array holding the given items. The value slot of a
    /// null item holds the default value.
    pub fn from_options(items: &[Option<T>]) -> (r: Self)
        requires
            items.len() + 7 <= usize::MAX,
        ensures
            r.wf(),
            r@ == items@,
            r.values() == items@.map_values(|item: Option<T>| value_or_zero(item)),
    {
        let mut out: Vec<T> = Vec::new();
        let mut i: usize = 0;
        while i < items.len()
            invariant
                i <= items.len(),
                out@ == items@.map_values(|item: Option<T>| value_or_zero(item)).take(i as int),
            decreases items.len() - i,
        {
            let value = match items[i] {
                Some(value) => value,
                None => T::zero(),
            };
            out.push(value);
            i = i + 1;
            assert(out@ =~= items@.map_values(|item: Option<T>| value_or_zero(item)).take(
                i as int,
            ));
        }
        assert(out@ =~= items@.map_values(|item: Option<T>| value_or_zero(item)));
        let validity = presence_bitmap(items);
        let r = FixedSizePrimitiveArray { values: out, nulls: Nullable::new(validity) };
        assert(r@ =~= items@);
        r
    }

    /// Returns the items of this array in order.
    pub fn iter(&self) -> (r: Vec<Option<T>>)
        requires
            self.wf(),
        ensures
            r@ == self@,
    {
        let mut out: Vec<Option<T>> = Vec::new();
        let mut i: usize = 0;
        while i < self.values.len()
            invariant
                self.wf(),
                i <= self.values@.len(),
                out@ == self@.take(i as int),
            decreases self.values@.len() - i,
        {
            out.push(self.index_checked(i));
            i = i + 1;
            assert(out@ =~= self@.take(i as int));
        }
        assert(out@ =~= self@);
        out
    }

    /// Consumes this array and returns its items in order.
    pub fn into_vec(self) -> (r: Vec<Option<T>>)
        requires
            self.wf(),
        ensures
            r@ == self@,
    {
        self.iter()
    }

    /// Returns the item at `index`, or `None` when it is out of bounds.
    pub fn index(&self, index: usize) -> (r: Option<Option<T>>)
        requires
            self.wf(),
        ensures
            r == (if index < self@.len() {
                Some(self@[index as int])
            } else {
                None
            }),
    {
        if index < self.values.len() {
            Some(self.index_checked(index))
        } else {
            None
        }
    }

    /// Returns the item at `index`, which must be in bounds.
    pub fn index_checked(&self, index: usize) -> (r: Option<T>)
        requires
            self.wf(),
            index < self@.len(),
        ensures
            r == self@[index as int],
    {
        let bitmap = self.nulls.bitmap_ref();
        if bitmap.get_unchecked(index) {
            Some(self.values[index])
        } else {
            None
        }
    }

    /// Returns the validity bitmap.
    pub fn bitmap_ref(&self) -> (r: &Bitmap)
        requires
            self.wf(),
        ensures
            r.wf(),
            r.padding_clear(),
            r@ == presence(self@),
    {
        let r = self.nulls.bitmap_ref();
        assert(r@ =~= presence(self@));
        r
    }

    /// Returns whether the item at `index` is valid, or `None` when the index
    /// is out of bounds.
    pub fn is_valid(&self, index: usize) -> (r: Option<bool>)
        requires
            self.wf(),
        ensures
            r == (if index < self@.len() {
                Some(self@[index as int] is Some)
            } else {
                None
            }),
    {
        self.bitmap_ref().is_valid(index)
    }

    /// Returns whether the item at `index` is null, or `None` when the index
    /// is out of bounds.
    pub fn is_null(&self, index: usize) -> (r: Option<bool>)
        requires
            self.wf(),
        ensures
            r == (if index < self@.len() {
                Some(self@[index as int] is None)
            } else {
                None
            }),
    {
        self.bitmap_ref().is_null(index)
    }

    /// Overwrites byte `index` of the validity bitmap. The byte must leave
    /// the padding bits after the last item unset.
    pub fn set_validity_byte(&mut self, index: usize, value: u8)
        requires
            old(self).wf(),
            index < old(self).validity().unwrap().bytes().len(),
            forall|i: int|
                old(self)@.len() <= i < 8 * old(self).validity().unwrap().bytes().len() ==> !bit_at(
                    old(self).validity().unwrap().bytes().update(index as int, value),
                    i,
                ),
        ensures
            final(self).wf(),
            final(self).values() == old(self).values(),
            final(self)@ == Seq::new(
                old(self)@.len(),
                |i: int|
                    if bit_at(old(self).validity().unwrap().bytes().update(index as int, value), i) {
                        Some(old(self).values()[i])
                    } else {
                        None
                    },
            ),
    {
        self.nulls.set_byte(index, value);
        proof {
            let b = self.validity().unwrap();
            assert(b.padding_clear());
        }
        assert(self@ =~= Seq::new(
            old(self)@.len(),
            |i: int|
                if bit_at(old(self).validity().unwrap().bytes().update(index as int, value), i) {
                    Some(old(self).values()[i])
                } else {
                    None
                },
        ));
    }

    /// Returns the number of null items.
    pub fn null_count(&self) -> (r: usize)
        requires
            self.wf(),
        ensures
            r == count_none(self@),
    {
        let bitmap = self.bitmap_ref();
        proof {
            lemma_count_none(self@, bitmap@);
        }
        bitmap.null_count()
    }
}

} // verus!
