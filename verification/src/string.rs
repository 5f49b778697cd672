//! Array with string values.
use vstd::prelude::*;
use vstd::string::StringSliceAdditionalSpecFns;
use vstd::utf8::{decode_utf8, encode_utf8, encode_utf8_decode_utf8, encode_utf8_valid_utf8, valid_utf8};
use crate::bitmap::Bitmap;
use crate::offset::{OffsetElement, concat, lemma_concat_prefix_len, offset_ints, offsets_wf, slots};
use crate::validity::{
    NonNullable, Nullability, Nullable,count_none, presence};
use crate::fixed_size_primitive::FixedSizePrimitiveArray;
use crate::variable_size_binary::VariableSizeBinaryArray;
use crate::variable_size_list::slice_or_empty;
use crate::child::{FillChild, ListChild};

verus! {

/// `std::str::from_utf8`: the string slice whose UTF-8 encoding is the
/// given bytes, or `None` when the bytes are not valid UTF-8.
#[verifier::external_body]
fn str_from_utf8(bytes: &[u8]) -> (r: Option<&str>)
    ensures
        r is Some <==> valid_utf8(bytes@),
        r matches Some(s) ==> s.spec_bytes() == bytes@,
{
    std::str::from_utf8(bytes).ok()
}

/// The UTF-8 encodings of the given strings.
pub open spec fn encodings(items: Seq<&str>) -> Seq<Seq<u8>> {
    items.map_values(|s: &str| encode_utf8(s@))
}

/// The UTF-8 encoding of an optional string, or nothing.
pub open spec fn encoding_or_empty(item: Option<&str>) -> Seq<u8> {
    match item {
        Some(s) => encode_utf8(s@),
        None => Seq::empty(),
    }
}

/// The characters of an optional string.
pub open spec fn opt_chars(item: Option<&str>) -> Option<Seq<char>> {
    match item {
        Some(s) => Some(s@),
        None => None,
    }
}

/// The characters of an optional owned string.
pub open spec fn opt_string_chars(item: Option<String>) -> Option<Seq<char>> {
    match item {
        Some(s) => Some(s@),
        None => None,
    }
}

/// Decodes the bytes of an optional item.
pub open spec fn decode_item(item: Option<Seq<u8>>) -> Option<Seq<char>> {
    match item {
        Some(bytes) => Some(decode_utf8(bytes)),
        None => None,
    }
}

/// Array with string values.
///
/// The strings are stored as their UTF-8 encodings in a
/// [`VariableSizeBinaryArray`].
pub struct StringArray<N: Nullability = NonNullable, O: OffsetElement = i32> {
    /// The encoded strings.
    inner: VariableSizeBinaryArray<N, O>,
}

/// Array with string values, using `i32` offset values.
pub type Utf8Array<N = NonNullable> = StringArray<N, i32>;

/// Array with string values, using `i64` offset values.
pub type LargeUtf8Array<N = NonNullable> = StringArray<N, i64>;

impl<N: Nullability, O: OffsetElement> StringArray<N, O> {
    /// The binary array holding the encodings.
    pub closed spec fn binary(&self) -> VariableSizeBinaryArray<N, O> {
        self.inner
    }

    /// The binary array is well formed and each slot is valid UTF-8.
    pub open spec fn wf(&self) -> bool {
        &&& self.binary().wf()
        &&& forall|i: int| 0 <= i < self.binary().slots().len() ==> valid_utf8(#[trigger] self.binary().slots()[i])
    }
}

impl<N: Nullability, O: OffsetElement> View for StringArray<N, O> {
    type V = Seq<Option<Seq<char>>>;

    open spec fn view(&self) -> Seq<Option<Seq<char>>> {
        self.binary()@.map_values(|item: Option<Seq<u8>>| decode_item(item))
    }
}

impl<N: Nullability, O: OffsetElement> StringArray<N, O> {
    /// Returns the number of items in this array.
    pub fn len(&self) -> (r: usize)
        requires
            self.wf(),
        ensures
            r == self@.len(),
    {
        self.inner.len()
    }

    /// Returns `true` when this array holds no items.
    pub fn is_empty(&self) -> (r: bool)
        requires
            self.wf(),
        ensures
            r == (self@.len() == 0),
    {
        self.inner.is_empty()
    }

    /// Returns the data buffer: the concatenated UTF-8 encodings.
    pub fn buffer_ref(&self) -> (r: &[u8])
        ensures
            r@ == self.binary().data(),
    {
        self.inner.buffer_ref()
    }

    /// Returns the offset buffer.
    pub fn offset_buffer(&self) -> (r: &[O])
        ensures
            crate::offset::offset_ints(r@) == self.binary().offsets(),
    {
        self.inner.offset_buffer()
    }

    /// Returns the string stored in slot `index`, which must be in bounds.
    fn slot_str(&self, index: usize) -> (r: &str)
        requires
            self.wf(),
            index < self.binary().slots().len(),
        ensures
            r@ == decode_utf8(self.binary().slots()[index as int]),
    {
        let bytes = self.inner.slot(index);
        let s = str_from_utf8(bytes).unwrap();
        proof {
            encode_utf8_decode_utf8(s@);
        }
        s
    }
}

/// Every slot of a binary array is valid UTF-8.
pub open spec fn all_utf8(items: Seq<Seq<u8>>) -> bool {
    forall|i: int| 0 <= i < items.len() ==> valid_utf8(#[trigger] items[i])
}

/// Returns whether every slot of a binary array is valid UTF-8.
fn slots_utf8<N: Nullability, O: OffsetElement>(inner: &VariableSizeBinaryArray<N, O>) -> (r: bool)
    requires
        inner.wf(),
    ensures
        r == all_utf8(inner.slots()),
{
    let n = inner.offset_buffer().len() - 1;
    let mut i: usize = 0;
    while i < n
        invariant
            inner.wf(),
            n == inner.slots().len(),
            i <= n,
            forall|j: int| 0 <= j < i ==> valid_utf8(#[trigger] inner.slots()[j]),
        decreases n - i,
    {
        if str_from_utf8(inner.slot(i)).is_none() {
            return false;
        }
        i = i + 1;
    }
    true
}

impl<O: OffsetElement> StringArray<NonNullable, O> {
    /// Builds an array from its buffers, or returns `None` when the offsets
    /// do not cut the data into items or an item is not valid UTF-8.
    pub fn from_parts(offsets: Vec<O>, data: Vec<u8>) -> (r: Option<Self>)
        ensures
            r is Some <==> offsets_wf(offset_ints(offsets@), data@.len()) && all_utf8(
                slots(data@, offset_ints(offsets@)),
            ) && data@.len() + 8 <= usize::MAX,
            r matches Some(a) ==> a.wf() && a.binary().offsets() == offset_ints(offsets@)
                && a.binary().data() == data@,
    {
        if data.len() > usize::MAX - 8 {
            return None;
        }
        let child = FixedSizePrimitiveArray::<u8, NonNullable>::from_vec(data);
        match VariableSizeBinaryArray::<NonNullable, O>::from_parts(offsets, child) {
            Some(inner) => {
                if slots_utf8(&inner) {
                    Some(StringArray { inner })
                } else {
                    None
                }
            },
            None => None,
        }
    }

    /// Consumes this array and returns its offset and data buffers.
    pub fn into_parts(self) -> (r: (Vec<O>, Vec<u8>))
        ensures
            offset_ints(r.0@) == self.binary().offsets(),
            r.1@ == self.binary().data(),
    {
        let (offsets, child) = self.inner.into_parts();
        (offsets, child.into_vec())
    }

    /// Converts this array into a nullable array in which all items are
    /// valid.
    pub fn into_nullable(self) -> (r: StringArray<Nullable, O>)
        requires
            self.wf(),
            self@.len() + 7 <= usize::MAX,
        ensures
            r.wf(),
            r@ == self@,
    {
        let r = StringArray { inner: self.inner.into_nullable() };
        assert(r.binary().slots() == self.binary().slots());
        r
    }

    /// Returns an empty array.
    pub fn new() -> (r: Self)
        ensures
            r.wf(),
            r@ == Seq::<Option<Seq<char>>>::empty(),
            r.binary().data() == Seq::<u8>::empty(),
    {
        let r = StringArray { inner: VariableSizeBinaryArray::<NonNullable, O>::new() };
        assert(r@ =~= Seq::<Option<Seq<char>>>::empty());
        r
    }

    /// Appends a string. The new end offset must fit the offset type.
    pub fn push(&mut self, item: &str)
        requires
            old(self).wf(),
            old(self).binary().data().len() + encode_utf8(item@).len() <= O::spec_max(),
            old(self).binary().data().len() + encode_utf8(item@).len() + 8 <= usize::MAX,
        ensures
            final(self).wf(),
            final(self)@ == old(self)@.push(Some(item@)),
            final(self).binary().data() == old(self).binary().data() + encode_utf8(item@),
    {
        let bytes = item.as_bytes();
        self.inner.push(bytes);
        proof {
            encode_utf8_valid_utf8(item@);
            encode_utf8_decode_utf8(item@);
            assert(self@ =~= old(self)@.push(Some(item@)));
        }
    }

    /// Builds an array holding the given strings.
    ///
    /// The offsets must fit the offset type.
    pub fn from_strs(items: &[&str]) -> (r: Self)
        requires
            concat(encodings(items@)).len() <= O::spec_max(),
            concat(encodings(items@)).len() + 8 <= usize::MAX,
        ensures
            r.wf(),
            r@ == items@.map_values(|s: &str| Some(s@)),
            r.binary().data() == concat(encodings(items@)),
    {
        let ghost enc = encodings(items@);
        let ghost target = items@.map_values(|s: &str| Some(s@));
        let mut r = Self::new();
        let mut i: usize = 0;
        while i < items.len()
            invariant
                i <= items@.len(),
                enc == encodings(items@),
                target == items@.map_values(|s: &str| Some(s@)),
                concat(enc).len() <= O::spec_max(),
                concat(enc).len() + 8 <= usize::MAX,
                r.wf(),
                r@ == target.take(i as int),
                r.binary().data() == concat(enc.take(i as int)),
            decreases items@.len() - i,
        {
            proof {
                assert(enc.take(i + 1).drop_last() =~= enc.take(i as int));
                lemma_concat_prefix_len(enc, i + 1);
            }
            r.push(items[i]);
            proof {
                assert(enc.take(i + 1) =~= enc.take(i as int).push(enc[i as int]));
                assert(target.take(i + 1) =~= target.take(i as int).push(target[i as int]));
            }
            i = i + 1;
        }
        assert(enc.take(i as int) =~= enc);
        assert(target.take(i as int) =~= target);
        r
    }

    /// Returns the string at `index`, which must be in bounds.
    pub fn index_checked(&self, index: usize) -> (r: &str)
        requires
            self.wf(),
            index < self@.len(),
        ensures
            self@[index as int] == Some(r@),
    {
        self.slot_str(index)
    }

    /// Returns the string at `index`, or `None` when it is out of bounds.
    pub fn index(&self, index: usize) -> (r: Option<&str>)
        requires
            self.wf(),
        ensures
            index < self@.len() ==> (r matches Some(s) && self@[index as int] == Some(s@)),
            index >= self@.len() ==> r is None,
    {
        if index < self.len() {
            Some(self.slot_str(index))
        } else {
            None
        }
    }

    /// Returns the strings of this array in order.
    pub fn iter(&self) -> (r: Vec<String>)
        requires
            self.wf(),
        ensures
            r@.map_values(|s: String| Some(s@)) == self@,
    {
        let n = self.len();
        let mut out: Vec<String> = Vec::new();
        let mut i: usize = 0;
        while i < n
            invariant
                self.wf(),
                n == self@.len(),
                i <= n,
                out@.map_values(|s: String| Some(s@)) == self@.take(i as int),
            decreases n - i,
        {
            let ghost before = out@;
            let s = self.slot_str(i).to_owned();
            out.push(s);
            proof {
                assert(out@.map_values(|s: String| Some(s@)) =~= before.map_values(
                    |s: String| Some(s@),
                ).push(Some(s@)));
                assert(self@.take(i + 1) =~= self@.take(i as int).push(self@[i as int]));
            }
            i = i + 1;
        }
        assert(self@.take(i as int) =~= self@);
        out
    }

    /// Consumes this array and returns its strings in order.
    pub fn into_vec(self) -> (r: Vec<String>)
        requires
            self.wf(),
        ensures
            r@.map_values(|s: String| Some(s@)) == self@,
    {
        self.iter()
    }
}

impl<O: OffsetElement> StringArray<Nullable, O> {
    /// Builds a nullable array from its buffers, or returns `None` when the
    /// offsets do not cut the data into items, an item is not valid UTF-8,
    /// or the validity bitmap does not cover exactly the items or has stray
    /// padding bits.
    pub fn from_parts(offsets: Vec<O>, data: Vec<u8>, validity: Bitmap) -> (r: Option<Self>)
        requires
            validity.wf(),
        ensures
            r is Some <==> offsets_wf(offset_ints(offsets@), data@.len()) && validity@.len() + 1
                == offsets@.len() && validity.padding_clear() && all_utf8(
                slots(data@, offset_ints(offsets@)),
            ) && data@.len() + 8 <= usize::MAX,
            r matches Some(a) ==> a.wf() && a.binary().offsets() == offset_ints(offsets@)
                && a.binary().data() == data@ && a.binary().validity() == Some(validity),
    {
        if data.len() > usize::MAX - 8 {
            return None;
        }
        let child = FixedSizePrimitiveArray::<u8, NonNullable>::from_vec(data);
        match VariableSizeBinaryArray::<Nullable, O>::from_parts(offsets, child, validity) {
            Some(inner) => {
                if slots_utf8(&inner) {
                    Some(StringArray { inner })
                } else {
                    None
                }
            },
            None => None,
        }
    }

    /// Consumes this array and returns its offset and data buffers and its
    /// validity bitmap.
    pub fn into_parts(self) -> (r: (Vec<O>, Vec<u8>, Bitmap))
        ensures
            offset_ints(r.0@) == self.binary().offsets(),
            r.1@ == self.binary().data(),
            self.binary().validity() == Some(r.2),
    {
        let (offsets, child, validity) = self.inner.into_parts();
        (offsets, child.into_vec(), validity)
    }

    /// Returns an empty array.
    pub fn new() -> (r: Self)
        ensures
            r.wf(),
            r@ == Seq::<Option<Seq<char>>>::empty(),
            r.binary().data() == Seq::<u8>::empty(),
    {
        let r = StringArray { inner: VariableSizeBinaryArray::<Nullable, O>::new() };
        assert(r@ =~= Seq::<Option<Seq<char>>>::empty());
        r
    }

    /// Appends an optional string; a null item is stored as an empty range.
    /// The new end offset must fit the offset type.
    pub fn push(&mut self, item: Option<&str>)
        requires
            old(self).wf(),
            old(self)@.len() + 8 <= usize::MAX,
            old(self).binary().data().len() + encoding_or_empty(item).len() <= O::spec_max(),
            old(self).binary().data().len() + encoding_or_empty(item).len() + 8 <= usize::MAX,
        ensures
            final(self).wf(),
            final(self)@ == old(self)@.push(opt_chars(item)),
            final(self).binary().data() == old(self).binary().data() + encoding_or_empty(item),
    {
        let bytes: Option<&[u8]> = match item {
            Some(s) => Some(s.as_bytes()),
            None => None,
        };
        assert(slice_or_empty(bytes) == encoding_or_empty(item));
        self.inner.push(bytes);
        proof {
            if let Some(s) = item {
                encode_utf8_valid_utf8(s@);
                encode_utf8_decode_utf8(s@);
            }
            assert(self.binary().slots().last() == encoding_or_empty(item));
            assert(self@ =~= old(self)@.push(opt_chars(item)));
        }
    }

    /// Builds a nullable array holding the given strings.
    ///
    /// The offsets must fit the offset type.
    pub fn from_options(items: &[Option<&str>]) -> (r: Self)
        requires
            items.len() + 8 <= usize::MAX,
            concat(items@.map_values(|o: Option<&str>| encoding_or_empty(o))).len()
                <= O::spec_max(),
            concat(items@.map_values(|o: Option<&str>| encoding_or_empty(o))).len() + 8
                <= usize::MAX,
        ensures
            r.wf(),
            r@ == items@.map_values(|o: Option<&str>| opt_chars(o)),
            r.binary().data() == concat(items@.map_values(|o: Option<&str>| encoding_or_empty(o))),
    {
        let ghost enc = items@.map_values(|o: Option<&str>| encoding_or_empty(o));
        let ghost target = items@.map_values(|o: Option<&str>| opt_chars(o));
        let mut r = Self::new();
        let mut i: usize = 0;
        while i < items.len()
            invariant
                i <= items@.len(),
                items@.len() + 8 <= usize::MAX,
                enc == items@.map_values(|o: Option<&str>| encoding_or_empty(o)),
                target == items@.map_values(|o: Option<&str>| opt_chars(o)),
                concat(enc).len() <= O::spec_max(),
                concat(enc).len() + 8 <= usize::MAX,
                r.wf(),
                r@ == target.take(i as int),
                r.binary().data() == concat(enc.take(i as int)),
            decreases items@.len() - i,
        {
            proof {
                assert(enc.take(i + 1).drop_last() =~= enc.take(i as int));
                lemma_concat_prefix_len(enc, i + 1);
            }
            r.push(items[i]);
            proof {
                assert(enc.take(i + 1) =~= enc.take(i as int).push(enc[i as int]));
                assert(target.take(i + 1) =~= target.take(i as int).push(target[i as int]));
            }
            i = i + 1;
        }
        assert(enc.take(i as int) =~= enc);
        assert(target.take(i as int) =~= target);
        r
    }

    /// Returns the item at `index`, which must be in bounds.
    pub fn index_checked(&self, index: usize) -> (r: Option<&str>)
        requires
            self.wf(),
            index < self@.len(),
        ensures
            self@[index as int] == opt_chars(r),
    {
        if self.inner.is_valid(index) == Some(true) {
            Some(self.slot_str(index))
        } else {
            None
        }
    }

    /// Returns the item at `index`, or `None` when it is out of bounds.
    pub fn index(&self, index: usize) -> (r: Option<Option<&str>>)
        requires
            self.wf(),
        ensures
            index < self@.len() ==> (r matches Some(item) && self@[index as int] == opt_chars(item)),
            index >= self@.len() ==> r is None,
    {
        if index < self.len() {
            Some(self.index_checked(index))
        } else {
            None
        }
    }

    /// Returns the items of this array in order.
    pub fn iter(&self) -> (r: Vec<Option<String>>)
        requires
            self.wf(),
        ensures
            r@.map_values(|o: Option<String>| opt_string_chars(o)) == self@,
    {
        let n = self.len();
        let mut out: Vec<Option<String>> = Vec::new();
        let mut i: usize = 0;
        while i < n
            invariant
                self.wf(),
                n == self@.len(),
                i <= n,
                out@.map_values(|o: Option<String>| opt_string_chars(o)) == self@.take(i as int),
            decreases n - i,
        {
            let ghost before = out@;
            let item = match self.index_checked(i) {
                Some(s) => Some(s.to_owned()),
                None => None,
            };
            out.push(item);
            proof {
                assert(out@.map_values(|o: Option<String>| opt_string_chars(o)) =~= before.map_values(
                    |o: Option<String>| opt_string_chars(o),
                ).push(opt_string_chars(item)));
                assert(self@.take(i + 1) =~= self@.take(i as int).push(self@[i as int]));
            }
            i = i + 1;
        }
        assert(self@.take(i as int) =~= self@);
        out
    }

    /// Consumes this array and returns its items in order.
    pub fn into_vec(self) -> (r: Vec<Option<String>>)
        requires
            self.wf(),
        ensures
            r@.map_values(|o: Option<String>| opt_string_chars(o)) == self@,
    {
        self.iter()
    }

    /// Returns the validity bitmap.
    pub fn bitmap_ref(&self) -> (r: &Bitmap)
        requires
            self.wf(),
        ensures
            r.wf(),
            r.padding_clear(),
            r@ == presence(self@),
    {
        let r = self.inner.bitmap_ref();
        assert(r@ =~= presence(self@));
        r
    }

    /// Returns whether the item at `index` is valid, or `None` when the index
    /// is out of bounds.
    pub fn is_valid(&self, index: usize) -> (r: Option<bool>)
        requires
            self.wf(),
        ensures
            r == (if index < self@.len() {
                Some(self@[index as int] is Some)
            } else {
                None
            }),
    {
        self.bitmap_ref().is_valid(index)
    }

    /// Returns whether the item at `index` is null, or `None` when the index
    /// is out of bounds.
    pub fn is_null(&self, index: usize) -> (r: Option<bool>)
        requires
            self.wf(),
        ensures
            r == (if index < self@.len() {
                Some(self@[index as int] is None)
            } else {
                None
            }),
    {
        self.bitmap_ref().is_null(index)
    }

    /// Returns the number of null items.
    pub fn null_count(&self) -> (r: usize)
        requires
            self.wf(),
        ensures
            r == count_none(self@),
    {
        let bitmap = self.bitmap_ref();
        proof {
            crate::validity::lemma_count_none(self@, bitmap@);
        }
        bitmap.null_count()
    }
}

/// An iterator over the strings in a [`StringArray`].
pub struct StringIter<'a, N: Nullability, O: OffsetElement> {
    /// The array.
    pub array: &'a StringArray<N, O>,
    /// The index of the next item.
    pub index: usize,
}

impl<N: Nullability, O: OffsetElement> StringArray<N, O> {
    /// Returns an iterator over the items of this array.
    pub fn strings(&self) -> (r: StringIter<'_, N, O>)
        ensures
            r.array == self,
            r.index == 0,
    {
        StringIter { array: self, index: 0 }
    }
}

impl<'a, O: OffsetElement> StringIter<'a, NonNullable, O> {
    /// Returns the next string, or `None` after the last one.
    pub fn next(&mut self) -> (r: Option<&'a str>)
        requires
            old(self).array.wf(),
        ensures
            final(self).array == old(self).array,
            old(self).index < old(self).array@.len() ==> (r matches Some(s) && old(self).array@[old(self).index as int] == Some(s@) && final(self).index == old(self).index + 1),
            old(self).index >= old(self).array@.len() ==> r is None && final(self).index == old(self).index,
    {
        let array: &'a StringArray<NonNullable, O> = self.array;
        if self.index < array.len() {
            let s = array.index_checked(self.index);
            self.index = self.index + 1;
            Some(s)
        } else {
            None
        }
    }
}

impl<'a, O: OffsetElement> StringIter<'a, Nullable, O> {
    /// Returns the next item, or `None` after the last one.
    pub fn next(&mut self) -> (r: Option<Option<&'a str>>)
        requires
            old(self).array.wf(),
        ensures
            final(self).array == old(self).array,
            old(self).index < old(self).array@.len() ==> (r matches Some(item) && old(self).array@[old(self).index as int] == opt_chars(item) && final(self).index == old(self).index + 1),
            old(self).index >= old(self).array@.len() ==> r is None && final(self).index == old(self).index,
    {
        let array: &'a StringArray<Nullable, O> = self.array;
        if self.index < array.len() {
            let item = array.index_checked(self.index);
            self.index = self.index + 1;
            Some(item)
        } else {
            None
        }
    }
}

/// The characters of a string item, or nothing for a null item.
pub open spec fn chars_or_empty(item: Option<Seq<char>>) -> Seq<char> {
    match item {
        Some(chars) => chars,
        None => Seq::empty(),
    }
}

/// The UTF-8 encoding of an optional owned string, or nothing.
pub open spec fn string_encoding_or_empty(item: Option<String>) -> Seq<u8> {
    match item {
        Some(s) => encode_utf8(s@),
        None => Seq::empty(),
    }
}

/// The largest number of slots (bytes and offsets) that a string array used
/// as a child array can take: its offsets must fit the offset type, and a
/// validity byte must stay addressable.
pub open spec fn string_capacity<O: OffsetElement>() -> nat {
    if O::spec_max() < 0 {
        0
    } else if O::spec_max() + 8 <= usize::MAX {
        O::spec_max() as nat
    } else {
        (usize::MAX - 8) as nat
    }
}

impl<O: OffsetElement> ListChild for StringArray<NonNullable, O> {
    type Item = String;

    type Model = Seq<char>;

    open spec fn model(item: String) -> Seq<char> {
        item@
    }

    open spec fn item_size(item: String) -> nat {
        encode_utf8(item@).len() + 1
    }

    open spec fn capacity() -> nat {
        string_capacity::<O>()
    }

    open spec fn child_wf(&self) -> bool {
        &&& self.wf()
        &&& self.size() <= Self::capacity()
    }

    open spec fn models(&self) -> Seq<Seq<char>> {
        self@.map_values(|item: Option<Seq<char>>| chars_or_empty(item))
    }

    open spec fn size(&self) -> nat {
        self.binary().data().len() + self@.len()
    }

    proof fn lemma_item_size(item: String) {
    }

    proof fn lemma_capacity() {
    }

    proof fn lemma_size(&self) {
    }

    fn empty() -> (r: Self)
        ensures
            r@ == Seq::<Option<Seq<char>>>::empty(),
            r.binary().data() == Seq::<u8>::empty(),
    {
        let r = Self::new();
        assert(r.models() =~= Seq::<Seq<char>>::empty());
        r
    }

    fn count(&self) -> (r: usize) {
        self.len()
    }

    fn push_item(&mut self, item: String) {
        self.push(item.as_str());
        assert(self.models() =~= old(self).models().push(item@));
    }

    fn item_at(&self, index: usize) -> (r: String) {
        self.index_checked(index).to_owned()
    }
}

impl<O: OffsetElement> ListChild for StringArray<Nullable, O> {
    type Item = Option<String>;

    type Model = Option<Seq<char>>;

    open spec fn model(item: Option<String>) -> Option<Seq<char>> {
        opt_string_chars(item)
    }

    open spec fn item_size(item: Option<String>) -> nat {
        string_encoding_or_empty(item).len() + 1
    }

    open spec fn capacity() -> nat {
        string_capacity::<O>()
    }

    open spec fn child_wf(&self) -> bool {
        &&& self.wf()
        &&& self.size() <= Self::capacity()
    }

    open spec fn models(&self) -> Seq<Option<Seq<char>>> {
        self@
    }

    open spec fn size(&self) -> nat {
        self.binary().data().len() + self@.len()
    }

    proof fn lemma_item_size(item: Option<String>) {
    }

    proof fn lemma_capacity() {
    }

    proof fn lemma_size(&self) {
    }

    fn empty() -> (r: Self) {
        Self::new()
    }

    fn count(&self) -> (r: usize) {
        self.len()
    }

    fn push_item(&mut self, item: Option<String>) {
        let text: Option<&str> = match &item {
            Some(s) => Some(s.as_str()),
            None => None,
        };
        assert(opt_chars(text) == opt_string_chars(item));
        assert(encoding_or_empty(text) == string_encoding_or_empty(item));
        self.push(text);
    }

    fn item_at(&self, index: usize) -> (r: Option<String>) {
        match self.index_checked(index) {
            Some(s) => Some(s.to_owned()),
            None => None,
        }
    }
}

impl<O: OffsetElement> FillChild for StringArray<NonNullable, O> {
    open spec fn spec_filler() -> String {
        choose|s: String| s@ == Seq::<char>::empty()
    }

    fn filler() -> (r: String)
        ensures
            r@ == Seq::<char>::empty(),
    {
        let r = String::new();
        assert(r@ == Seq::<char>::empty());
        r
    }
}

impl<O: OffsetElement> FillChild for StringArray<Nullable, O> {
    open spec fn spec_filler() -> Option<String> {
        None
    }

    fn filler() -> (r: Option<String>) {
        None
    }
}

} // verus!
