//! An immutable collection of bits, stored LSB-first in bytes.
use vstd::prelude::*;
use crate::bits::{
    bit_at, bit_set, bytes_for_bits, count_false, count_true, lemma_count_true_false,
    lemma_count_true_prefix, lemma_ones_in_bytes_bound, lemma_ones_prefix_bytes,
    lemma_ones_prefix_padding, lemma_set_bit, lemma_zero_byte, ones_in_bytes, ones_prefix, popcount,
};

verus! {

/// An immutable collection of bits.
///
/// The validity bits are stored LSB-first in the bytes of a buffer: bit `i`
/// is bit `i % 8` of byte `i / 8`. The buffer holds exactly as many bytes as
/// are needed for the bits.
#[derive(Clone, Debug)]
pub struct Bitmap {
    /// The number of bits stored in the bitmap.
    bits: usize,
    /// The bits are stored in this buffer.
    buffer: Vec<u8>,
}

impl Bitmap {
    /// The number of bits in this bitmap.
    pub closed spec fn nbits(&self) -> nat {
        self.bits as nat
    }

    /// The bytes that hold the bits.
    pub closed spec fn bytes(&self) -> Seq<u8> {
        self.buffer@
    }

    /// The buffer holds exactly the bytes needed for the bits.
    pub open spec fn wf(&self) -> bool {
        &&& self.bytes().len() == bytes_for_bits(self.nbits())
        &&& 8 * self.bytes().len() <= usize::MAX
    }

    /// The padding bits after the last bit of the last byte are unset.
    pub open spec fn padding_clear(&self) -> bool {
        forall|i: int| self.nbits() <= i < 8 * self.bytes().len() ==> !bit_at(self.bytes(), i)
    }
}

impl View for Bitmap {
    type V = Seq<bool>;

    open spec fn view(&self) -> Seq<bool> {
        Seq::new(self.nbits(), |i: int| bit_at(self.bytes(), i))
    }
}

impl Bitmap {
    /// Builds a bitmap holding the given bits.
    pub fn from_bools(values: &[bool]) -> (r: Bitmap)
        requires
            values.len() + 7 <= usize::MAX,
        ensures
            r.wf(),
            r@ == values@,
            r.padding_clear(),
    {
        let n = values.len();
        let mut buffer: Vec<u8> = Vec::new();
        let mut byte: u8 = 0;
        let mut k: u8 = 0;
        let mut i: usize = 0;
        proof {
            assert forall|j: u8| k <= j < 8 implies !#[trigger] bit_set(byte, j) by {
                lemma_zero_byte(j);
            }
        }
        while i < n
            invariant
                i <= n,
                n == values.len(),
                k < 8,
                k as int == i % 8,
                buffer.len() == i / 8,
                forall|j: int| 0 <= j < i - i % 8 ==> #[trigger] bit_at(buffer@, j) == values@[j],
                forall|j: u8| j < k ==> #[trigger] bit_set(byte, j) == values@[i - k + j],
                forall|j: u8| k <= j < 8 ==> !#[trigger] bit_set(byte, j),
            decreases n - i,
        {
            let ghost old_byte = byte;
            if values[i] {
                byte = byte | (1u8 << k);
            }
            proof {
                assert forall|j: u8| j < 8 implies #[trigger] bit_set(byte, j) == (if j == k {
                    values@[i as int]
                } else {
                    bit_set(old_byte, j)
                }) by {
                    if values@[i as int] {
                        lemma_set_bit(old_byte, k, j);
                    }
                }
            }
            if k == 7 {
                let ghost old_buffer = buffer@;
                buffer.push(byte);
                proof {
                    assert forall|j: int| 0 <= j < i + 1 implies #[trigger] bit_at(buffer@, j)
                        == values@[j] by {
                        if j < i - i % 8 {
                            assert(bit_at(old_buffer, j) == values@[j]);
                            assert(buffer@[j / 8] == old_buffer[j / 8]);
                        } else {
                            assert(j / 8 == i / 8);
                            assert(buffer@[j / 8] == byte);
                            let jj = (j % 8) as u8;
                            assert(jj <= k);
                            if jj < k {
                                assert(bit_set(old_byte, jj) == values@[i - k + jj]);
                            }
                        }
                    }
                }
                byte = 0;
                k = 0;
                proof {
                    assert forall|j: u8| k <= j < 8 implies !#[trigger] bit_set(byte, j) by {
                        lemma_zero_byte(j);
                    }
                }
            } else {
                k = k + 1;
            }
            i = i + 1;
        }
        let ghost full = buffer@;
        if k != 0 {
            buffer.push(byte);
        }
        let r = Bitmap { bits: n, buffer };
        proof {
            assert forall|j: int| 0 <= j < n implies #[trigger] bit_at(r.buffer@, j)
                == values@[j] by {
                if j < n - n % 8 {
                    assert(bit_at(full, j) == values@[j]);
                    assert(r.buffer@[j / 8] == full[j / 8]);
                } else {
                    assert(j / 8 == n / 8);
                    assert(r.buffer@[j / 8] == byte);
                    let jj = (j % 8) as u8;
                    assert(jj < k);
                    assert(bit_set(byte, jj) == values@[n - k + jj]);
                }
            }
            assert(r@ =~= values@);
            assert forall|j: int| n <= j < 8 * r.buffer@.len() implies !bit_at(r.buffer@, j) by {
                assert(j / 8 == n / 8);
                assert(r.buffer@[j / 8] == byte);
                let jj = (j % 8) as u8;
                assert(k <= jj);
            }
        }
        r
    }
}


/// Returns the number of set bits of a byte.
fn byte_count_ones(b: u8) -> (r: u32)
    ensures
        r == popcount(b),
{
    let mut r: u32 = 0;
    if b & (1u8 << 0u8) != 0 {
        r = r + 1;
    }
    if b & (1u8 << 1u8) != 0 {
        r = r + 1;
    }
    if b & (1u8 << 2u8) != 0 {
        r = r + 1;
    }
    if b & (1u8 << 3u8) != 0 {
        r = r + 1;
    }
    if b & (1u8 << 4u8) != 0 {
        r = r + 1;
    }
    if b & (1u8 << 5u8) != 0 {
        r = r + 1;
    }
    if b & (1u8 << 6u8) != 0 {
        r = r + 1;
    }
    if b & (1u8 << 7u8) != 0 {
        r = r + 1;
    }
    r
}

/// Returns the number of unset bits of a byte.
fn byte_count_zeros(b: u8) -> (r: u32)
    ensures
        r == 8 - popcount(b),
{
    8 - byte_count_ones(b)
}

/// Number of padding bits after `bits` bits in the last byte.
pub open spec fn padding_bits(bits: nat) -> nat {
    if bits % 8 == 0 {
        0
    } else {
        (8 - bits % 8) as nat
    }
}

impl Bitmap {
    /// Counting set bits byte by byte agrees with the bits of the view when
    /// the padding is clear, and every bit is either set or unset.
    pub proof fn lemma_ones(&self)
        requires
            self.wf(),
        ensures
            ones_in_bytes(self.bytes()) <= 8 * self.bytes().len(),
            8 * self.bytes().len() == self.nbits() + padding_bits(self.nbits()),
            self.padding_clear() ==> ones_in_bytes(self.bytes()) == count_true(self@),
            count_true(self@) + count_false(self@) == self.nbits(),
    {
        let bytes = self.bytes();
        lemma_ones_in_bytes_bound(bytes);
        lemma_count_true_false(self@);
        if self.padding_clear() {
            lemma_ones_prefix_bytes(bytes, bytes.len());
            assert(bytes.take(bytes.len() as int) =~= bytes);
            lemma_ones_prefix_padding(bytes, self.nbits(), 8 * bytes.len());
            lemma_count_true_prefix(bytes, self@, self.nbits());
            assert(self@.take(self.nbits() as int) =~= self@);
        }
    }

    /// Returns the number of set bits in this bitmap.
    ///
    /// All bytes are counted: the padding bits after the last bit are
    /// expected to be unset, and are then not counted.
    pub fn count_ones(&self) -> (r: usize)
        requires
            self.wf(),
        ensures
            r == ones_in_bytes(self.bytes()),
            self.padding_clear() ==> r == count_true(self@),
    {
        proof {
            self.lemma_ones();
        }
        let mut total: usize = 0;
        let mut i: usize = 0;
        while i < self.buffer.len()
            invariant
                self.wf(),
                i <= self.buffer.len(),
                total == ones_in_bytes(self.buffer@.take(i as int)),
            decreases self.buffer.len() - i,
        {
            proof {
                assert(self.buffer@.take(i + 1).drop_last() =~= self.buffer@.take(i as int));
                lemma_ones_in_bytes_bound(self.buffer@.take(i + 1));
            }
            total = total + byte_count_ones(self.buffer[i]) as usize;
            i = i + 1;
        }
        assert(self.buffer@.take(i as int) =~= self.buffer@);
        total
    }

    /// Returns the number of unset bits in this bitmap.
    ///
    /// The unset bits of all bytes are counted, minus the padding bits.
    pub fn count_zeros(&self) -> (r: usize)
        requires
            self.wf(),
            ones_in_bytes(self.bytes()) <= self.nbits(),
        ensures
            r == self.nbits() - ones_in_bytes(self.bytes()),
            self.padding_clear() ==> r == count_false(self@),
    {
        proof {
            self.lemma_ones();
        }
        let mut total: usize = 0;
        let mut i: usize = 0;
        while i < self.buffer.len()
            invariant
                self.wf(),
                i <= self.buffer.len(),
                total == 8 * i - ones_in_bytes(self.buffer@.take(i as int)),
                ones_in_bytes(self.buffer@.take(i as int)) <= 8 * i,
            decreases self.buffer.len() - i,
        {
            proof {
                assert(self.buffer@.take(i + 1).drop_last() =~= self.buffer@.take(i as int));
                lemma_ones_in_bytes_bound(self.buffer@.take(i + 1));
            }
            total = total + byte_count_zeros(self.buffer[i]) as usize;
            i = i + 1;
        }
        assert(self.buffer@.take(i as int) =~= self.buffer@);
        total - self.trailing_bits()
    }

    /// Returns the number of trailing padding bits in the last byte of the
    /// buffer.
    pub fn trailing_bits(&self) -> (r: usize)
        ensures
            r == padding_bits(self.nbits()),
    {
        let trailing_bits = self.bits % 8;
        if trailing_bits != 0 {
            8 - trailing_bits
        } else {
            0
        }
    }

    /// Returns the number of bits in this bitmap.
    pub fn len(&self) -> (r: usize)
        ensures
            r == self@.len(),
    {
        self.bits
    }

    /// Returns `true` when this bitmap holds no bits.
    pub fn is_empty(&self) -> (r: bool)
        ensures
            r == (self@.len() == 0),
    {
        self.bits == 0
    }

    /// Returns the bit at the given index, without a bounds check of its own.
    pub fn get_unchecked(&self, index: usize) -> (r: bool)
        requires
            self.wf(),
            index < self@.len(),
        ensures
            r == self@[index as int],
    {
        let byte_index = index / 8;
        let bit_index = (index % 8) as u8;
        self.buffer[byte_index] & (1u8 << bit_index) != 0
    }

    /// Returns the bit at a given index. Returns `None` when the given index
    /// is out of bounds.
    pub fn get(&self, index: usize) -> (r: Option<bool>)
        requires
            self.wf(),
        ensures
            r == (if index < self@.len() {
                Some(self@[index as int])
            } else {
                None
            }),
    {
        if index < self.bits {
            Some(self.get_unchecked(index))
        } else {
            None
        }
    }

    /// Returns the bit at the given index; the index must be in bounds.
    pub fn index(&self, index: usize) -> (r: bool)
        requires
            self.wf(),
            index < self@.len(),
        ensures
            r == self@[index as int],
    {
        self.get_unchecked(index)
    }

    /// Returns the bytes that store the bits.
    pub fn as_bytes(&self) -> (r: &[u8])
        ensures
            r@ == self.bytes(),
    {
        self.buffer.as_slice()
    }

    /// Overwrites the byte at `index` of the buffer.
    pub fn set_byte(&mut self, index: usize, value: u8)
        requires
            old(self).wf(),
            index < old(self).bytes().len(),
        ensures
            final(self).wf(),
            final(self).nbits() == old(self).nbits(),
            final(self).bytes() == old(self).bytes().update(index as int, value),
    {
        self.buffer.set(index, value);
    }

    /// Returns an iterator over the bits of this bitmap.
    pub fn iter(&self) -> (r: BitmapIter<'_>)
        ensures
            r.bitmap == self,
            r.index == 0,
    {
        BitmapIter { bitmap: self, index: 0 }
    }

    /// Returns the bits of this bitmap in order.
    pub fn to_vec(&self) -> (r: Vec<bool>)
        requires
            self.wf(),
        ensures
            r@ == self@,
    {
        let mut out: Vec<bool> = Vec::new();
        let mut i: usize = 0;
        while i < self.bits
            invariant
                self.wf(),
                i <= self@.len(),
                out@ == self@.take(i as int),
            decreases self@.len() - i,
        {
            out.push(self.get_unchecked(i));
            i = i + 1;
            assert(out@ =~= self@.take(i as int));
        }
        assert(self@.take(i as int) =~= self@);
        out
    }
}

impl Bitmap {
    /// Returns an empty bitmap.
    pub fn new() -> (r: Bitmap)
        ensures
            r.wf(),
            r.padding_clear(),
            r@ == Seq::<bool>::empty(),
            r.bytes() == Seq::<u8>::empty(),
    {
        Bitmap { bits: 0, buffer: Vec::new() }
    }

    /// Appends a bit to this bitmap.
    pub fn push(&mut self, bit: bool)
        requires
            old(self).wf(),
            old(self).padding_clear(),
            old(self)@.len() + 8 <= usize::MAX,
        ensures
            final(self).wf(),
            final(self).padding_clear(),
            final(self)@ == old(self)@.push(bit),
    {
        let ghost old_bytes = self.buffer@;
        let k = (self.bits % 8) as u8;
        if k == 0 {
            let byte: u8 = if bit {
                1
            } else {
                0
            };
            self.buffer.push(byte);
            proof {
                assert(1u8 & (1u8 << 0u8) != 0) by (bit_vector);
                assert forall|j: u8| 0 < j < 8 implies !#[trigger] bit_set(byte, j) by {
                    assert(0 < j < 8 ==> 1u8 & (1u8 << j) == 0) by (bit_vector);
                    lemma_zero_byte(j);
                }
                lemma_zero_byte(0);
            }
        } else {
            let last = self.buffer.len() - 1;
            let old_byte = self.buffer[last];
            let byte = if bit {
                old_byte | (1u8 << k)
            } else {
                old_byte
            };
            self.buffer.set(last, byte);
            proof {
                assert forall|j: u8| j < 8 implies #[trigger] bit_set(byte, j) == (if j == k {
                    bit
                } else {
                    bit_set(old_byte, j)
                }) by {
                    if bit {
                        lemma_set_bit(old_byte, k, j);
                    } else if j == k {
                        assert(!bit_at(old_bytes, 8 * last + k));
                    }
                }
            }
        }
        self.bits = self.bits + 1;
        proof {
            let n = self.bits - 1;
            assert forall|i: int| 0 <= i < n implies bit_at(self.buffer@, i) == bit_at(
                old_bytes,
                i,
            ) by {
                assert(i / 8 < old_bytes.len());
            }
            assert forall|i: int|
                self.bits <= i < 8 * self.buffer@.len() implies !bit_at(self.buffer@, i) by {
                assert(i / 8 == n / 8);
                assert(!bit_at(old_bytes, i) || k == 0);
            }
            assert(self@ =~= old(self)@.push(bit));
        }
    }
}

impl Bitmap {
    /// Builds a bitmap of `bits` bits from the bytes that hold them.
    /// Returns `None` when the number of bytes is not the number needed for
    /// the bits. Padding bits are kept as they are.
    pub fn from_bytes(bytes: &[u8], bits: usize) -> (r: Option<Bitmap>)
        ensures
            r is Some <==> (bytes@.len() == bytes_for_bits(bits as nat) && 8 * bytes@.len()
                <= usize::MAX),
            r matches Some(bitmap) ==> bitmap.wf() && bitmap.nbits() == bits && bitmap.bytes()
                == bytes@,
    {
        let needed = bits / 8 + if bits % 8 != 0 {
            1
        } else {
            0
        };
        if bytes.len() != needed || bytes.len() > usize::MAX / 8 {
            return None;
        }
        Some(Bitmap { bits, buffer: vstd::slice::slice_to_vec(bytes) })
    }

    /// Returns whether the padding bits after the last bit are all unset.
    pub fn padding_is_clear(&self) -> (r: bool)
        requires
            self.wf(),
        ensures
            r == self.padding_clear(),
    {
        proof {
            self.lemma_ones();
        }
        let total = self.buffer.len() * 8;
        let mut i = self.bits;
        while i < total
            invariant
                self.wf(),
                self.nbits() <= i <= total,
                total == 8 * self.bytes().len(),
                forall|j: int| self.nbits() <= j < i ==> !bit_at(self.bytes(), j),
            decreases total - i,
        {
            let bit_index = (i % 8) as u8;
            if self.buffer[i / 8] & (1u8 << bit_index) != 0 {
                assert(bit_at(self.bytes(), i as int));
                return false;
            }
            i = i + 1;
        }
        true
    }

    /// Returns the number of unset bits among the bits of this bitmap; the
    /// padding bits are not read.
    pub fn false_count(&self) -> (r: usize)
        requires
            self.wf(),
        ensures
            r == count_false(self@),
    {
        let mut count: usize = 0;
        let mut i: usize = 0;
        while i < self.bits
            invariant
                self.wf(),
                i <= self@.len(),
                count == count_false(self@.take(i as int)),
                count <= i,
            decreases self@.len() - i,
        {
            proof {
                assert(self@.take(i + 1).drop_last() =~= self@.take(i as int));
            }
            if !self.get_unchecked(i) {
                count = count + 1;
            }
            i = i + 1;
        }
        assert(self@.take(i as int) =~= self@);
        count
    }
}

impl Default for Bitmap {
    fn default() -> (r: Bitmap)
        ensures
            r.wf(),
            r@ == Seq::<bool>::empty(),
            r.bytes() == Seq::<u8>::empty(),
    {
        Bitmap { bits: 0, buffer: Vec::new() }
    }
}

impl Bitmap {
    /// Returns whether the item at `index` is valid, when this bitmap tracks
    /// validity. Returns `None` when the index is out of bounds.
    pub fn is_valid(&self, index: usize) -> (r: Option<bool>)
        requires
            self.wf(),
        ensures
            r == (if index < self@.len() {
                Some(self@[index as int])
            } else {
                None
            }),
    {
        self.get(index)
    }

    /// Returns whether the item at `index` is null, when this bitmap tracks
    /// validity. Returns `None` when the index is out of bounds.
    pub fn is_null(&self, index: usize) -> (r: Option<bool>)
        requires
            self.wf(),
        ensures
            r == (if index < self@.len() {
                Some(!self@[index as int])
            } else {
                None
            }),
    {
        match self.get(index) {
            Some(valid) => Some(!valid),
            None => None,
        }
    }

    /// Returns the number of null (unset) bits.
    pub fn null_count(&self) -> (r: usize)
        requires
            self.wf(),
            self.padding_clear(),
        ensures
            r == count_false(self@),
    {
        proof {
            self.lemma_ones();
        }
        self.count_zeros()
    }

    /// Returns the number of valid (set) bits.
    pub fn valid_count(&self) -> (r: usize)
        requires
            self.wf(),
            self.padding_clear(),
        ensures
            r == count_true(self@),
    {
        self.count_ones()
    }

    /// Returns `true` when no bit is unset.
    pub fn all_valid(&self) -> (r: bool)
        requires
            self.wf(),
            self.padding_clear(),
        ensures
            r == (count_false(self@) == 0),
    {
        self.null_count() == 0
    }
}

/// Iterator over the bits of a [`Bitmap`].
pub struct BitmapIter<'a> {
    /// The bitmap whose bits are produced.
    pub bitmap: &'a Bitmap,
    /// The index of the next bit.
    pub index: usize,
}

impl<'a> BitmapIter<'a> {
    /// The bits that this iterator still produces.
    pub open spec fn remaining(&self) -> Seq<bool> {
        self.bitmap@.skip(self.index as int)
    }

    /// Returns the next bit, or `None` once all bits were produced.
    pub fn next(&mut self) -> (r: Option<bool>)
        requires
            old(self).bitmap.wf(),
            old(self).index <= old(self).bitmap@.len(),
        ensures
            final(self).bitmap == old(self).bitmap,
            final(self).index <= final(self).bitmap@.len(),
            old(self).index < old(self).bitmap@.len() ==> r == Some(old(self).bitmap@[old(self).index as int])
                && final(self).index == old(self).index + 1,
            old(self).index >= old(self).bitmap@.len() ==> r is None && final(self).index == old(self).index,
    {
        if self.index < self.bitmap.bits {
            let bit = self.bitmap.get_unchecked(self.index);
            self.index = self.index + 1;
            Some(bit)
        } else {
            None
        }
    }

    /// Produces the remaining bits, in order, until the iterator is done.
    pub fn collect_remaining(&mut self) -> (r: Vec<bool>)
        requires
            old(self).bitmap.wf(),
            old(self).index <= old(self).bitmap@.len(),
        ensures
            r@ == old(self).remaining(),
            final(self).bitmap == old(self).bitmap,
            final(self).index == final(self).bitmap@.len(),
    {
        let mut out: Vec<bool> = Vec::new();
        loop
            invariant
                self.bitmap == old(self).bitmap,
                self.bitmap.wf(),
                old(self).index <= self.index <= self.bitmap@.len(),
                out@ == self.bitmap@.subrange(old(self).index as int, self.index as int),
            ensures
                self.bitmap == old(self).bitmap,
                self.index == self.bitmap@.len(),
                out@ == self.bitmap@.subrange(old(self).index as int, self.index as int),
            decreases self.bitmap@.len() - self.index,
        {
            match self.next() {
                Some(bit) => {
                    out.push(bit);
                    assert(out@ =~= self.bitmap@.subrange(old(self).index as int, self.index as int));
                },
                None => {
                    break ;
                },
            }
        }
        assert(out@ =~= old(self).remaining());
        out
    }

    /// Returns the number of bits that remain, as lower and upper bound.
    pub fn size_hint(&self) -> (r: (usize, Option<usize>))
        requires
            self.index <= self.bitmap@.len(),
        ensures
            r.0 == self.remaining().len(),
            r.1 == Some(r.0),
    {
        let remaining = self.bitmap.bits - self.index;
        (remaining, Some(remaining))
    }
}

/// Iterating a bitmap from its start produces exactly its bits, in order:
/// with `Bitmap::from_bools`, the booleans that it was built from.
pub proof fn lemma_iter_produces_bits(bits: Seq<bool>, iter: BitmapIter)
    requires
        iter.bitmap@ == bits,
        iter.index == 0,
    ensures
        iter.remaining() == bits,
        iter.remaining().len() == bits.len(),
{
    assert(iter.remaining() =~= bits);
}

} // verus!
