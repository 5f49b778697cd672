//! Bitmaps as the boolean and null buffers of the `arrow-buffer` crate.
use vstd::prelude::*;
use crate::arrow::buffer::{ArrowBytes, buffer_bytes};
use crate::bitmap::Bitmap;
use crate::bits::bit_at;
use crate::buffer::Buffer;

verus! {

#[verifier::external_type_specification]
#[verifier::external_body]
pub struct ExBooleanBuffer(arrow_buffer::BooleanBuffer);

#[verifier::external_type_specification]
#[verifier::external_body]
pub struct ExNullBuffer(arrow_buffer::NullBuffer);

/// The bits held by a `BooleanBuffer`.
pub uninterp spec fn boolean_buffer_bits(buffer: arrow_buffer::BooleanBuffer) -> Seq<bool>;

/// The validity bits held by a `NullBuffer`.
pub uninterp spec fn null_buffer_bits(buffer: arrow_buffer::NullBuffer) -> Seq<bool>;

/// `BooleanBuffer::new(bytes, 0, len)`: the buffer holds the first `len`
/// bits of the bytes, least significant bit first. It panics when the bytes
/// hold fewer bits.
#[verifier::external_body]
fn boolean_buffer_new(bytes: ArrowBytes, len: usize) -> (r: arrow_buffer::BooleanBuffer)
    requires
        len <= 8 * buffer_bytes(bytes).len(),
    ensures
        boolean_buffer_bits(r) == Seq::new(len as nat, |i: int| bit_at(buffer_bytes(bytes), i)),
{
    arrow_buffer::BooleanBuffer::new(bytes.inner, 0, len)
}

/// `BooleanBuffer::len`: the number of bits.
#[verifier::external_body]
fn boolean_buffer_len(buffer: &arrow_buffer::BooleanBuffer) -> (r: usize)
    ensures
        r == boolean_buffer_bits(*buffer).len(),
{
    buffer.len()
}

/// `BooleanBuffer::value`: bit `index`. It panics when `index` is out of
/// bounds.
#[verifier::external_body]
fn boolean_buffer_value(buffer: &arrow_buffer::BooleanBuffer, index: usize) -> (r: bool)
    requires
        index < boolean_buffer_bits(*buffer).len(),
    ensures
        r == boolean_buffer_bits(*buffer)[index as int],
{
    buffer.value(index)
}

/// `NullBuffer::new`: the validity bits are the bits of the boolean buffer.
#[verifier::external_body]
fn null_buffer_new(buffer: arrow_buffer::BooleanBuffer) -> (r: arrow_buffer::NullBuffer)
    ensures
        null_buffer_bits(r) == boolean_buffer_bits(buffer),
{
    arrow_buffer::NullBuffer::new(buffer)
}

/// `NullBuffer::inner`: the boolean buffer of the validity bits.
#[verifier::external_body]
fn null_buffer_inner(buffer: &arrow_buffer::NullBuffer) -> (r: &arrow_buffer::BooleanBuffer)
    ensures
        boolean_buffer_bits(*r) == null_buffer_bits(*buffer),
{
    buffer.inner()
}

/// Returns the number of bits of a boolean buffer.
pub fn boolean_buffer_length(buffer: &arrow_buffer::BooleanBuffer) -> (r: usize)
    ensures
        r == boolean_buffer_bits(*buffer).len(),
{
    boolean_buffer_len(buffer)
}

/// Returns the number of validity bits of a null buffer.
pub fn null_buffer_length(buffer: &arrow_buffer::NullBuffer) -> (r: usize)
    ensures
        r == null_buffer_bits(*buffer).len(),
{
    boolean_buffer_len(null_buffer_inner(buffer))
}

impl Bitmap {
    /// Returns a boolean buffer holding the bits of this bitmap.
    pub fn to_boolean_buffer(&self) -> (r: arrow_buffer::BooleanBuffer)
        requires
            self.wf(),
        ensures
            boolean_buffer_bits(r) == self@,
    {
        let bytes = <ArrowBytes as Buffer<u8>>::from_slice(self.as_bytes());
        let r = boolean_buffer_new(bytes, self.len());
        assert(boolean_buffer_bits(r) =~= self@);
        r
    }

    /// Returns a null buffer whose validity bits are the bits of this bitmap.
    pub fn to_null_buffer(&self) -> (r: arrow_buffer::NullBuffer)
        requires
            self.wf(),
        ensures
            null_buffer_bits(r) == self@,
    {
        null_buffer_new(self.to_boolean_buffer())
    }

    /// Returns a bitmap holding the bits of a boolean buffer, or `None` when
    /// their number is within 7 of `usize::MAX`.
    pub fn from_boolean_buffer(buffer: &arrow_buffer::BooleanBuffer) -> (r: Option<Bitmap>)
        ensures
            r is Some <==> boolean_buffer_bits(*buffer).len() + 7 <= usize::MAX,
            r matches Some(bitmap) ==> bitmap.wf() && bitmap.padding_clear() && bitmap@
                == boolean_buffer_bits(*buffer),
    {
        let n = boolean_buffer_len(buffer);
        if n > usize::MAX - 7 {
            return None;
        }
        let mut bits: Vec<bool> = Vec::new();
        let mut i: usize = 0;
        while i < n
            invariant
                n == boolean_buffer_bits(*buffer).len(),
                i <= n,
                bits@ == boolean_buffer_bits(*buffer).take(i as int),
            decreases n - i,
        {
            bits.push(boolean_buffer_value(buffer, i));
            i = i + 1;
            assert(bits@ =~= boolean_buffer_bits(*buffer).take(i as int));
        }
        assert(bits@ =~= boolean_buffer_bits(*buffer));
        Some(Bitmap::from_bools(bits.as_slice()))
    }

    /// Returns a bitmap holding the validity bits of a null buffer, or
    /// `None` when their number is within 7 of `usize::MAX`.
    pub fn from_null_buffer(buffer: &arrow_buffer::NullBuffer) -> (r: Option<Bitmap>)
        ensures
            r is Some <==> null_buffer_bits(*buffer).len() + 7 <= usize::MAX,
            r matches Some(bitmap) ==> bitmap.wf() && bitmap.padding_clear() && bitmap@
                == null_buffer_bits(*buffer),
    {
        Bitmap::from_boolean_buffer(null_buffer_inner(buffer))
    }

    /// Returns whether a boolean buffer holds the same bits as this bitmap.
    pub fn eq_boolean_buffer(&self, other: &arrow_buffer::BooleanBuffer) -> (r: bool)
        requires
            self.wf(),
        ensures
            r == (self@ == boolean_buffer_bits(*other)),
    {
        let n = self.len();
        if boolean_buffer_len(other) != n {
            return false;
        }
        let mut i: usize = 0;
        while i < n
            invariant
                self.wf(),
                n == self@.len(),
                n == boolean_buffer_bits(*other).len(),
                i <= n,
                forall|j: int| 0 <= j < i ==> self@[j] == boolean_buffer_bits(*other)[j],
            decreases n - i,
        {
            if self.get_unchecked(i) != boolean_buffer_value(other, i) {
                return false;
            }
            i = i + 1;
        }
        assert(self@ =~= boolean_buffer_bits(*other));
        true
    }

    /// Returns whether a null buffer holds the same validity bits as this
    /// bitmap.
    pub fn eq_null_buffer(&self, other: &arrow_buffer::NullBuffer) -> (r: bool)
        requires
            self.wf(),
        ensures
            r == (self@ == null_buffer_bits(*other)),
    {
        self.eq_boolean_buffer(null_buffer_inner(other))
    }
}

} // verus!
