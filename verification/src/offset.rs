//! Offset buffers: the start and end of each variable-size item.
use vstd::prelude::*;

verus! {

/// Types used for the values of an offset buffer (`i32` or `i64`).
pub trait OffsetElement: Copy + Sized {
    /// The value as a mathematical integer.
    spec fn spec_int(&self) -> int;

    /// The largest value of this type.
    spec fn spec_max() -> int;

    /// Returns the zero offset.
    fn zero() -> (r: Self)
        ensures
            r.spec_int() == 0,
    ;

    /// Converts a length into an offset value, if it fits.
    fn from_usize(value: usize) -> (r: Option<Self>)
        ensures
            r is Some <==> value <= Self::spec_max(),
            r matches Some(offset) ==> offset.spec_int() == value,
    ;

    /// Converts a non-negative offset value into a length.
    fn to_usize(&self) -> (r: usize)
        requires
            0 <= self.spec_int() <= usize::MAX,
        ensures
            r == self.spec_int(),
    ;

    /// Returns the offset value as an `i64`.
    fn to_i64(&self) -> (r: i64)
        ensures
            r == self.spec_int(),
    ;
}

impl OffsetElement for i32 {
    open spec fn spec_int(&self) -> int {
        *self as int
    }

    open spec fn spec_max() -> int {
        i32::MAX as int
    }

    fn zero() -> (r: Self) {
        0
    }

    fn from_usize(value: usize) -> (r: Option<Self>) {
        if value <= 0x7fff_ffffusize {
            Some(value as i32)
        } else {
            None
        }
    }

    fn to_usize(&self) -> (r: usize) {
        *self as usize
    }

    fn to_i64(&self) -> (r: i64) {
        *self as i64
    }
}

impl OffsetElement for i64 {
    open spec fn spec_int(&self) -> int {
        *self as int
    }

    open spec fn spec_max() -> int {
        i64::MAX as int
    }

    fn zero() -> (r: Self) {
        0
    }

    fn from_usize(value: usize) -> (r: Option<Self>) {
        if value as u64 <= 0x7fff_ffff_ffff_ffffu64 {
            Some(value as i64)
        } else {
            None
        }
    }

    fn to_usize(&self) -> (r: usize) {
        *self as usize
    }

    fn to_i64(&self) -> (r: i64) {
        *self
    }
}

/// The offset values as integers.
pub open spec fn offset_ints<O: OffsetElement>(offsets: Seq<O>) -> Seq<int> {
    offsets.map_values(|o: O| o.spec_int())
}

/// An offset buffer for `len` items over `data_len` values: it starts at
/// zero, never decreases and ends at `data_len`.
pub open spec fn offsets_wf(offsets: Seq<int>, data_len: nat) -> bool {
    &&& offsets.len() >= 1
    &&& offsets[0] == 0
    &&& forall|i: int, j: int| 0 <= i <= j < offsets.len() ==> offsets[i] <= offsets[j]
    &&& offsets.last() == data_len
}

/// Returns whether the offsets cut `data_len` values into items: they start
/// at zero, never decrease and end at `data_len`.
pub fn offsets_valid<O: OffsetElement>(offsets: &[O], data_len: usize) -> (r: bool)
    ensures
        r == offsets_wf(offset_ints(offsets@), data_len as nat),
{
    let ghost ints = offset_ints(offsets@);
    if offsets.len() == 0 {
        return false;
    }
    if offsets[0].to_i64() != 0 {
        return false;
    }
    let mut i: usize = 1;
    while i < offsets.len()
        invariant
            1 <= i <= offsets@.len(),
            ints == offset_ints(offsets@),
            ints[0] == 0,
            forall|a: int, b: int| 0 <= a <= b < i ==> ints[a] <= ints[b],
        decreases offsets@.len() - i,
    {
        if offsets[i].to_i64() < offsets[i - 1].to_i64() {
            assert(ints[i - 1] > ints[i as int]);
            return false;
        }
        assert forall|a: int, b: int| 0 <= a <= b < i + 1 implies ints[a] <= ints[b] by {
            if b == i && a < b {
                assert(ints[a] <= ints[i - 1]);
            }
        }
        i = i + 1;
    }
    let last = offsets[offsets.len() - 1].to_i64();
    assert(ints.last() == last);
    last >= 0 && last as u64 == data_len as u64
}

/// The slots that an offset buffer cuts out of the data.
pub open spec fn slots<T>(data: Seq<T>, offsets: Seq<int>) -> Seq<Seq<T>> {
    Seq::new(
        (offsets.len() - 1) as nat,
        |i: int| data.subrange(offsets[i], offsets[i + 1]),
    )
}

/// All items, one after the other.
pub open spec fn concat<T>(items: Seq<Seq<T>>) -> Seq<T>
    decreases items.len(),
{
    if items.len() == 0 {
        Seq::empty()
    } else {
        concat(items.drop_last()) + items.last()
    }
}

/// The total length of the items grows with each item.
pub proof fn lemma_concat_prefix_len<T>(items: Seq<Seq<T>>, i: int)
    requires
        0 <= i <= items.len(),
    ensures
        concat(items.take(i)).len() <= concat(items).len(),
    decreases items.len() - i,
{
    if i < items.len() {
        lemma_concat_prefix_len(items, i + 1);
        assert(items.take(i + 1).drop_last() =~= items.take(i));
    } else {
        assert(items.take(i) =~= items);
    }
}

} // verus!
