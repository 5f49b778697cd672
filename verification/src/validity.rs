//! Validity of array items: a bitmap of valid items next to the values.
use vstd::prelude::*;
use crate::bitmap::Bitmap;
use crate::bits::count_false;

verus! {

/// Type constructors for the nullability of an array: [`NonNullable`]
/// arrays hold no validity bitmap, [`Nullable`] arrays hold one.
pub trait Nullability: Sized {
    /// Whether arrays with this nullability may hold null items.
    spec fn nullable() -> bool;

    /// The validity bitmap, if any.
    spec fn bitmap(&self) -> Option<Bitmap>;

    /// Returns the validity bitmap, if any.
    fn bitmap_opt(&self) -> (r: Option<&Bitmap>)
        ensures
            r is None <==> self.bitmap() is None,
            r matches Some(b) ==> self.bitmap() == Some(*b),
    ;
}

/// Arrays without null items: no validity bitmap is stored.
pub struct NonNullable;

/// Arrays with null items: a validity bitmap is stored next to the values.
pub struct Nullable {
    /// The validity bitmap.
    validity: Bitmap,
}

impl Nullability for NonNullable {
    open spec fn nullable() -> bool {
        false
    }

    open spec fn bitmap(&self) -> Option<Bitmap> {
        None
    }

    fn bitmap_opt(&self) -> (r: Option<&Bitmap>) {
        None
    }
}

impl Nullability for Nullable {
    open spec fn nullable() -> bool {
        true
    }

    closed spec fn bitmap(&self) -> Option<Bitmap> {
        Some(self.validity)
    }

    fn bitmap_opt(&self) -> (r: Option<&Bitmap>) {
        Some(&self.validity)
    }
}

impl Nullable {
    /// Wraps a validity bitmap.
    pub fn new(validity: Bitmap) -> (r: Nullable)
        ensures
            r.bitmap() == Some(validity),
    {
        Nullable { validity }
    }

    /// Returns the validity bitmap.
    pub fn bitmap_ref(&self) -> (r: &Bitmap)
        ensures
            self.bitmap() == Some(*r),
    {
        &self.validity
    }

    /// Consumes this wrapper and returns the validity bitmap.
    pub fn into_bitmap(self) -> (r: Bitmap)
        ensures
            self.bitmap() == Some(r),
    {
        self.validity
    }

    /// Overwrites byte `index` of the validity bitmap.
    pub fn set_byte(&mut self, index: usize, value: u8)
        requires
            old(self).bitmap() matches Some(b) && b.wf() && index < b.bytes().len(),
        ensures
            final(self).bitmap() matches Some(b) && b.wf() && b.nbits() == old(
                self,
            ).bitmap().unwrap().nbits() && b.bytes() == old(self).bitmap().unwrap().bytes().update(
                index as int,
                value,
            ),
    {
        self.validity.set_byte(index, value);
    }

    /// Appends a validity bit.
    pub fn push(&mut self, valid: bool)
        requires
            old(self).bitmap() matches Some(b) && b.wf() && b.padding_clear() && b@.len() + 8
                <= usize::MAX,
        ensures
            final(self).bitmap() matches Some(b) && b.wf() && b.padding_clear() && b@ == old(
                self,
            ).bitmap().unwrap()@.push(valid),
    {
        self.validity.push(valid);
    }
}

/// Whether item `i` is valid: always, without a validity bitmap.
pub open spec fn valid_at(validity: Option<Bitmap>, i: int) -> bool {
    match validity {
        Some(bitmap) => bitmap@[i],
        None => true,
    }
}

/// The items of an array: its values, with invalid slots as `None`.
pub open spec fn nullable_items<T>(values: Seq<T>, validity: Option<Bitmap>) -> Seq<Option<T>> {
    Seq::new(values.len(), |i: int| if valid_at(validity, i) { Some(values[i]) } else { None })
}

/// A validity bitmap is present exactly for nullable arrays, is well
/// formed, has no stray padding bits and covers all `len` items.
pub open spec fn validity_wf(validity: Option<Bitmap>, nullable: bool, len: nat) -> bool {
    &&& nullable == validity.is_some()
    &&& validity matches Some(bitmap) ==> {
        &&& bitmap.wf()
        &&& bitmap.padding_clear()
        &&& bitmap@.len() == len
    }
}

/// Which of the given items are present.
pub open spec fn presence<T>(items: Seq<Option<T>>) -> Seq<bool> {
    Seq::new(items.len(), |i: int| items[i] is Some)
}

/// Number of absent items.
pub open spec fn count_none<T>(items: Seq<Option<T>>) -> nat
    decreases items.len(),
{
    if items.len() == 0 {
        0
    } else {
        count_none(items.drop_last()) + if items.last() is None {
            1nat
        } else {
            0nat
        }
    }
}

/// Builds the validity bitmap of the given items.
pub fn presence_bitmap<T>(items: &[Option<T>]) -> (r: Bitmap)
    requires
        items.len() + 7 <= usize::MAX,
    ensures
        r.wf(),
        r.padding_clear(),
        r@ == presence(items@),
{
    let mut flags: Vec<bool> = Vec::new();
    let mut i: usize = 0;
    while i < items.len()
        invariant
            i <= items.len(),
            flags@ == presence(items@).take(i as int),
        decreases items.len() - i,
    {
        flags.push(items[i].is_some());
        i = i + 1;
        assert(flags@ =~= presence(items@).take(i as int));
    }
    assert(flags@ =~= presence(items@));
    Bitmap::from_bools(flags.as_slice())
}

/// Builds a validity bitmap in which all `n` items are valid.
pub fn all_valid_bitmap(n: usize) -> (r: Bitmap)
    requires
        n + 7 <= usize::MAX,
    ensures
        r.wf(),
        r.padding_clear(),
        r@ == Seq::new(n as nat, |i: int| true),
{
    let mut flags: Vec<bool> = Vec::new();
    let mut i: usize = 0;
    while i < n
        invariant
            i <= n,
            flags@ == Seq::new(i as nat, |j: int| true),
        decreases n - i,
    {
        flags.push(true);
        i = i + 1;
        assert(flags@ =~= Seq::new(i as nat, |j: int| true));
    }
    Bitmap::from_bools(flags.as_slice())
}

/// Absent items are counted by the unset bits of their validity.
pub proof fn lemma_count_none<T>(items: Seq<Option<T>>, valid: Seq<bool>)
    requires
        items.len() == valid.len(),
        forall|i: int| 0 <= i < items.len() ==> (items[i] is Some) == valid[i],
    ensures
        count_none(items) == count_false(valid),
    decreases items.len(),
{
    if items.len() > 0 {
        lemma_count_none(items.drop_last(), valid.drop_last());
    }
}

} // verus!
