//! Child arrays of list arrays: arrays that items can be appended to and
//! read back from one at a time, each item with its mathematical value and
//! the number of slots it takes.
use vstd::prelude::*;
use crate::fixed_size::FixedSize;
use crate::fixed_size_primitive::FixedSizePrimitiveArray;
use crate::validity::{NonNullable, Nullable};

verus! {

/// Child arrays of list arrays.
///
/// Every item takes at least one slot (a value, a validity bit or an
/// offset) in this array and in the arrays nested in it. The slots of all
/// items, the array's size, stay within its capacity, so that counting
/// them never overflows.
pub trait ListChild: Sized {
    /// An item of the array.
    type Item;

    /// The mathematical value of an item.
    type Model;

    /// The mathematical value of an item.
    spec fn model(item: Self::Item) -> Self::Model;

    /// The number of slots that an item takes.
    spec fn item_size(item: Self::Item) -> nat;

    /// The largest size the array can have.
    spec fn capacity() -> nat;

    /// The array is well formed and within its capacity.
    spec fn child_wf(&self) -> bool;

    /// The items of the array.
    spec fn models(&self) -> Seq<Self::Model>;

    /// The number of slots that the items of the array take.
    spec fn size(&self) -> nat;

    /// Every item takes at least one slot.
    proof fn lemma_item_size(item: Self::Item)
        ensures
            Self::item_size(item) >= 1,
    ;

    /// The capacity leaves room for a validity byte.
    proof fn lemma_capacity()
        ensures
            Self::capacity() + 8 <= usize::MAX,
    ;

    /// A well-formed array is within its capacity, and holds no more items
    /// than slots.
    proof fn lemma_size(&self)
        requires
            self.child_wf(),
        ensures
            self.models().len() <= self.size() <= Self::capacity(),
    ;

    /// Returns an empty array.
    fn empty() -> (r: Self)
        ensures
            r.child_wf(),
            r.models() == Seq::<Self::Model>::empty(),
            r.size() == 0,
    ;

    /// Returns the number of items.
    fn count(&self) -> (r: usize)
        requires
            self.child_wf(),
        ensures
            r == self.models().len(),
    ;

    /// Appends an item. The array must stay within its capacity.
    fn push_item(&mut self, item: Self::Item)
        requires
            old(self).child_wf(),
            old(self).size() + Self::item_size(item) <= Self::capacity(),
        ensures
            final(self).child_wf(),
            final(self).models() == old(self).models().push(Self::model(item)),
            final(self).size() == old(self).size() + Self::item_size(item),
    ;

    /// Returns the item at `index`, which must be in bounds.
    fn item_at(&self, index: usize) -> (r: Self::Item)
        requires
            self.child_wf(),
            index < self.models().len(),
        ensures
            Self::model(r) == self.models()[index as int],
    ;
}

/// Child arrays that hold an item for the slots of a null fixed-size list.
pub trait FillChild: ListChild {
    /// An item with the value and size of the items that fill the child
    /// slots of a null list.
    spec fn spec_filler() -> Self::Item;

    /// Returns an item that fills the child slots of a null list: one with
    /// the value and size of [`FillChild::spec_filler`].
    fn filler() -> (r: Self::Item)
        ensures
            Self::model(r) == Self::model(Self::spec_filler()),
            Self::item_size(r) == Self::item_size(Self::spec_filler()),
    ;
}

/// The number of slots that the given items take.
pub open spec fn sum_sizes<C: ListChild>(items: Seq<C::Item>) -> nat
    decreases items.len(),
{
    if items.len() == 0 {
        0
    } else {
        sum_sizes::<C>(items.drop_last()) + C::item_size(items.last())
    }
}

/// The mathematical values of the given items.
pub open spec fn models_of<C: ListChild>(items: Seq<C::Item>) -> Seq<C::Model> {
    items.map_values(|item: C::Item| C::model(item))
}

/// The slots of a prefix grow by the size of the next item, and items take
/// at least one slot each.
pub proof fn lemma_sum_sizes<C: ListChild>(items: Seq<C::Item>, j: int)
    requires
        0 <= j < items.len(),
    ensures
        sum_sizes::<C>(items.take(j + 1)) == sum_sizes::<C>(items.take(j)) + C::item_size(items[j]),
        sum_sizes::<C>(items.take(j + 1)) <= sum_sizes::<C>(items),
        j + 1 <= sum_sizes::<C>(items.take(j + 1)),
    decreases items.len(),
{
    assert(items.take(j + 1).drop_last() =~= items.take(j));
    lemma_sum_sizes_bound::<C>(items.take(j + 1));
    if j + 1 < items.len() {
        lemma_sum_sizes::<C>(items.drop_last(), j);
        assert(items.drop_last().take(j + 1) =~= items.take(j + 1));
    } else {
        assert(items.take(j + 1) =~= items);
    }
}

/// Items of the same sizes, one for one, take the same number of slots.
pub proof fn lemma_sum_sizes_pointwise<C: ListChild>(a: Seq<C::Item>, b: Seq<C::Item>)
    requires
        a.len() == b.len(),
        forall|i: int| 0 <= i < a.len() ==> C::item_size(#[trigger] a[i]) == C::item_size(b[i]),
    ensures
        sum_sizes::<C>(a) == sum_sizes::<C>(b),
    decreases a.len(),
{
    if a.len() > 0 {
        lemma_sum_sizes_pointwise::<C>(a.drop_last(), b.drop_last());
        assert(C::item_size(a[a.len() - 1]) == C::item_size(b[a.len() - 1]));
    }
}

/// Items take at least one slot each.
pub proof fn lemma_sum_sizes_bound<C: ListChild>(items: Seq<C::Item>)
    ensures
        items.len() <= sum_sizes::<C>(items),
    decreases items.len(),
{
    if items.len() > 0 {
        lemma_sum_sizes_bound::<C>(items.drop_last());
        C::lemma_item_size(items.last());
    }
}

impl<T: FixedSize> ListChild for FixedSizePrimitiveArray<T, NonNullable> {
    type Item = T;

    type Model = T;

    open spec fn model(item: T) -> T {
        item
    }

    open spec fn item_size(item: T) -> nat {
        1
    }

    open spec fn capacity() -> nat {
        (usize::MAX - 8) as nat
    }

    open spec fn child_wf(&self) -> bool {
        &&& self.wf()
        &&& self.values().len() <= Self::capacity()
    }

    open spec fn models(&self) -> Seq<T> {
        self.values()
    }

    open spec fn size(&self) -> nat {
        self.values().len()
    }

    proof fn lemma_item_size(item: T) {
    }

    proof fn lemma_capacity() {
    }

    proof fn lemma_size(&self) {
    }

    fn empty() -> (r: Self) {
        Self::new()
    }

    fn count(&self) -> (r: usize) {
        self.len()
    }

    fn push_item(&mut self, item: T) {
        self.push(item);
    }

    fn item_at(&self, index: usize) -> (r: T) {
        self.index_checked(index)
    }
}

impl<T: FixedSize> ListChild for FixedSizePrimitiveArray<T, Nullable> {
    type Item = Option<T>;

    type Model = Option<T>;

    open spec fn model(item: Option<T>) -> Option<T> {
        item
    }

    open spec fn item_size(item: Option<T>) -> nat {
        1
    }

    open spec fn capacity() -> nat {
        (usize::MAX - 8) as nat
    }

    open spec fn child_wf(&self) -> bool {
        &&& self.wf()
        &&& self.values().len() <= Self::capacity()
    }

    open spec fn models(&self) -> Seq<Option<T>> {
        self@
    }

    open spec fn size(&self) -> nat {
        self.values().len()
    }

    proof fn lemma_item_size(item: Option<T>) {
    }

    proof fn lemma_capacity() {
    }

    proof fn lemma_size(&self) {
    }

    fn empty() -> (r: Self) {
        Self::new()
    }

    fn count(&self) -> (r: usize) {
        self.len()
    }

    fn push_item(&mut self, item: Option<T>) {
        self.push(item);
    }

    fn item_at(&self, index: usize) -> (r: Option<T>) {
        self.index_checked(index)
    }
}

impl<T: FixedSize> FillChild for FixedSizePrimitiveArray<T, NonNullable> {
    open spec fn spec_filler() -> T {
        T::spec_zero()
    }

    fn filler() -> (r: T) {
        T::zero()
    }
}

impl<T: FixedSize> FillChild for FixedSizePrimitiveArray<T, Nullable> {
    open spec fn spec_filler() -> Option<T> {
        None
    }

    fn filler() -> (r: Option<T>) {
        None
    }
}

} // verus!
