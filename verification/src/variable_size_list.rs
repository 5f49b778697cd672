//! Variable-size list arrays: each item is a list of items of a child
//! array, cut out of that child by an offset buffer.
use vstd::prelude::*;
use vstd::slice::{slice_subrange, slice_to_vec};
use crate::bitmap::Bitmap;
use crate::child::{ListChild, lemma_sum_sizes, lemma_sum_sizes_bound, models_of, sum_sizes};
use crate::fixed_size::FixedSize;
use crate::fixed_size_primitive::FixedSizePrimitiveArray;
use crate::offset::{
    OffsetElement, concat, lemma_concat_prefix_len, offset_ints, offsets_valid, offsets_wf, slots,
};
use crate::validity::{
    NonNullable, Nullability, Nullable, all_valid_bitmap, count_none, lemma_count_none,
    nullable_items, presence, validity_wf,
};

verus! {

/// The contents of a sequence of vectors.
pub open spec fn item_views<T>(items: Seq<Vec<T>>) -> Seq<Seq<T>> {
    items.map_values(|v: Vec<T>| v@)
}

/// The contents of an optional vector.
pub open spec fn opt_view<T>(item: Option<Vec<T>>) -> Option<Seq<T>> {
    match item {
        Some(v) => Some(v@),
        None => None,
    }
}

/// The values stored for an optional item: its values, or nothing.
pub open spec fn view_or_empty<T>(item: Option<Vec<T>>) -> Seq<T> {
    match item {
        Some(v) => v@,
        None => Seq::empty(),
    }
}

/// The values of an optional slice: its values, or nothing.
pub open spec fn slice_or_empty<T>(item: Option<&[T]>) -> Seq<T> {
    match item {
        Some(bytes) => bytes@,
        None => Seq::empty(),
    }
}

/// The contents of an optional slice.
pub open spec fn opt_slice<T>(item: Option<&[T]>) -> Option<Seq<T>> {
    match item {
        Some(bytes) => Some(bytes@),
        None => None,
    }
}

/// Appends one list of values to an offset buffer and a child array of
/// primitive values.
fn push_values<T: FixedSize, O: OffsetElement>(
    offsets: &mut Vec<O>,
    child: &mut FixedSizePrimitiveArray<T, NonNullable>,
    item: &[T],
)
    requires
        old(child).wf(),
        offsets_wf(offset_ints(old(offsets)@), old(child).values().len()),
        old(child).values().len() + item@.len() <= O::spec_max(),
        old(child).values().len() + item@.len() + 8 <= usize::MAX,
    ensures
        final(child).wf(),
        final(child).values() == old(child).values() + item@,
        offset_ints(final(offsets)@) == offset_ints(old(offsets)@).push(
            final(child).values().len() as int,
        ),
        offsets_wf(offset_ints(final(offsets)@), final(child).values().len()),
        slots(final(child).values(), offset_ints(final(offsets)@)) == slots(
            old(child).values(),
            offset_ints(old(offsets)@),
        ).push(item@),
{
    let ghost old_data = child.values();
    let ghost old_offsets = offset_ints(offsets@);
    let mut j: usize = 0;
    while j < item.len()
        invariant
            j <= item@.len(),
            child.wf(),
            child.values() == old_data + item@.take(j as int),
        decreases item@.len() - j,
    {
        child.push(item[j]);
        j = j + 1;
        assert(child.values() =~= old_data + item@.take(j as int));
    }
    assert(item@.take(j as int) =~= item@);
    let end = O::from_usize(child.len()).unwrap();
    offsets.push(end);
    proof {
        let data = child.values();
        let ints = offset_ints(offsets@);
        assert(ints =~= old_offsets.push(data.len() as int));
        let old_slots = slots(old_data, old_offsets);
        let new_slots = slots(data, ints);
        assert forall|k: int| 0 <= k < old_slots.len() implies new_slots[k] == old_slots[k] by {
            assert(old_offsets[k + 1] <= old_offsets.last());
            assert(data.subrange(ints[k], ints[k + 1]) =~= old_data.subrange(
                old_offsets[k],
                old_offsets[k + 1],
            ));
        }
        assert(new_slots[old_slots.len() as int] =~= item@);
        assert(new_slots =~= old_slots.push(item@));
    }
}

/// Appends one list of items to an offset buffer and its child array.
fn push_items<C: ListChild, O: OffsetElement>(offsets: &mut Vec<O>, child: &mut C, items: Vec<C::Item>)
    requires
        old(child).child_wf(),
        offsets_wf(offset_ints(old(offsets)@), old(child).models().len()),
        old(child).size() + sum_sizes::<C>(items@) <= C::capacity(),
        old(child).size() + sum_sizes::<C>(items@) <= O::spec_max(),
    ensures
        final(child).child_wf(),
        final(child).models() == old(child).models() + models_of::<C>(items@),
        final(child).size() == old(child).size() + sum_sizes::<C>(items@),
        offset_ints(final(offsets)@) == offset_ints(old(offsets)@).push(
            final(child).models().len() as int,
        ),
        offsets_wf(offset_ints(final(offsets)@), final(child).models().len()),
        slots(final(child).models(), offset_ints(final(offsets)@)) == slots(
            old(child).models(),
            offset_ints(old(offsets)@),
        ).push(models_of::<C>(items@)),
{
    let ghost all = items@;
    let ghost old_data = child.models();
    let ghost old_size = child.size();
    let ghost old_offsets = offset_ints(offsets@);
    let total = items.len();
    let mut rest = items;
    let mut j: usize = 0;
    while rest.len() > 0
        invariant
            total == all.len(),
            j + rest@.len() == all.len(),
            rest@ == all.skip(j as int),
            child.child_wf(),
            old_size + sum_sizes::<C>(all) <= C::capacity(),
            child.models() == old_data + models_of::<C>(all.take(j as int)),
            child.size() == old_size + sum_sizes::<C>(all.take(j as int)),
        decreases rest@.len(),
    {
        proof {
            lemma_sum_sizes::<C>(all, j as int);
        }
        let item = rest.remove(0);
        assert(item == all[j as int]);
        child.push_item(item);
        j = j + 1;
        assert(rest@ =~= all.skip(j as int));
        assert(models_of::<C>(all.take(j as int)) =~= models_of::<C>(all.take(j - 1)).push(
            C::model(all[j - 1]),
        ));
        assert(child.models() =~= old_data + models_of::<C>(all.take(j as int)));
    }
    assert(all.take(j as int) =~= all);
    let count = child.count();
    proof {
        child.lemma_size();
        lemma_sum_sizes_bound::<C>(all);
    }
    let end = O::from_usize(count).unwrap();
    offsets.push(end);
    proof {
        let data = child.models();
        let ints = offset_ints(offsets@);
        assert(ints =~= old_offsets.push(data.len() as int));
        let old_slots = slots(old_data, old_offsets);
        let new_slots = slots(data, ints);
        assert forall|k: int| 0 <= k < old_slots.len() implies new_slots[k] == old_slots[k] by {
            assert(old_offsets[k + 1] <= old_offsets.last());
            assert(data.subrange(ints[k], ints[k + 1]) =~= old_data.subrange(
                old_offsets[k],
                old_offsets[k + 1],
            ));
        }
        assert(new_slots[old_slots.len() as int] =~= models_of::<C>(all));
        assert(new_slots =~= old_slots.push(models_of::<C>(all)));
    }
}

/// Variable-size lists: item `i` is the range of the child array between
/// offsets `i` and `i + 1`. A nullable array also holds a validity bitmap;
/// a null item is empty.
pub struct VariableSizeListArray<C: ListChild, N: Nullability = NonNullable, O: OffsetElement = i32> {
    /// The offset buffer: one more offset than there are items.
    offsets: Vec<O>,
    /// The child array: the items of all lists, one list after the other.
    child: C,
    /// The validity bitmap of nullable arrays.
    nulls: N,
}

impl<C: ListChild, N: Nullability, O: OffsetElement> VariableSizeListArray<C, N, O> {
    /// The offset values as integers.
    pub closed spec fn offsets(&self) -> Seq<int> {
        offset_ints(self.offsets@)
    }

    /// The child array.
    pub closed spec fn child(&self) -> C {
        self.child
    }

    /// The items of the child array.
    pub open spec fn data(&self) -> Seq<C::Model> {
        self.child().models()
    }

    /// The validity bitmap.
    pub closed spec fn validity(&self) -> Option<Bitmap> {
        self.nulls.bitmap()
    }

    /// The child items stored for each list.
    pub open spec fn slots(&self) -> Seq<Seq<C::Model>> {
        slots(self.data(), self.offsets())
    }

    /// The child is well formed, the offsets cut it into lists, and the
    /// validity bitmap covers all lists.
    pub open spec fn wf(&self) -> bool {
        &&& self.child().child_wf()
        &&& offsets_wf(self.offsets(), self.data().len())
        &&& validity_wf(self.validity(), N::nullable(), self.slots().len())
    }

    /// The number of slots that the lists take: their child items' slots,
    /// and one offset per list.
    pub open spec fn size(&self) -> nat {
        self.child().size() + self.slots().len()
    }

    /// The number of slots that a list takes.
    pub open spec fn list_size(items: Seq<C::Item>) -> nat {
        sum_sizes::<C>(items) + 1
    }

    /// The largest size: within the child's capacity, and small enough for
    /// every offset to fit the offset type.
    pub open spec fn capacity() -> nat {
        if C::capacity() <= O::spec_max() {
            C::capacity()
        } else if 0 <= O::spec_max() {
            O::spec_max() as nat
        } else {
            0
        }
    }
}

impl<C: ListChild, N: Nullability, O: OffsetElement> View for VariableSizeListArray<C, N, O> {
    type V = Seq<Option<Seq<C::Model>>>;

    open spec fn view(&self) -> Seq<Option<Seq<C::Model>>> {
        nullable_items(self.slots(), self.validity())
    }
}

impl<C: ListChild, N: Nullability, O: OffsetElement> VariableSizeListArray<C, N, O> {
    /// Returns the number of items in this array.
    pub fn len(&self) -> (r: usize)
        requires
            self.wf(),
        ensures
            r == self@.len(),
    {
        self.offsets.len() - 1
    }

    /// Returns `true` when this array holds no items.
    pub fn is_empty(&self) -> (r: bool)
        requires
            self.wf(),
        ensures
            r == (self@.len() == 0),
    {
        self.offsets.len() == 1
    }

    /// Returns the offset buffer.
    pub fn offset_buffer(&self) -> (r: &[O])
        ensures
            offset_ints(r@) == self.offsets(),
    {
        self.offsets.as_slice()
    }

    /// Returns the child array.
    pub fn child_array(&self) -> (r: &C)
        ensures
            *r == self.child(),
    {
        &self.child
    }

    /// Returns the child items of list `index`, which must be in bounds.
    fn list_at(&self, index: usize) -> (r: Vec<C::Item>)
        requires
            self.wf(),
            index < self.slots().len(),
        ensures
            models_of::<C>(r@) == self.slots()[index as int],
    {
        proof {
            assert(self.offsets@.len() == self.slots().len() + 1);
            assert(self.offsets@[index as int].spec_int() == self.offsets()[index as int]);
            assert(self.offsets@[index + 1].spec_int() == self.offsets()[index + 1]);
            assert(self.offsets()[index as int] <= self.offsets()[index + 1]);
            assert(self.offsets()[index + 1] <= self.offsets().last());
            assert(0 <= self.offsets()[index as int]);
        }
        let n = self.child.count();
        let offsets_len = self.offsets.len();
        let start = self.offsets[index].to_usize();
        let end = self.offsets[index + 1].to_usize();
        let ghost list = self.slots()[index as int];
        let mut out: Vec<C::Item> = Vec::new();
        let mut k: usize = start;
        while k < end
            invariant
                self.wf(),
                start <= k <= end <= n,
                n == self.data().len(),
                list == self.data().subrange(start as int, end as int),
                models_of::<C>(out@) == list.take(k - start),
            decreases end - k,
        {
            let ghost before = out@;
            out.push(self.child.item_at(k));
            assert(models_of::<C>(out@) =~= models_of::<C>(before).push(self.data()[k as int]));
            k = k + 1;
            assert(list.take(k - start) =~= list.take(k - start - 1).push(self.data()[k - 1]));
        }
        assert(list.take(k - start) =~= list);
        out
    }
}

impl<T: FixedSize, N: Nullability, O: OffsetElement> VariableSizeListArray<
    FixedSizePrimitiveArray<T, NonNullable>,
    N,
    O,
> {
    /// Returns the value buffer of the child array.
    pub fn buffer_ref(&self) -> (r: &[T])
        ensures
            r@ == self.data(),
    {
        self.child.as_slice()
    }

    /// Returns the values stored for item `index`, which must be in bounds.
    pub(crate) fn slot(&self, index: usize) -> (r: &[T])
        requires
            self.wf(),
            index < self.slots().len(),
        ensures
            r@ == self.slots()[index as int],
    {
        let data_len = self.child.len();
        let offsets_len = self.offsets.len();
        proof {
            assert(self.offsets@.len() == self.slots().len() + 1);
            assert(self.offsets()[index + 1] <= data_len);
            assert(self.offsets@[index as int].spec_int() == self.offsets()[index as int]);
            assert(self.offsets@[index + 1].spec_int() == self.offsets()[index + 1]);
            assert(self.offsets()[index as int] <= self.offsets()[index + 1]);
            assert(self.offsets()[index + 1] <= self.offsets().last());
            assert(0 <= self.offsets()[index as int]);
        }
        let start = self.offsets[index].to_usize();
        let end = self.offsets[index + 1].to_usize();
        slice_subrange(self.child.as_slice(), start, end)
    }
}

/// The child items of the given lists.
pub open spec fn lists_models<C: ListChild>(lists: Seq<Vec<C::Item>>) -> Seq<Seq<C::Model>> {
    lists.map_values(|list: Vec<C::Item>| models_of::<C>(list@))
}

/// The child items of the given optional lists.
pub open spec fn opt_lists_models<C: ListChild>(lists: Seq<Option<Vec<C::Item>>>) -> Seq<
    Option<Seq<C::Model>>,
> {
    lists.map_values(|list: Option<Vec<C::Item>>| opt_list_models::<C>(list))
}

/// The child items of an optional list.
pub open spec fn opt_list_models<C: ListChild>(list: Option<Vec<C::Item>>) -> Option<Seq<C::Model>> {
    match list {
        Some(items) => Some(models_of::<C>(items@)),
        None => None,
    }
}

/// The items stored in the child for an optional list: its items, or none
/// for a null list.
pub open spec fn stored_items<C: ListChild>(list: Option<Vec<C::Item>>) -> Seq<C::Item> {
    match list {
        Some(items) => items@,
        None => Seq::empty(),
    }
}

impl<C: ListChild, O: OffsetElement> VariableSizeListArray<C, NonNullable, O> {
    /// Returns an empty array.
    pub fn new() -> (r: Self)
        ensures
            r.wf(),
            r@ == Seq::<Option<Seq<C::Model>>>::empty(),
            r.slots() == Seq::<Seq<C::Model>>::empty(),
            r.data() == Seq::<C::Model>::empty(),
            r.size() == 0,
    {
        let mut offsets: Vec<O> = Vec::new();
        offsets.push(O::zero());
        let r = VariableSizeListArray { offsets, child: C::empty(), nulls: NonNullable };
        assert(r.offsets() =~= seq![0int]);
        assert(r.slots() =~= Seq::<Seq<C::Model>>::empty());
        assert(r@ =~= Seq::<Option<Seq<C::Model>>>::empty());
        r
    }

    /// Appends a list of child items. The array must stay within its
    /// capacity.
    pub fn push_list(&mut self, items: Vec<C::Item>)
        requires
            old(self).wf(),
            old(self).size() + Self::list_size(items@) <= Self::capacity(),
        ensures
            final(self).wf(),
            final(self).slots() == old(self).slots().push(models_of::<C>(items@)),
            final(self)@ == old(self)@.push(Some(models_of::<C>(items@))),
            final(self).size() == old(self).size() + Self::list_size(items@),
    {
        let ghost list = items@;
        push_items(&mut self.offsets, &mut self.child, items);
        assert(self@ =~= old(self)@.push(Some(models_of::<C>(list))));
    }

    /// Builds an array holding the given lists of child items. The array
    /// must stay within its capacity.
    pub fn from_lists(lists: Vec<Vec<C::Item>>) -> (r: Self)
        requires
            sum_sizes::<Self>(lists@) <= Self::capacity(),
        ensures
            r.wf(),
            r.slots() == lists_models::<C>(lists@),
            r@ == lists_models::<C>(lists@).map_values(|v: Seq<C::Model>| Some(v)),
    {
        let ghost all = lists@;
        let total = lists.len();
        let mut rest = lists;
        let mut r = Self::new();
        let mut i: usize = 0;
        assert(all.take(0) =~= Seq::<Vec<C::Item>>::empty());
        assert(r.slots() =~= lists_models::<C>(all.take(0)));
        while rest.len() > 0
            invariant
                total == all.len(),
                i + rest@.len() == all.len(),
                rest@ == all.skip(i as int),
                sum_sizes::<Self>(all) <= Self::capacity(),
                r.wf(),
                r.size() == sum_sizes::<Self>(all.take(i as int)),
                r.slots() == lists_models::<C>(all.take(i as int)),
            decreases rest@.len(),
        {
            proof {
                lemma_sum_sizes::<Self>(all, i as int);
            }
            let list = rest.remove(0);
            assert(list == all[i as int]);
            r.push_list(list);
            i = i + 1;
            assert(rest@ =~= all.skip(i as int));
            assert(r.slots() =~= lists_models::<C>(all.take(i as int)));
        }
        assert(all.take(i as int) =~= all);
        assert(r@ =~= lists_models::<C>(all).map_values(|v: Seq<C::Model>| Some(v)));
        r
    }

    /// Returns the child items of list `index`, which must be in bounds.
    pub fn list_checked(&self, index: usize) -> (r: Vec<C::Item>)
        requires
            self.wf(),
            index < self@.len(),
        ensures
            models_of::<C>(r@) == self.slots()[index as int],
    {
        self.list_at(index)
    }

    /// Returns the child items of list `index`, or `None` when it is out of
    /// bounds.
    pub fn list(&self, index: usize) -> (r: Option<Vec<C::Item>>)
        requires
            self.wf(),
        ensures
            index >= self@.len() ==> r is None,
            index < self@.len() ==> (r matches Some(items) && models_of::<C>(items@)
                == self.slots()[index as int]),
    {
        if index < self.len() {
            Some(self.list_at(index))
        } else {
            None
        }
    }

    /// Returns the lists of this array in order.
    pub fn lists(&self) -> (r: Vec<Vec<C::Item>>)
        requires
            self.wf(),
        ensures
            lists_models::<C>(r@) == self.slots(),
    {
        let n = self.len();
        let mut out: Vec<Vec<C::Item>> = Vec::new();
        let mut i: usize = 0;
        while i < n
            invariant
                self.wf(),
                n == self.slots().len(),
                i <= n,
                lists_models::<C>(out@) == self.slots().take(i as int),
            decreases n - i,
        {
            let ghost before = out@;
            let items = self.list_at(i);
            let ghost item_models = models_of::<C>(items@);
            out.push(items);
            proof {
                assert(lists_models::<C>(out@) =~= lists_models::<C>(before).push(item_models));
                assert(self.slots().take(i + 1) =~= self.slots().take(i as int).push(
                    self.slots()[i as int],
                ));
            }
            i = i + 1;
        }
        assert(self.slots().take(i as int) =~= self.slots());
        out
    }

    /// Converts this array into a nullable array in which all items are
    /// valid.
    pub fn into_nullable(self) -> (r: VariableSizeListArray<C, Nullable, O>)
        requires
            self.wf(),
            self@.len() + 7 <= usize::MAX,
        ensures
            r.wf(),
            r.slots() == self.slots(),
            r.data() == self.data(),
            r.size() == self.size(),
            r@ == self@,
    {
        let n = self.len();
        let validity = all_valid_bitmap(n);
        let r = VariableSizeListArray {
            offsets: self.offsets,
            child: self.child,
            nulls: Nullable::new(validity),
        };
        assert(r@ =~= self@);
        r
    }

    /// Builds an array from its offset buffer and child array, or returns
    /// `None` when the offsets do not cut the child into lists.
    pub fn from_parts(offsets: Vec<O>, child: C) -> (r: Option<Self>)
        requires
            child.child_wf(),
        ensures
            r is Some <==> offsets_wf(offset_ints(offsets@), child.models().len()),
            r matches Some(a) ==> a.wf() && a.offsets() == offset_ints(offsets@) && a.child()
                == child,
    {
        let count = child.count();
        if offsets_valid(offsets.as_slice(), count) {
            Some(VariableSizeListArray { offsets, child, nulls: NonNullable })
        } else {
            None
        }
    }

    /// Consumes this array and returns its offset buffer and child array.
    pub fn into_parts(self) -> (r: (Vec<O>, C))
        ensures
            offset_ints(r.0@) == self.offsets(),
            r.1 == self.child(),
    {
        (self.offsets, self.child)
    }
}

impl<T: FixedSize, O: OffsetElement> VariableSizeListArray<
    FixedSizePrimitiveArray<T, NonNullable>,
    NonNullable,
    O,
> {
    /// Appends an item. The new end offset must fit the offset type.
    pub fn push(&mut self, item: &[T])
        requires
            old(self).wf(),
            old(self).data().len() + item@.len() <= O::spec_max(),
            old(self).data().len() + item@.len() + 8 <= usize::MAX,
        ensures
            final(self).wf(),
            final(self).slots() == old(self).slots().push(item@),
            final(self)@ == old(self)@.push(Some(item@)),
            final(self).data() == old(self).data() + item@,
    {
        push_values(&mut self.offsets, &mut self.child, item);
        assert(self@ =~= old(self)@.push(Some(item@)));
    }

    /// Builds an array holding the given items.
    ///
    /// The offsets must fit the offset type.
    pub fn from_vecs(items: &[Vec<T>]) -> (r: Self)
        requires
            concat(item_views(items@)).len() <= O::spec_max(),
            concat(item_views(items@)).len() + 8 <= usize::MAX,
        ensures
            r.wf(),
            r.slots() == item_views(items@),
            r@ == item_views(items@).map_values(|v: Seq<T>| Some(v)),
            r.data() == concat(item_views(items@)),
    {
        let ghost views = item_views(items@);
        let mut r = Self::new();
        let mut i: usize = 0;
        while i < items.len()
            invariant
                i <= items@.len(),
                views == item_views(items@),
                concat(views).len() <= O::spec_max(),
                concat(views).len() + 8 <= usize::MAX,
                r.wf(),
                r.slots() == views.take(i as int),
                r.data() == concat(views.take(i as int)),
            decreases items@.len() - i,
        {
            proof {
                assert(views.take(i + 1).drop_last() =~= views.take(i as int));
                lemma_concat_prefix_len(views, i + 1);
            }
            r.push(items[i].as_slice());
            proof {
                assert(views.take(i + 1) =~= views.take(i as int).push(views[i as int]));
            }
            i = i + 1;
        }
        assert(views.take(i as int) =~= views);
        assert(r@ =~= views.map_values(|v: Seq<T>| Some(v)));
        r
    }

    /// Returns the item at `index`, which must be in bounds.
    pub fn index_checked(&self, index: usize) -> (r: &[T])
        requires
            self.wf(),
            index < self@.len(),
        ensures
            r@ == self.slots()[index as int],
    {
        self.slot(index)
    }

    /// Returns the item at `index`, or `None` when it is out of bounds.
    pub fn index(&self, index: usize) -> (r: Option<&[T]>)
        requires
            self.wf(),
        ensures
            index < self@.len() ==> (r matches Some(bytes) && bytes@ == self.slots()[index as int]),
            index >= self@.len() ==> r is None,
    {
        if index < self.len() {
            Some(self.slot(index))
        } else {
            None
        }
    }

    /// Returns the items of this array in order.
    pub fn iter(&self) -> (r: Vec<Vec<T>>)
        requires
            self.wf(),
        ensures
            item_views(r@) == self.slots(),
    {
        let n = self.len();
        let mut out: Vec<Vec<T>> = Vec::new();
        let mut i: usize = 0;
        while i < n
            invariant
                self.wf(),
                n == self.slots().len(),
                i <= n,
                item_views(out@) == self.slots().take(i as int),
            decreases n - i,
        {
            let ghost before = out@;
            let bytes = slice_to_vec(self.slot(i));
            out.push(bytes);
            proof {
                assert(item_views(out@) =~= item_views(before).push(bytes@));
                assert(self.slots().take(i + 1) =~= self.slots().take(i as int).push(
                    self.slots()[i as int],
                ));
            }
            i = i + 1;
        }
        assert(self.slots().take(i as int) =~= self.slots());
        out
    }

    /// Consumes this array and returns its items in order.
    pub fn into_vec(self) -> (r: Vec<Vec<T>>)
        requires
            self.wf(),
        ensures
            item_views(r@) == self.slots(),
    {
        self.iter()
    }
}

impl<C: ListChild, O: OffsetElement> VariableSizeListArray<C, Nullable, O> {
    /// Returns an empty array.
    pub fn new() -> (r: Self)
        ensures
            r.wf(),
            r@ == Seq::<Option<Seq<C::Model>>>::empty(),
            r.slots() == Seq::<Seq<C::Model>>::empty(),
            r.data() == Seq::<C::Model>::empty(),
            r.size() == 0,
    {
        let mut offsets: Vec<O> = Vec::new();
        offsets.push(O::zero());
        let r = VariableSizeListArray {
            offsets,
            child: C::empty(),
            nulls: Nullable::new(Bitmap::new()),
        };
        assert(r.offsets() =~= seq![0int]);
        assert(r.slots() =~= Seq::<Seq<C::Model>>::empty());
        assert(r@ =~= Seq::<Option<Seq<C::Model>>>::empty());
        r
    }

    /// Appends a list of child items; a null list is stored as an empty
    /// range of the child. The array must stay within its capacity.
    pub fn push_list(&mut self, list: Option<Vec<C::Item>>)
        requires
            old(self).wf(),
            old(self).size() + Self::list_size(stored_items::<C>(list)) <= Self::capacity(),
        ensures
            final(self).wf(),
            final(self).slots() == old(self).slots().push(models_of::<C>(stored_items::<C>(list))),
            final(self)@ == old(self)@.push(opt_list_models::<C>(list)),
            final(self).size() == old(self).size() + Self::list_size(stored_items::<C>(list)),
    {
        let valid = list.is_some();
        let items = match list {
            Some(items) => items,
            None => Vec::new(),
        };
        assert(items@ =~= stored_items::<C>(list));
        push_items(&mut self.offsets, &mut self.child, items);
        proof {
            C::lemma_capacity();
        }
        self.nulls.push(valid);
        assert(self@ =~= old(self)@.push(opt_list_models::<C>(list)));
    }

    /// Builds a nullable array holding the given lists of child items; a
    /// null list is stored as an empty range of the child. The array must
    /// stay within its capacity.
    pub fn from_lists(lists: Vec<Option<Vec<C::Item>>>) -> (r: Self)
        requires
            sum_sizes::<Self>(lists@) <= Self::capacity(),
        ensures
            r.wf(),
            r@ == opt_lists_models::<C>(lists@),
    {
        let ghost all = lists@;
        let total = lists.len();
        let mut rest = lists;
        let mut r = Self::new();
        let mut i: usize = 0;
        assert(all.take(0) =~= Seq::<Option<Vec<C::Item>>>::empty());
        assert(r@ =~= opt_lists_models::<C>(all.take(0)));
        while rest.len() > 0
            invariant
                total == all.len(),
                i + rest@.len() == all.len(),
                rest@ == all.skip(i as int),
                sum_sizes::<Self>(all) <= Self::capacity(),
                r.wf(),
                r.size() == sum_sizes::<Self>(all.take(i as int)),
                r@ == opt_lists_models::<C>(all.take(i as int)),
            decreases rest@.len(),
        {
            proof {
                lemma_sum_sizes::<Self>(all, i as int);
            }
            let list = rest.remove(0);
            assert(list == all[i as int]);
            r.push_list(list);
            i = i + 1;
            assert(rest@ =~= all.skip(i as int));
            assert(r@ =~= opt_lists_models::<C>(all.take(i as int)));
        }
        assert(all.take(i as int) =~= all);
        r
    }

    /// Returns the child items of list `index`, which must be in bounds:
    /// `None` when it is null.
    pub fn list_checked(&self, index: usize) -> (r: Option<Vec<C::Item>>)
        requires
            self.wf(),
            index < self@.len(),
        ensures
            opt_list_models::<C>(r) == self@[index as int],
    {
        if self.nulls.bitmap_ref().get_unchecked(index) {
            Some(self.list_at(index))
        } else {
            None
        }
    }

    /// Returns list `index`, or `None` when it is out of bounds.
    pub fn list(&self, index: usize) -> (r: Option<Option<Vec<C::Item>>>)
        requires
            self.wf(),
        ensures
            index >= self@.len() ==> r is None,
            index < self@.len() ==> (r matches Some(list) && opt_list_models::<C>(list)
                == self@[index as int]),
    {
        if index < self.len() {
            Some(self.list_checked(index))
        } else {
            None
        }
    }

    /// Returns the lists of this array in order.
    pub fn lists(&self) -> (r: Vec<Option<Vec<C::Item>>>)
        requires
            self.wf(),
        ensures
            opt_lists_models::<C>(r@) == self@,
    {
        let n = self.len();
        let mut out: Vec<Option<Vec<C::Item>>> = Vec::new();
        let mut i: usize = 0;
        while i < n
            invariant
                self.wf(),
                n == self@.len(),
                i <= n,
                opt_lists_models::<C>(out@) == self@.take(i as int),
            decreases n - i,
        {
            let ghost before = out@;
            let list = self.list_checked(i);
            let ghost list_model = opt_list_models::<C>(list);
            out.push(list);
            proof {
                assert(opt_lists_models::<C>(out@) =~= opt_lists_models::<C>(before).push(
                    list_model,
                ));
                assert(self@.take(i + 1) =~= self@.take(i as int).push(self@[i as int]));
            }
            i = i + 1;
        }
        assert(self@.take(i as int) =~= self@);
        out
    }

    /// Builds a nullable array from its offset buffer, child array and
    /// validity bitmap, or returns `None` when the offsets do not cut the
    /// child into lists, or the validity bitmap does not cover exactly those
    /// lists or has stray padding bits.
    pub fn from_parts(offsets: Vec<O>, child: C, validity: Bitmap) -> (r: Option<Self>)
        requires
            child.child_wf(),
            validity.wf(),
        ensures
            r is Some <==> offsets_wf(offset_ints(offsets@), child.models().len()) && validity@.len()
                + 1 == offsets@.len() && validity.padding_clear(),
            r matches Some(a) ==> a.wf() && a.offsets() == offset_ints(offsets@) && a.child()
                == child && a.validity() == Some(validity),
    {
        let count = child.count();
        if offsets_valid(offsets.as_slice(), count) && validity.len() == offsets.len() - 1
            && validity.padding_is_clear() {
            Some(VariableSizeListArray { offsets, child, nulls: Nullable::new(validity) })
        } else {
            None
        }
    }

    /// Consumes this array and returns its offset buffer, child array and
    /// validity bitmap.
    pub fn into_parts(self) -> (r: (Vec<O>, C, Bitmap))
        ensures
            offset_ints(r.0@) == self.offsets(),
            r.1 == self.child(),
            self.validity() == Some(r.2),
    {
        let VariableSizeListArray { offsets, child, nulls } = self;
        (offsets, child, nulls.into_bitmap())
    }

    /// Returns the validity bitmap.
    pub fn bitmap_ref(&self) -> (r: &Bitmap)
        requires
            self.wf(),
        ensures
            r.wf(),
            r.padding_clear(),
            r@ == presence(self@),
    {
        let r = self.nulls.bitmap_ref();
        assert(r@ =~= presence(self@));
        r
    }

    /// Returns whether the item at `index` is valid, or `None` when the index
    /// is out of bounds.
    pub fn is_valid(&self, index: usize) -> (r: Option<bool>)
        requires
            self.wf(),
        ensures
            r == (if index < self@.len() {
                Some(self@[index as int] is Some)
            } else {
                None
            }),
    {
        self.bitmap_ref().is_valid(index)
    }

    /// Returns whether the item at `index` is null, or `None` when the index
    /// is out of bounds.
    pub fn is_null(&self, index: usize) -> (r: Option<bool>)
        requires
            self.wf(),
        ensures
            r == (if index < self@.len() {
                Some(self@[index as int] is None)
            } else {
                None
            }),
    {
        self.bitmap_ref().is_null(index)
    }

    /// Returns the number of null items.
    pub fn null_count(&self) -> (r: usize)
        requires
            self.wf(),
        ensures
            r == count_none(self@),
    {
        let bitmap = self.bitmap_ref();
        proof {
            lemma_count_none(self@, bitmap@);
        }
        bitmap.null_count()
    }
}

impl<T: FixedSize, O: OffsetElement> VariableSizeListArray<
    FixedSizePrimitiveArray<T, NonNullable>,
    Nullable,
    O,
> {
    /// Appends an item; a null item is stored as an empty range of the data.
    /// The new end offset must fit the offset type.
    pub fn push(&mut self, item: Option<&[T]>)
        requires
            old(self).wf(),
            old(self)@.len() + 8 <= usize::MAX,
            old(self).data().len() + slice_or_empty(item).len() <= O::spec_max(),
            old(self).data().len() + slice_or_empty(item).len() + 8 <= usize::MAX,
        ensures
            final(self).wf(),
            final(self).slots() == old(self).slots().push(slice_or_empty(item)),
            final(self)@ == old(self)@.push(opt_slice(item)),
            final(self).data() == old(self).data() + slice_or_empty(item),
    {
        match item {
            Some(bytes) => {
                push_values(&mut self.offsets, &mut self.child, bytes);
            },
            None => {
                let empty: Vec<T> = Vec::new();
                push_values(&mut self.offsets, &mut self.child, empty.as_slice());
                assert(empty@ =~= slice_or_empty(item));
            },
        }
        self.nulls.push(item.is_some());
        assert(self@ =~= old(self)@.push(opt_slice(item)));
    }

    /// Builds a nullable array holding the given items. A null item is
    /// stored as an empty range of the data.
    ///
    /// The offsets must fit the offset type.
    pub fn from_options(items: &[Option<Vec<T>>]) -> (r: Self)
        requires
            items.len() + 8 <= usize::MAX,
            concat(items@.map_values(|o: Option<Vec<T>>| view_or_empty(o))).len()
                <= O::spec_max(),
            concat(items@.map_values(|o: Option<Vec<T>>| view_or_empty(o))).len()
                + 8 <= usize::MAX,
        ensures
            r.wf(),
            r@ == items@.map_values(|o: Option<Vec<T>>| opt_view(o)),
            r.slots() == items@.map_values(|o: Option<Vec<T>>| view_or_empty(o)),
            r.data() == concat(items@.map_values(|o: Option<Vec<T>>| view_or_empty(o))),
    {
        let ghost views = items@.map_values(|o: Option<Vec<T>>| view_or_empty(o));
        let ghost target = items@.map_values(|o: Option<Vec<T>>| opt_view(o));
        let mut r = Self::new();
        let mut i: usize = 0;
        while i < items.len()
            invariant
                i <= items@.len(),
                items@.len() + 8 <= usize::MAX,
                views == items@.map_values(|o: Option<Vec<T>>| view_or_empty(o)),
                target == items@.map_values(|o: Option<Vec<T>>| opt_view(o)),
                concat(views).len() <= O::spec_max(),
                concat(views).len() + 8 <= usize::MAX,
                r.wf(),
                r.slots() == views.take(i as int),
                r@ == target.take(i as int),
                r.data() == concat(views.take(i as int)),
            decreases items@.len() - i,
        {
            proof {
                assert(views.take(i + 1).drop_last() =~= views.take(i as int));
                lemma_concat_prefix_len(views, i + 1);
            }
            let item: Option<&[T]> = match &items[i] {
                Some(bytes) => Some(bytes.as_slice()),
                None => None,
            };
            assert(slice_or_empty(item) == views[i as int]);
            assert(opt_slice(item) == target[i as int]);
            r.push(item);
            proof {
                assert(views.take(i + 1) =~= views.take(i as int).push(views[i as int]));
                assert(target.take(i + 1) =~= target.take(i as int).push(target[i as int]));
            }
            i = i + 1;
        }
        assert(views.take(i as int) =~= views);
        assert(target.take(i as int) =~= target);
        r
    }

    /// Returns the item at `index`, which must be in bounds.
    pub fn index_checked(&self, index: usize) -> (r: Option<&[T]>)
        requires
            self.wf(),
            index < self@.len(),
        ensures
            self@[index as int] is None ==> r is None,
            self@[index as int] matches Some(bytes) ==> (r matches Some(s) && s@ == bytes),
    {
        let validity = self.nulls.bitmap_ref();
        if validity.get_unchecked(index) {
            Some(self.slot(index))
        } else {
            None
        }
    }

    /// Returns the item at `index`, or `None` when it is out of bounds.
    pub fn index(&self, index: usize) -> (r: Option<Option<&[T]>>)
        requires
            self.wf(),
        ensures
            index >= self@.len() ==> r is None,
            index < self@.len() && self@[index as int] is None ==> r == Some(None::<&[T]>),
            index < self@.len() ==> (self@[index as int] matches Some(bytes) ==> (r matches Some(
                Some(s),
            ) && s@ == bytes)),
    {
        if index < self.len() {
            Some(self.index_checked(index))
        } else {
            None
        }
    }

    /// Returns the items of this array in order.
    pub fn iter(&self) -> (r: Vec<Option<Vec<T>>>)
        requires
            self.wf(),
        ensures
            r@.map_values(|o: Option<Vec<T>>| opt_view(o)) == self@,
    {
        let n = self.len();
        let mut out: Vec<Option<Vec<T>>> = Vec::new();
        let mut i: usize = 0;
        while i < n
            invariant
                self.wf(),
                n == self@.len(),
                i <= n,
                out@.map_values(|o: Option<Vec<T>>| opt_view(o)) == self@.take(i as int),
            decreases n - i,
        {
            let item = match self.index_checked(i) {
                Some(bytes) => Some(slice_to_vec(bytes)),
                None => None,
            };
            let ghost before = out@;
            out.push(item);
            proof {
                assert(out@.map_values(|o: Option<Vec<T>>| opt_view(o)) =~= before.map_values(
                    |o: Option<Vec<T>>| opt_view(o),
                ).push(opt_view(item)));
                assert(self@.take(i + 1) =~= self@.take(i as int).push(self@[i as int]));
            }
            i = i + 1;
        }
        assert(self@.take(i as int) =~= self@);
        out
    }

    /// Consumes this array and returns its items in order.
    pub fn into_vec(self) -> (r: Vec<Option<Vec<T>>>)
        requires
            self.wf(),
        ensures
            r@.map_values(|o: Option<Vec<T>>| opt_view(o)) == self@,
    {
        self.iter()
    }

}

impl<C: ListChild, O: OffsetElement> ListChild for VariableSizeListArray<C, NonNullable, O> {
    type Item = Vec<C::Item>;

    type Model = Seq<C::Model>;

    open spec fn model(item: Vec<C::Item>) -> Seq<C::Model> {
        models_of::<C>(item@)
    }

    open spec fn item_size(item: Vec<C::Item>) -> nat {
        sum_sizes::<C>(item@) + 1
    }

    open spec fn capacity() -> nat {
        if C::capacity() <= O::spec_max() {
            C::capacity()
        } else if 0 <= O::spec_max() {
            O::spec_max() as nat
        } else {
            0
        }
    }

    open spec fn child_wf(&self) -> bool {
        &&& self.wf()
        &&& self.size() <= Self::capacity()
    }

    open spec fn models(&self) -> Seq<Seq<C::Model>> {
        self.slots()
    }

    open spec fn size(&self) -> nat {
        self.child().size() + self.slots().len()
    }

    proof fn lemma_item_size(item: Vec<C::Item>) {
    }

    proof fn lemma_capacity() {
        C::lemma_capacity();
    }

    proof fn lemma_size(&self) {
    }

    fn empty() -> (r: Self) {
        Self::new()
    }

    fn count(&self) -> (r: usize) {
        self.len()
    }

    fn push_item(&mut self, item: Vec<C::Item>) {
        self.push_list(item);
    }

    fn item_at(&self, index: usize) -> (r: Vec<C::Item>) {
        self.list_at(index)
    }
}

impl<C: ListChild, O: OffsetElement> ListChild for VariableSizeListArray<C, Nullable, O> {
    type Item = Option<Vec<C::Item>>;

    type Model = Option<Seq<C::Model>>;

    open spec fn model(item: Option<Vec<C::Item>>) -> Option<Seq<C::Model>> {
        opt_list_models::<C>(item)
    }

    open spec fn item_size(item: Option<Vec<C::Item>>) -> nat {
        sum_sizes::<C>(stored_items::<C>(item)) + 1
    }

    open spec fn capacity() -> nat {
        if C::capacity() <= O::spec_max() {
            C::capacity()
        } else if 0 <= O::spec_max() {
            O::spec_max() as nat
        } else {
            0
        }
    }

    open spec fn child_wf(&self) -> bool {
        &&& self.wf()
        &&& self.size() <= Self::capacity()
    }

    open spec fn models(&self) -> Seq<Option<Seq<C::Model>>> {
        self@
    }

    open spec fn size(&self) -> nat {
        self.child().size() + self.slots().len()
    }

    proof fn lemma_item_size(item: Option<Vec<C::Item>>) {
    }

    proof fn lemma_capacity() {
        C::lemma_capacity();
    }

    proof fn lemma_size(&self) {
    }

    fn empty() -> (r: Self) {
        Self::new()
    }

    fn count(&self) -> (r: usize) {
        self.len()
    }

    fn push_item(&mut self, item: Option<Vec<C::Item>>) {
        self.push_list(item);
    }

    fn item_at(&self, index: usize) -> (r: Option<Vec<C::Item>>) {
        self.list_checked(index)
    }
}

} // verus!
