//! Fixed-size list arrays: each item is a list of exactly `M` items of a
//! child array, stored one list after the other in that child.
use vstd::prelude::*;
use crate::bitmap::Bitmap;
use crate::child::{
    FillChild, ListChild, lemma_sum_sizes, lemma_sum_sizes_pointwise, models_of, sum_sizes,
};
use crate::validity::{
    NonNullable, Nullability, Nullable, all_valid_bitmap, count_none, lemma_count_none,
    nullable_items, presence, validity_wf,
};

verus! {

/// The complete chunks of `N` items, in order; a final incomplete chunk is
/// left out.
pub open spec fn chunks_of<T>(items: Seq<T>, n: nat) -> Seq<Seq<T>> {
    Seq::new(items.len() / n, |k: int| items.subrange(k * n, k * n + n))
}

/// An iterator over `N` elements of the items at a time.
pub struct FixedSizeArrayChunks<const N: usize, T: Copy> {
    /// The items.
    items: Vec<T>,
    /// The position of the next item.
    index: usize,
}

impl<const N: usize, T: Copy> FixedSizeArrayChunks<N, T> {
    /// The items that were not yet produced.
    pub closed spec fn remaining(&self) -> Seq<T> {
        self.items@.skip(self.index as int)
    }

    /// The position is within the items.
    pub closed spec fn wf(&self) -> bool {
        self.index <= self.items@.len()
    }

    /// Returns a new [`FixedSizeArrayChunks`] over the given items.
    pub fn new(items: Vec<T>) -> (r: Self)
        ensures
            r.wf(),
            r.remaining() == items@,
    {
        let r = FixedSizeArrayChunks { items, index: 0 };
        assert(r.remaining() =~= items@);
        r
    }

    /// Returns the next chunk of `N` items, or `None` when fewer than `N`
    /// items remain (those are consumed).
    pub fn next(&mut self) -> (r: Option<Vec<T>>)
        requires
            old(self).wf(),
        ensures
            final(self).wf(),
            old(self).remaining().len() >= N ==> (r matches Some(chunk) && chunk@
                == old(self).remaining().take(N as int) && final(self).remaining() == old(
                self,
            ).remaining().skip(N as int)),
            old(self).remaining().len() < N ==> r is None && final(self).remaining()
                == Seq::<T>::empty(),
    {
        let mut chunk: Vec<T> = Vec::new();
        let ghost start = self.index;
        let ghost rest = self.remaining();
        while chunk.len() < N && self.index < self.items.len()
            invariant
                start <= self.index <= self.items@.len(),
                chunk@.len() == self.index - start,
                chunk@.len() <= N,
                rest == self.items@.skip(start as int),
                chunk@ == rest.take(chunk@.len() as int),
            decreases self.items@.len() - self.index,
        {
            chunk.push(self.items[self.index]);
            self.index = self.index + 1;
            assert(chunk@ =~= rest.take(chunk@.len() as int));
        }
        assert(self.remaining() =~= rest.skip(chunk@.len() as int));
        if chunk.len() == N {
            Some(chunk)
        } else {
            assert(self.remaining() =~= Seq::<T>::empty());
            None
        }
    }

    /// Returns all complete chunks, in order. `N` must not be zero (a zero
    /// size would produce empty chunks forever).
    pub fn to_vec(&mut self) -> (r: Vec<Vec<T>>)
        requires
            old(self).wf(),
            N > 0,
        ensures
            final(self).wf(),
            r@.map_values(|c: Vec<T>| c@) == chunks_of(old(self).remaining(), N as nat),
            final(self).remaining() == Seq::<T>::empty(),
    {
        let ghost all = self.remaining();
        let mut out: Vec<Vec<T>> = Vec::new();
        assert(out@.len() * N == 0) by (nonlinear_arith)
            requires
                out@.len() == 0,
        ;
        assert(all.skip(0) =~= all);
        loop
            invariant_except_break
                all.len() == out@.len() * N + self.remaining().len(),
                self.remaining() == all.skip(out@.len() * N),
            invariant
                self.wf(),
                N > 0,
                out@.map_values(|c: Vec<T>| c@) == chunks_of(all, N as nat).take(out@.len() as int),
            ensures
                self.wf(),
                self.remaining() == Seq::<T>::empty(),
                out@.map_values(|c: Vec<T>| c@) == chunks_of(all, N as nat),
            decreases self.remaining().len(),
        {
            let ghost k = out@.len();
            let ghost before = out@;
            let ghost rem_len = self.remaining().len();
            proof {
                assert(all.len() / (N as nat) >= k) by (nonlinear_arith)
                    requires
                        all.len() == k * N + self.remaining().len(),
                        N > 0,
                ;
            }
            match self.next() {
                Some(chunk) => {
                    out.push(chunk);
                    proof {
                        assert(all.len() / (N as nat) > k) by (nonlinear_arith)
                            requires
                                all.len() == k * N + rem_len,
                                rem_len >= N,
                                N > 0,
                        ;
                        assert(all.skip(k * N).take(N as int) =~= all.subrange(
                            k * N,
                            k * N + N,
                        ));
                        assert(out@.map_values(|c: Vec<T>| c@) =~= before.map_values(
                            |c: Vec<T>| c@,
                        ).push(chunk@));
                        assert(chunks_of(all, N as nat).take(k + 1int) =~= chunks_of(
                            all,
                            N as nat,
                        ).take(k as int).push(all.subrange(k * N, k * N + N)));
                        assert((k + 1) * N == k * N + N) by (nonlinear_arith);
                        assert(all.skip(k * N).skip(N as int) =~= all.skip(k * N + N));
                    }
                },
                None => {
                    proof {
                        assert(all.len() / (N as nat) == k) by (nonlinear_arith)
                            requires
                                all.len() == k * N + rem_len,
                                rem_len < N,
                                N > 0,
                        ;
                        assert(chunks_of(all, N as nat).take(k as int) =~= chunks_of(
                            all,
                            N as nat,
                        ));
                    }
                    break ;
                },
            }
        }
        out
    }
}


/// The mathematical values of the items of a list.
pub open spec fn list_models<C: FillChild, const M: usize>(list: [C::Item; M]) -> Seq<C::Model> {
    models_of::<C>(list@)
}

/// The mathematical value of an optional list.
pub open spec fn opt_list_models<C: FillChild, const M: usize>(list: Option<[C::Item; M]>) -> Option<
    Seq<C::Model>,
> {
    match list {
        Some(items) => Some(list_models::<C, M>(items)),
        None => None,
    }
}

/// `M` filler items of the child.
pub open spec fn filler_list<C: FillChild, const M: usize>() -> Seq<C::Item> {
    Seq::new(M as nat, |i: int| C::spec_filler())
}

/// The child items stored for an optional list: its items, or `M` filler
/// items for a null list.
pub open spec fn stored_list<C: FillChild, const M: usize>(list: Option<[C::Item; M]>) -> Seq<C::Item> {
    match list {
        Some(items) => items@,
        None => filler_list::<C, M>(),
    }
}

/// `Vec::from` on an array: a vector holding the array's items in order.
#[verifier::external_body]
fn array_into_vec<T, const M: usize>(list: [T; M]) -> (r: Vec<T>)
    ensures
        r@ == list@,
{
    Vec::from(list)
}

/// `<[T; M]>::try_from` on a vector of exactly `M` items: the array holding
/// the vector's items in order.
#[verifier::external_body]
fn vec_into_array<T, const M: usize>(items: Vec<T>) -> (r: [T; M])
    requires
        items@.len() == M,
    ensures
        r@ == items@,
{
    let r: Option<[T; M]> = items.try_into().ok();
    r.unwrap()
}

/// Returns `M` items of the child with the values and sizes of the filler
/// items.
fn filler_items<C: FillChild, const M: usize>() -> (r: Vec<C::Item>)
    ensures
        r@.len() == M,
        models_of::<C>(r@) == models_of::<C>(filler_list::<C, M>()),
        sum_sizes::<C>(r@) == sum_sizes::<C>(filler_list::<C, M>()),
{
    let ghost fill = filler_list::<C, M>();
    let mut r: Vec<C::Item> = Vec::new();
    let mut j: usize = 0;
    while j < M
        invariant
            j <= M,
            r@.len() == j,
            fill == filler_list::<C, M>(),
            forall|k: int| 0 <= k < j ==> C::model(#[trigger] r@[k]) == C::model(C::spec_filler()),
            forall|k: int| 0 <= k < j ==> C::item_size(#[trigger] r@[k]) == C::item_size(
                C::spec_filler(),
            ),
        decreases M - j,
    {
        r.push(C::filler());
        j = j + 1;
    }
    assert(models_of::<C>(r@) =~= models_of::<C>(fill));
    proof {
        lemma_sum_sizes_pointwise::<C>(r@, fill);
    }
    r
}

/// Positions before the last list end inside the child.
proof fn lemma_list_in_child(len: int, m: int, index: int, j: int)
    requires
        0 <= index < len,
        0 <= j < m,
    ensures
        0 <= index * m + j < len * m,
        index * m + m <= len * m,
{
    assert(0 <= index * m + j < len * m && index * m + m <= len * m) by (nonlinear_arith)
        requires
            0 <= index < len,
            0 <= j < m,
    ;
}

/// A list ends no later than the last list.
proof fn lemma_list_end(len: int, m: int, index: int)
    requires
        0 <= index < len,
        0 <= m,
    ensures
        index * m + m <= len * m,
        0 <= index * m,
{
    assert(index * m + m <= len * m && 0 <= index * m) by (nonlinear_arith)
        requires
            0 <= index < len,
            0 <= m,
    ;
}

/// Fixed-size lists: each item is a list of `M` items of the child array,
/// and item `i` is the child items from `i * M` to `i * M + M`. A nullable
/// array also holds a validity bitmap; the child slots of a null list hold
/// filler items.
pub struct FixedSizeListArray<const M: usize, C: FillChild, N: Nullability = NonNullable> {
    /// The child array: the items of all lists, one list after the other.
    child: C,
    /// The number of lists.
    len: usize,
    /// The validity bitmap of nullable arrays.
    nulls: N,
}

impl<const M: usize, C: FillChild, N: Nullability> FixedSizeListArray<M, C, N> {
    /// The child array.
    pub closed spec fn child(&self) -> C {
        self.child
    }

    /// The number of lists.
    pub closed spec fn spec_len(&self) -> nat {
        self.len as nat
    }

    /// The validity bitmap.
    pub closed spec fn validity(&self) -> Option<Bitmap> {
        self.nulls.bitmap()
    }

    /// The child items stored for each list.
    pub open spec fn lists(&self) -> Seq<Seq<C::Model>> {
        Seq::new(
            self.spec_len(),
            |i: int| self.child().models().subrange(i * M, i * M + M),
        )
    }

    /// The child is well formed and holds `M` items per list, and the
    /// validity bitmap covers all lists.
    pub open spec fn wf(&self) -> bool {
        &&& self.child().child_wf()
        &&& self.child().models().len() == self.spec_len() * M
        &&& validity_wf(self.validity(), N::nullable(), self.spec_len())
    }

    /// The number of slots that the lists take: their child items' slots,
    /// and one slot (an offset-free validity bit or a count) per list.
    pub open spec fn size(&self) -> nat {
        self.child().size() + self.spec_len()
    }

    /// The number of slots that a list with the given child items takes.
    pub open spec fn list_size(items: Seq<C::Item>) -> nat {
        sum_sizes::<C>(items) + 1
    }
}

impl<const M: usize, C: FillChild, N: Nullability> FixedSizeListArray<M, C, N> {

    /// Returns the number of lists.
    pub fn len(&self) -> (r: usize)
        ensures
            r == self@.len(),
    {
        self.len
    }

    /// Returns `true` when this array holds no lists.
    pub fn is_empty(&self) -> (r: bool)
        ensures
            r == (self@.len() == 0),
    {
        self.len == 0
    }

    /// Returns the validity bitmap of a nullable array.
    pub fn validity_bitmap(&self) -> (r: Option<&Bitmap>)
        ensures
            r is None <==> self.validity() is None,
            r matches Some(b) ==> self.validity() == Some(*b),
    {
        self.nulls.bitmap_opt()
    }

    /// Returns the child array.
    pub fn child_array(&self) -> (r: &C)
        ensures
            *r == self.child(),
    {
        &self.child
    }

    /// Returns the child items of list `index`, which must be in bounds.
    fn list_at(&self, index: usize) -> (r: [C::Item; M])
        requires
            self.wf(),
            index < self.spec_len(),
        ensures
            list_models::<C, M>(r) == self.lists()[index as int],
    {
        let ghost list = self.lists()[index as int];
        let n = self.child.count();
        proof {
            lemma_list_end(self.len as int, M as int, index as int);
        }
        assert(list.len() == M);
        let mut out: Vec<C::Item> = Vec::new();
        let mut j: usize = 0;
        while j < M
            invariant
                self.wf(),
                index < self.spec_len(),
                n == self.child().models().len(),
                j <= M,
                list == self.lists()[index as int],
                list.len() == M,
                out@.len() == j,
                forall|k: int| 0 <= k < j ==> C::model(#[trigger] out@[k]) == list[k],
            decreases M - j,
        {
            proof {
                lemma_list_in_child(self.len as int, M as int, index as int, j as int);
            }
            let item = self.child.item_at(index * M + j);
            out.push(item);
            j = j + 1;
        }
        let r = vec_into_array::<C::Item, M>(out);
        assert(list_models::<C, M>(r) =~= list);
        r
    }

    /// Appends the given child items of one list.
    fn push_items(&mut self, items: Vec<C::Item>)
        requires
            old(self).child().child_wf(),
            old(self).size() + Self::list_size(items@) <= C::capacity(),
        ensures
            final(self).child().child_wf(),
            final(self).child().models() == old(self).child().models() + models_of::<C>(items@),
            final(self).child().size() == old(self).child().size() + sum_sizes::<C>(items@),
            final(self).spec_len() == old(self).spec_len(),
            final(self).validity() == old(self).validity(),
    {
        let ghost all = items@;
        let ghost start = self.child.models();
        let ghost start_size = self.child.size();
        let total = items.len();
        let mut rest = items;
        let mut j: usize = 0;
        assert(models_of::<C>(all.take(0)) =~= Seq::<C::Model>::empty());
        assert(all.take(0) =~= Seq::<C::Item>::empty());
        assert(rest@ =~= all.skip(0));
        while j < total
            invariant
                total == all.len(),
                j <= total,
                rest@ == all.skip(j as int),
                self.child.child_wf(),
                self.len == old(self).len,
                self.nulls == old(self).nulls,
                start == old(self).child().models(),
                start_size == old(self).child().size(),
                start_size + self.len + sum_sizes::<C>(all) + 1 <= C::capacity(),
                self.child.models() == start + models_of::<C>(all.take(j as int)),
                self.child.size() == start_size + sum_sizes::<C>(all.take(j as int)),
            decreases total - j,
        {
            proof {
                lemma_sum_sizes::<C>(all, j as int);
            }
            let item = rest.remove(0);
            assert(item == all[j as int]);
            self.child.push_item(item);
            j = j + 1;
            assert(rest@ =~= all.skip(j as int));
            assert(models_of::<C>(all.take(j as int)) =~= models_of::<C>(all.take(j - 1)).push(
                C::model(all[j - 1]),
            ));
            assert(self.child.models() =~= start + models_of::<C>(all.take(j as int)));
        }
        assert(all.take(j as int) =~= all);
    }
}

impl<const M: usize, C: FillChild, N: Nullability> View for FixedSizeListArray<M, C, N> {
    type V = Seq<Option<Seq<C::Model>>>;

    open spec fn view(&self) -> Seq<Option<Seq<C::Model>>> {
        nullable_items(self.lists(), self.validity())
    }
}

/// Appending the items of one more list to the child adds that list and
/// keeps the earlier lists.
proof fn lemma_lists_push<A>(child: Seq<A>, len: nat, m: nat, list: Seq<A>)
    requires
        child.len() == len * m,
        list.len() == m,
    ensures
        Seq::new(len + 1, |i: int| (child + list).subrange(i * m, i * m + m)) =~= Seq::new(
            len,
            |i: int| child.subrange(i * m, i * m + m),
        ).push(list),
        (child + list).len() == (len + 1) * m,
{
    assert((len + 1) * m == len * m + m) by (nonlinear_arith);
    assert forall|i: int| 0 <= i < len implies #[trigger] (child + list).subrange(i * m, i * m + m)
        =~= child.subrange(i * m, i * m + m) by {
        lemma_list_end(len as int, m as int, i);
    }
    assert((child + list).subrange((len * m) as int, (len * m + m) as int) =~= list);
}

impl<const M: usize, C: FillChild> FixedSizeListArray<M, C, NonNullable> {
    /// Builds an array of `len` lists over the given child array, or
    /// returns `None` when the child does not hold exactly `len * M` items.
    pub fn from_child(child: C, len: usize) -> (r: Option<Self>)
        requires
            child.child_wf(),
        ensures
            r is Some <==> child.models().len() == len * M,
            r matches Some(a) ==> a.wf() && a.child() == child && a@.len() == len,
    {
        let count = child.count();
        match len.checked_mul(M) {
            Some(total) => {
                if total == count {
                    Some(FixedSizeListArray { child, len, nulls: NonNullable })
                } else {
                    None
                }
            },
            None => None,
        }
    }

    /// Consumes this array and returns its child array.
    pub fn into_child(self) -> (r: C)
        ensures
            r == self.child(),
    {
        self.child
    }

    /// Returns an empty array.
    pub fn new() -> (r: Self)
        ensures
            r.wf(),
            r@ == Seq::<Option<Seq<C::Model>>>::empty(),
            r.lists() == Seq::<Seq<C::Model>>::empty(),
            r.size() == 0,
    {
        let r = FixedSizeListArray { child: C::empty(), len: 0, nulls: NonNullable };
        assert(r@ =~= Seq::<Option<Seq<C::Model>>>::empty());
        assert(r.lists() =~= Seq::<Seq<C::Model>>::empty());
        r
    }

    /// Appends a list. The array must stay within the capacity of its
    /// child.
    pub fn push(&mut self, list: [C::Item; M])
        requires
            old(self).wf(),
            old(self).size() + Self::list_size(list@) <= C::capacity(),
        ensures
            final(self).wf(),
            final(self).lists() == old(self).lists().push(list_models::<C, M>(list)),
            final(self)@ == old(self)@.push(Some(list_models::<C, M>(list))),
            final(self).size() == old(self).size() + Self::list_size(list@),
    {
        self.push_items(array_into_vec(list));
        proof {
            lemma_lists_push(
                old(self).child().models(),
                old(self).spec_len(),
                M as nat,
                list_models::<C, M>(list),
            );
            C::lemma_capacity();
        }
        self.len = self.len + 1;
        assert(self.lists() =~= old(self).lists().push(list_models::<C, M>(list)));
        assert(self@ =~= old(self)@.push(Some(list_models::<C, M>(list))));
    }

    /// Builds an array holding the given lists. The array must stay within
    /// the capacity of its child.
    pub fn from_arrays(lists: Vec<[C::Item; M]>) -> (r: Self)
        requires
            sum_sizes::<Self>(lists@) <= C::capacity(),
        ensures
            r.wf(),
            r.lists() == lists@.map_values(|list: [C::Item; M]| list_models::<C, M>(list)),
            r@ == lists@.map_values(|list: [C::Item; M]| Some(list_models::<C, M>(list))),
    {
        let ghost all = lists@;
        let ghost target = all.map_values(|list: [C::Item; M]| list_models::<C, M>(list));
        let total = lists.len();
        let mut rest = lists;
        let mut r = Self::new();
        assert(all.take(0) =~= Seq::<[C::Item; M]>::empty());
        assert(r.lists() =~= target.take(0));
        assert(rest@ =~= all.skip(0));
        let mut i: usize = 0;
        while i < total
            invariant
                total == all.len(),
                i <= total,
                rest@ == all.skip(i as int),
                sum_sizes::<Self>(all) <= C::capacity(),
                target == all.map_values(|list: [C::Item; M]| list_models::<C, M>(list)),
                r.wf(),
                r@.len() == i,
                r.size() == sum_sizes::<Self>(all.take(i as int)),
                r.lists() == target.take(i as int),
            decreases total - i,
        {
            proof {
                lemma_sum_sizes::<Self>(all, i as int);
            }
            let list = rest.remove(0);
            assert(list == all[i as int]);
            r.push(list);
            i = i + 1;
            assert(rest@ =~= all.skip(i as int));
            assert(r.lists() =~= target.take(i as int));
        }
        assert(target.take(i as int) =~= target);
        assert(r@ =~= all.map_values(|list: [C::Item; M]| Some(list_models::<C, M>(list))));
        r
    }

    /// Returns list `index`, which must be in bounds.
    pub fn index_checked(&self, index: usize) -> (r: [C::Item; M])
        requires
            self.wf(),
            index < self@.len(),
        ensures
            list_models::<C, M>(r) == self.lists()[index as int],
    {
        self.list_at(index)
    }

    /// Returns list `index`, or `None` when it is out of bounds.
    pub fn index(&self, index: usize) -> (r: Option<[C::Item; M]>)
        requires
            self.wf(),
        ensures
            index >= self@.len() ==> r is None,
            index < self@.len() ==> (r matches Some(list) && list_models::<C, M>(list)
                == self.lists()[index as int]),
    {
        if index < self.len {
            Some(self.list_at(index))
        } else {
            None
        }
    }

    /// Returns the lists of this array in order.
    pub fn iter(&self) -> (r: Vec<[C::Item; M]>)
        requires
            self.wf(),
        ensures
            r@.map_values(|list: [C::Item; M]| list_models::<C, M>(list)) == self.lists(),
    {
        let mut out: Vec<[C::Item; M]> = Vec::new();
        let mut i: usize = 0;
        while i < self.len
            invariant
                self.wf(),
                i <= self.spec_len(),
                out@.map_values(|list: [C::Item; M]| list_models::<C, M>(list)) == self.lists().take(
                    i as int,
                ),
            decreases self.spec_len() - i,
        {
            let ghost before = out@;
            let list = self.list_at(i);
            out.push(list);
            assert(out@.map_values(|list: [C::Item; M]| list_models::<C, M>(list)) =~= before.map_values(
                |list: [C::Item; M]| list_models::<C, M>(list),
            ).push(list_models::<C, M>(list)));
            i = i + 1;
            assert(out@.map_values(|list: [C::Item; M]| list_models::<C, M>(list)) =~= self.lists().take(
                i as int,
            ));
        }
        assert(self.lists().take(i as int) =~= self.lists());
        out
    }

    /// Consumes this array and returns its lists in order.
    pub fn into_vec(self) -> (r: Vec<[C::Item; M]>)
        requires
            self.wf(),
        ensures
            r@.map_values(|list: [C::Item; M]| list_models::<C, M>(list)) == self.lists(),
    {
        self.iter()
    }

    /// Converts this array into a nullable array in which all lists are
    /// valid.
    pub fn into_nullable(self) -> (r: FixedSizeListArray<M, C, Nullable>)
        requires
            self.wf(),
            self@.len() + 7 <= usize::MAX,
        ensures
            r.wf(),
            r.lists() == self.lists(),
            r@ == self@,
    {
        let validity = all_valid_bitmap(self.len);
        let r = FixedSizeListArray { child: self.child, len: self.len, nulls: Nullable::new(validity) };
        assert(r.lists() =~= self.lists());
        assert(r@ =~= self@);
        r
    }
}


impl<const M: usize, C: FillChild> FixedSizeListArray<M, C, Nullable> {
    /// Builds a nullable array over the given child array with the given
    /// validity bitmap, or returns `None` when the child does not hold
    /// exactly `M` items per list of the bitmap, or the bitmap has stray
    /// padding bits.
    pub fn from_parts(child: C, validity: Bitmap) -> (r: Option<Self>)
        requires
            child.child_wf(),
            validity.wf(),
        ensures
            r is Some <==> child.models().len() == validity@.len() * M
                && validity.padding_clear(),
            r matches Some(a) ==> a.wf() && a.child() == child && a.validity() == Some(validity),
    {
        let count = child.count();
        let len = validity.len();
        match len.checked_mul(M) {
            Some(total) => {
                if total == count && validity.padding_is_clear() {
                    Some(FixedSizeListArray { child, len, nulls: Nullable::new(validity) })
                } else {
                    None
                }
            },
            None => None,
        }
    }

    /// Consumes this array and returns its child array and validity bitmap.
    pub fn into_parts(self) -> (r: (C, Bitmap))
        ensures
            r.0 == self.child(),
            self.validity() == Some(r.1),
    {
        let FixedSizeListArray { child, nulls, .. } = self;
        (child, nulls.into_bitmap())
    }

    /// Returns an empty array.
    pub fn new() -> (r: Self)
        ensures
            r.wf(),
            r@ == Seq::<Option<Seq<C::Model>>>::empty(),
            r.lists() == Seq::<Seq<C::Model>>::empty(),
            r.size() == 0,
    {
        let r = FixedSizeListArray { child: C::empty(), len: 0, nulls: Nullable::new(Bitmap::new()) };
        assert(r@ =~= Seq::<Option<Seq<C::Model>>>::empty());
        assert(r.lists() =~= Seq::<Seq<C::Model>>::empty());
        r
    }

    /// Appends a list; a null list takes `M` filler items of the child. The
    /// array must stay within the capacity of its child.
    pub fn push(&mut self, list: Option<[C::Item; M]>)
        requires
            old(self).wf(),
            old(self).size() + Self::list_size(stored_list::<C, M>(list)) <= C::capacity(),
        ensures
            final(self).wf(),
            final(self)@ == old(self)@.push(opt_list_models::<C, M>(list)),
            final(self).lists() == old(self).lists().push(
                models_of::<C>(stored_list::<C, M>(list)),
            ),
            final(self).size() == old(self).size() + Self::list_size(stored_list::<C, M>(list)),
    {
        let ghost stored = stored_list::<C, M>(list);
        let valid = list.is_some();
        let items = match list {
            Some(values) => array_into_vec(values),
            None => filler_items::<C, M>(),
        };
        assert(models_of::<C>(items@) == models_of::<C>(stored));
        assert(sum_sizes::<C>(items@) == sum_sizes::<C>(stored));
        self.push_items(items);
        proof {
            lemma_lists_push(
                old(self).child().models(),
                old(self).spec_len(),
                M as nat,
                models_of::<C>(stored),
            );
            C::lemma_capacity();
        }
        self.nulls.push(valid);
        self.len = self.len + 1;
        assert(self.lists() =~= old(self).lists().push(models_of::<C>(stored)));
        assert(self@ =~= old(self)@.push(opt_list_models::<C, M>(list)));
    }

    /// Builds a nullable array holding the given lists; a null list takes
    /// `M` filler items of the child. The array must stay within the
    /// capacity of its child.
    pub fn from_options(lists: Vec<Option<[C::Item; M]>>) -> (r: Self)
        requires
            sum_sizes::<Self>(lists@) <= C::capacity(),
        ensures
            r.wf(),
            r@ == lists@.map_values(|list: Option<[C::Item; M]>| opt_list_models::<C, M>(list)),
            r.lists() == lists@.map_values(
                |list: Option<[C::Item; M]>| models_of::<C>(stored_list::<C, M>(list)),
            ),
    {
        let ghost all = lists@;
        let ghost target = all.map_values(
            |list: Option<[C::Item; M]>| opt_list_models::<C, M>(list),
        );
        let ghost stored = all.map_values(
            |list: Option<[C::Item; M]>| models_of::<C>(stored_list::<C, M>(list)),
        );
        let total = lists.len();
        let mut rest = lists;
        let mut r = Self::new();
        assert(r@ =~= target.take(0));
        assert(r.lists() =~= stored.take(0));
        assert(all.take(0) =~= Seq::<Option<[C::Item; M]>>::empty());
        assert(rest@ =~= all.skip(0));
        let mut i: usize = 0;
        while i < total
            invariant
                total == all.len(),
                i <= total,
                rest@ == all.skip(i as int),
                sum_sizes::<Self>(all) <= C::capacity(),
                r.size() == sum_sizes::<Self>(all.take(i as int)),
                target == all.map_values(
                    |list: Option<[C::Item; M]>| opt_list_models::<C, M>(list),
                ),
                r.wf(),
                r@ == target.take(i as int),
                stored == all.map_values(
                    |list: Option<[C::Item; M]>| models_of::<C>(stored_list::<C, M>(list)),
                ),
                r.lists() == stored.take(i as int),
            decreases total - i,
        {
            proof {
                lemma_sum_sizes::<Self>(all, i as int);
            }
            let list = rest.remove(0);
            assert(list == all[i as int]);
            r.push(list);
            i = i + 1;
            assert(rest@ =~= all.skip(i as int));
            assert(r@ =~= target.take(i as int));
            assert(r.lists() =~= stored.take(i as int));
        }
        assert(target.take(i as int) =~= target);
        assert(stored.take(i as int) =~= stored);
        r
    }

    /// Returns list `index`, which must be in bounds: `None` when it is
    /// null.
    pub fn index_checked(&self, index: usize) -> (r: Option<[C::Item; M]>)
        requires
            self.wf(),
            index < self@.len(),
        ensures
            opt_list_models::<C, M>(r) == self@[index as int],
    {
        if self.nulls.bitmap_ref().get_unchecked(index) {
            Some(self.list_at(index))
        } else {
            None
        }
    }

    /// Returns list `index`, or `None` when it is out of bounds.
    pub fn index(&self, index: usize) -> (r: Option<Option<[C::Item; M]>>)
        requires
            self.wf(),
        ensures
            index >= self@.len() ==> r is None,
            index < self@.len() ==> (r matches Some(list) && opt_list_models::<C, M>(list)
                == self@[index as int]),
    {
        if index < self.len {
            Some(self.index_checked(index))
        } else {
            None
        }
    }

    /// Returns the lists of this array in order.
    pub fn iter(&self) -> (r: Vec<Option<[C::Item; M]>>)
        requires
            self.wf(),
        ensures
            r@.map_values(|list: Option<[C::Item; M]>| opt_list_models::<C, M>(list)) == self@,
    {
        let mut out: Vec<Option<[C::Item; M]>> = Vec::new();
        let mut i: usize = 0;
        while i < self.len
            invariant
                self.wf(),
                i <= self.spec_len(),
                out@.map_values(|list: Option<[C::Item; M]>| opt_list_models::<C, M>(list))
                    == self@.take(i as int),
            decreases self.spec_len() - i,
        {
            let ghost before = out@;
            let list = self.index_checked(i);
            out.push(list);
            assert(out@.map_values(|list: Option<[C::Item; M]>| opt_list_models::<C, M>(list))
                =~= before.map_values(
                |list: Option<[C::Item; M]>| opt_list_models::<C, M>(list),
            ).push(opt_list_models::<C, M>(list)));
            i = i + 1;
            assert(out@.map_values(|list: Option<[C::Item; M]>| opt_list_models::<C, M>(list))
                =~= self@.take(i as int));
        }
        assert(self@.take(i as int) =~= self@);
        out
    }

    /// Consumes this array and returns its lists in order.
    pub fn into_vec(self) -> (r: Vec<Option<[C::Item; M]>>)
        requires
            self.wf(),
        ensures
            r@.map_values(|list: Option<[C::Item; M]>| opt_list_models::<C, M>(list)) == self@,
    {
        self.iter()
    }

    /// Returns the validity bitmap.
    pub fn bitmap_ref(&self) -> (r: &Bitmap)
        requires
            self.wf(),
        ensures
            r.wf(),
            r.padding_clear(),
            r@ == presence(self@),
    {
        let r = self.nulls.bitmap_ref();
        assert(r@ =~= presence(self@));
        r
    }

    /// Returns whether list `index` is valid, or `None` when the index is
    /// out of bounds.
    pub fn is_valid(&self, index: usize) -> (r: Option<bool>)
        requires
            self.wf(),
        ensures
            r == (if index < self@.len() {
                Some(self@[index as int] is Some)
            } else {
                None
            }),
    {
        self.bitmap_ref().is_valid(index)
    }

    /// Returns whether list `index` is null, or `None` when the index is out
    /// of bounds.
    pub fn is_null(&self, index: usize) -> (r: Option<bool>)
        requires
            self.wf(),
        ensures
            r == (if index < self@.len() {
                Some(self@[index as int] is None)
            } else {
                None
            }),
    {
        self.bitmap_ref().is_null(index)
    }

    /// Returns the number of null lists.
    pub fn null_count(&self) -> (r: usize)
        requires
            self.wf(),
        ensures
            r == count_none(self@),
    {
        let bitmap = self.bitmap_ref();
        proof {
            lemma_count_none(self@, bitmap@);
        }
        bitmap.null_count()
    }
}

impl<const M: usize, C: FillChild> ListChild for FixedSizeListArray<M, C, NonNullable> {
    type Item = [C::Item; M];

    type Model = Seq<C::Model>;

    open spec fn model(item: [C::Item; M]) -> Seq<C::Model> {
        list_models::<C, M>(item)
    }

    open spec fn item_size(item: [C::Item; M]) -> nat {
        Self::list_size(item@)
    }

    open spec fn capacity() -> nat {
        C::capacity()
    }

    open spec fn child_wf(&self) -> bool {
        &&& self.wf()
        &&& self.size() <= C::capacity()
    }

    open spec fn models(&self) -> Seq<Seq<C::Model>> {
        self.lists()
    }

    open spec fn size(&self) -> nat {
        self.child().size() + self.spec_len()
    }

    proof fn lemma_item_size(item: [C::Item; M]) {
    }

    proof fn lemma_capacity() {
        C::lemma_capacity();
    }

    proof fn lemma_size(&self) {
    }

    fn empty() -> (r: Self) {
        Self::new()
    }

    fn count(&self) -> (r: usize) {
        self.len()
    }

    fn push_item(&mut self, item: [C::Item; M]) {
        self.push(item);
    }

    fn item_at(&self, index: usize) -> (r: [C::Item; M]) {
        self.index_checked(index)
    }
}

impl<const M: usize, C: FillChild> ListChild for FixedSizeListArray<M, C, Nullable> {
    type Item = Option<[C::Item; M]>;

    type Model = Option<Seq<C::Model>>;

    open spec fn model(item: Option<[C::Item; M]>) -> Option<Seq<C::Model>> {
        opt_list_models::<C, M>(item)
    }

    open spec fn item_size(item: Option<[C::Item; M]>) -> nat {
        Self::list_size(stored_list::<C, M>(item))
    }

    open spec fn capacity() -> nat {
        C::capacity()
    }

    open spec fn child_wf(&self) -> bool {
        &&& self.wf()
        &&& self.size() <= C::capacity()
    }

    open spec fn models(&self) -> Seq<Option<Seq<C::Model>>> {
        self@
    }

    open spec fn size(&self) -> nat {
        self.child().size() + self.spec_len()
    }

    proof fn lemma_item_size(item: Option<[C::Item; M]>) {
    }

    proof fn lemma_capacity() {
        C::lemma_capacity();
    }

    proof fn lemma_size(&self) {
    }

    fn empty() -> (r: Self) {
        Self::new()
    }

    fn count(&self) -> (r: usize) {
        self.len()
    }

    fn push_item(&mut self, item: Option<[C::Item; M]>) {
        self.push(item);
    }

    fn item_at(&self, index: usize) -> (r: Option<[C::Item; M]>) {
        self.index_checked(index)
    }
}

impl<const M: usize, C: FillChild> FillChild for FixedSizeListArray<M, C, NonNullable> {
    open spec fn spec_filler() -> [C::Item; M] {
        choose|list: [C::Item; M]|
            list_models::<C, M>(list) == models_of::<C>(filler_list::<C, M>()) && sum_sizes::<C>(
                list@,
            ) == sum_sizes::<C>(filler_list::<C, M>())
    }

    fn filler() -> (r: [C::Item; M]) {
        let items = filler_items::<C, M>();
        let r = vec_into_array::<C::Item, M>(items);
        assert(list_models::<C, M>(r) == models_of::<C>(filler_list::<C, M>()) && sum_sizes::<C>(
            r@,
        ) == sum_sizes::<C>(filler_list::<C, M>()));
        r
    }
}

impl<const M: usize, C: FillChild> FillChild for FixedSizeListArray<M, C, Nullable> {
    open spec fn spec_filler() -> Option<[C::Item; M]> {
        None
    }

    fn filler() -> (r: Option<[C::Item; M]>) {
        None
    }
}

/// An iterator over the lists in a [`FixedSizeListArray`].
pub struct FixedSizeListIter<'a, const M: usize, C: FillChild, N: Nullability> {
    /// The array.
    pub array: &'a FixedSizeListArray<M, C, N>,
    /// The index of the next list.
    pub index: usize,
}

impl<const M: usize, C: FillChild, N: Nullability> FixedSizeListArray<M, C, N> {
    /// Returns an iterator over the lists of this array.
    pub fn lists_iter(&self) -> (r: FixedSizeListIter<'_, M, C, N>)
        ensures
            r.array == self,
            r.index == 0,
    {
        FixedSizeListIter { array: self, index: 0 }
    }
}

impl<'a, const M: usize, C: FillChild> FixedSizeListIter<'a, M, C, NonNullable> {
    /// Returns the next list, or `None` after the last one.
    pub fn next(&mut self) -> (r: Option<[C::Item; M]>)
        requires
            old(self).array.wf(),
        ensures
            final(self).array == old(self).array,
            old(self).index < old(self).array@.len() ==> (r matches Some(list) && list_models::<
                C,
                M,
            >(list) == old(self).array.lists()[old(self).index as int] && final(self).index
                == old(self).index + 1),
            old(self).index >= old(self).array@.len() ==> r is None && final(self).index == old(
                self,
            ).index,
    {
        let array: &'a FixedSizeListArray<M, C, NonNullable> = self.array;
        if self.index < array.len() {
            let list = array.index_checked(self.index);
            self.index = self.index + 1;
            Some(list)
        } else {
            None
        }
    }
}

impl<'a, const M: usize, C: FillChild> FixedSizeListIter<'a, M, C, Nullable> {
    /// Returns the next item, or `None` after the last one.
    pub fn next(&mut self) -> (r: Option<Option<[C::Item; M]>>)
        requires
            old(self).array.wf(),
        ensures
            final(self).array == old(self).array,
            old(self).index < old(self).array@.len() ==> (r matches Some(list) && opt_list_models::<
                C,
                M,
            >(list) == old(self).array@[old(self).index as int] && final(self).index == old(
                self,
            ).index + 1),
            old(self).index >= old(self).array@.len() ==> r is None && final(self).index == old(
                self,
            ).index,
    {
        let array: &'a FixedSizeListArray<M, C, Nullable> = self.array;
        if self.index < array.len() {
            let list = array.index_checked(self.index);
            self.index = self.index + 1;
            Some(list)
        } else {
            None
        }
    }
}

} // verus!
