//! Union arrays: each item is a value of one of several variants, named by
//! its type id. The sparse layout stores one child value per item in every
//! variant; the dense layout stores each value once, in its own variant, and
//! records its offset there.
use vstd::prelude::*;

verus! {

/// The dense union layout.
#[derive(Clone, Copy, Debug)]
pub struct DenseLayout;

/// The sparse union layout.
#[derive(Clone, Copy, Debug)]
pub struct SparseLayout;

/// Variant storage of a dense union array, which knows how many values each
/// variant holds.
pub trait DenseOffset {
    /// Returns the number of values stored for the variant with the given
    /// type id.
    fn variant_len(&self, type_id: i8) -> usize;
}

/// Variant iterators that yield the next item for a given type id.
pub trait TypeIdIterator {
    /// The item type: one value of any variant.
    type Enum;

    /// Advances the iterator of the variant with the given type id.
    fn next(&mut self, type_id: i8) -> Option<Self::Enum>;
}

/// Variant storage that can be turned into variant iterators.
pub trait UnionArrayIterators {
    /// The variant iterators.
    type VariantIterators: TypeIdIterator;

    /// Consumes the storage and returns its variant iterators.
    fn new_variant_iters(self) -> Self::VariantIterators;
}

/// Number of entries equal to `t` among the first `n` of `s`.
pub open spec fn count_prefix(s: Seq<i8>, n: int, t: i8) -> nat
    decreases n,
{
    if n <= 0 {
        0
    } else {
        count_prefix(s, n - 1, t) + if s[n - 1] == t {
            1nat
        } else {
            0nat
        }
    }
}

/// Counting over a longer prefix counts at least as many entries.
pub proof fn lemma_count_prefix_monotone(s: Seq<i8>, i: int, j: int, t: i8)
    requires
        0 <= i <= j,
    ensures
        count_prefix(s, i, t) <= count_prefix(s, j, t),
    decreases j - i,
{
    if i < j {
        lemma_count_prefix_monotone(s, i, j - 1, t);
    }
}

/// Counting is unchanged by entries past the counted prefix.
pub proof fn lemma_count_prefix_push(s: Seq<i8>, x: i8, n: int, t: i8)
    requires
        0 <= n <= s.len(),
    ensures
        count_prefix(s.push(x), n, t) == count_prefix(s, n, t),
    decreases n,
{
    if n > 0 {
        lemma_count_prefix_push(s, x, n - 1, t);
    }
}

/// Type ids and offsets of a dense union array: the offset of an item is
/// the number of earlier items of the same variant, so it addresses the
/// item's value in that variant's child array.
pub struct DenseTypeIds {
    variants: usize,
    types: Vec<i8>,
    offsets: Vec<i32>,
    lens: Vec<usize>,
}

impl DenseTypeIds {
    /// The number of variants.
    pub closed spec fn variants(&self) -> nat {
        self.variants as nat
    }

    /// The type id of each item.
    pub closed spec fn types(&self) -> Seq<i8> {
        self.types@
    }

    /// The offset of each item in its variant.
    pub closed spec fn offsets(&self) -> Seq<i32> {
        self.offsets@
    }

    /// Number of values held by the variant with type id `t`.
    pub open spec fn variant_count(&self, t: i8) -> nat {
        count_prefix(self.types(), self.types().len() as int, t)
    }

    /// Every type id names a variant, there are at most 128 variants, and
    /// every offset counts the earlier items of the same variant.
    pub closed spec fn wf(&self) -> bool {
        &&& self.variants <= 128
        &&& self.lens@.len() == self.variants
        &&& self.types@.len() == self.offsets@.len()
        &&& forall|i: int|
            0 <= i < self.types@.len() ==> 0 <= #[trigger] self.types@[i] < self.variants
        &&& forall|i: int|
            0 <= i < self.types@.len() ==> #[trigger] self.offsets@[i] == count_prefix(
                self.types@,
                i,
                self.types@[i],
            )
        &&& forall|k: int|
            0 <= k < self.variants ==> #[trigger] self.lens@[k] == count_prefix(
                self.types@,
                self.types@.len() as int,
                k as i8,
            )
    }

    /// The public facts that well-formedness gives.
    pub proof fn lemma_wf(&self)
        requires
            self.wf(),
        ensures
            self.variants() <= 128,
            self.types().len() == self.offsets().len(),
            forall|i: int|
                0 <= i < self.types().len() ==> 0 <= #[trigger] self.types()[i]
                    < self.variants(),
            forall|i: int|
                0 <= i < self.types().len() ==> #[trigger] self.offsets()[i] == count_prefix(
                    self.types(),
                    i,
                    self.types()[i],
                ),
    {
    }

    /// Creates an empty index for the given number of variants (at most 128,
    /// since type ids are `i8`).
    pub fn new(variants: usize) -> (r: Self)
        requires
            variants <= 128,
        ensures
            r.wf(),
            r.variants() == variants,
            r.types() == Seq::<i8>::empty(),
    {
        let mut lens: Vec<usize> = Vec::new();
        let mut k: usize = 0;
        while k < variants
            invariant
                k <= variants,
                lens@.len() == k,
                forall|j: int| 0 <= j < k ==> lens@[j] == 0,
            decreases variants - k,
        {
            lens.push(0);
            k = k + 1;
        }
        DenseTypeIds { variants, types: Vec::new(), offsets: Vec::new(), lens }
    }

    /// Returns the number of items.
    pub fn len(&self) -> (r: usize)
        requires
            self.wf(),
        ensures
            r == self.types().len(),
    {
        self.types.len()
    }

    /// Returns the number of values held by the variant with the given type
    /// id.
    pub fn variant_len(&self, type_id: i8) -> (r: usize)
        requires
            self.wf(),
            0 <= type_id < self.variants(),
        ensures
            r == self.variant_count(type_id),
    {
        let k = type_id as usize;
        assert(k as i8 == type_id);
        self.lens[k]
    }

    /// Appends an item of the variant with the given type id and returns
    /// its offset in that variant.
    pub fn push(&mut self, type_id: i8) -> (r: i32)
        requires
            old(self).wf(),
            0 <= type_id < old(self).variants(),
            old(self).variant_count(type_id) <= i32::MAX,
        ensures
            final(self).wf(),
            final(self).variants() == old(self).variants(),
            final(self).types() == old(self).types().push(type_id),
            r == old(self).variant_count(type_id),
            final(self).offsets() == old(self).offsets().push(r),
    {
        let k = type_id as usize;
        assert(k as i8 == type_id);
        let current = self.lens[k];
        let offset = current as i32;
        let ghost old_types = self.types@;
        let ghost old_offsets = self.offsets@;
        let ghost old_lens = self.lens@;
        self.types.push(type_id);
        self.offsets.push(offset);
        self.lens.set(k, current + 1);
        proof {
            let n = old_types.len() as int;
            assert forall|i: int| 0 <= i < self.types@.len() implies #[trigger] self.offsets@[i]
                == count_prefix(self.types@, i, self.types@[i]) by {
                if i < n {
                    lemma_count_prefix_push(old_types, type_id, i, old_types[i]);
                    assert(old_offsets[i] == count_prefix(old_types, i, old_types[i]));
                } else {
                    lemma_count_prefix_push(old_types, type_id, n, type_id);
                }
            }
            assert forall|j: int| 0 <= j < self.variants implies #[trigger] self.lens@[j]
                == count_prefix(self.types@, self.types@.len() as int, j as i8) by {
                lemma_count_prefix_push(old_types, type_id, n, j as i8);
                assert(old_lens[j] == count_prefix(old_types, n, j as i8));
                if j != k {
                    assert((j as i8) != type_id);
                }
            }
            assert forall|i: int| 0 <= i < self.types@.len() implies 0 <= #[trigger] self.types@[i]
                < self.variants by {
                if i < n {
                    assert(self.types@[i] == old_types[i]);
                }
            }
        }
        offset
    }

    /// Builds the index of the given type ids. Every type id must name one
    /// of the variants, and each offset must fit an `i32`: no variant may
    /// hold more than `i32::MAX + 1` values.
    pub fn from_type_ids(type_ids: &[i8], variants: usize) -> (r: Self)
        requires
            variants <= 128,
            forall|i: int| 0 <= i < type_ids@.len() ==> 0 <= #[trigger] type_ids@[i] < variants,
            forall|t: i8| #[trigger] count_prefix(type_ids@, type_ids@.len() as int, t) <= i32::MAX + 1,
        ensures
            r.wf(),
            r.variants() == variants,
            r.types() == type_ids@,
    {
        let mut r = DenseTypeIds::new(variants);
        let mut i: usize = 0;
        while i < type_ids.len()
            invariant
                i <= type_ids@.len(),
                forall|t: i8| #[trigger] count_prefix(type_ids@, type_ids@.len() as int, t) <= i32::MAX + 1,
                forall|j: int| 0 <= j < type_ids@.len() ==> 0 <= #[trigger] type_ids@[j] < variants,
                r.wf(),
                r.variants() == variants,
                r.types() == type_ids@.take(i as int),
            decreases type_ids@.len() - i,
        {
            proof {
                let t = type_ids@[i as int];
                lemma_count_prefix_take(type_ids@, i as int, i as int, t);
                lemma_count_prefix_monotone(type_ids@, i + 1, type_ids@.len() as int, t);
                assert(count_prefix(type_ids@, type_ids@.len() as int, t) <= i32::MAX + 1);
            }
            r.push(type_ids[i]);
            i = i + 1;
            assert(r.types() =~= type_ids@.take(i as int));
        }
        assert(type_ids@.take(type_ids@.len() as int) =~= type_ids@);
        r
    }

    /// Returns the type id and offset of the item at `index`, or `None` when
    /// it is out of bounds.
    pub fn get(&self, index: usize) -> (r: Option<(i8, i32)>)
        requires
            self.wf(),
        ensures
            r == (if index < self.types().len() {
                Some((self.types()[index as int], self.offsets()[index as int]))
            } else {
                None
            }),
    {
        if index < self.types.len() {
            Some((self.types[index], self.offsets[index]))
        } else {
            None
        }
    }

    /// Returns the type ids.
    pub fn types_slice(&self) -> (r: &[i8])
        ensures
            r@ == self.types(),
    {
        self.types.as_slice()
    }

    /// Returns the offsets.
    pub fn offsets_slice(&self) -> (r: &[i32])
        ensures
            r@ == self.offsets(),
    {
        self.offsets.as_slice()
    }
}

/// Counting a prefix only reads the entries of that prefix.
pub proof fn lemma_count_prefix_take(s: Seq<i8>, n: int, m: int, t: i8)
    requires
        0 <= n <= m <= s.len(),
    ensures
        count_prefix(s.take(m), n, t) == count_prefix(s, n, t),
    decreases n,
{
    if n > 0 {
        lemma_count_prefix_take(s, n - 1, m, t);
    }
}

/// The type ids of the given union values.
pub open spec fn type_ids_of<T: UnionItem>(items: Seq<T>) -> Seq<i8> {
    items.map_values(|item: T| item.spec_type_id())
}

/// No more entries are counted than there are.
pub proof fn lemma_count_prefix_bound(s: Seq<i8>, n: int, t: i8)
    requires
        0 <= n,
    ensures
        count_prefix(s, n, t) <= n,
    decreases n,
{
    if n > 0 {
        lemma_count_prefix_bound(s, n - 1, t);
    }
}


/// The offset of an item addresses a value that its variant holds.
pub proof fn lemma_dense_offset_in_child(ids: &DenseTypeIds, i: int)
    requires
        ids.wf(),
        0 <= i < ids.types().len(),
    ensures
        ids.offsets()[i] < ids.variant_count(ids.types()[i]),
{
    ids.lemma_wf();
    lemma_count_prefix_monotone(ids.types(), i + 1, ids.types().len() as int, ids.types()[i]);
}

/// Within one variant, offsets count up from zero in item order: of two
/// items of the same variant the later one has the larger offset, and every
/// offset addresses a value that the variant holds.
pub proof fn lemma_dense_offsets_ordered(ids: &DenseTypeIds, i: int, j: int)
    requires
        ids.wf(),
        0 <= i < j < ids.types().len(),
    ensures
        ids.types()[i] == ids.types()[j] ==> ids.offsets()[i] < ids.offsets()[j],
        ids.offsets()[i] < ids.variant_count(ids.types()[i]),
        ids.offsets()[j] < ids.variant_count(ids.types()[j]),
{
    ids.lemma_wf();
    let s = ids.types();
    let n = s.len() as int;
    lemma_count_prefix_monotone(s, i + 1, j, s[i]);
    lemma_count_prefix_monotone(s, i + 1, n, s[i]);
    lemma_count_prefix_monotone(s, j + 1, n, s[j]);
}

/// Every value that a variant holds is addressed by exactly one item: for
/// each offset below the variant's count there is an item of that variant
/// with that offset.
pub proof fn lemma_dense_offsets_cover(ids: &DenseTypeIds, t: i8, o: int)
    requires
        ids.wf(),
        0 <= o < ids.variant_count(t),
    ensures
        exists|i: int|
            0 <= i < ids.types().len() && #[trigger] ids.types()[i] == t && ids.offsets()[i] == o,
{
    ids.lemma_wf();
    let i = lemma_count_prefix_witness(ids.types(), ids.types().len() as int, t, o);
    assert(ids.types()[i] == t && ids.offsets()[i] == o);
}

/// Below the count of `t` in a prefix, every value is the count up to some
/// occurrence of `t` in that prefix.
proof fn lemma_count_prefix_witness(s: Seq<i8>, n: int, t: i8, o: int) -> (i: int)
    requires
        0 <= n <= s.len(),
        0 <= o < count_prefix(s, n, t),
    ensures
        0 <= i < n,
        s[i] == t,
        count_prefix(s, i, t) == o,
    decreases n,
{
    if o < count_prefix(s, n - 1, t) {
        lemma_count_prefix_witness(s, n - 1, t, o)
    } else {
        n - 1
    }
}


/// Values of a union: each is a value of one of the variants, named by its
/// type id.
pub trait UnionItem: Sized {
    /// The number of variants.
    spec fn spec_variants() -> usize;

    /// Returns the number of variants.
    fn variants() -> (r: usize)
        ensures
            r == Self::spec_variants(),
    ;

    /// The type id of the variant of this value.
    spec fn spec_type_id(&self) -> i8;

    /// Returns the type id of the variant of this value.
    fn type_id(&self) -> (r: i8)
        ensures
            r == self.spec_type_id(),
    ;

    /// Returns a copy of this value.
    fn duplicate(&self) -> (r: Self)
        ensures
            r == *self,
    ;
}

/// A dense union array: each item is stored once, in the child of its
/// variant, at the offset that the type ids give it.
pub struct DenseUnionArray<T: UnionItem> {
    /// The type ids and offsets of the items.
    ids: DenseTypeIds,
    /// The values of each variant, in item order.
    children: Vec<Vec<T>>,
}

impl<T: UnionItem> DenseUnionArray<T> {
    /// The type ids and offsets of the items.
    pub closed spec fn ids(&self) -> DenseTypeIds {
        self.ids
    }

    /// The values of each variant.
    pub closed spec fn children(&self) -> Seq<Seq<T>> {
        self.children@.map_values(|child: Vec<T>| child@)
    }

    /// The type ids and offsets are well formed, there is one child per
    /// variant, each child holds as many values as items of its variant,
    /// and each value is of the variant of its child.
    pub open spec fn wf(&self) -> bool {
        &&& self.ids().wf()
        &&& self.ids().variants() == T::spec_variants()
        &&& self.children().len() == self.ids().variants()
        &&& forall|k: int|
            0 <= k < self.children().len() ==> #[trigger] self.children()[k].len()
                == self.ids().variant_count(k as i8)
        &&& forall|k: int, j: int|
            0 <= k < self.children().len() && 0 <= j < self.children()[k].len()
                ==> #[trigger] self.children()[k][j].spec_type_id() == k
    }
}

impl<T: UnionItem> View for DenseUnionArray<T> {
    type V = Seq<T>;

    open spec fn view(&self) -> Seq<T> {
        Seq::new(
            self.ids().types().len(),
            |i: int| self.children()[self.ids().types()[i] as int][self.ids().offsets()[i] as int],
        )
    }
}

impl<T: UnionItem> DenseUnionArray<T> {
    /// Creates an empty array. There may be at most 128 variants.
    pub fn new() -> (r: Self)
        requires
            T::spec_variants() <= 128,
        ensures
            r.wf(),
            r@ == Seq::<T>::empty(),
            r.ids().types() == Seq::<i8>::empty(),
    {
        let variants = T::variants();
        let ids = DenseTypeIds::new(variants);
        let mut children: Vec<Vec<T>> = Vec::new();
        let mut k: usize = 0;
        while k < variants
            invariant
                k <= variants,
                children@.len() == k,
                forall|j: int| 0 <= j < k ==> (#[trigger] children@[j])@.len() == 0,
            decreases variants - k,
        {
            children.push(Vec::new());
            k = k + 1;
        }
        let r = DenseUnionArray { ids, children };
        proof {
            r.ids.lemma_wf();
        }
        assert(r@ =~= Seq::<T>::empty());
        r
    }

    /// Returns the number of items.
    pub fn len(&self) -> (r: usize)
        requires
            self.wf(),
        ensures
            r == self@.len(),
    {
        self.ids.len()
    }

    /// Appends an item. Its type id must name a variant, and its offset, the
    /// number of values that variant holds, must fit an `i32`.
    pub fn push(&mut self, item: T)
        requires
            old(self).wf(),
            0 <= item.spec_type_id() < T::spec_variants(),
            old(self).ids().variant_count(item.spec_type_id()) <= i32::MAX,
        ensures
            final(self).wf(),
            final(self)@ == old(self)@.push(item),
            final(self).ids().types() == old(self).ids().types().push(item.spec_type_id()),
    {
        let t = item.type_id();
        let k = t as usize;
        assert(k as i8 == t);
        proof {
            self.ids.lemma_wf();
        }
        let ghost old_ids = self.ids;
        let ghost old_children = self.children();
        let ghost old_view = self@;
        let offset = self.ids.push(t);
        let mut child: Vec<T> = Vec::new();
        self.children.set_and_swap(k, &mut child);
        assert(child@ == old_children[k as int]);
        child.push(item);
        self.children.set_and_swap(k, &mut child);
        proof {
            self.ids.lemma_wf();
            old_ids.lemma_wf();
            let n = old_ids.types().len() as int;
            assert(self.children() =~= old_children.update(k as int, old_children[k as int].push(
                item,
            )));
            assert forall|j: int| 0 <= j < self.children().len() implies #[trigger] self.children()[j].len()
                == self.ids().variant_count(j as i8) by {
                lemma_count_prefix_push(old_ids.types(), t, n, j as i8);
                if j != k as int {
                    assert((j as i8) != t);
                }
            }
            assert forall|j: int, m: int|
                0 <= j < self.children().len() && 0 <= m < self.children()[j].len()
                    implies #[trigger] self.children()[j][m].spec_type_id() == j by {
                if j == k as int && m == old_children[j].len() {
                } else {
                    assert(self.children()[j][m] == old_children[j][m]);
                }
            }
            assert forall|i: int| 0 <= i < n implies #[trigger] self@[i] == old_view[i] by {
                let ti = old_ids.types()[i];
                assert(self.ids().types()[i] == ti);
                assert(self.ids().offsets()[i] == old_ids.offsets()[i]);
                assert(0 <= ti < old_ids.variants());
                lemma_dense_offset_in_child(&old_ids, i);
            }
            assert(self@ =~= old_view.push(item));
        }
    }

    /// Builds an array holding the given items. Every type id must name one
    /// of the variants (at most 128), and each offset must fit an `i32`: no
    /// variant may hold more than `i32::MAX + 1` items.
    pub fn from_items(items: &[T]) -> (r: Self)
        requires
            T::spec_variants() <= 128,
            forall|i: int|
                0 <= i < items@.len() ==> 0 <= #[trigger] items@[i].spec_type_id()
                    < T::spec_variants(),
            forall|t: i8|
                #[trigger] count_prefix(type_ids_of(items@), items@.len() as int, t) <= i32::MAX + 1,
        ensures
            r.wf(),
            r@ == items@,
    {
        let mut r = DenseUnionArray::new();
        let mut i: usize = 0;
        while i < items.len()
            invariant
                i <= items@.len(),
                T::spec_variants() <= 128,
                forall|t: i8|
                    #[trigger] count_prefix(type_ids_of(items@), items@.len() as int, t) <= i32::MAX
                        + 1,
                forall|j: int|
                    0 <= j < items@.len() ==> 0 <= #[trigger] items@[j].spec_type_id()
                        < T::spec_variants(),
                r.wf(),
                r@ == items@.take(i as int),
                r.ids().types() == type_ids_of(items@).take(i as int),
            decreases items@.len() - i,
        {
            let item = items[i].duplicate();
            proof {
                let tids = type_ids_of(items@);
                let t = item.spec_type_id();
                assert(tids[i as int] == t);
                lemma_count_prefix_take(tids, i as int, i as int, t);
                lemma_count_prefix_monotone(tids, i + 1, items@.len() as int, t);
                assert(count_prefix(tids, items@.len() as int, t) <= i32::MAX + 1);
            }
            r.push(item);
            i = i + 1;
            assert(r@ =~= items@.take(i as int));
            assert(r.ids().types() =~= type_ids_of(items@).take(i as int));
        }
        assert(items@.take(i as int) =~= items@);
        r
    }

    /// Returns the item at `index`, which must be in bounds.
    pub fn index_checked(&self, index: usize) -> (r: &T)
        requires
            self.wf(),
            index < self@.len(),
        ensures
            *r == self@[index as int],
    {
        proof {
            self.ids.lemma_wf();
            lemma_dense_offset_in_child(&self.ids, index as int);
        }
        let (t, offset) = self.ids.get(index).unwrap();
        let k = t as usize;
        assert(k as i8 == t);
        let child = &self.children[k];
        assert(child@ == self.children()[k as int]);
        &child[offset as usize]
    }

    /// Returns the item at `index`, or `None` when it is out of bounds.
    pub fn index(&self, index: usize) -> (r: Option<&T>)
        requires
            self.wf(),
        ensures
            r == (if index < self@.len() {
                Some(&self@[index as int])
            } else {
                None
            }),
    {
        if index < self.len() {
            Some(self.index_checked(index))
        } else {
            None
        }
    }


    /// Returns the items, in order.
    pub fn to_vec(&self) -> (r: Vec<T>)
        requires
            self.wf(),
        ensures
            r@ == self@,
    {
        let n = self.len();
        let mut out: Vec<T> = Vec::new();
        let mut i: usize = 0;
        while i < n
            invariant
                self.wf(),
                n == self@.len(),
                i <= n,
                out@ == self@.take(i as int),
            decreases n - i,
        {
            out.push(self.index_checked(i).duplicate());
            i = i + 1;
            assert(out@ =~= self@.take(i as int));
        }
        assert(self@.take(n as int) =~= self@);
        out
    }

    /// Returns the type ids of the items.
    pub fn types(&self) -> (r: &[i8])
        ensures
            r@ == self.ids().types(),
    {
        self.ids.types_slice()
    }

    /// Returns the offsets of the items in the children of their variants.
    pub fn offsets(&self) -> (r: &[i32])
        ensures
            r@ == self.ids().offsets(),
    {
        self.ids.offsets_slice()
    }

    /// Returns the values of the variant with the given type id.
    pub fn child(&self, type_id: i8) -> (r: &[T])
        requires
            self.wf(),
            0 <= type_id < T::spec_variants(),
        ensures
            r@ == self.children()[type_id as int],
    {
        let k = type_id as usize;
        assert(k as i8 == type_id);
        self.children[k].as_slice()
    }
}


/// Values of a union that can be stored in the sparse layout, where every
/// variant holds a value at every position.
pub trait SparseUnionItem: UnionItem {
    /// The value that the child of the variant with type id `type_id` holds
    /// at positions of items of other variants.
    spec fn spec_filler(type_id: i8) -> Self;

    /// Returns the filler value of the variant with the given type id.
    fn filler(type_id: i8) -> (r: Self)
        requires
            0 <= type_id < Self::spec_variants(),
        ensures
            r == Self::spec_filler(type_id),
            r.spec_type_id() == type_id,
    ;
}

/// A sparse union array: every variant's child is as long as the array; an
/// item is the value at its own position in the child of its variant.
pub struct SparseUnionArray<T: SparseUnionItem> {
    /// The type id of each item.
    types: Vec<i8>,
    /// The values of each variant, one per position.
    children: Vec<Vec<T>>,
}

impl<T: SparseUnionItem> SparseUnionArray<T> {
    /// The type id of each item.
    pub closed spec fn type_ids(&self) -> Seq<i8> {
        self.types@
    }

    /// The values of each variant.
    pub closed spec fn children(&self) -> Seq<Seq<T>> {
        self.children@.map_values(|child: Vec<T>| child@)
    }

    /// There is one child per variant (at most 128), every type id names a
    /// variant, every child is as long as the array, and each value is of
    /// the variant of its child.
    pub open spec fn wf(&self) -> bool {
        &&& T::spec_variants() <= 128
        &&& self.children().len() == T::spec_variants()
        &&& forall|i: int|
            0 <= i < self.type_ids().len() ==> 0 <= #[trigger] self.type_ids()[i]
                < T::spec_variants()
        &&& forall|k: int|
            0 <= k < self.children().len() ==> #[trigger] self.children()[k].len()
                == self.type_ids().len()
        &&& forall|k: int, j: int|
            0 <= k < self.children().len() && 0 <= j < self.children()[k].len()
                ==> #[trigger] self.children()[k][j].spec_type_id() == k
    }
}

impl<T: SparseUnionItem> View for SparseUnionArray<T> {
    type V = Seq<T>;

    open spec fn view(&self) -> Seq<T> {
        Seq::new(self.type_ids().len(), |i: int| self.children()[self.type_ids()[i] as int][i])
    }
}

impl<T: SparseUnionItem> SparseUnionArray<T> {
    /// Creates an empty array. There may be at most 128 variants.
    pub fn new() -> (r: Self)
        requires
            T::spec_variants() <= 128,
        ensures
            r.wf(),
            r@ == Seq::<T>::empty(),
            r.type_ids() == Seq::<i8>::empty(),
    {
        let variants = T::variants();
        let mut children: Vec<Vec<T>> = Vec::new();
        let mut k: usize = 0;
        while k < variants
            invariant
                k <= variants,
                children@.len() == k,
                forall|j: int| 0 <= j < k ==> (#[trigger] children@[j])@.len() == 0,
            decreases variants - k,
        {
            children.push(Vec::new());
            k = k + 1;
        }
        let r = SparseUnionArray { types: Vec::new(), children };
        assert(r@ =~= Seq::<T>::empty());
        r
    }

    /// Returns the number of items.
    pub fn len(&self) -> (r: usize)
        ensures
            r == self@.len(),
    {
        self.types.len()
    }

    /// Appends an item, whose type id must name a variant: the child of its
    /// variant gets the item, every other child its filler value.
    pub fn push(&mut self, item: T)
        requires
            old(self).wf(),
            0 <= item.spec_type_id() < T::spec_variants(),
        ensures
            final(self).wf(),
            final(self)@ == old(self)@.push(item),
            final(self).type_ids() == old(self).type_ids().push(item.spec_type_id()),
            forall|k: int|
                0 <= k < T::spec_variants() ==> #[trigger] final(self).children()[k] == old(
                    self,
                ).children()[k].push(
                    if k == item.spec_type_id() {
                        item
                    } else {
                        T::spec_filler(k as i8)
                    },
                ),
    {
        let t = item.type_id();
        let variants = T::variants();
        let ghost old_children = self.children();
        let ghost old_view = self@;
        let ghost old_types = self.type_ids();
        let ghost n = self.types@.len() as int;
        let mut k: usize = 0;
        while k < variants
            invariant
                k <= variants,
                variants == T::spec_variants(),
                variants <= 128,
                0 <= t < variants,
                self.children@.len() == variants,
                self.type_ids() == old_types,
                forall|j: int| 0 <= j < k ==> (#[trigger] T::spec_filler(j as i8)).spec_type_id() == j,
                forall|j: int|
                    0 <= j < k ==> #[trigger] self.children()[j] == old_children[j].push(
                        T::spec_filler(j as i8),
                    ),
                forall|j: int| k <= j < variants ==> #[trigger] self.children()[j] == old_children[j],
            decreases variants - k,
        {
            let ghost before = self.children();
            assert(k as i8 as int == k);
            let filler = T::filler(k as i8);
            let mut child: Vec<T> = Vec::new();
            self.children.set_and_swap(k, &mut child);
            assert(child@ == before[k as int]);
            child.push(filler);
            self.children.set_and_swap(k, &mut child);
            assert(self.children() =~= before.update(k as int, before[k as int].push(filler)));
            k = k + 1;
        }
        let tk = t as usize;
        assert(tk as i8 == t);
        let ghost before = self.children();
        let mut child: Vec<T> = Vec::new();
        self.children.set_and_swap(tk, &mut child);
        assert(child@ == before[tk as int]);
        assert(before[tk as int] == old_children[tk as int].push(T::spec_filler(t)));
        let last = child.len() - 1;
        child.set(last, item);
        assert(child@ =~= old_children[tk as int].push(item));
        self.children.set_and_swap(tk, &mut child);
        self.types.push(t);
        proof {
            assert(self.children() =~= before.update(tk as int, old_children[tk as int].push(item)));
            assert forall|j: int|
                0 <= j < T::spec_variants() implies #[trigger] self.children()[j]
                == old_children[j].push(
                if j == t {
                    item
                } else {
                    T::spec_filler(j as i8)
                },
            ) by {
                if j != tk as int {
                    assert(self.children()[j] == before[j]);
                }
            }
            assert forall|j: int, m: int|
                0 <= j < self.children().len() && 0 <= m < self.children()[j].len()
                    implies #[trigger] self.children()[j][m].spec_type_id() == j by {
                assert(old_children[j].len() == n);
                assert(self.children()[j] == old_children[j].push(
                    if j == t { item } else { T::spec_filler(j as i8) }));
                if m < n {
                    assert(self.children()[j][m] == old_children[j][m]);
                    assert(old_children[j][m].spec_type_id() == j);
                } else if j == t {
                    assert(self.children()[j][m] == item);
                } else {
                    assert(self.children()[j][m] == T::spec_filler(j as i8));
                    assert(j as i8 as int == j);
                }
            }
            assert(self.type_ids() =~= old_types.push(t));
            assert forall|i: int| 0 <= i < n implies #[trigger] self@[i] == old_view[i] by {
                let ti = old_types[i] as int;
                assert(self.type_ids()[i] == old_types[i]);
                assert(0 <= ti < T::spec_variants());
                assert(old_children[ti].len() == n);
                assert(self.children()[ti] == old_children[ti].push(
                    if ti == t { item } else { T::spec_filler(ti as i8) }));
                assert(self.children()[ti][i] == old_children[ti][i]);
            }
            assert(self@ =~= old_view.push(item));
        }
    }

    /// Builds an array holding the given items. Every type id must name one
    /// of the variants (at most 128).
    pub fn from_items(items: &[T]) -> (r: Self)
        requires
            T::spec_variants() <= 128,
            forall|i: int|
                0 <= i < items@.len() ==> 0 <= #[trigger] items@[i].spec_type_id()
                    < T::spec_variants(),
        ensures
            r.wf(),
            r@ == items@,
    {
        let mut r = SparseUnionArray::new();
        let mut i: usize = 0;
        while i < items.len()
            invariant
                i <= items@.len(),
                forall|j: int|
                    0 <= j < items@.len() ==> 0 <= #[trigger] items@[j].spec_type_id()
                        < T::spec_variants(),
                r.wf(),
                r@ == items@.take(i as int),
            decreases items@.len() - i,
        {
            let item = items[i].duplicate();
            r.push(item);
            i = i + 1;
            assert(r@ =~= items@.take(i as int));
        }
        assert(items@.take(i as int) =~= items@);
        r
    }

    /// Returns the item at `index`, which must be in bounds.
    pub fn index_checked(&self, index: usize) -> (r: &T)
        requires
            self.wf(),
            index < self@.len(),
        ensures
            *r == self@[index as int],
    {
        let t = self.types[index];
        let k = t as usize;
        assert(k as i8 == t);
        let child = &self.children[k];
        assert(child@ == self.children()[k as int]);
        &child[index]
    }

    /// Returns the item at `index`, or `None` when it is out of bounds.
    pub fn index(&self, index: usize) -> (r: Option<&T>)
        requires
            self.wf(),
        ensures
            r == (if index < self@.len() {
                Some(&self@[index as int])
            } else {
                None
            }),
    {
        if index < self.len() {
            Some(self.index_checked(index))
        } else {
            None
        }
    }


    /// Returns the items, in order.
    pub fn to_vec(&self) -> (r: Vec<T>)
        requires
            self.wf(),
        ensures
            r@ == self@,
    {
        let n = self.len();
        let mut out: Vec<T> = Vec::new();
        let mut i: usize = 0;
        while i < n
            invariant
                self.wf(),
                n == self@.len(),
                i <= n,
                out@ == self@.take(i as int),
            decreases n - i,
        {
            out.push(self.index_checked(i).duplicate());
            i = i + 1;
            assert(out@ =~= self@.take(i as int));
        }
        assert(self@.take(n as int) =~= self@);
        out
    }

    /// Returns the type ids of the items.
    pub fn types(&self) -> (r: &[i8])
        ensures
            r@ == self.type_ids(),
    {
        self.types.as_slice()
    }

    /// Returns the values of the variant with the given type id.
    pub fn child(&self, type_id: i8) -> (r: &[T])
        requires
            self.wf(),
            0 <= type_id < T::spec_variants(),
        ensures
            r@ == self.children()[type_id as int],
    {
        let k = type_id as usize;
        assert(k as i8 == type_id);
        self.children[k].as_slice()
    }
}

} // verus!
