//! Dictionary encoded arrays: each distinct value is stored once in a
//! dictionary, and the items are indices into it.
use vstd::prelude::*;
use crate::comparable::{Comparable, views};
use crate::fixed_size::FixedSize;
use crate::fixed_size_primitive::FixedSizePrimitiveArray;
use crate::validity::{count_none, NonNullable, Nullability, Nullable};

verus! {

/// Closes [`DictionaryIndexValue`] to the integer types implemented here.
pub trait Sealed {}

impl Sealed for i8 {}

impl Sealed for i16 {}

impl Sealed for i32 {}

impl Sealed for i64 {}

impl Sealed for isize {}

impl Sealed for u8 {}

impl Sealed for u16 {}

impl Sealed for u32 {}

impl Sealed for u64 {}

impl Sealed for usize {}

/// Integer types that hold the dictionary positions of the items.
pub trait DictionaryIndexValue: FixedSize + Sealed {
    /// The value as a mathematical integer.
    spec fn index_int(&self) -> int;

    /// The largest value of this type.
    spec fn index_max() -> int;

    /// Converts a dictionary position into an index value, if it fits.
    fn from_index(index: usize) -> (r: Option<Self>)
        ensures
            r is Some <==> index <= Self::index_max(),
            r matches Some(v) ==> v.index_int() == index,
    ;

    /// Converts a non-negative index value back into a position.
    fn to_index(&self) -> (r: usize)
        requires
            0 <= self.index_int() <= usize::MAX,
        ensures
            r == self.index_int(),
    ;
    /// `index_max` is the largest value of this type, and every position
    /// from zero up to it is the value of one: no value exceeds it.
    proof fn lemma_index_range(i: int)
        ensures
            forall|v: Self| #[trigger] v.index_int() <= Self::index_max(),
            0 <= i <= Self::index_max() ==> exists|v: Self| #[trigger] v.index_int() == i,
    ;
}

impl DictionaryIndexValue for i8 {
    proof fn lemma_index_range(i: int) {
        if 0 <= i <= Self::index_max() {
            let v = i as i8;
            assert(v.index_int() == i);
        }
    }

    open spec fn index_int(&self) -> int {
        *self as int
    }

    open spec fn index_max() -> int {
        i8::MAX as int
    }

    fn from_index(index: usize) -> (r: Option<Self>) {
        if index <= 0x7fusize {
            Some(index as i8)
        } else {
            None
        }
    }

    fn to_index(&self) -> (r: usize) {
        *self as usize
    }
}

impl DictionaryIndexValue for i16 {
    proof fn lemma_index_range(i: int) {
        if 0 <= i <= Self::index_max() {
            let v = i as i16;
            assert(v.index_int() == i);
        }
    }

    open spec fn index_int(&self) -> int {
        *self as int
    }

    open spec fn index_max() -> int {
        i16::MAX as int
    }

    fn from_index(index: usize) -> (r: Option<Self>) {
        if index <= 0x7fffusize {
            Some(index as i16)
        } else {
            None
        }
    }

    fn to_index(&self) -> (r: usize) {
        *self as usize
    }
}

impl DictionaryIndexValue for i32 {
    proof fn lemma_index_range(i: int) {
        if 0 <= i <= Self::index_max() {
            let v = i as i32;
            assert(v.index_int() == i);
        }
    }

    open spec fn index_int(&self) -> int {
        *self as int
    }

    open spec fn index_max() -> int {
        i32::MAX as int
    }

    fn from_index(index: usize) -> (r: Option<Self>) {
        if index <= 0x7fff_ffffusize {
            Some(index as i32)
        } else {
            None
        }
    }

    fn to_index(&self) -> (r: usize) {
        *self as usize
    }
}

impl DictionaryIndexValue for i64 {
    proof fn lemma_index_range(i: int) {
        if 0 <= i <= Self::index_max() {
            let v = i as i64;
            assert(v.index_int() == i);
        }
    }

    open spec fn index_int(&self) -> int {
        *self as int
    }

    open spec fn index_max() -> int {
        i64::MAX as int
    }

    fn from_index(index: usize) -> (r: Option<Self>) {
        if (index as u64) <= 0x7fff_ffff_ffff_ffffu64 {
            Some(index as i64)
        } else {
            None
        }
    }

    fn to_index(&self) -> (r: usize) {
        *self as usize
    }
}

impl DictionaryIndexValue for isize {
    proof fn lemma_index_range(i: int) {
        if 0 <= i <= Self::index_max() {
            let v = i as isize;
            assert(v.index_int() == i);
        }
    }

    open spec fn index_int(&self) -> int {
        *self as int
    }

    open spec fn index_max() -> int {
        isize::MAX as int
    }

    fn from_index(index: usize) -> (r: Option<Self>) {
        if index <= (isize::MAX as usize) {
            Some(index as isize)
        } else {
            None
        }
    }

    fn to_index(&self) -> (r: usize) {
        *self as usize
    }
}

impl DictionaryIndexValue for u8 {
    proof fn lemma_index_range(i: int) {
        if 0 <= i <= Self::index_max() {
            let v = i as u8;
            assert(v.index_int() == i);
        }
    }

    open spec fn index_int(&self) -> int {
        *self as int
    }

    open spec fn index_max() -> int {
        u8::MAX as int
    }

    fn from_index(index: usize) -> (r: Option<Self>) {
        if index <= 0xffusize {
            Some(index as u8)
        } else {
            None
        }
    }

    fn to_index(&self) -> (r: usize) {
        *self as usize
    }
}

impl DictionaryIndexValue for u16 {
    proof fn lemma_index_range(i: int) {
        if 0 <= i <= Self::index_max() {
            let v = i as u16;
            assert(v.index_int() == i);
        }
    }

    open spec fn index_int(&self) -> int {
        *self as int
    }

    open spec fn index_max() -> int {
        u16::MAX as int
    }

    fn from_index(index: usize) -> (r: Option<Self>) {
        if index <= 0xffffusize {
            Some(index as u16)
        } else {
            None
        }
    }

    fn to_index(&self) -> (r: usize) {
        *self as usize
    }
}

impl DictionaryIndexValue for u32 {
    proof fn lemma_index_range(i: int) {
        if 0 <= i <= Self::index_max() {
            let v = i as u32;
            assert(v.index_int() == i);
        }
    }

    open spec fn index_int(&self) -> int {
        *self as int
    }

    open spec fn index_max() -> int {
        u32::MAX as int
    }

    fn from_index(index: usize) -> (r: Option<Self>) {
        if (index as u64) <= 0xffff_ffffu64 {
            Some(index as u32)
        } else {
            None
        }
    }

    fn to_index(&self) -> (r: usize) {
        *self as usize
    }
}

impl DictionaryIndexValue for u64 {
    proof fn lemma_index_range(i: int) {
        if 0 <= i <= Self::index_max() {
            let v = i as u64;
            assert(v.index_int() == i);
        }
    }

    open spec fn index_int(&self) -> int {
        *self as int
    }

    open spec fn index_max() -> int {
        u64::MAX as int
    }

    fn from_index(index: usize) -> (r: Option<Self>) {
        Some(index as u64)
    }

    fn to_index(&self) -> (r: usize) {
        *self as usize
    }
}

impl DictionaryIndexValue for usize {
    proof fn lemma_index_range(i: int) {
        if 0 <= i <= Self::index_max() {
            let v = i as usize;
            assert(v.index_int() == i);
        }
    }

    open spec fn index_int(&self) -> int {
        *self as int
    }

    open spec fn index_max() -> int {
        usize::MAX as int
    }

    fn from_index(index: usize) -> (r: Option<Self>) {
        Some(index)
    }

    fn to_index(&self) -> (r: usize) {
        *self
    }
}

/// The dictionary of a sequence of items: each present value once, in the
/// order of its first occurrence.
pub open spec fn dictionary_of<V>(items: Seq<Option<V>>) -> Seq<V>
    decreases items.len(),
{
    if items.len() == 0 {
        Seq::empty()
    } else {
        let d = dictionary_of(items.drop_last());
        match items.last() {
            Some(v) => if d.contains(v) {
                d
            } else {
                d.push(v)
            },
            None => d,
        }
    }
}

/// Looks the index values up in the dictionary.
pub open spec fn decode_indices<V, U: DictionaryIndexValue>(
    dictionary: Seq<V>,
    indices: Seq<Option<U>>,
) -> Seq<Option<V>> {
    indices.map_values(
        |k: Option<U>|
            match k {
                Some(u) => Some(dictionary[u.index_int()]),
                None => None,
            },
    )
}

/// Every present index value points into the dictionary.
pub open spec fn indices_in_bounds<U: DictionaryIndexValue>(
    indices: Seq<Option<U>>,
    len: nat,
) -> bool {
    forall|i: int|
        0 <= i < indices.len() ==> (#[trigger] indices[i] matches Some(u) ==> 0 <= u.index_int()
            < len)
}

/// The dictionary of a longer sequence is at least as long.
pub proof fn lemma_dictionary_of_prefix<V>(items: Seq<Option<V>>, i: int)
    requires
        0 <= i <= items.len(),
    ensures
        dictionary_of(items.take(i)).len() <= dictionary_of(items).len(),
    decreases items.len(),
{
    if i < items.len() {
        assert(items.drop_last().take(i) =~= items.take(i));
        lemma_dictionary_of_prefix(items.drop_last(), i);
    } else {
        assert(items.take(i) =~= items);
    }
}

/// A dictionary holds each value at most once, and holds exactly the
/// present items.
pub proof fn lemma_dictionary_of<V>(items: Seq<Option<V>>)
    ensures
        dictionary_of(items).no_duplicates(),
        forall|i: int| 0 <= i < items.len() && items[i] is Some ==> dictionary_of(items).contains(
            #[trigger] items[i]->0,
        ),
        forall|j: int|
            0 <= j < dictionary_of(items).len() ==> items.contains(
                Some(#[trigger] dictionary_of(items)[j]),
            ),
    decreases items.len(),
{
    if items.len() > 0 {
        let prev = items.drop_last();
        lemma_dictionary_of(prev);
        let d = dictionary_of(prev);
        assert forall|i: int| 0 <= i < items.len() && items[i] is Some implies dictionary_of(
            items,
        ).contains(#[trigger] items[i]->0) by {
            if i < prev.len() {
                assert(prev[i] == items[i]);
                let j = choose|j: int| 0 <= j < d.len() && d[j] == items[i]->0;
                if let Some(v) = items.last() {
                    if !d.contains(v) {
                        assert(d.push(v)[j] == items[i]->0);
                    }
                }
            } else {
                if !d.contains(items[i]->0) {
                    assert(d.push(items[i]->0)[d.len() as int] == items[i]->0);
                }
            }
        }
        assert forall|j: int| 0 <= j < dictionary_of(items).len() implies items.contains(
            Some(#[trigger] dictionary_of(items)[j]),
        ) by {
            if j < d.len() {
                assert(dictionary_of(items)[j] == d[j]);
                let k = choose|k: int| 0 <= k < prev.len() && prev[k] == Some(d[j]);
                assert(items[k] == prev[k]);
            } else {
                assert(items[items.len() - 1] == Some(dictionary_of(items)[j]));
            }
        }
    }
}

/// Returns the position of `value` in the dictionary, adding it at the end
/// when it is not there yet.
fn lookup_or_insert<V: Comparable>(dictionary: &mut Vec<V>, value: &V) -> (r: usize)
    ensures
        views(final(dictionary)@) == if views(old(dictionary)@).contains(value.deep_view()) {
            views(old(dictionary)@)
        } else {
            views(old(dictionary)@).push(value.deep_view())
        },
        r < final(dictionary)@.len(),
        views(final(dictionary)@)[r as int] == value.deep_view(),
{
    let mut j: usize = 0;
    while j < dictionary.len()
        invariant
            j <= dictionary@.len(),
            dictionary@ == old(dictionary)@,
            forall|k: int| 0 <= k < j ==> views(dictionary@)[k] != value.deep_view(),
        decreases dictionary@.len() - j,
    {
        if dictionary[j].same_value(value) {
            assert(views(dictionary@)[j as int] == value.deep_view());
            assert(views(dictionary@).contains(value.deep_view()));
            return j;
        }
        j = j + 1;
    }
    let ghost before = views(dictionary@);
    dictionary.push(value.duplicate());
    assert(views(dictionary@) =~= before.push(value.deep_view()));
    j
}

/// Encodes the items: the dictionary of the present items, and per item its
/// position in that dictionary.
fn encode<V: Comparable, U: DictionaryIndexValue>(items: &[Option<V>]) -> (r: (
    Vec<V>,
    Vec<Option<U>>,
))
    requires
        dictionary_of(views(items@)).len() <= U::index_max() + 1,
    ensures
        views(r.0@) == dictionary_of(views(items@)),
        r.1@.len() == items@.len(),
        indices_in_bounds(r.1@, r.0@.len()),
        decode_indices(views(r.0@), r.1@) == views(items@),
{
    let ghost targets = views(items@);
    let mut dictionary: Vec<V> = Vec::new();
    let mut indices: Vec<Option<U>> = Vec::new();
    let mut i: usize = 0;
    assert(views(dictionary@) =~= dictionary_of(targets.take(0)));
    while i < items.len()
        invariant
            i <= items@.len(),
            targets == views(items@),
            dictionary_of(targets).len() <= U::index_max() + 1,
            views(dictionary@) == dictionary_of(targets.take(i as int)),
            indices@.len() == i,
            indices_in_bounds(indices@, dictionary@.len()),
            decode_indices(views(dictionary@), indices@) == targets.take(i as int),
        decreases items@.len() - i,
    {
        let ghost before = views(dictionary@);
        let ghost before_indices = indices@;
        assert(targets.take(i + 1).drop_last() =~= targets.take(i as int));
        match &items[i] {
            Some(value) => {
                let position = lookup_or_insert(&mut dictionary, value);
                proof {
                    lemma_dictionary_of_prefix(targets, i + 1);
                }
                let index = U::from_index(position);
                indices.push(Some(index.unwrap()));
            },
            None => {
                indices.push(None);
            },
        }
        i = i + 1;
        assert forall|k: int| 0 <= k < indices@.len() implies (#[trigger] indices@[k] matches Some(
            u,
        ) ==> 0 <= u.index_int() < dictionary@.len()) by {
            if k < i - 1 {
                assert(indices@[k] == before_indices[k]);
            }
        }
        assert(decode_indices(views(dictionary@), indices@) =~= targets.take(i as int)) by {
            assert forall|k: int| 0 <= k < i - 1 implies decode_indices(
                views(dictionary@),
                indices@,
            )[k] == targets.take(i as int)[k] by {
                assert(indices@[k] == before_indices[k]);
                assert(decode_indices(before, before_indices)[k] == targets.take(i - 1)[k]);
                if let Some(u) = before_indices[k] {
                    assert(views(dictionary@)[u.index_int()] == before[u.index_int()]);
                }
            }
        }
    }
    assert(targets.take(items@.len() as int) =~= targets);
    (dictionary, indices)
}

/// An array whose items are stored as positions in a dictionary of distinct
/// values.
pub struct DictionaryArray<V: Comparable, U: DictionaryIndexValue, N: Nullability = NonNullable> {
    dictionary: Vec<V>,
    index: FixedSizePrimitiveArray<U, N>,
}

impl<V: Comparable, U: DictionaryIndexValue, N: Nullability> DictionaryArray<V, U, N> {
    /// The distinct values.
    pub closed spec fn dictionary(&self) -> Seq<<V as DeepView>::V> {
        views(self.dictionary@)
    }

    /// The index values, with null items as `None`.
    pub closed spec fn indices(&self) -> Seq<Option<U>> {
        self.index@
    }

    /// The index array is well formed.
    pub closed spec fn index_wf(&self) -> bool {
        self.index.wf()
    }

    /// The index array is well formed, every index value points into the
    /// dictionary, and the dictionary holds no value twice.
    pub open spec fn wf(&self) -> bool {
        &&& self.index_wf()
        &&& indices_in_bounds(self.indices(), self.dictionary().len())
        &&& self.dictionary().no_duplicates()
    }
}

impl<V: Comparable, U: DictionaryIndexValue, N: Nullability> View for DictionaryArray<V, U, N> {
    type V = Seq<Option<<V as DeepView>::V>>;

    open spec fn view(&self) -> Seq<Option<<V as DeepView>::V>> {
        decode_indices(self.dictionary(), self.indices())
    }
}

impl<V: Comparable, U: DictionaryIndexValue, N: Nullability> DictionaryArray<V, U, N> {
    /// Returns the number of items.
    pub fn len(&self) -> (r: usize)
        ensures
            r == self@.len(),
    {
        self.index.len()
    }

    /// Returns `true` when this array holds no items.
    pub fn is_empty(&self) -> (r: bool)
        ensures
            r == (self@.len() == 0),
    {
        self.index.len() == 0
    }

    /// Returns the dictionary: the distinct values, in order of first
    /// occurrence.
    pub fn child(&self) -> (r: &[V])
        ensures
            views(r@) == self.dictionary(),
    {
        self.dictionary.as_slice()
    }

    /// Returns the array of index values.
    pub fn index_array(&self) -> (r: &FixedSizePrimitiveArray<U, N>)
        ensures
            r@ == self.indices(),
            self.index_wf() ==> r.wf(),
    {
        &self.index
    }

    /// Returns an iterator over the items.
    pub fn iter(&self) -> (r: DictionaryArrayIter<'_, V, U, N>)
        ensures
            r.array == self,
            r.position == 0,
    {
        DictionaryArrayIter { array: self, position: 0 }
    }
}

impl<V: Comparable, U: DictionaryIndexValue> DictionaryArray<V, U, NonNullable> {
    /// Encodes the given values. The number of distinct values must fit the
    /// index type.
    pub fn from_values(values: &[V]) -> (r: Self)
        requires
            dictionary_of(views(values@).map_values(|v: <V as DeepView>::V| Some(v))).len()
                <= U::index_max() + 1,
        ensures
            r.wf(),
            r@ == views(values@).map_values(|v: <V as DeepView>::V| Some(v)),
            r.dictionary() == dictionary_of(
                views(values@).map_values(|v: <V as DeepView>::V| Some(v)),
            ),
    {
        let ghost targets = views(values@).map_values(|v: <V as DeepView>::V| Some(v));
        let mut items: Vec<Option<V>> = Vec::new();
        let mut i: usize = 0;
        while i < values.len()
            invariant
                i <= values@.len(),
                targets == views(values@).map_values(|v: <V as DeepView>::V| Some(v)),
                views(items@) == targets.take(i as int),
            decreases values@.len() - i,
        {
            let ghost before = views(items@);
            items.push(Some(values[i].duplicate()));
            assert(views(items@) =~= before.push(targets[i as int]));
            assert(targets.take(i + 1) =~= targets.take(i as int).push(targets[i as int]));
            i = i + 1;
        }
        assert(targets.take(i as int) =~= targets);
        let (dictionary, indices) = encode::<V, U>(items.as_slice());
        let mut positions: Vec<U> = Vec::new();
        let mut k: usize = 0;
        while k < indices.len()
            invariant
                k <= indices@.len(),
                indices@.len() == values@.len(),
                decode_indices(views(dictionary@), indices@) == targets,
                targets == views(values@).map_values(|v: <V as DeepView>::V| Some(v)),
                positions@ == indices@.take(k as int).map_values(|o: Option<U>| o->0),
            decreases indices@.len() - k,
        {
            assert(decode_indices(views(dictionary@), indices@)[k as int] is Some);
            let position = indices[k].unwrap();
            positions.push(position);
            k = k + 1;
            assert(positions@ =~= indices@.take(k as int).map_values(|o: Option<U>| o->0));
        }
        let index = FixedSizePrimitiveArray::from_values(positions.as_slice());
        assert(index@ =~= indices@) by {
            assert forall|j: int| 0 <= j < indices@.len() implies index@[j] == indices@[j] by {
                assert(decode_indices(views(dictionary@), indices@)[j] is Some);
                assert(indices@.take(indices@.len() as int)[j] == indices@[j]);
            }
        }
        proof {
            lemma_dictionary_of(targets);
        }
        DictionaryArray { dictionary, index }
    }

    /// Returns the item at `index`, or `None` when it is out of bounds.
    pub fn index(&self, index: usize) -> (r: Option<V>)
        requires
            self.wf(),
        ensures
            index < self@.len() ==> (r matches Some(v) && self@[index as int] == Some(
                v.deep_view(),
            )),
            index >= self@.len() ==> r is None,
    {
        if index < self.index.len() {
            Some(self.index_checked(index))
        } else {
            None
        }
    }

    /// Returns the item at `index`, which must be in bounds.
    pub fn index_checked(&self, index: usize) -> (r: V)
        requires
            self.wf(),
            index < self@.len(),
        ensures
            self@[index as int] == Some(r.deep_view()),
    {
        let position = self.index.index_checked(index);
        let n = self.dictionary.len();
        assert(self.indices()[index as int] == Some(position));
        self.dictionary[position.to_index()].duplicate()
    }

    /// Returns the items in order.
    pub fn to_vec(&self) -> (r: Vec<V>)
        requires
            self.wf(),
        ensures
            views(r@).map_values(|v: <V as DeepView>::V| Some(v)) == self@,
    {
        let mut out: Vec<V> = Vec::new();
        let mut i: usize = 0;
        while i < self.index.len()
            invariant
                self.wf(),
                i <= self@.len(),
                views(out@).map_values(|v: <V as DeepView>::V| Some(v)) == self@.take(i as int),
            decreases self@.len() - i,
        {
            let ghost prev = views(out@);
            let item = self.index_checked(i);
            out.push(item);
            assert(views(out@).map_values(|v: <V as DeepView>::V| Some(v)) =~= prev.map_values(
                |v: <V as DeepView>::V| Some(v),
            ).push(Some(item.deep_view())));
            assert(self@.take(i + 1) =~= self@.take(i as int).push(self@[i as int]));
            i = i + 1;
        }
        assert(self@.take(self@.len() as int) =~= self@);
        out
    }
}

impl<V: Comparable, U: DictionaryIndexValue> DictionaryArray<V, U, Nullable> {
    /// Encodes the given items; null items are null in the index array. The
    /// number of distinct present values must fit the index type.
    pub fn from_options(items: &[Option<V>]) -> (r: Self)
        requires
            dictionary_of(views(items@)).len() <= U::index_max() + 1,
            items@.len() + 7 <= usize::MAX,
        ensures
            r.wf(),
            r@ == views(items@),
            r.dictionary() == dictionary_of(views(items@)),
    {
        let (dictionary, indices) = encode::<V, U>(items);
        let index = FixedSizePrimitiveArray::from_options(indices.as_slice());
        proof {
            lemma_dictionary_of(views(items@));
        }
        DictionaryArray { dictionary, index }
    }

    /// Returns the item at `index`, or `None` when it is out of bounds.
    pub fn index(&self, index: usize) -> (r: Option<Option<V>>)
        requires
            self.wf(),
        ensures
            index < self@.len() ==> (r matches Some(item) && item.deep_view() == self@[index as int]),
            index >= self@.len() ==> r is None,
    {
        if index < self.index.len() {
            Some(self.index_checked(index))
        } else {
            None
        }
    }

    /// Returns the item at `index`, which must be in bounds.
    pub fn index_checked(&self, index: usize) -> (r: Option<V>)
        requires
            self.wf(),
            index < self@.len(),
        ensures
            r.deep_view() == self@[index as int],
    {
        let n = self.dictionary.len();
        match self.index.index_checked(index) {
            Some(position) => Some(self.dictionary[position.to_index()].duplicate()),
            None => None,
        }
    }

    /// Returns the items in order.
    pub fn to_vec(&self) -> (r: Vec<Option<V>>)
        requires
            self.wf(),
        ensures
            views(r@) == self@,
    {
        let mut out: Vec<Option<V>> = Vec::new();
        let mut i: usize = 0;
        while i < self.index.len()
            invariant
                self.wf(),
                i <= self@.len(),
                views(out@) == self@.take(i as int),
            decreases self@.len() - i,
        {
            let ghost prev = views(out@);
            let item = self.index_checked(i);
            out.push(item);
            assert(views(out@) =~= prev.push(item.deep_view()));
            assert(self@.take(i + 1) =~= self@.take(i as int).push(self@[i as int]));
            i = i + 1;
        }
        assert(self@.take(self@.len() as int) =~= self@);
        out
    }

    /// Returns whether the item at `index` is null, or `None` when it is out
    /// of bounds.
    pub fn is_null(&self, index: usize) -> (r: Option<bool>)
        requires
            self.wf(),
        ensures
            r == (if index < self@.len() {
                Some(self@[index as int] is None)
            } else {
                None
            }),
    {
        self.index.is_null(index)
    }

    /// Returns whether the item at `index` is valid, or `None` when it is out
    /// of bounds.
    pub fn is_valid(&self, index: usize) -> (r: Option<bool>)
        requires
            self.wf(),
        ensures
            r == (if index < self@.len() {
                Some(self@[index as int] is Some)
            } else {
                None
            }),
    {
        self.index.is_valid(index)
    }

    /// Returns the number of null items.
    pub fn null_count(&self) -> (r: usize)
        requires
            self.wf(),
        ensures
            r == count_none(self@),
    {
        let r = self.index.null_count();
        proof {
            lemma_count_none_decode(self.dictionary(), self.indices());
        }
        r
    }
}

/// Looking index values up keeps the null items where they are.
proof fn lemma_count_none_decode<V, U: DictionaryIndexValue>(
    dictionary: Seq<V>,
    indices: Seq<Option<U>>,
)
    ensures
        count_none(decode_indices(dictionary, indices)) == count_none(indices),
    decreases indices.len(),
{
    if indices.len() > 0 {
        lemma_count_none_decode(dictionary, indices.drop_last());
        assert(decode_indices(dictionary, indices).drop_last() =~= decode_indices(
            dictionary,
            indices.drop_last(),
        ));
    }
}

/// An iterator over the items of a dictionary encoded array.
pub struct DictionaryArrayIter<'a, V: Comparable, U: DictionaryIndexValue, N: Nullability> {
    pub array: &'a DictionaryArray<V, U, N>,
    pub position: usize,
}

impl<'a, V: Comparable, U: DictionaryIndexValue> DictionaryArrayIter<'a, V, U, NonNullable> {
    /// Returns the next item, or `None` at the end.
    pub fn next(&mut self) -> (r: Option<V>)
        requires
            old(self).array.wf(),
            old(self).position <= old(self).array@.len(),
        ensures
            final(self).array == old(self).array,
            old(self).position < old(self).array@.len() ==> {
                &&& r matches Some(v)
                &&& old(self).array@[old(self).position as int] == Some(v.deep_view())
                &&& final(self).position == old(self).position + 1
            },
            old(self).position == old(self).array@.len() ==> r is None && final(self).position
                == old(self).position,
    {
        if self.position < self.array.len() {
            let item = self.array.index_checked(self.position);
            self.position = self.position + 1;
            Some(item)
        } else {
            None
        }
    }
}

impl<'a, V: Comparable, U: DictionaryIndexValue> DictionaryArrayIter<'a, V, U, Nullable> {
    /// Returns the next item, or `None` at the end.
    pub fn next(&mut self) -> (r: Option<Option<V>>)
        requires
            old(self).array.wf(),
            old(self).position <= old(self).array@.len(),
        ensures
            final(self).array == old(self).array,
            old(self).position < old(self).array@.len() ==> (r matches Some(item)
                && item.deep_view() == old(self).array@[old(self).position as int])
                && final(self).position == old(self).position + 1,
            old(self).position == old(self).array@.len() ==> r is None && final(self).position
                == old(self).position,
    {
        if self.position < self.array.len() {
            let item = self.array.index_checked(self.position);
            self.position = self.position + 1;
            Some(item)
        } else {
            None
        }
    }
}

/// The values of `U` at the positions that fit: `U::from_index(i)` gives
/// `Some` exactly for the positions that a value of the index type holds,
/// so a dictionary can have as many entries as the index type has
/// non-negative values.
pub open spec fn index_fits<U: DictionaryIndexValue>(i: int) -> bool {
    exists|v: U| #[trigger] v.index_int() == i
}

/// A position can be an index exactly when it is at most `index_max`,
/// which is the largest value of the index type: `from_index`, which
/// succeeds up to `index_max`, accepts every position that a value of the
/// index type can hold and no other.
pub proof fn lemma_from_index_fits<U: DictionaryIndexValue>(i: int)
    requires
        0 <= i,
    ensures
        i <= U::index_max() <==> index_fits::<U>(i),
{
    U::lemma_index_range(i);
    if index_fits::<U>(i) {
        let v = choose|v: U| #[trigger] v.index_int() == i;
        assert(v.index_int() <= U::index_max());
    }
}

/// The index types reach their full non-negative range: an 8-bit unsigned
/// key addresses 256 dictionary entries, a signed one 128, and so on.
pub proof fn lemma_index_type_ranges()
    ensures
        index_fits::<u8>(255) && !index_fits::<u8>(256),
        index_fits::<i8>(127) && !index_fits::<i8>(128),
        index_fits::<u16>(65535) && !index_fits::<u16>(65536),
        index_fits::<i16>(32767) && !index_fits::<i16>(32768),
{
    let a: u8 = 255;
    assert(a.index_int() == 255);
    let b: i8 = 127;
    assert(b.index_int() == 127);
    let c: u16 = 65535;
    assert(c.index_int() == 65535);
    let d: i16 = 32767;
    assert(d.index_int() == 32767);
}

} // verus!
