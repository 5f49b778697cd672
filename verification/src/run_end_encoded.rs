//! Run-end encoded arrays: each run of equal items is stored once, with the
//! position where the run ends.
use vstd::prelude::*;
use crate::comparable::{Comparable, views};
use crate::validity::count_none;

verus! {

/// Closes [`RunEndElement`] to the types implemented here.
pub trait Sealed {}

impl Sealed for i16 {}

impl Sealed for i32 {}

impl Sealed for i64 {}

/// Types used for the run ends (`i16`, `i32` or `i64`).
pub trait RunEndElement: Copy + Sized + Sealed {
    /// The value as a mathematical integer.
    spec fn spec_int(&self) -> int;

    /// The largest value of this type.
    spec fn spec_max() -> int;

    /// Converts a position into a run end, if it fits.
    fn from_usize(value: usize) -> (r: Option<Self>)
        ensures
            r is Some <==> value <= Self::spec_max(),
            r matches Some(end) ==> end.spec_int() == value,
    ;

    /// Converts a non-negative run end into a position.
    fn to_usize(&self) -> (r: usize)
        requires
            0 <= self.spec_int() <= usize::MAX,
        ensures
            r == self.spec_int(),
    ;

    /// Returns the distance between two run ends.
    fn abs_diff(&self, other: Self) -> (r: usize)
        requires
            self.spec_int() - other.spec_int() <= usize::MAX,
            other.spec_int() - self.spec_int() <= usize::MAX,
        ensures
            r == if self.spec_int() >= other.spec_int() {
                self.spec_int() - other.spec_int()
            } else {
                other.spec_int() - self.spec_int()
            },
    ;

    /// Returns one.
    fn one() -> (r: Self)
        ensures
            r.spec_int() == 1,
    ;

    /// Returns zero.
    fn zero() -> (r: Self)
        ensures
            r.spec_int() == 0,
    ;
}

impl RunEndElement for i16 {
    open spec fn spec_int(&self) -> int {
        *self as int
    }

    open spec fn spec_max() -> int {
        i16::MAX as int
    }

    fn from_usize(value: usize) -> (r: Option<Self>) {
        if value <= 0x7fffusize {
            Some(value as i16)
        } else {
            None
        }
    }

    fn to_usize(&self) -> (r: usize) {
        *self as usize
    }

    fn abs_diff(&self, other: Self) -> (r: usize) {
        let a = *self as i32;
        let b = other as i32;
        if a >= b {
            (a - b) as usize
        } else {
            (b - a) as usize
        }
    }

    fn one() -> (r: Self) {
        1
    }

    fn zero() -> (r: Self) {
        0
    }
}

impl RunEndElement for i32 {
    open spec fn spec_int(&self) -> int {
        *self as int
    }

    open spec fn spec_max() -> int {
        i32::MAX as int
    }

    fn from_usize(value: usize) -> (r: Option<Self>) {
        if value <= 0x7fff_ffffusize {
            Some(value as i32)
        } else {
            None
        }
    }

    fn to_usize(&self) -> (r: usize) {
        *self as usize
    }

    fn abs_diff(&self, other: Self) -> (r: usize) {
        let a = *self as i64;
        let b = other as i64;
        if a >= b {
            (a - b) as usize
        } else {
            (b - a) as usize
        }
    }

    fn one() -> (r: Self) {
        1
    }

    fn zero() -> (r: Self) {
        0
    }
}

impl RunEndElement for i64 {
    open spec fn spec_int(&self) -> int {
        *self as int
    }

    open spec fn spec_max() -> int {
        i64::MAX as int
    }

    fn from_usize(value: usize) -> (r: Option<Self>) {
        if value as u64 <= 0x7fff_ffff_ffff_ffffu64 {
            Some(value as i64)
        } else {
            None
        }
    }

    fn to_usize(&self) -> (r: usize) {
        *self as usize
    }

    fn abs_diff(&self, other: Self) -> (r: usize) {
        let a = *self as i128;
        let b = other as i128;
        if a >= b {
            (a - b) as usize
        } else {
            (b - a) as usize
        }
    }

    fn one() -> (r: Self) {
        1
    }

    fn zero() -> (r: Self) {
        0
    }
}

/// Number of run ends at or before position `i`: the run that holds `i`.
pub open spec fn run_of(ends: Seq<int>, i: int) -> nat
    decreases ends.len(),
{
    if ends.len() == 0 {
        0
    } else {
        run_of(ends.drop_last(), i) + if ends.last() <= i {
            1nat
        } else {
            0nat
        }
    }
}

/// Run ends are positive and strictly increasing.
pub open spec fn ends_wf(ends: Seq<int>) -> bool {
    &&& forall|k: int| 0 <= k < ends.len() ==> 0 < #[trigger] ends[k]
    &&& forall|k: int, m: int| 0 <= k < m < ends.len() ==> ends[k] < ends[m]
}

/// The length of the encoded items: the last run end.
pub open spec fn encoded_len(ends: Seq<int>) -> nat {
    if ends.len() == 0 {
        0
    } else {
        ends.last() as nat
    }
}

/// The items encoded by run ends and run values.
pub open spec fn decode<V>(ends: Seq<int>, values: Seq<V>) -> Seq<V> {
    Seq::new(encoded_len(ends), |i: int| values[run_of(ends, i) as int])
}

/// The start of run `k`.
pub open spec fn run_start(ends: Seq<int>, k: int) -> int {
    if k == 0 {
        0
    } else {
        ends[k - 1]
    }
}

/// Positions before run `k` ends are in a run up to `k`; positions at or
/// after its end are in a later run.
pub proof fn lemma_run_of(ends: Seq<int>, i: int, k: int)
    requires
        ends_wf(ends),
        0 <= k <= ends.len(),
        forall|m: int| 0 <= m < k ==> ends[m] <= i,
        forall|m: int| k <= m < ends.len() ==> i < ends[m],
    ensures
        run_of(ends, i) == k,
    decreases ends.len(),
{
    if ends.len() > 0 {
        if k == ends.len() {
            lemma_run_of(ends.drop_last(), i, k - 1);
        } else {
            lemma_run_of(ends.drop_last(), i, k);
        }
    }
}

/// Runs that are equal in neighbouring positions are merged: neighbouring
/// run values differ.
pub open spec fn runs_maximal<V>(values: Seq<V>) -> bool {
    forall|k: int| 0 <= k < values.len() - 1 ==> #[trigger] values[k] != values[k + 1]
}

/// Iterator over the runs of a sequence of items: it produces, for each
/// maximal run of equal items, the position where the run ends and the item.
pub struct RunEnds<'a, V: Comparable, R: RunEndElement> {
    /// The items that are encoded.
    pub items: &'a [V],
    /// The position of the first item of the next run.
    pub index: usize,
    /// The end of the last run produced so far.
    pub len: R,
}

/// Extension of item sequences with an iterator over their runs.
pub trait RunEndsExt<'a, V: Comparable>: Sized {
    /// The items whose runs are produced.
    spec fn run_items(&self) -> Seq<V>;

    /// Returns an iterator over the runs of the items.
    fn run_end_encoded<R: RunEndElement>(self) -> (r: RunEnds<'a, V, R>)
        ensures
            r.items@ == self.run_items(),
            r.index == 0,
            r.len.spec_int() == 0,
    ;
}

impl<'a, V: Comparable> RunEndsExt<'a, V> for &'a [V] {
    open spec fn run_items(&self) -> Seq<V> {
        (*self)@
    }

    fn run_end_encoded<R: RunEndElement>(self) -> (r: RunEnds<'a, V, R>) {
        RunEnds { items: self, index: 0, len: R::zero() }
    }
}

impl<'a, V: Comparable, R: RunEndElement> RunEnds<'a, V, R> {
    /// Returns the next run: its end position and its item. The run end must
    /// fit the run-end type.
    pub fn next(&mut self) -> (r: Option<(R, V)>)
        requires
            old(self).index <= old(self).items@.len(),
            old(self).items@.len() <= R::spec_max(),
        ensures
            final(self).items == old(self).items,
            old(self).index == old(self).items@.len() ==> final(self).len == old(self).len,
            old(self).index < old(self).items@.len() ==> final(self).len.spec_int()
                == final(self).index,
            old(self).index == old(self).items@.len() ==> r is None && final(self).index
                == old(self).index,
            old(self).index < old(self).items@.len() ==> {
                &&& r matches Some((end, item))
                &&& end.spec_int() == final(self).index
                &&& item.deep_view() == views(old(self).items@)[old(self).index as int]
                &&& old(self).index < final(self).index <= old(self).items@.len()
                &&& forall|p: int|
                    old(self).index <= p < final(self).index ==> views(old(self).items@)[p]
                        == item.deep_view()
                &&& final(self).index < old(self).items@.len() ==> views(
                    old(self).items@,
                )[final(self).index as int] != item.deep_view()
            },
    {
        let n = self.items.len();
        if self.index == n {
            return None;
        }
        let first = &self.items[self.index];
        let item = first.duplicate();
        let mut j = self.index + 1;
        while j < n && self.items[j].same_value(&item)
            invariant
                self.index < j <= n,
                n == self.items@.len(),
                item.deep_view() == views(self.items@)[self.index as int],
                forall|p: int| self.index <= p < j ==> views(self.items@)[p] == item.deep_view(),
            decreases n - j,
        {
            j = j + 1;
        }
        self.index = j;
        let end = R::from_usize(j).unwrap();
        self.len = end;
        Some((end, item))
    }
}

/// A run-end encoded array of items `V`, with run ends of type `R`.
pub struct RunEndEncoded<V: Comparable, R: RunEndElement = i16> {
    /// The position where each run ends.
    run_ends: Vec<R>,
    /// The item of each run.
    values: Vec<V>,
}

impl<V: Comparable, R: RunEndElement> RunEndEncoded<V, R> {
    /// The run ends as integers.
    pub closed spec fn ends(&self) -> Seq<int> {
        self.run_ends@.map_values(|e: R| e.spec_int())
    }

    /// The item of each run.
    pub closed spec fn runs(&self) -> Seq<<V as DeepView>::V> {
        views(self.values@)
    }

    /// One item per run, run ends strictly increasing, fitting a position.
    pub open spec fn wf(&self) -> bool {
        &&& self.ends().len() == self.runs().len()
        &&& ends_wf(self.ends())
        &&& encoded_len(self.ends()) <= usize::MAX
    }
}

impl<V: Comparable, R: RunEndElement> View for RunEndEncoded<V, R> {
    type V = Seq<<V as DeepView>::V>;

    open spec fn view(&self) -> Seq<<V as DeepView>::V> {
        decode(self.ends(), self.runs())
    }
}

impl<V: Comparable, R: RunEndElement> RunEndEncoded<V, R> {
    /// Encodes the given items as maximal runs. The number of items must fit
    /// the run-end type.
    pub fn from_items(items: &[V]) -> (r: Self)
        requires
            items@.len() <= R::spec_max(),
        ensures
            r.wf(),
            r@ == views(items@),
            runs_maximal(r.runs()),
    {
        let n = items.len();
        let mut run_ends: Vec<R> = Vec::new();
        let mut values: Vec<V> = Vec::new();
        let mut runs: RunEnds<V, R> = items.run_end_encoded::<R>();
        while runs.index < n
            invariant
                runs.items@ == items@,
                n == items@.len(),
                runs.index <= n,
                n <= R::spec_max(),
                run_ends@.len() == values@.len(),
                ends_wf(run_ends@.map_values(|e: R| e.spec_int())),
                encoded_len(run_ends@.map_values(|e: R| e.spec_int())) == runs.index,
                decode(run_ends@.map_values(|e: R| e.spec_int()), views(values@)) == views(
                    items@,
                ).take(runs.index as int),
                runs_maximal(views(values@)),
                values@.len() > 0 ==> views(values@).last() == views(items@)[runs.index - 1],
                values@.len() > 0 && runs.index < n ==> views(items@)[runs.index as int] != views(
                    values@,
                ).last(),
                values@.len() == 0 ==> runs.index == 0,
            decreases n - runs.index,
        {
            let ghost start = runs.index;
            let ghost old_ends = run_ends@.map_values(|e: R| e.spec_int());
            let ghost old_values = views(values@);
            let next = runs.next();
            let (end, item) = next.unwrap();
            run_ends.push(end);
            values.push(item);
            proof {
                assert(views(values@) =~= old_values.push(item.deep_view()));
                let ends = run_ends@.map_values(|e: R| e.spec_int());
                assert(ends =~= old_ends.push(runs.index as int));
                assert(ends_wf(ends)) by {
                    assert forall|k: int, m: int| 0 <= k < m < ends.len() implies ends[k]
                        < ends[m] by {
                        if m == ends.len() - 1 && k < old_ends.len() {
                            assert(old_ends[k] <= encoded_len(old_ends));
                        }
                    }
                }
                assert forall|i: int| 0 <= i < runs.index implies #[trigger] decode(
                    ends,
                    views(values@),
                )[i] == views(items@)[i] by {
                    if i < start {
                        assert(old_ends.len() > 0);
                        let k = run_of(old_ends, i);
                        lemma_run_of_bound(old_ends, i);
                        lemma_run_of_push(old_ends, i, runs.index as int);
                        assert(decode(old_ends, old_values)[i] == views(items@).take(
                            start as int,
                        )[i]);
                    } else {
                        assert forall|m: int| 0 <= m < old_ends.len() implies ends[m] <= i by {
                            assert(old_ends[m] <= encoded_len(old_ends));
                        }
                        lemma_run_of(ends, i, old_ends.len() as int);
                    }
                }
                assert(decode(ends, views(values@)) =~= views(items@).take(runs.index as int));
            }
        }
        assert(views(items@).take(n as int) =~= views(items@));
        RunEndEncoded { run_ends, values }
    }
}

impl<V: Comparable, R: RunEndElement> RunEndEncoded<V, R> {
    /// Returns the number of encoded items: the end of the last run.
    pub fn len(&self) -> (r: usize)
        requires
            self.wf(),
        ensures
            r == self@.len(),
    {
        if self.run_ends.len() == 0 {
            0
        } else {
            let last = self.run_ends.len() - 1;
            assert(self.ends()[last as int] == self.run_ends@[last as int].spec_int());
            self.run_ends[last].to_usize()
        }
    }

    /// Returns `true` when no items are encoded.
    pub fn is_empty(&self) -> (r: bool)
        requires
            self.wf(),
        ensures
            r == (self@.len() == 0),
    {
        self.len() == 0
    }

    /// Returns the number of runs.
    pub fn run_count(&self) -> (r: usize)
        ensures
            r == self.runs().len(),
    {
        self.values.len()
    }

    /// Returns the item of each run.
    pub fn values(&self) -> (r: &[V])
        ensures
            views(r@) == self.runs(),
    {
        self.values.as_slice()
    }

    /// Returns run end `k` as a position.
    fn end_at(&self, k: usize) -> (r: usize)
        requires
            self.wf(),
            k < self.ends().len(),
        ensures
            r == self.ends()[k as int],
    {
        proof {
            let ends = self.ends();
            if k + 1 < ends.len() {
                assert(ends[k as int] < ends[ends.len() - 1]);
            }
            assert(0 < ends[k as int]);
        }
        self.run_ends[k].to_usize()
    }

    /// Returns the length of the run at the given index. Returns `None` if
    /// the index is out of bounds.
    pub fn run_len(&self, index: usize) -> (r: Option<usize>)
        requires
            self.wf(),
        ensures
            r == (if index < self.runs().len() {
                Some((self.ends()[index as int] - run_start(self.ends(), index as int)) as usize)
            } else {
                None::<usize>
            }),
    {
        if index < self.run_ends.len() {
            let end = self.end_at(index);
            let start = if index == 0 {
                0
            } else {
                self.end_at(index - 1)
            };
            proof {
                if index > 0 {
                    assert(self.ends()[index - 1] < self.ends()[index as int]);
                }
            }
            Some(end - start)
        } else {
            None
        }
    }

    /// Returns the item at position `index`, found with a binary search over
    /// the run ends. Returns `None` past the end; `index` must not be the
    /// length itself.
    pub fn run_value(&self, index: usize) -> (r: Option<V>)
        requires
            self.wf(),
            index != self@.len(),
        ensures
            index < self@.len() ==> (r matches Some(v) && v.deep_view() == self@[index as int]),
            index > self@.len() ==> r is None,
    {
        if index <= self.len() {
            let mut lo: usize = 0;
            let mut hi: usize = self.run_ends.len();
            while lo < hi
                invariant
                    self.wf(),
                    lo <= hi <= self.ends().len(),
                    forall|m: int| 0 <= m < lo ==> self.ends()[m] <= index,
                    forall|m: int| hi <= m < self.ends().len() ==> index < self.ends()[m],
                decreases hi - lo,
            {
                let mid = lo + (hi - lo) / 2;
                if self.end_at(mid) <= index {
                    proof {
                        assert forall|m: int| 0 <= m < mid + 1 implies self.ends()[m] <= index by {
                            if m < mid {
                                assert(self.ends()[m] < self.ends()[mid as int]);
                            }
                        }
                    }
                    lo = mid + 1;
                } else {
                    proof {
                        assert forall|m: int| mid <= m < self.ends().len() implies index
                            < self.ends()[m] by {
                            if m > mid {
                                assert(self.ends()[mid as int] < self.ends()[m]);
                            }
                        }
                    }
                    hi = mid;
                }
            }
            proof {
                lemma_run_of(self.ends(), index as int, lo as int);
                if lo == self.ends().len() {
                    assert(self.ends()[lo - 1] <= index);
                }
            }
            Some(self.values[lo].duplicate())
        } else {
            None
        }
    }

    /// Returns an iterator over the encoded items.
    pub fn iter(&self) -> (r: RunEndsIter<'_, V, R>)
        requires
            self.wf(),
        ensures
            r.array == self,
            r.pos == 0,
            r.inv(),
    {
        RunEndsIter { array: self, run: 0, pos: 0 }
    }

    /// Returns the encoded items in order, read through the iterator.
    pub fn to_vec(&self) -> (r: Vec<V>)
        requires
            self.wf(),
        ensures
            views(r@) == self@,
    {
        let mut it = self.iter();
        let r = it.collect_remaining();
        assert(self@.skip(0) =~= self@);
        r
    }
}

impl<T: Comparable, R: RunEndElement> RunEndEncoded<Option<T>, R> {
    /// Returns the number of runs of null items.
    pub fn null_count(&self) -> (r: usize)
        ensures
            r == count_none(self.runs()),
    {
        let mut count: usize = 0;
        let mut i: usize = 0;
        while i < self.values.len()
            invariant
                i <= self.values@.len(),
                count == count_none(views(self.values@).take(i as int)),
                count <= i,
            decreases self.values@.len() - i,
        {
            assert(views(self.values@).take(i + 1).drop_last() =~= views(self.values@).take(
                i as int,
            ));
            assert(views(self.values@)[i as int] is None == self.values@[i as int] is None);
            if self.values[i].is_none() {
                count = count + 1;
            }
            i = i + 1;
        }
        assert(views(self.values@).take(i as int) =~= views(self.values@));
        count
    }
}

/// Iterator over the items of a [`RunEndEncoded`] array.
pub struct RunEndsIter<'a, V: Comparable, R: RunEndElement> {
    /// The encoded array.
    pub array: &'a RunEndEncoded<V, R>,
    /// The run of the next item.
    pub run: usize,
    /// The position of the next item.
    pub pos: usize,
}

impl<'a, V: Comparable, R: RunEndElement> RunEndsIter<'a, V, R> {
    /// The iterator points into the array, after the runs that end before
    /// the next position.
    pub open spec fn inv(&self) -> bool {
        &&& self.array.wf()
        &&& self.pos <= self.array@.len()
        &&& self.run <= self.array.ends().len()
        &&& forall|m: int| 0 <= m < self.run ==> self.array.ends()[m] <= self.pos
    }

    /// Returns the next item, or `None` after the last one.
    pub fn next(&mut self) -> (r: Option<V>)
        requires
            old(self).inv(),
        ensures
            final(self).inv(),
            final(self).array == old(self).array,
            old(self).pos < old(self).array@.len() ==> (r matches Some(v) && v.deep_view()
                == old(self).array@[old(self).pos as int]) && final(self).pos == old(self).pos + 1,
            old(self).pos == old(self).array@.len() ==> r is None && final(self).pos == old(self).pos,
    {
        let n = self.array.len();
        if self.pos >= n {
            return None;
        }
        proof {
            if self.run == self.array.ends().len() {
                assert(self.array.ends()[self.run - 1] <= self.pos);
            }
        }
        let nruns = self.array.run_count();
        while self.array.end_at(self.run) <= self.pos
            invariant
                self.inv(),
                self.array == old(self).array,
                self.pos == old(self).pos,
                nruns == self.array.ends().len(),
                n == self.array@.len(),
                self.pos < n,
                self.run < self.array.ends().len(),
            decreases self.array.ends().len() - self.run,
        {
            self.run = self.run + 1;
            proof {
                if self.run == self.array.ends().len() {
                    assert(self.array.ends()[self.run - 1] <= self.pos);
                }
            }
        }
        proof {
            let ends = self.array.ends();
            assert forall|m: int| self.run <= m < ends.len() implies self.pos < ends[m] by {
                if m > self.run {
                    assert(ends[self.run as int] < ends[m]);
                }
            }
            lemma_run_of(ends, self.pos as int, self.run as int);
        }
        let item = self.array.values[self.run].duplicate();
        self.pos = self.pos + 1;
        Some(item)
    }
}

impl<'a, V: Comparable, R: RunEndElement> RunEndsIter<'a, V, R> {
    /// Produces the remaining items, in order, until the iterator is done.
    pub fn collect_remaining(&mut self) -> (r: Vec<V>)
        requires
            old(self).inv(),
        ensures
            views(r@) == old(self).array@.skip(old(self).pos as int),
            final(self).inv(),
            final(self).array == old(self).array,
            final(self).pos == final(self).array@.len(),
    {
        let n = self.array.len();
        let ghost start = self.pos as int;
        let mut out: Vec<V> = Vec::new();
        while self.pos < n
            invariant
                self.inv(),
                self.array == old(self).array,
                n == self.array@.len(),
                start == old(self).pos,
                start <= self.pos,
                views(out@) == self.array@.subrange(start, self.pos as int),
            decreases n - self.pos,
        {
            let ghost before = views(out@);
            let item = self.next().unwrap();
            out.push(item);
            assert(views(out@) =~= before.push(item.deep_view()));
            assert(views(out@) =~= self.array@.subrange(start, self.pos as int));
        }
        assert(views(out@) =~= old(self).array@.skip(start));
        out
    }
}

/// Encoding items as runs and reading them back in order gives the items:
/// what `RunEndEncoded::from_items` builds from `items`, reading it through
/// its iterator from the start (`to_vec`) gives back `items`.
pub proof fn lemma_run_end_round_trip<V: Comparable, R: RunEndElement>(
    items: Seq<V>,
    encoded: RunEndEncoded<V, R>,
    read: Seq<V>,
)
    requires
        encoded@ == views(items),
        views(read) == encoded@.skip(0),
    ensures
        views(read) == views(items),
{
    assert(encoded@.skip(0) =~= encoded@);
}

/// Positions inside the encoded items are in an existing run.
pub proof fn lemma_run_of_bound(ends: Seq<int>, i: int)
    requires
        ends_wf(ends),
        ends.len() > 0,
        0 <= i < ends.last(),
    ensures
        run_of(ends, i) < ends.len(),
    decreases ends.len(),
{
    if ends.len() > 1 && i < ends[ends.len() - 2] {
        lemma_run_of_bound(ends.drop_last(), i);
    } else if ends.len() > 1 {
        let k = ends.len() - 1;
        assert forall|m: int| 0 <= m < k implies ends[m] <= i by {
            if m < k - 1 {
                assert(ends[m] < ends[k - 1]);
            }
        }
        lemma_run_of(ends, i, k);
    } else {
        lemma_run_of(ends, i, 0);
    }
}

/// A new run end after position `i` leaves the run of `i` unchanged.
pub proof fn lemma_run_of_push(ends: Seq<int>, i: int, end: int)
    requires
        i < end,
    ensures
        run_of(ends.push(end), i) == run_of(ends, i),
{
    assert(ends.push(end).drop_last() =~= ends);
}

} // verus!
