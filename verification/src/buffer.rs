//! Storage of the items of an array.
use vstd::prelude::*;

verus! {

/// Storage that exposes its items as a slice.
pub trait Buffer<T>: Sized {
    /// The items held.
    spec fn items(&self) -> Seq<T>;

    /// Returns a buffer holding the given items.
    fn from_slice(items: &[T]) -> (r: Self)
        ensures
            r.items() == items@,
    ;

    /// Returns the items as a slice.
    fn as_slice(&self) -> (r: &[T])
        ensures
            r@ == self.items(),
    ;
}

/// Storage whose items can be replaced in place.
pub trait BufferMut<T>: Buffer<T> {
    /// Replaces the item at `index`.
    fn set_item(&mut self, index: usize, value: T)
        requires
            index < old(self).items().len(),
        ensures
            final(self).items() == old(self).items().update(index as int, value),
    ;
}

/// Types that name the storage used for items of type `T`.
pub trait BufferType<T> {
    /// The storage.
    type Buffer: Buffer<T>;
}

/// Storage in a [`Vec`].
#[derive(Clone, Copy, Debug, Default)]
pub struct VecBuffer;

impl<T: Copy> Buffer<T> for Vec<T> {
    open spec fn items(&self) -> Seq<T> {
        self@
    }

    fn from_slice(items: &[T]) -> (r: Self) {
        let mut out: Vec<T> = Vec::new();
        let mut i: usize = 0;
        while i < items.len()
            invariant
                i <= items@.len(),
                out@ == items@.take(i as int),
            decreases items@.len() - i,
        {
            out.push(items[i]);
            i = i + 1;
            assert(out@ =~= items@.take(i as int));
        }
        assert(out@ =~= items@);
        out
    }

    fn as_slice(&self) -> (r: &[T]) {
        self.as_slice()
    }
}

impl<T: Copy> BufferMut<T> for Vec<T> {
    fn set_item(&mut self, index: usize, value: T) {
        self.set(index, value);
    }
}

impl<T: Copy> BufferType<T> for VecBuffer {
    type Buffer = Vec<T>;
}

/// Returns the number of items in a buffer.
pub fn buffer_len<T, B: Buffer<T>>(buffer: &B) -> (r: usize)
    ensures
        r == buffer.items().len(),
{
    buffer.as_slice().len()
}

/// Returns the item at `index`, or `None` when it is out of bounds.
pub fn buffer_get<T: Copy, B: Buffer<T>>(buffer: &B, index: usize) -> (r: Option<T>)
    ensures
        r == (if index < buffer.items().len() {
            Some(buffer.items()[index as int])
        } else {
            None
        }),
{
    let items = buffer.as_slice();
    if index < items.len() {
        Some(items[index])
    } else {
        None
    }
}

/// Copies the items of one buffer into another kind of buffer.
pub fn convert_buffer<T: Copy, A: Buffer<T>, B: Buffer<T>>(buffer: &A) -> (r: B)
    ensures
        r.items() == buffer.items(),
{
    B::from_slice(buffer.as_slice())
}

} // verus!
