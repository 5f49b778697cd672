//! Byte containers that are stored in binary arrays rather than list arrays.
use vstd::prelude::*;

verus! {

/// A byte array wrapper that maps to a fixed-size binary array: used for
/// example to store a UUID as 16 bytes rather than as a list of 16 items.
#[derive(Clone, Copy, Debug)]
pub struct FixedSizeBinary<const N: usize>(pub [u8; N]);

impl<const N: usize> View for FixedSizeBinary<N> {
    type V = Seq<u8>;

    open spec fn view(&self) -> Seq<u8> {
        self.0@
    }
}

impl<const N: usize> FixedSizeBinary<N> {
    /// Wraps the given bytes.
    pub fn new(bytes: [u8; N]) -> (r: Self)
        ensures
            r@ == bytes@,
    {
        FixedSizeBinary(bytes)
    }

    /// Wraps a copy of the referenced bytes.
    pub fn from_ref(bytes: &[u8; N]) -> (r: Self)
        ensures
            r@ == bytes@,
    {
        FixedSizeBinary(*bytes)
    }

    /// Returns the wrapped bytes.
    pub fn into_bytes(self) -> (r: [u8; N])
        ensures
            r@ == self@,
    {
        self.0
    }
}

/// A byte vector wrapper that maps to a variable-size binary array: used
/// for example to store a `Vec<u8>` as bytes rather than as a list of items.
#[derive(Clone, Debug, Default)]
pub struct VariableSizeBinary(pub Vec<u8>);

impl View for VariableSizeBinary {
    type V = Seq<u8>;

    open spec fn view(&self) -> Seq<u8> {
        self.0@
    }
}

impl VariableSizeBinary {
    /// Wraps the given bytes.
    pub fn new(bytes: Vec<u8>) -> (r: Self)
        ensures
            r@ == bytes@,
    {
        VariableSizeBinary(bytes)
    }

    /// Returns the wrapped bytes.
    pub fn into_vec(self) -> (r: Vec<u8>)
        ensures
            r@ == self@,
    {
        self.0
    }

    /// Returns the number of bytes.
    pub fn len(&self) -> (r: usize)
        ensures
            r == self@.len(),
    {
        self.0.len()
    }

    /// Returns `true` when there are no bytes.
    pub fn is_empty(&self) -> (r: bool)
        ensures
            r == (self@.len() == 0),
    {
        self.0.len() == 0
    }
}

} // verus!
