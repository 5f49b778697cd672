//! Interop with the Apache Arrow Rust implementation (`arrow-rs`).
use vstd::prelude::*;
use crate::offset::OffsetElement;

pub mod bitmap;
pub mod buffer;

verus! {

/// Offsets as used by `arrow-rs`: `i32` offsets map to the regular variant
/// of a data type, `i64` offsets to the large variant.
pub trait Offset: OffsetElement {
    /// Whether this offset maps to the large variant of a data type.
    spec fn spec_large() -> bool;

    /// Returns whether this offset maps to the large variant of a data type.
    fn large() -> (r: bool)
        ensures
            r == Self::spec_large(),
    ;
}

impl Offset for i32 {
    open spec fn spec_large() -> bool {
        false
    }

    fn large() -> (r: bool) {
        false
    }
}

impl Offset for i64 {
    open spec fn spec_large() -> bool {
        true
    }

    fn large() -> (r: bool) {
        true
    }
}

/// The extension type of logical types that have none.
#[derive(Debug, Clone, Copy)]
pub struct NoExtensionType;

} // verus!
