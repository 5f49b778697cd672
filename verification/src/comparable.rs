//! Values that run-end and dictionary encoding compare: they are equal when
//! their deep views are.
use vstd::prelude::*;
use vstd::utf8::encode_utf8_decode_utf8;

verus! {

/// The deep views of a sequence of values.
pub open spec fn views<V: DeepView>(values: Seq<V>) -> Seq<V::V> {
    values.map_values(|v: V| v.deep_view())
}

/// Values compared for equality by run-end and dictionary encoding.
pub trait Comparable: DeepView + Sized {
    /// Returns whether two values are equal.
    fn same_value(&self, other: &Self) -> (r: bool)
        ensures
            r == (self.deep_view() == other.deep_view()),
    ;

    /// Returns a value equal to this one.
    fn duplicate(&self) -> (r: Self)
        ensures
            r.deep_view() == self.deep_view(),
    ;
}

impl Comparable for u8 {
    fn same_value(&self, other: &Self) -> (r: bool) {
        *self == *other
    }

    fn duplicate(&self) -> (r: Self) {
        *self
    }
}

impl Comparable for u16 {
    fn same_value(&self, other: &Self) -> (r: bool) {
        *self == *other
    }

    fn duplicate(&self) -> (r: Self) {
        *self
    }
}

impl Comparable for u32 {
    fn same_value(&self, other: &Self) -> (r: bool) {
        *self == *other
    }

    fn duplicate(&self) -> (r: Self) {
        *self
    }
}

impl Comparable for u64 {
    fn same_value(&self, other: &Self) -> (r: bool) {
        *self == *other
    }

    fn duplicate(&self) -> (r: Self) {
        *self
    }
}

impl Comparable for u128 {
    fn same_value(&self, other: &Self) -> (r: bool) {
        *self == *other
    }

    fn duplicate(&self) -> (r: Self) {
        *self
    }
}

impl Comparable for usize {
    fn same_value(&self, other: &Self) -> (r: bool) {
        *self == *other
    }

    fn duplicate(&self) -> (r: Self) {
        *self
    }
}

impl Comparable for i8 {
    fn same_value(&self, other: &Self) -> (r: bool) {
        *self == *other
    }

    fn duplicate(&self) -> (r: Self) {
        *self
    }
}

impl Comparable for i16 {
    fn same_value(&self, other: &Self) -> (r: bool) {
        *self == *other
    }

    fn duplicate(&self) -> (r: Self) {
        *self
    }
}

impl Comparable for i32 {
    fn same_value(&self, other: &Self) -> (r: bool) {
        *self == *other
    }

    fn duplicate(&self) -> (r: Self) {
        *self
    }
}

impl Comparable for i64 {
    fn same_value(&self, other: &Self) -> (r: bool) {
        *self == *other
    }

    fn duplicate(&self) -> (r: Self) {
        *self
    }
}

impl Comparable for i128 {
    fn same_value(&self, other: &Self) -> (r: bool) {
        *self == *other
    }

    fn duplicate(&self) -> (r: Self) {
        *self
    }
}

impl Comparable for isize {
    fn same_value(&self, other: &Self) -> (r: bool) {
        *self == *other
    }

    fn duplicate(&self) -> (r: Self) {
        *self
    }
}

impl Comparable for bool {
    fn same_value(&self, other: &Self) -> (r: bool) {
        *self == *other
    }

    fn duplicate(&self) -> (r: Self) {
        *self
    }
}

impl Comparable for char {
    fn same_value(&self, other: &Self) -> (r: bool) {
        *self == *other
    }

    fn duplicate(&self) -> (r: Self) {
        *self
    }
}

impl<T: Comparable> Comparable for Option<T> {
    fn same_value(&self, other: &Self) -> (r: bool) {
        match (self, other) {
            (Some(a), Some(b)) => a.same_value(b),
            (None, None) => true,
            _ => false,
        }
    }

    fn duplicate(&self) -> (r: Self) {
        match self {
            Some(a) => Some(a.duplicate()),
            None => None,
        }
    }
}

/// Returns whether two byte strings are equal.
fn same_bytes(a: &[u8], b: &[u8]) -> (r: bool)
    ensures
        r == (a@ == b@),
{
    if a.len() != b.len() {
        return false;
    }
    let mut i: usize = 0;
    while i < a.len()
        invariant
            i <= a@.len(),
            a@.len() == b@.len(),
            forall|j: int| 0 <= j < i ==> a@[j] == b@[j],
        decreases a@.len() - i,
    {
        if a[i] != b[i] {
            return false;
        }
        i = i + 1;
    }
    assert(a@ =~= b@);
    true
}

impl<'a> Comparable for &'a str {
    fn same_value(&self, other: &Self) -> (r: bool) {
        let r = same_bytes(self.as_bytes(), other.as_bytes());
        proof {
            encode_utf8_decode_utf8((**self)@);
            encode_utf8_decode_utf8((**other)@);
        }
        r
    }

    fn duplicate(&self) -> (r: Self) {
        *self
    }
}

impl Comparable for String {
    fn same_value(&self, other: &Self) -> (r: bool) {
        *self == *other
    }

    fn duplicate(&self) -> (r: Self) {
        self.clone()
    }
}

} // verus!
