//! The capability an element type must offer to the explicit-set and
//! single-element domains: an executable equality decision.

use vstd::prelude::*;

verus! {

/// An element type whose equality can be decided at run time.
///
/// `eq_elem` must decide mathematical equality of the two values; the domain
/// representations state membership and indices in terms of that equality.
pub trait DomainElement: Sized + Copy {
    /// Decides whether the two values are equal.
    fn eq_elem(&self, other: &Self) -> (r: bool)
        ensures
            r <==> self == other,
    ;
}

impl DomainElement for i32 {
    fn eq_elem(&self, other: &Self) -> (r: bool) {
        *self == *other
    }
}

impl DomainElement for i64 {
    fn eq_elem(&self, other: &Self) -> (r: bool) {
        *self == *other
    }
}

impl DomainElement for u32 {
    fn eq_elem(&self, other: &Self) -> (r: bool) {
        *self == *other
    }
}

impl DomainElement for u64 {
    fn eq_elem(&self, other: &Self) -> (r: bool) {
        *self == *other
    }
}

impl DomainElement for usize {
    fn eq_elem(&self, other: &Self) -> (r: bool) {
        *self == *other
    }
}

impl DomainElement for bool {
    fn eq_elem(&self, other: &Self) -> (r: bool) {
        *self == *other
    }
}

impl DomainElement for char {
    fn eq_elem(&self, other: &Self) -> (r: bool) {
        *self == *other
    }
}

} // verus!
