//! Numbering: assigning each element of a finite domain a unique, dense
//! integer index in `[0, n)`, recovering the element from its index and the
//! index from the element.
//!
//! A caller owns one concrete domain representation ([`IntRange`],
//! [`MapSet`] or [`Singleton`]) and works with it through the
//! [`OrderedSet`] contract: enumerate the elements in index order, or map a
//! candidate element to its index (`None` for a non-member).

mod element;
mod int_range;
mod map_set;
mod numeric;
mod ordered_set;
mod singleton;
pub mod iter;

pub use element::DomainElement;
pub use int_range::IntRange;
pub use int_range::lemma_range_membership;
pub use map_set::MapSet;
pub use map_set::lemma_registration_order;
pub use numeric::Numeric;
pub use ordered_set::DomainIter;
pub use ordered_set::OrderedSet;
pub use ordered_set::collect_all;
pub use ordered_set::lemma_bijection;
pub use ordered_set::lemma_completeness;
pub use singleton::Singleton;
pub use singleton::lemma_singleton_membership;
