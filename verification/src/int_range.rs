//! The set of integers between `0` and `len - 1`, without materializing any
//! storage: index computation is arithmetic.

use vstd::prelude::*;
use crate::iter::IntRangeIter;
use crate::iter::interval;
use crate::numeric::Numeric;
use crate::ordered_set::OrderedSet;

verus! {

/// The domain `{0, ..., len-1}` over an integer-like type `Idx`.
///
/// Immutable after construction. A value `x` is a member exactly when
/// `0 <= x < len`, and its index is `x` itself, narrowed to a machine-sized
/// index; `index_of` is a pure comparison plus that narrowing conversion.
#[derive(Clone, Debug, Eq, Hash, PartialEq)]
pub struct IntRange<Idx> {
    len: Idx,
}

impl<Idx: Numeric> IntRange<Idx> {
    /// Creates a new range on `{0, ..., len-1}`.
    ///
    /// The length must be representable as a non-negative machine-sized
    /// index; a length that is not is a construction-time programming error
    /// and is ruled out by the precondition.
    pub fn new(len: Idx) -> (r: Self)
        requires
            0 <= len.as_int() <= usize::MAX,
        ensures
            r.wf(),
            r.elements() == Seq::new(len.as_int() as nat, |k: int| Idx::from_int(k)),
    {
        let r = IntRange { len };
        proof {
            assert(r.elements() =~= Seq::new(len.as_int() as nat, |k: int| Idx::from_int(k)));
        }
        r
    }
}

impl<Idx: Numeric> OrderedSet for IntRange<Idx> {
    type Element = Idx;

    type Iter = IntRangeIter<Idx>;

    closed spec fn wf(&self) -> bool {
        0 <= self.len.as_int() <= usize::MAX
    }

    closed spec fn elements(&self) -> Seq<Idx> {
        Seq::new(self.len.as_int() as nat, |k: int| Idx::from_int(k))
    }

    closed spec fn index_of_spec(&self, e: Idx) -> Option<usize> {
        if 0 <= e.as_int() < self.len.as_int() {
            Some(e.as_int() as usize)
        } else {
            None
        }
    }

    proof fn lemma_elements_distinct(&self) {
        assert forall|i: int, j: int|
            0 <= i < j < self.elements().len() implies self.elements()[i] != self.elements()[j] by {
            self.len.lemma_in_bounds();
            Idx::lemma_zero_representable();
            Idx::lemma_as_from(i);
            Idx::lemma_as_from(j);
        }
    }

    proof fn lemma_index_of_spec(&self, e: Idx) {
        self.len.lemma_in_bounds();
        Idx::lemma_zero_representable();
        match self.index_of_spec(e) {
            Some(i) => {
                Idx::lemma_as_from(e.as_int());
                e.lemma_from_as();
            },
            None => {
                assert forall|k: int| 0 <= k < self.elements().len() implies
                    self.elements()[k] != e by {
                    Idx::lemma_as_from(k);
                }
                if self.elements().contains(e) {
                    let k = choose|k: int| 0 <= k < self.elements().len() && self.elements()[k] == e;
                    assert(false);
                }
            },
        }
    }

    /// Returns an iterator that enumerates the domain elements in the
    /// ascending order of numbering. `O(1)` to construct; each call yields a
    /// fresh, independent iterator that starts again from zero.
    fn iter(&self) -> (it: IntRangeIter<Idx>) {
        let z = Idx::zero();
        let it = IntRangeIter::new(z, self.len);
        proof {
            assert(interval(z, self.len) =~= self.elements());
        }
        it
    }

    /// Returns the index of the specified element, or `None` if the domain
    /// does not contain it. `O(1)`: two comparisons and a narrowing
    /// conversion.
    fn index_of(&self, e: Idx) -> (r: Option<usize>) {
        let z = Idx::zero();
        if z.le(e) && e.lt(self.len) {
            let i = e.to_index().unwrap();
            Some(i)
        } else {
            None
        }
    }

    /// The cardinality `len`, read off directly. `O(1)`.
    fn len(&self) -> (n: usize) {
        self.len.to_index().unwrap()
    }

    /// Membership test: derived from `index_of`. `O(1)`.
    fn contains(&self, e: Idx) -> (r: bool) {
        self.index_of(e).is_some()
    }
}

/// Range membership law: a value `x` is a member of `{0, ..., len-1}` with
/// index `x` exactly when `0 <= x < len`; any other value, a negative one
/// included, is rejected.
pub proof fn lemma_range_membership<Idx: Numeric>(r: &IntRange<Idx>, x: Idx)
    requires
        r.wf(),
    ensures
        0 <= x.as_int() < r.elements().len() ==> r.index_of_spec(x) == Some(x.as_int() as usize),
        !(0 <= x.as_int() < r.elements().len()) ==> r.index_of_spec(x) is None,
{
}

} // verus!
