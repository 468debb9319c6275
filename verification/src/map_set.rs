//! An explicit finite set with assigned ordering: elements are registered
//! one at a time, and the order of first registration determines the index.

use vstd::prelude::*;
use crate::element::DomainElement;
use crate::iter::ElemIter;
use crate::ordered_set::DomainIter;
use crate::ordered_set::lemma_bijection;
use crate::ordered_set::OrderedSet;

verus! {

/// A domain built by registering elements: the first registration of an
/// element assigns it the next sequential index, counting up from `0`;
/// re-registering an element is a no-op that retains the original index.
///
/// Indices are therefore contiguous, starting at `0`, with no gaps or
/// duplicates, reflecting the insertion order of first-seen elements. The
/// set is built once, then queried read-only. Lookup walks the enumeration,
/// `O(len)`.
#[derive(Clone, Debug, Eq, Hash, PartialEq)]
pub struct MapSet<E> {
    elems: Vec<E>,
}

impl<E: DomainElement> MapSet<E> {
    /// Creates an empty domain.
    pub fn new() -> (r: Self)
        ensures
            r.wf(),
            r.elements() == Seq::<E>::empty(),
    {
        let r = MapSet { elems: Vec::new() };
        proof {
            assert(r.elements() =~= Seq::<E>::empty());
        }
        r
    }

    /// Registers `e` and returns its index: a first-seen element is appended
    /// and receives the next sequential index; an element already present
    /// keeps its original index and the domain is unchanged.
    pub fn register(&mut self, e: E) -> (i: usize)
        requires
            old(self).wf(),
            old(self).elements().len() < usize::MAX,
        ensures
            final(self).wf(),
            final(self).index_of_spec(e) == Some(i),
            i < final(self).elements().len() && final(self).elements()[i as int] == e,
            old(self).elements().contains(e) ==> final(self).elements() == old(self).elements(),
            !old(self).elements().contains(e) ==> {
                &&& final(self).elements() == old(self).elements().push(e)
                &&& i == old(self).elements().len()
            },
    {
        match self.index_of(e) {
            Some(i) => {
                proof {
                    self.lemma_index_of_spec(e);
                }
                i
            },
            None => {
                let i = self.elems.len();
                self.elems.push(e);
                proof {
                    assert(final(self).wf()) by {
                        assert(forall|p: int| 0 <= p < old(self).elems@.len()
                            ==> final(self).elems@[p] == old(self).elems@[p]);
                    }
                    assert(final(self).index_of_spec(e) == Some(i)) by {
                        assert(final(self).elems@[i as int] == e);
                        let w = final(self).elems@.index_of(e);
                        assert(final(self).elems@[w] == e);
                    }
                }
                i
            },
        }
    }
}

impl<E: DomainElement> OrderedSet for MapSet<E> {
    type Element = E;

    type Iter = ElemIter<E>;

    closed spec fn wf(&self) -> bool {
        &&& self.elems@.len() <= usize::MAX
        &&& forall|i: int, j: int|
            0 <= i < j < self.elems@.len() ==> self.elems@[i] != self.elems@[j]
    }

    closed spec fn elements(&self) -> Seq<E> {
        self.elems@
    }

    closed spec fn index_of_spec(&self, e: E) -> Option<usize> {
        if self.elems@.contains(e) {
            Some(self.elems@.index_of(e) as usize)
        } else {
            None
        }
    }

    proof fn lemma_elements_distinct(&self) {
    }

    proof fn lemma_index_of_spec(&self, e: E) {
        if self.elems@.contains(e) {
            let w = self.elems@.index_of(e);
            assert(0 <= w < self.elems@.len() && self.elems@[w] == e);
        }
    }

    /// Yields the elements in registration order — the ascending order of
    /// their assigned indices. Each call yields a fresh, independent
    /// iterator. `O(len)` to construct.
    fn iter(&self) -> (it: ElemIter<E>) {
        let mut items: Vec<E> = Vec::new();
        let mut k: usize = 0;
        while k < self.elems.len()
            invariant
                k <= self.elems@.len(),
                items@ == self.elems@.subrange(0, k as int),
            decreases self.elems@.len() - k,
        {
            items.push(self.elems[k]);
            k = k + 1;
            proof {
                assert(items@ =~= self.elems@.subrange(0, k as int));
            }
        }
        let it = ElemIter::new(items);
        proof {
            assert(it.remaining() =~= self.elements());
        }
        it
    }

    /// The index assigned to `e` at first registration, or `None` for an
    /// unregistered element. `O(len)`: walks the enumeration.
    fn index_of(&self, e: E) -> (r: Option<usize>) {
        let mut k: usize = 0;
        while k < self.elems.len()
            invariant
                self.wf(),
                k <= self.elems@.len(),
                forall|j: int| 0 <= j < k ==> self.elems@[j] != e,
            decreases self.elems@.len() - k,
        {
            if self.elems[k].eq_elem(&e) {
                proof {
                    let w = self.elems@.index_of(e);
                    assert(self.elems@[w] == e);
                    assert(w == k);
                }
                return Some(k);
            }
            k = k + 1;
        }
        proof {
            if self.elems@.contains(e) {
                let w = choose|w: int| 0 <= w < self.elems@.len() && self.elems@[w] == e;
                assert(false);
            }
        }
        None
    }

    /// The count of distinct registered elements. `O(1)`.
    fn len(&self) -> (n: usize) {
        self.elems.len()
    }

    /// Membership test: derived from `index_of`. `O(len)`.
    fn contains(&self, e: E) -> (r: bool) {
        self.index_of(e).is_some()
    }
}

/// Registration-order law: in a domain whose elements were registered in the
/// order `a, b, c`, the indices are `0, 1, 2`, and an enumeration yields the
/// elements in exactly that order.
pub proof fn lemma_registration_order<E: DomainElement>(s: &MapSet<E>, a: E, b: E, c: E)
    requires
        s.wf(),
        s.elements() == seq![a, b, c],
    ensures
        s.index_of_spec(a) == Some(0usize),
        s.index_of_spec(b) == Some(1usize),
        s.index_of_spec(c) == Some(2usize),
{
    assert(s.elements()[0] == a && s.elements()[1] == b && s.elements()[2] == c);
    lemma_bijection(s, 0);
    lemma_bijection(s, 1);
    lemma_bijection(s, 2);
}

} // verus!
