//! The domain containing exactly one element, trivially indexed at `0`.

use vstd::prelude::*;
use crate::element::DomainElement;
use crate::iter::ElemIter;
use crate::ordered_set::DomainIter;
use crate::ordered_set::OrderedSet;

verus! {

/// The domain `{e}`: one element, whose index is `0`. Immutable after
/// construction.
#[derive(Clone, Debug, Eq, Hash, PartialEq)]
pub struct Singleton<E> {
    elem: E,
}

impl<E: DomainElement> Singleton<E> {
    /// Wraps exactly one element.
    pub fn new(e: E) -> (r: Self)
        ensures
            r.wf(),
            r.elements() == seq![e],
    {
        let r = Singleton { elem: e };
        proof {
            assert(r.elements() =~= seq![e]);
        }
        r
    }
}

impl<E: DomainElement> OrderedSet for Singleton<E> {
    type Element = E;

    type Iter = ElemIter<E>;

    closed spec fn wf(&self) -> bool {
        true
    }

    closed spec fn elements(&self) -> Seq<E> {
        seq![self.elem]
    }

    closed spec fn index_of_spec(&self, e: E) -> Option<usize> {
        if e == self.elem {
            Some(0usize)
        } else {
            None
        }
    }

    proof fn lemma_elements_distinct(&self) {
    }

    proof fn lemma_index_of_spec(&self, e: E) {
        if e != self.elem && self.elements().contains(e) {
            let k = choose|k: int| 0 <= k < self.elements().len() && self.elements()[k] == e;
            assert(false);
        }
    }

    /// A one-element lazy sequence. Each call yields a fresh, independent
    /// iterator.
    fn iter(&self) -> (it: ElemIter<E>) {
        let mut items: Vec<E> = Vec::new();
        items.push(self.elem);
        let it = ElemIter::new(items);
        proof {
            assert(it.remaining() =~= self.elements());
        }
        it
    }

    /// `Some(0)` if `e` equals the wrapped element, else `None`. `O(1)`.
    fn index_of(&self, e: E) -> (r: Option<usize>) {
        if e.eq_elem(&self.elem) {
            Some(0)
        } else {
            None
        }
    }

    /// Always `1`. `O(1)`.
    fn len(&self) -> (n: usize) {
        1
    }

    /// Membership test: derived from `index_of`. `O(1)`.
    fn contains(&self, e: E) -> (r: bool) {
        self.index_of(e).is_some()
    }
}

/// Singleton membership law: a domain wrapping `v` has exactly one element;
/// `v` has index `0`, and any `w != v` is not a member.
pub proof fn lemma_singleton_membership<E: DomainElement>(s: &Singleton<E>, v: E, w: E)
    requires
        s.wf(),
        s.elements() == seq![v],
        w != v,
    ensures
        s.elements().len() == 1,
        s.index_of_spec(v) == Some(0usize),
        s.index_of_spec(w) is None,
{
    assert(s.elements()[0] == v);
}

} // verus!
