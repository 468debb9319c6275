//! The bijection contract every domain representation satisfies, and the
//! contract of the lazy iterators that enumerate a domain.

use vstd::prelude::*;

verus! {

/// A lazy, finite sequence producer over domain elements.
///
/// `remaining()` models the elements not yet produced, in order; `next`
/// yields the head and drops it, and reports exhaustion with `None`, which
/// may be queried repeatedly with no ill effect.
pub trait DomainIter: Sized {
    type Element;

    /// The elements not yet produced, earliest first.
    spec fn remaining(&self) -> Seq<Self::Element>;

    /// Produce the next element, or `None` once the sequence is exhausted.
    fn next(&mut self) -> (r: Option<Self::Element>)
        ensures
            match r {
                Some(e) => {
                    &&& old(self).remaining().len() > 0
                    &&& e == old(self).remaining()[0]
                    &&& final(self).remaining() == old(self).remaining().drop_first()
                },
                None => {
                    &&& old(self).remaining().len() == 0
                    &&& final(self).remaining() == old(self).remaining()
                },
            },
    ;
}

/// The bijection contract: a finite domain whose elements carry unique,
/// dense indices in `[0, len)`.
///
/// The domain is modelled by `elements()`, the sequence of its members in
/// ascending index order; `index_of_spec` is the membership query that the
/// executable `index_of` realizes. [`lemma_elements_distinct`] and
/// [`lemma_index_of_spec`] oblige every implementation to keep the two
/// mutually consistent, which makes element-to-index a bijection (see
/// [`lemma_bijection`]).
pub trait OrderedSet: Sized {
    type Element;

    type Iter: DomainIter<Element = Self::Element>;

    /// Well-formedness: constructors establish it, queries require it.
    spec fn wf(&self) -> bool;

    /// The domain in ascending index order.
    spec fn elements(&self) -> Seq<Self::Element>;

    /// The index of a member, `None` for a non-member.
    spec fn index_of_spec(&self, e: Self::Element) -> Option<usize>;

    /// No element occurs at two indices.
    proof fn lemma_elements_distinct(&self)
        requires
            self.wf(),
        ensures
            forall|i: int, j: int|
                0 <= i < j < self.elements().len() ==> self.elements()[i] != self.elements()[j],
    ;

    /// `index_of_spec` agrees with `elements()`: it answers a member's index
    /// and rejects exactly the non-members.
    proof fn lemma_index_of_spec(&self, e: Self::Element)
        requires
            self.wf(),
        ensures
            match self.index_of_spec(e) {
                Some(i) => i < self.elements().len() && self.elements()[i as int] == e,
                None => !self.elements().contains(e),
            },
    ;

    /// A fresh, independent iterator over the whole domain in index order.
    fn iter(&self) -> (it: Self::Iter)
        requires
            self.wf(),
        ensures
            it.remaining() == self.elements(),
    ;

    /// The index of `e`, or `None` if the domain does not contain it.
    fn index_of(&self, e: Self::Element) -> (r: Option<usize>)
        requires
            self.wf(),
        ensures
            r == self.index_of_spec(e),
    ;

    /// The cardinality of the domain.
    fn len(&self) -> (n: usize)
        requires
            self.wf(),
        ensures
            n == self.elements().len(),
    ;

    /// Membership test.
    fn contains(&self, e: Self::Element) -> (r: bool)
        requires
            self.wf(),
        ensures
            r <==> self.index_of_spec(e) is Some,
    ;
}

/// Bijection law: the element standing at index `i` is mapped back to `i`,
/// for every index `i` of the domain.
pub proof fn lemma_bijection<S: OrderedSet>(s: &S, i: int)
    requires
        s.wf(),
        0 <= i < s.elements().len(),
    ensures
        s.index_of_spec(s.elements()[i]) == Some(i as usize),
{
    s.lemma_index_of_spec(s.elements()[i]);
    s.lemma_elements_distinct();
    match s.index_of_spec(s.elements()[i]) {
        Some(j) => {
            assert(s.elements()[j as int] == s.elements()[i]);
            assert(j == i);
        },
        None => {
            assert(s.elements().contains(s.elements()[i]));
        },
    }
}

/// Completeness law: an enumeration of the domain — any iterator in the
/// state `iter()` hands it out — yields exactly `len` elements, and no
/// element twice.
pub proof fn lemma_completeness<S: OrderedSet>(s: &S, it: &S::Iter)
    requires
        s.wf(),
        it.remaining() == s.elements(),
    ensures
        it.remaining().len() == s.elements().len(),
        forall|i: int, j: int|
            0 <= i < j < it.remaining().len() ==> it.remaining()[i] != it.remaining()[j],
{
    s.lemma_elements_distinct();
}

/// Drain an iterator into a vector: the vector holds exactly the elements
/// the iterator had left, in order.
pub fn collect_all<I: DomainIter>(it: I) -> (v: Vec<I::Element>)
    ensures
        v@ == it.remaining(),
{
    let mut cur = it;
    let mut v: Vec<I::Element> = Vec::new();
    loop
        invariant
            v@ + cur.remaining() == it.remaining(),
        decreases cur.remaining().len(),
    {
        match cur.next() {
            Some(e) => {
                v.push(e);
            },
            None => {
                assert(v@ =~= it.remaining());
                return v;
            },
        }
        assert(v@ + cur.remaining() =~= it.remaining());
    }
}

} // verus!
