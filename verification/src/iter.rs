//! The lazy sequence producers: one arithmetic, over a contiguous interval
//! of an integer-like type, and one backed by an explicit vector of
//! elements.

use vstd::prelude::*;
use crate::numeric::Numeric;
use crate::ordered_set::DomainIter;

verus! {

/// A lazy, finite, restartable producer of the successive values from a
/// cursor (inclusive) up to a bound (exclusive), in ascending order.
///
/// The iterator is a plain value of (cursor, bound); it holds no reference
/// back to the range that spawned it, so each enumeration request builds a
/// fresh, independent instance from the original bounds.
pub struct IntRangeIter<Idx> {
    cur: Idx,
    bound: Idx,
}

impl<Idx: Numeric> IntRangeIter<Idx> {
    /// A new producer of the values from `start` (inclusive) to `end`
    /// (exclusive).
    pub fn new(start: Idx, end: Idx) -> (it: Self)
        ensures
            it.remaining() == interval(start, end),
    {
        IntRangeIter { cur: start, bound: end }
    }
}

/// The values from `start` (inclusive) to `end` (exclusive), ascending;
/// empty when `start >= end`.
pub open spec fn interval<Idx: Numeric>(start: Idx, end: Idx) -> Seq<Idx> {
    if start.as_int() < end.as_int() {
        Seq::new((end.as_int() - start.as_int()) as nat, |k: int| Idx::from_int(start.as_int() + k))
    } else {
        Seq::empty()
    }
}

impl<Idx: Numeric> DomainIter for IntRangeIter<Idx> {
    type Element = Idx;

    closed spec fn remaining(&self) -> Seq<Idx> {
        interval(self.cur, self.bound)
    }

    fn next(&mut self) -> (r: Option<Idx>) {
        if self.cur.lt(self.bound) {
            let head = self.cur;
            proof {
                self.bound.lemma_in_bounds();
            }
            self.cur = self.cur.checked_incr().unwrap();
            proof {
                head.lemma_from_as();
                assert(final(self).remaining() =~= old(self).remaining().drop_first()) by {
                    assert forall|k: int| 0 <= k < final(self).remaining().len() implies
                        final(self).remaining()[k] == old(self).remaining().drop_first()[k] by {
                        assert(old(self).remaining().drop_first()[k] == old(self).remaining()[k + 1]);
                    }
                }
            }
            Some(head)
        } else {
            None
        }
    }
}

/// A lazy producer of the elements of a vector, first to last. Backs the
/// enumeration of the explicit-set and single-element domains.
pub struct ElemIter<E> {
    items: Vec<E>,
}

impl<E> ElemIter<E> {
    /// A new producer of the elements of `items`, in order.
    pub fn new(items: Vec<E>) -> (it: Self)
        ensures
            it.remaining() == items@,
    {
        ElemIter { items }
    }
}

impl<E> DomainIter for ElemIter<E> {
    type Element = E;

    closed spec fn remaining(&self) -> Seq<E> {
        self.items@
    }

    fn next(&mut self) -> (r: Option<E>) {
        if self.items.len() > 0 {
            let head = self.items.remove(0);
            proof {
                assert(final(self).remaining() =~= old(self).remaining().drop_first());
            }
            Some(head)
        } else {
            None
        }
    }
}

} // verus!
