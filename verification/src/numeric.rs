//! The minimal numeric capability that an index type must offer: a zero
//! value, ordered comparison, an overflow-checked successor, and a narrowing
//! conversion to a machine-sized index.

use vstd::prelude::*;

verus! {

/// An integer-like type usable as the index type of a contiguous range.
///
/// The mathematical value of a `Numeric` is given by [`Numeric::as_int`];
/// every executable operation is specified against it. A type's values must
/// occupy a contiguous interval `[min_val(), max_val()]`, and `as_int` must
/// be injective on that interval (witnessed by [`Numeric::from_int`] and the
/// two round-trip lemmas).
pub trait Numeric: Sized + Copy {
    /// The mathematical value of this number.
    spec fn as_int(self) -> int;

    /// The value standing for mathematical `v`.
    spec fn from_int(v: int) -> Self;

    /// The smallest mathematical value the type can hold.
    spec fn min_val() -> int;

    /// The largest mathematical value the type can hold.
    spec fn max_val() -> int;

    /// Every value of the type lies between `min_val()` and `max_val()`.
    proof fn lemma_in_bounds(self)
        ensures
            Self::min_val() <= self.as_int() <= Self::max_val(),
    ;

    /// Zero is representable, so the representable interval covers every
    /// index `0 <= i < v` of any representable non-negative `v`.
    proof fn lemma_zero_representable()
        ensures
            Self::min_val() <= 0 <= Self::max_val(),
    ;

    /// `from_int` inverts `as_int`.
    proof fn lemma_from_as(self)
        ensures
            Self::from_int(self.as_int()) == self,
    ;

    /// `as_int` inverts `from_int` on the representable interval.
    proof fn lemma_as_from(v: int)
        requires
            Self::min_val() <= v <= Self::max_val(),
        ensures
            Self::from_int(v).as_int() == v,
    ;

    /// The value zero.
    fn zero() -> (r: Self)
        ensures
            r.as_int() == 0,
    ;

    /// Ordered comparison: strictly below.
    fn lt(self, other: Self) -> (r: bool)
        ensures
            r <==> self.as_int() < other.as_int(),
    ;

    /// Ordered comparison: below or equal.
    fn le(self, other: Self) -> (r: bool)
        ensures
            r <==> self.as_int() <= other.as_int(),
    ;

    /// The successor, or `None` when it would not be representable.
    fn checked_incr(self) -> (r: Option<Self>)
        ensures
            r is Some <==> self.as_int() + 1 <= Self::max_val(),
            r is Some ==> r.unwrap().as_int() == self.as_int() + 1,
    ;

    /// Narrowing conversion to a machine-sized index, or `None` when the
    /// value is not representable as one.
    fn to_index(self) -> (r: Option<usize>)
        ensures
            r is Some <==> 0 <= self.as_int() <= usize::MAX,
            r is Some ==> r.unwrap() as int == self.as_int(),
    ;
}

impl Numeric for i32 {
    open spec fn as_int(self) -> int {
        self as int
    }

    open spec fn from_int(v: int) -> Self {
        v as i32
    }

    open spec fn min_val() -> int {
        i32::MIN as int
    }

    open spec fn max_val() -> int {
        i32::MAX as int
    }

    proof fn lemma_in_bounds(self) {
    }

    proof fn lemma_zero_representable() {
    }

    proof fn lemma_from_as(self) {
    }

    proof fn lemma_as_from(v: int) {
    }

    fn zero() -> (r: Self) {
        0
    }

    fn lt(self, other: Self) -> (r: bool) {
        self < other
    }

    fn le(self, other: Self) -> (r: bool) {
        self <= other
    }

    fn checked_incr(self) -> (r: Option<Self>) {
        if self < i32::MAX {
            Some(self + 1)
        } else {
            None
        }
    }

    fn to_index(self) -> (r: Option<usize>) {
        if self >= 0 {
            Some(self as usize)
        } else {
            None
        }
    }
}

impl Numeric for i64 {
    open spec fn as_int(self) -> int {
        self as int
    }

    open spec fn from_int(v: int) -> Self {
        v as i64
    }

    open spec fn min_val() -> int {
        i64::MIN as int
    }

    open spec fn max_val() -> int {
        i64::MAX as int
    }

    proof fn lemma_in_bounds(self) {
    }

    proof fn lemma_zero_representable() {
    }

    proof fn lemma_from_as(self) {
    }

    proof fn lemma_as_from(v: int) {
    }

    fn zero() -> (r: Self) {
        0
    }

    fn lt(self, other: Self) -> (r: bool) {
        self < other
    }

    fn le(self, other: Self) -> (r: bool) {
        self <= other
    }

    fn checked_incr(self) -> (r: Option<Self>) {
        if self < i64::MAX {
            Some(self + 1)
        } else {
            None
        }
    }

    fn to_index(self) -> (r: Option<usize>) {
        if self < 0 {
            None
        } else {
            let wide: u64 = self as u64;
            if wide <= usize::MAX as u64 {
                Some(wide as usize)
            } else {
                None
            }
        }
    }
}

impl Numeric for usize {
    open spec fn as_int(self) -> int {
        self as int
    }

    open spec fn from_int(v: int) -> Self {
        v as usize
    }

    open spec fn min_val() -> int {
        0
    }

    open spec fn max_val() -> int {
        usize::MAX as int
    }

    proof fn lemma_in_bounds(self) {
    }

    proof fn lemma_zero_representable() {
    }

    proof fn lemma_from_as(self) {
    }

    proof fn lemma_as_from(v: int) {
    }

    fn zero() -> (r: Self) {
        0
    }

    fn lt(self, other: Self) -> (r: bool) {
        self < other
    }

    fn le(self, other: Self) -> (r: bool) {
        self <= other
    }

    fn checked_incr(self) -> (r: Option<Self>) {
        if self < usize::MAX {
            Some(self + 1)
        } else {
            None
        }
    }

    fn to_index(self) -> (r: Option<usize>) {
        Some(self)
    }
}

} // verus!
