//! One-dimensional half-open integer intervals.
//!
//! An interval `[l, r)` is empty exactly when `r <= l`. Intersection is the
//! usual set operation; it is commutative and idempotent.

use vstd::prelude::*;

verus! {

/// A half-open interval `[left, right)` of `i32` values.
#[derive(Debug, PartialEq, Eq, Structural, Copy, Clone)]
pub struct Interval {
    pub l: i32,
    pub r: i32,
}

/// The larger of two `i32` values.
pub open spec fn max_i32(a: i32, b: i32) -> i32 {
    if a >= b {
        a
    } else {
        b
    }
}

/// The smaller of two `i32` values.
pub open spec fn min_i32(a: i32, b: i32) -> i32 {
    if a <= b {
        a
    } else {
        b
    }
}

impl Interval {
    /// True when the interval holds no integer.
    pub open spec fn spec_is_empty(self) -> bool {
        self.r <= self.l
    }

    /// True when `p` lies inside the interval.
    pub open spec fn spec_contains(self, p: int) -> bool {
        self.l <= p < self.r
    }

    /// True when every point of `self` lies in `other`.
    pub open spec fn spec_subset_of(self, other: Interval) -> bool {
        forall|p: int| self.spec_contains(p) ==> other.spec_contains(p)
    }

    /// Intervals that hold no integer are represented as `[0, 0)`; this is
    /// the shape `intersect` always returns.
    pub open spec fn spec_normalized(self) -> bool {
        self.spec_is_empty() ==> self.l == 0 && self.r == 0
    }

    /// The intersection, with an empty result normalized to `[0, 0)`.
    pub open spec fn spec_intersect(a: Interval, b: Interval) -> Interval {
        let l = max_i32(a.l, b.l);
        let r = min_i32(a.r, b.r);
        if r <= l {
            Interval { l: 0, r: 0 }
        } else {
            Interval { l, r }
        }
    }

    pub fn left(&self) -> (r: i32)
        ensures
            r == self.l,
    {
        self.l
    }

    pub fn right(&self) -> (res: i32)
        ensures
            res == self.r,
    {
        self.r
    }

    /// An interval holding no integer.
    pub fn empty() -> (r: Interval)
        ensures
            r.spec_is_empty(),
            r.l == 0 && r.r == 0,
    {
        Interval { l: 0, r: 0 }
    }

    pub fn new(l: i32, r: i32) -> (res: Interval)
        requires
            l <= r,
        ensures
            res.l == l,
            res.r == r,
            forall|p: int| res.spec_contains(p) <==> l <= p < r,
    {
        Interval { l, r }
    }

    pub fn is_empty(&self) -> (res: bool)
        ensures
            res == self.spec_is_empty(),
    {
        self.r <= self.l
    }

    pub fn contains(&self, point: i32) -> (res: bool)
        ensures
            res == self.spec_contains(point as int),
    {
        point >= self.l && point < self.r
    }

    pub fn intersect(&self, other: &Interval) -> (res: Interval)
        ensures
            res == Self::spec_intersect(*self, *other),
            forall|p: int| res.spec_contains(p) <==> self.spec_contains(p) && other.spec_contains(p),
            res.spec_normalized(),
            res.spec_subset_of(*self),
            res.spec_subset_of(*other),
    {
        let l = if self.l >= other.l {
            self.l
        } else {
            other.l
        };
        let r = if self.r <= other.r {
            self.r
        } else {
            other.r
        };
        if r <= l {
            Interval { l: 0, r: 0 }
        } else {
            Interval { l, r }
        }
    }
}

/// Law: intersection is commutative; both orders give the same interval.
pub proof fn lemma_intersect_commutative(a: Interval, b: Interval)
    ensures
        Interval::spec_intersect(a, b) == Interval::spec_intersect(b, a),
{
}

/// Law: intersecting a normalized interval with itself gives it back.
pub proof fn lemma_intersect_idempotent(a: Interval)
    requires
        a.spec_normalized(),
    ensures
        Interval::spec_intersect(a, a) == a,
{
}

/// Law: the subset relation between intervals is transitive, so a chain of
/// intersections only ever shrinks an interval.
pub proof fn lemma_subset_transitive(a: Interval, b: Interval, c: Interval)
    requires
        a.spec_subset_of(b),
        b.spec_subset_of(c),
    ensures
        a.spec_subset_of(c),
{
}

/// An interval inside an empty one is itself empty.
pub proof fn lemma_subset_of_empty(a: Interval, b: Interval)
    requires
        a.spec_subset_of(b),
        b.spec_is_empty(),
    ensures
        a.spec_is_empty(),
{
    if !a.spec_is_empty() {
        assert(a.spec_contains(a.l as int));
    }
}

} // verus!
