//! Per-column screen coverage.
//!
//! For every screen column the structure keeps the half-open interval of
//! rows that are still unpainted, together with a counter of columns whose
//! interval has become empty. The frame is full exactly when the counter
//! reaches the width; renderers use that as their termination oracle.

use crate::interval::Interval;
use vstd::prelude::*;

verus! {

/// Number of empty intervals among the first `n` entries of `s`.
pub open spec fn count_empty(s: Seq<Interval>, n: int) -> int
    decreases n,
{
    if n <= 0 {
        0
    } else {
        count_empty(s, n - 1) + if s[n - 1].spec_is_empty() {
            1int
        } else {
            0int
        }
    }
}

/// Updating an entry below `n` changes the count by the difference of the
/// two entries' emptiness.
proof fn lemma_count_empty_update(s: Seq<Interval>, i: int, v: Interval, n: int)
    requires
        0 <= i < s.len(),
        i < n <= s.len(),
    ensures
        count_empty(s.update(i, v), n) == count_empty(s, n) + (if v.spec_is_empty() {
            1int
        } else {
            0int
        }) - (if s[i].spec_is_empty() {
            1int
        } else {
            0int
        }),
    decreases n,
{
    let t = s.update(i, v);
    if n - 1 > i {
        lemma_count_empty_update(s, i, v, n - 1);
        assert(t[n - 1] == s[n - 1]);
    } else {
        assert(n - 1 == i);
        assert(t[i] == v);
        lemma_count_empty_prefix_eq(s, t, n - 1);
    }
}

/// Two sequences that agree on the first `n` entries have the same count.
proof fn lemma_count_empty_prefix_eq(s: Seq<Interval>, t: Seq<Interval>, n: int)
    requires
        n <= s.len(),
        n <= t.len(),
        forall|j: int| 0 <= j < n ==> s[j] == t[j],
    ensures
        count_empty(s, n) == count_empty(t, n),
    decreases n,
{
    if n > 0 {
        lemma_count_empty_prefix_eq(s, t, n - 1);
    }
}

/// The count never exceeds `n`, and it reaches `n` exactly when every one
/// of the first `n` entries is empty.
proof fn lemma_count_empty_bounds(s: Seq<Interval>, n: int)
    requires
        0 <= n <= s.len(),
    ensures
        0 <= count_empty(s, n) <= n,
        count_empty(s, n) == n <==> (forall|j: int| 0 <= j < n ==> s[j].spec_is_empty()),
    decreases n,
{
    if n > 0 {
        lemma_count_empty_bounds(s, n - 1);
    }
}

/// Tracks, for each screen column, the rows still left to paint.
#[derive(Debug)]
pub struct Coverage {
    pub width: usize,
    pub height: usize,
    pub columns: Vec<Interval>,
    pub empty: usize,
}

impl Coverage {
    /// Internal consistency: one interval per column, every interval kept
    /// inside `[0, height)`, and `empty` counting the empty columns.
    pub open spec fn wf(self) -> bool {
        &&& self.columns.len() == self.width
        &&& 1 <= self.height <= i32::MAX
        &&& self.empty == count_empty(self.columns@, self.width as int)
        &&& forall|j: int|
            0 <= j < self.width ==> 0 <= (#[trigger] self.columns@[j]).l && self.columns@[j].r
                <= self.height
    }

    pub fn new(width: usize, height: usize) -> (res: Coverage)
        requires
            1 <= height <= i32::MAX,
        ensures
            res.wf(),
            res.width == width,
            res.height == height,
            res.empty == 0,
            forall|j: int|
                0 <= j < width ==> (#[trigger] res.columns@[j]).l == 0 && res.columns@[j].r
                    == height,
    {
        let mut columns: Vec<Interval> = Vec::new();
        let mut i: usize = 0;
        while i < width
            invariant
                i <= width,
                height <= i32::MAX,
                columns.len() == i,
                forall|j: int|
                    0 <= j < i ==> (#[trigger] columns@[j]).l == 0 && columns@[j].r == height,
            decreases width - i,
        {
            columns.push(Interval::new(0, height as i32));
            i += 1;
        }
        proof {
            lemma_count_all_nonempty(columns@, width as int, height as int);
        }
        Coverage { width, height, columns, empty: 0 }
    }

    /// Replace column `column` with its intersection against `span`; keep
    /// the empty-column counter in step. A column that is already empty is
    /// left untouched. Returns the column's new interval.
    pub fn intersect(&mut self, column: usize, span: &Interval) -> (res: Interval)
        requires
            old(self).wf(),
            column < old(self).width,
        ensures
            final(self).wf(),
            final(self).width == old(self).width,
            final(self).height == old(self).height,
            old(self).columns@[column as int].spec_is_empty() ==> *final(self) == *old(self)
                && res.spec_is_empty() && res.l == 0 && res.r == 0,
            !old(self).columns@[column as int].spec_is_empty() ==> {
                &&& res == Interval::spec_intersect(old(self).columns@[column as int], *span)
                &&& final(self).columns@ == old(self).columns@.update(column as int, res)
            },
            final(self).columns@[column as int].spec_subset_of(old(self).columns@[column as int]),
            final(self).columns@[column as int].spec_subset_of(*span) || old(
                self,
            ).columns@[column as int].spec_is_empty(),
            forall|j: int|
                0 <= j < final(self).width && j != column ==> final(self).columns@[j] == old(
                    self,
                ).columns@[j],
            forall|j: int|
                0 <= j < final(self).width ==> (#[trigger] final(self).columns@[j]).spec_subset_of(
                    old(self).columns@[j],
                ),
    {
        let cur = self.columns[column];
        if cur.is_empty() {
            return Interval::empty();
        }
        let next = cur.intersect(span);
        proof {
            lemma_count_empty_update(
                self.columns@,
                column as int,
                Interval::spec_intersect(cur, *span),
                self.width as int,
            );
            lemma_count_empty_bounds(self.columns@, self.width as int);
        }
        self.columns.set(column, next);
        if next.is_empty() {
            self.empty += 1;
        }
        next
    }

    /// Read-only view of the remaining interval at column `idx`.
    pub fn column(&self, idx: usize) -> (res: &Interval)
        requires
            self.wf(),
            idx < self.width,
        ensures
            *res == self.columns@[idx as int],
    {
        &self.columns[idx]
    }

    /// True exactly when every column has become empty: there is nothing
    /// left to paint anywhere on the frame.
    pub fn is_full(&self) -> (res: bool)
        requires
            self.wf(),
        ensures
            res <==> self.empty == self.width,
            res <==> (forall|j: int|
                0 <= j < self.width ==> (#[trigger] self.columns@[j]).spec_is_empty()),
    {
        proof {
            lemma_count_empty_bounds(self.columns@, self.width as int);
        }
        self.empty == self.width
    }

    /// Reset every column to the whole `[0, height)` span and clear the
    /// empty-column counter.
    pub fn clear(&mut self)
        requires
            old(self).wf(),
        ensures
            final(self).wf(),
            final(self).width == old(self).width,
            final(self).height == old(self).height,
            final(self).empty == 0,
            forall|j: int|
                0 <= j < final(self).width ==> (#[trigger] final(self).columns@[j]).l == 0
                    && final(self).columns@[j].r == final(self).height,
    {
        let h: i32 = self.height as i32;
        let mut i: usize = 0;
        while i < self.width
            invariant
                i <= self.width,
                self.columns.len() == self.width,
                self.width == old(self).width,
                self.height == old(self).height,
                self.empty == old(self).empty,
                h == self.height,
                1 <= self.height <= i32::MAX,
                forall|j: int|
                    0 <= j < i ==> (#[trigger] self.columns@[j]).l == 0 && self.columns@[j].r
                        == self.height,
            decreases self.width - i,
        {
            let v = Interval::new(0, h);
            self.columns.set(i, v);
            i += 1;
        }
        proof {
            lemma_count_all_nonempty(self.columns@, self.width as int, self.height as int);
        }
        self.empty = 0;
    }
}

/// A sequence of full-height columns holds no empty interval.
proof fn lemma_count_all_nonempty(s: Seq<Interval>, n: int, height: int)
    requires
        0 <= n <= s.len(),
        height >= 1,
        forall|j: int| 0 <= j < n ==> (#[trigger] s[j]).l == 0 && s[j].r == height,
    ensures
        count_empty(s, n) == 0,
    decreases n,
{
    if n > 0 {
        lemma_count_all_nonempty(s, n - 1, height);
    }
}

/// Law: once every column's interval is empty, the coverage reports a full
/// frame; intersecting every column with the empty interval gets it there.
pub proof fn lemma_full_after_all_empty(cov: Coverage)
    requires
        cov.wf(),
        forall|j: int| 0 <= j < cov.width ==> (#[trigger] cov.columns@[j]).spec_is_empty(),
    ensures
        cov.empty == cov.width,
{
    lemma_count_empty_bounds(cov.columns@, cov.width as int);
}

} // verus!
