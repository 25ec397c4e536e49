//! Per-axis inclusive range constraints, applied as clamps.

use vstd::prelude::*;

verus! {

/// An inclusive scalar bound `[min, max]`.
///
/// `min > max` has no meaningful clamp semantics, so construction requires
/// `min <= max`.
#[derive(Clone, Copy, Debug, PartialEq, Eq, Structural)]
pub struct Range {
    pub min: i64,
    pub max: i64,
}

/// The value obtained by clamping `v` into `[lo, hi]`.
pub open spec fn clamp_val(v: i64, lo: i64, hi: i64) -> i64 {
    if v < lo {
        lo
    } else if v > hi {
        hi
    } else {
        v
    }
}

impl Range {
    /// A range is well formed when its bounds are ordered.
    pub open spec fn wf(self) -> bool {
        self.min <= self.max
    }

    pub fn new(min: i64, max: i64) -> (r: Range)
        requires
            min <= max,
        ensures
            r == (Range { min, max }),
    {
        Range { min, max }
    }

    pub fn min(&self) -> (r: i64)
        ensures
            r == self.min,
    {
        self.min
    }

    pub fn max(&self) -> (r: i64)
        ensures
            r == self.max,
    {
        self.max
    }

    /// Clamp `value` into `[self.min, self.max]` in place.
    pub fn clamp(&self, value: &mut i64)
        ensures
            *final(value) == clamp_val(*old(value), self.min, self.max),
    {
        if *value < self.min {
            *value = self.min;
        } else if *value > self.max {
            *value = self.max;
        }
    }
}

/// Law: for ordered bounds, the clamped value always lies in `[lo, hi]`;
/// a value already inside the bounds is left unchanged; and clamping twice
/// yields the same value as clamping once.
pub proof fn lemma_clamp_properties(v: i64, lo: i64, hi: i64)
    requires
        lo <= hi,
    ensures
        lo <= clamp_val(v, lo, hi) <= hi,
        lo <= v <= hi ==> clamp_val(v, lo, hi) == v,
        clamp_val(clamp_val(v, lo, hi), lo, hi) == clamp_val(v, lo, hi),
{
}

/// Independent optional ranges, one per axis; an axis with `None` is
/// unconstrained.
#[derive(Clone, Debug)]
pub struct Constraint {
    pub ranges: Vec<Option<Range>>,
}

/// The value of one axis after applying its optional range.
pub open spec fn apply_axis(o: Option<Range>, v: i64) -> i64 {
    match o {
        Some(r) => clamp_val(v, r.min, r.max),
        None => v,
    }
}

/// The vector obtained by clamping each axis of `v` with its range.
pub open spec fn constrain_seq(ranges: Seq<Option<Range>>, v: Seq<i64>) -> Seq<i64> {
    Seq::new(v.len(), |i: int| apply_axis(ranges[i], v[i]))
}

/// Every present range has ordered bounds.
pub open spec fn ranges_wf(ranges: Seq<Option<Range>>) -> bool {
    forall|i: int| 0 <= i < ranges.len() ==> ((#[trigger] ranges[i]) matches Some(r) ==> r.wf())
}

impl Constraint {
    /// Every present range has ordered bounds.
    pub open spec fn wf(self) -> bool {
        ranges_wf(self.ranges@)
    }

    /// The number of axes this constraint covers.
    pub open spec fn dim(self) -> nat {
        self.ranges@.len()
    }

    pub fn new(ranges: Vec<Option<Range>>) -> (c: Constraint)
        ensures
            c.ranges == ranges,
    {
        Constraint { ranges }
    }

    /// Clamp each axis of `vec` that has a range; unconstrained axes pass
    /// through unchanged.
    pub fn constrain(&self, vec: &mut Vec<i64>)
        requires
            old(vec)@.len() == self.dim(),
        ensures
            final(vec)@ == constrain_seq(self.ranges@, old(vec)@),
    {
        let n = vec.len();
        for i in 0..n
            invariant
                vec@.len() == n,
                n == self.ranges@.len(),
                forall|k: int| 0 <= k < i ==> vec@[k] == apply_axis(self.ranges@[k], old(vec)@[k]),
                forall|k: int| i <= k < n ==> vec@[k] == old(vec)@[k],
        {
            match self.ranges[i] {
                Some(range) => {
                    let mut x = vec[i];
                    range.clamp(&mut x);
                    vec.set(i, x);
                },
                None => {},
            }
        }
        assert(vec@ =~= constrain_seq(self.ranges@, old(vec)@));
    }
}

/// Law: applying a well-formed constraint twice yields the same vector as
/// applying it once.
pub proof fn lemma_constrain_seq_idempotent(ranges: Seq<Option<Range>>, v: Seq<i64>)
    requires
        ranges_wf(ranges),
        v.len() == ranges.len(),
    ensures
        constrain_seq(ranges, constrain_seq(ranges, v)) == constrain_seq(ranges, v),
{
    let once = constrain_seq(ranges, v);
    let twice = constrain_seq(ranges, once);
    assert forall|i: int| 0 <= i < v.len() implies twice[i] == once[i] by {
        match ranges[i] {
            Some(r) => {
                lemma_clamp_properties(v[i], r.min, r.max);
            },
            None => {},
        }
    }
    assert(twice =~= once);
}

} // verus!
