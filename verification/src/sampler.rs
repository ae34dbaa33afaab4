//! The shrinking-window range sampler.
//!
//! Given an extent `n`, the sampler emits a deterministic sequence of ranges
//! that starts at `(0, n)` and narrows from both sides by `max(n / 200, 1)`
//! units per step, so that edits driven by it visit the whole extent instead
//! of clustering at one position. The window converges to an empty range
//! after roughly two hundred steps regardless of the extent.

use vstd::prelude::*;

verus! {

/// A shrinking window over `[0, n)`, emitting one `(start, end)` pair per
/// step until the window is empty.
pub struct PercentRanges {
    start: usize,
    end: usize,
    half_percent: usize,
}

impl PercentRanges {
    /// The sampler's invariant: the window is ordered, the step is positive,
    /// and a nonempty window is at least one step wide on the right.
    pub closed spec fn wf(self) -> bool {
        &&& self.start <= self.end
        &&& self.half_percent >= 1
        &&& self.start < self.end ==> self.half_percent <= self.end
    }

    /// Left edge of the current window.
    pub closed spec fn spec_start(self) -> usize {
        self.start
    }

    /// Right edge of the current window.
    pub closed spec fn spec_end(self) -> usize {
        self.end
    }

    /// Per-step shrink amount.
    pub closed spec fn step(self) -> usize {
        self.half_percent
    }

    /// The sampler is out of ranges.
    pub closed spec fn exhausted(self) -> bool {
        self.start == self.end
    }

    /// Upper bound on how many more ranges the sampler can emit: the window
    /// width divided by twice the step, rounded up.
    pub closed spec fn steps_left(self) -> int {
        (self.end - self.start + 2 * self.half_percent - 1) / (2 * self.half_percent)
    }

    /// A fresh sampler over `[0, max)`, stepping by `max / 200` (about half a
    /// percent of the extent), clamped to at least 1.
    pub fn new(max: usize) -> (r: Self)
        ensures
            r.wf(),
            r.spec_start() == 0,
            r.spec_end() == max,
            r.step() == if max / 200 >= 1 {
                max / 200
            } else {
                1usize
            },
            r.exhausted() <==> max == 0,
    {
        let step = max / 200;
        Self { start: 0, end: max, half_percent: if step >= 1 {
            step
        } else {
            1
        } }
    }

    /// Emit the current window and shrink it: the right edge retreats by one
    /// step and the left edge advances by one step, clamped so the edges
    /// never cross. Successive outputs `(s1, e1)`, `(s2, e2)` therefore nest:
    /// `s1 <= s2 <= e2 <= e1`. Returns `None` once the window is empty.
    pub fn next(&mut self) -> (r: Option<(usize, usize)>)
        requires
            old(self).wf(),
        ensures
            final(self).wf(),
            final(self).exhausted() <==> final(self).spec_start() == final(self).spec_end(),
            old(self).exhausted() ==> r is None && *final(self) == *old(self),
            !old(self).exhausted() ==> {
                &&& r == Some((old(self).spec_start(), old(self).spec_end()))
                &&& final(self).step() == old(self).step()
                &&& final(self).spec_end() == old(self).spec_end() - old(self).step()
                &&& final(self).spec_start() as int == vstd::math::min(
                    final(self).spec_end() as int,
                    old(self).spec_start() + old(self).step(),
                )
                &&& !final(self).exhausted() ==> old(self).spec_start() <= final(self).spec_start()
                &&& final(self).spec_start() <= final(self).spec_end()
                &&& final(self).spec_end() <= old(self).spec_end()
                &&& final(self).steps_left() < old(self).steps_left()
            },
    {
        if self.start == self.end {
            return None;
        }
        let range = (self.start, self.end);
        let new_end = self.end - self.half_percent;
        let new_start = if self.start >= new_end {
            new_end
        } else if self.half_percent <= new_end - self.start {
            self.start + self.half_percent
        } else {
            new_end
        };
        proof {
            lemma_shrink_steps_left(
                self.start as int,
                self.end as int,
                self.half_percent as int,
                new_start as int,
                new_end as int,
            );
        }
        self.end = new_end;
        self.start = new_start;
        Some(range)
    }
}

/// A sampler wrapped to cycle indefinitely: once the window empties it is
/// re-seeded from `(0, extent)`, so a long-running workload keeps visiting
/// the whole extent instead of stopping after one pass.
pub struct CyclicRanges {
    ranges: PercentRanges,
    extent: usize,
}

impl CyclicRanges {
    /// The cyclic sampler's invariant: a well-formed window over a positive
    /// extent, never reaching past it.
    pub closed spec fn wf(self) -> bool {
        &&& self.ranges.wf()
        &&& self.extent >= 1
        &&& self.ranges.spec_end() <= self.extent
    }

    /// The extent the sampler was seeded from.
    pub closed spec fn spec_extent(self) -> usize {
        self.extent
    }

    /// The range the next call to [`CyclicRanges::next`] emits.
    pub closed spec fn current(self) -> (usize, usize) {
        if self.ranges.exhausted() {
            (0usize, self.extent)
        } else {
            (self.ranges.spec_start(), self.ranges.spec_end())
        }
    }

    /// A cyclic sampler over `[0, extent)`.
    pub fn new(extent: usize) -> (r: Self)
        requires
            extent >= 1,
        ensures
            r.wf(),
            r.spec_extent() == extent,
            r.current() == (0usize, extent),
    {
        CyclicRanges { ranges: PercentRanges::new(extent), extent }
    }

    /// Emit the next range, re-seeding the window first if it is empty.
    pub fn next(&mut self) -> (r: (usize, usize))
        requires
            old(self).wf(),
        ensures
            final(self).wf(),
            final(self).spec_extent() == old(self).spec_extent(),
            r == old(self).current(),
            r.0 <= r.1 <= old(self).spec_extent(),
    {
        let first = self.ranges.next();
        match first {
            Option::Some(p) => p,
            Option::None => {
                self.ranges = PercentRanges::new(self.extent);
                let second = self.ranges.next();
                match second {
                    Option::Some(p) => p,
                    Option::None => {
                        proof {
                            assert(false);
                        }
                        (0, 0)
                    },
                }
            },
        }
    }
}

/// One shrink strictly decreases the remaining-step bound.
proof fn lemma_shrink_steps_left(s: int, e: int, h: int, s2: int, e2: int)
    by (nonlinear_arith)
    requires
        0 <= s < e,
        1 <= h <= e,
        e2 == e - h,
        s2 == vstd::math::min(e2, s + h),
    ensures
        (e2 - s2 + 2 * h - 1) / (2 * h) < (e - s + 2 * h - 1) / (2 * h),
{
}

/// A fresh sampler over any extent can emit at most 201 ranges: its
/// remaining-step bound starts at or below 201, and every emission strictly
/// decreases that bound.
pub proof fn lemma_sampler_emission_bound(r: PercentRanges)
    requires
        r.wf(),
        r.spec_start() == 0,
        r.step() == if r.spec_end() / 200 >= 1 {
            r.spec_end() / 200
        } else {
            1usize
        },
    ensures
        0 <= r.steps_left() <= 201,
{
    let n = r.spec_end() as int;
    let h = r.step() as int;
    assert(n <= 200 * h + 199) by (nonlinear_arith)
        requires
            h == if n / 200 >= 1 {
                n / 200
            } else {
                1
            },
            n >= 0,
    ;
    assert(0 <= (n + 2 * h - 1) / (2 * h) <= 201) by (nonlinear_arith)
        requires
            n <= 200 * h + 199,
            h >= 1,
            n >= 0,
    ;
}

} // verus!
