use ropebench::sampler::{CyclicRanges, PercentRanges};

#[test]
fn percent_ranges_first_three_for_1000() {
    // step = max(1000 / 200, 1) = 5
    let mut r = PercentRanges::new(1000);
    assert_eq!(r.next(), Some((0, 1000)));
    assert_eq!(r.next(), Some((5, 995)));
    assert_eq!(r.next(), Some((10, 990)));
}

#[test]
fn percent_ranges_step_clamps_to_one_for_small_extents() {
    // 100 / 200 == 0, so the step clamps to 1
    let mut r = PercentRanges::new(100);
    assert_eq!(r.next(), Some((0, 100)));
    assert_eq!(r.next(), Some((1, 99)));
    assert_eq!(r.next(), Some((2, 98)));
}

#[test]
fn percent_ranges_extent_one_emits_once() {
    let mut r = PercentRanges::new(1);
    assert_eq!(r.next(), Some((0, 1)));
    assert_eq!(r.next(), None);
    assert_eq!(r.next(), None);
}

#[test]
fn percent_ranges_extent_zero_is_exhausted_immediately() {
    let mut r = PercentRanges::new(0);
    assert_eq!(r.next(), None);
}

#[test]
fn percent_ranges_nest_strictly_and_terminate() {
    for n in [1usize, 2, 3, 17, 199, 200, 399, 400, 1000, 12345] {
        let mut r = PercentRanges::new(n);
        let mut count = 0usize;
        let mut prev: Option<(usize, usize)> = None;
        while let Some((s, e)) = r.next() {
            assert!(s <= e && e <= n);
            if let Some((ps, pe)) = prev {
                // successive outputs nest: s1 <= s2 <= e2 <= e1
                assert!(ps <= s && s <= e && e <= pe);
            }
            prev = Some((s, e));
            count += 1;
            assert!(count <= 201, "sampler over {} emitted more than 201 ranges", n);
        }
        assert!(count >= 1);
    }
}

#[test]
fn cyclic_ranges_reseed_after_exhaustion() {
    let mut r = CyclicRanges::new(2);
    assert_eq!(r.next(), (0, 2));
    // window (1, 1) is exhausted, so the sampler re-seeds from (0, 2)
    assert_eq!(r.next(), (0, 2));
    assert_eq!(r.next(), (0, 2));
}

#[test]
fn cyclic_ranges_walk_the_window_before_reseeding() {
    let mut r = CyclicRanges::new(6);
    assert_eq!(r.next(), (0, 6));
    assert_eq!(r.next(), (1, 5));
    assert_eq!(r.next(), (2, 4));
    // the window has emptied; the next range starts the cycle again
    assert_eq!(r.next(), (0, 6));
}
