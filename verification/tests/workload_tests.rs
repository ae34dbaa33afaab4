use ropebench::rope::Rope;
use ropebench::vecrope::{Utf8Rope, VecRope};
use ropebench::workload::{DeleteWorkload, InsertWorkload, ReplaceWorkload, SliceWorkload};

#[test]
fn insert_workload_alternates_anchors_and_grows() {
    // extent 4, step 1; trial 1 anchors at the range start (0), trial 2 at
    // the next range's end (3)
    let mut w = InsertWorkload::<VecRope>::new("abcd", "XY");
    w.trial();
    assert_eq!(w.content_text(), "XYabcd");
    assert_eq!(w.len(), 6);
    w.trial();
    assert_eq!(w.content_text(), "XYaXYbcd");
    assert_eq!(w.len(), 8);
}

#[test]
fn insert_workload_byte_units_match_char_units_on_ascii() {
    let mut c = InsertWorkload::<VecRope>::new("abcd", "XY");
    let mut b = InsertWorkload::<Utf8Rope>::new("abcd", "XY");
    for _ in 0..10 {
        c.trial();
        b.trial();
    }
    assert_eq!(c.content_text(), b.content_text());
}

#[test]
fn delete_workload_shrinks_without_reset_above_threshold() {
    // L = 8, threshold L/4 = 2; deleting 2 units leaves 6
    let mut w = DeleteWorkload::<VecRope>::new("abcdefgh", 2);
    w.trial();
    assert_eq!(w.len(), 6);
    assert_eq!(w.content_text(), "cdefgh");
}

#[test]
fn delete_workload_rebuilds_when_below_a_quarter() {
    // L = 8, threshold 2; deleting 7 units leaves 1 < 2, so the very next
    // observation sees the candidate rebuilt to length L
    let mut w = DeleteWorkload::<VecRope>::new("abcdefgh", 7);
    w.trial();
    assert_eq!(w.len(), 8);
    assert_eq!(w.content_text(), "abcdefgh");
    // the same policy on a byte-unit candidate
    let mut w = DeleteWorkload::<String>::new("abcdefgh", 7);
    w.trial();
    assert_eq!(w.len(), 8);
}

#[test]
fn delete_workload_clamps_at_the_extent() {
    // trial 1 deletes [0, 3); trial 2 anchors at the range end 7, clamped
    // to the current length 5, so it deletes nothing
    let mut w = DeleteWorkload::<VecRope>::new("abcdefgh", 3);
    w.trial();
    assert_eq!(w.content_text(), "defgh");
    w.trial();
    assert_eq!(w.content_text(), "defgh");
}

#[test]
fn replace_workload_keeps_interior_size_stable() {
    let mut w = ReplaceWorkload::<VecRope>::new("abcdef", "XY");
    w.trial();
    assert_eq!(w.content_text(), "XYcdef");
    assert_eq!(w.len(), 6);
}

#[test]
fn replace_workload_clamps_at_the_end() {
    // trial 1 replaces [0, 2); trial 2 anchors at 5, clamps the end to 6,
    // so one unit is replaced by the two-unit payload
    let mut w = ReplaceWorkload::<String>::new("abcdef", "XY");
    w.trial();
    assert_eq!(w.content_text(), "XYcdef");
    w.trial();
    assert_eq!(w.content_text(), "XYcdeXY");
}

#[test]
fn slice_workload_reads_sampled_windows_without_mutating() {
    let mut w = SliceWorkload::<VecRope>::new("abcdef");
    assert_eq!(w.trial(), "abcdef");
    assert_eq!(w.trial(), "bcde");
    assert_eq!(w.trial(), "cd");
    let mut w = SliceWorkload::<Utf8Rope>::new("abcdef");
    assert_eq!(w.trial(), "abcdef");
    assert_eq!(w.trial(), "bcde");
}

#[test]
fn workloads_drive_outside_candidates_too() {
    let mut w = InsertWorkload::<crop::Rope>::new("abcd", "XY");
    w.trial();
    assert_eq!(w.content_text(), "XYabcd");
    let mut w = DeleteWorkload::<ropey::Rope>::new("abcdefgh", 7);
    w.trial();
    assert_eq!(w.len(), 8);
    let mut w = ReplaceWorkload::<jumprope::JumpRope>::new("abcdef", "XY");
    w.trial();
    assert_eq!(w.content_text(), "XYcdef");
    let mut w = SliceWorkload::<ropebench::xi_rope_rope::XiRope>::new("abcdef");
    assert_eq!(w.trial(), "abcdef");
}
