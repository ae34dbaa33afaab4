use ropebench::rope::Rope;
use ropebench::vecrope::{Utf8Rope, VecRope};
use ropebench::xi_rope_rope::XiRope;

/// Runs the whole capability set on an ASCII text, where byte and codepoint
/// offsets coincide.
fn exercise_candidate<R: Rope>() {
    let mut r = R::from_str("hello");
    assert_eq!(r.to_text(), "hello");
    assert_eq!(r.len(), 5);
    r.insert(5, ", world");
    assert_eq!(r.to_text(), "hello, world");
    r.remove(0, 5);
    assert_eq!(r.to_text(), ", world");
    r.replace(0, 2, "Hi ");
    assert_eq!(r.to_text(), "Hi world");
    assert_eq!(r.len(), 8);
    assert_eq!(r.slice_text(3, 8), "world");
    assert_eq!(r.slice_text(3, 3), "");
}

/// `replace(s, e, t)` must produce content identical to `remove(s, e)`
/// followed by `insert(s, t)`, whichever path the implementation takes.
fn replace_matches_two_step<R: Rope>(text: &str, s: usize, e: usize, t: &str) {
    let mut one = R::from_str(text);
    one.replace(s, e, t);
    let mut two = R::from_str(text);
    if e > s {
        two.remove(s, e);
    }
    if !t.is_empty() {
        two.insert(s, t);
    }
    assert_eq!(one.to_text(), two.to_text());
}

/// `insert(p, x)` followed by `delete(p, p + len(x))` must restore the
/// original content exactly.
fn insert_then_delete_round_trip<R: Rope>(text: &str, p: usize, x: &str) {
    let mut r = R::from_str(text);
    let before = r.to_text();
    r.insert(p, x);
    let xlen = if R::edits_use_byte_offsets() { x.len() } else { x.chars().count() };
    r.remove(p, p + xlen);
    assert_eq!(r.to_text(), before);
}

fn replace_cases<R: Rope>() {
    // proper range and nonempty text
    replace_matches_two_step::<R>("abcdef", 1, 4, "XY");
    // empty range degenerates to a pure insert
    replace_matches_two_step::<R>("abcdef", 3, 3, "XY");
    // empty text degenerates to a pure delete
    replace_matches_two_step::<R>("abcdef", 1, 4, "");
    // both degenerate: a no-op
    replace_matches_two_step::<R>("abcdef", 2, 2, "");
    // whole extent
    replace_matches_two_step::<R>("abcdef", 0, 6, "Z");
}

fn round_trip_cases<R: Rope>() {
    insert_then_delete_round_trip::<R>("abcdef", 0, "XY");
    insert_then_delete_round_trip::<R>("abcdef", 3, "XY");
    insert_then_delete_round_trip::<R>("abcdef", 6, "XY");
    insert_then_delete_round_trip::<R>("", 0, "XY");
}

#[test]
fn vecrope_capabilities() {
    exercise_candidate::<VecRope>();
}

#[test]
fn utf8rope_capabilities() {
    exercise_candidate::<Utf8Rope>();
}

#[test]
fn string_capabilities() {
    exercise_candidate::<String>();
}

#[test]
fn crop_capabilities() {
    exercise_candidate::<crop::Rope>();
}

#[test]
fn jumprope_capabilities() {
    exercise_candidate::<jumprope::JumpRope>();
}

#[test]
fn jumpropebuf_capabilities() {
    exercise_candidate::<jumprope::JumpRopeBuf>();
}

#[test]
fn ropey_capabilities() {
    exercise_candidate::<ropey::Rope>();
}

#[test]
fn xi_rope_capabilities() {
    exercise_candidate::<XiRope>();
}

#[test]
fn replace_equals_delete_then_insert_on_every_candidate() {
    replace_cases::<VecRope>();
    replace_cases::<Utf8Rope>();
    replace_cases::<String>();
    replace_cases::<crop::Rope>();
    replace_cases::<jumprope::JumpRope>();
    replace_cases::<jumprope::JumpRopeBuf>();
    replace_cases::<ropey::Rope>();
    replace_cases::<XiRope>();
}

#[test]
fn insert_then_delete_round_trips_on_every_candidate() {
    round_trip_cases::<VecRope>();
    round_trip_cases::<Utf8Rope>();
    round_trip_cases::<String>();
    round_trip_cases::<crop::Rope>();
    round_trip_cases::<jumprope::JumpRope>();
    round_trip_cases::<jumprope::JumpRopeBuf>();
    round_trip_cases::<ropey::Rope>();
    round_trip_cases::<XiRope>();
}

/// A codepoint-unit candidate measures and addresses characters.
fn exercise_char_units<R: Rope>() {
    assert!(!R::edits_use_byte_offsets());
    let mut r = R::from_str("h\u{e9}llo");
    assert_eq!(r.len(), 5);
    r.insert(1, "\u{f6}");
    assert_eq!(r.to_text(), "h\u{f6}\u{e9}llo");
    r.remove(0, 2);
    assert_eq!(r.to_text(), "\u{e9}llo");
    assert_eq!(r.len(), 4);
}

/// A byte-unit candidate measures and addresses UTF-8 bytes, on character
/// boundaries.
fn exercise_byte_units<R: Rope>() {
    assert!(R::edits_use_byte_offsets());
    let mut r = R::from_str("h\u{e9}llo");
    assert_eq!(r.len(), 6);
    r.insert(3, "\u{f6}");
    assert_eq!(r.to_text(), "h\u{e9}\u{f6}llo");
    r.remove(1, 5);
    assert_eq!(r.to_text(), "hllo");
    assert_eq!(r.len(), 4);
}

#[test]
fn char_unit_candidates_handle_multibyte_text() {
    exercise_char_units::<VecRope>();
    exercise_char_units::<jumprope::JumpRope>();
    exercise_char_units::<jumprope::JumpRopeBuf>();
    exercise_char_units::<ropey::Rope>();
}

#[test]
fn byte_unit_candidates_handle_multibyte_text() {
    exercise_byte_units::<Utf8Rope>();
    exercise_byte_units::<String>();
    exercise_byte_units::<crop::Rope>();
    exercise_byte_units::<XiRope>();
}

#[test]
fn slice_text_on_multibyte_content() {
    let c = VecRope::from_str("h\u{e9}llo");
    assert_eq!(c.slice_text(1, 3), "\u{e9}l");
    let b = Utf8Rope::from_str("h\u{e9}llo");
    assert_eq!(b.slice_text(1, 4), "\u{e9}l");
}
