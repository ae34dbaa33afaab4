//! The `jumprope` crate's ropes as candidates: a skip-list rope
//! (`JumpRope`) and its write-buffering variant (`JumpRopeBuf`), both
//! addressed in codepoint units.
//!
//! `JumpRope`'s editing operations clamp out-of-range positions instead of
//! panicking; the wrappers state that clamping behaviour exactly as the
//! crate's source shows it. `JumpRopeBuf` buffers one pending edit and is
//! documented as semantically equivalent to `JumpRope`, but its buffered
//! length arithmetic requires in-range edits, so its wrappers demand them.

use vstd::prelude::*;

use jumprope::JumpRope;
use jumprope::JumpRopeBuf;

use crate::rope::Rope;
use crate::text::{delete_chars, insert_chars, replace_chars};

verus! {

#[verifier::external_type_specification]
#[verifier::external_body]
pub struct ExJumpRope(JumpRope);

#[verifier::external_type_specification]
#[verifier::external_body]
pub struct ExJumpRopeBuf(JumpRopeBuf);

/// The characters a `JumpRope` holds.
pub uninterp spec fn jumprope_chars(r: JumpRope) -> Seq<char>;

/// The characters a `JumpRopeBuf` holds, the pending buffered edit
/// included. Values of the type are built and edited only through the
/// wrappers below, whose preconditions keep the buffered edit in range.
pub uninterp spec fn jumpropebuf_chars(r: JumpRopeBuf) -> Seq<char>;

/// Relies on `JumpRope::from` (`From<S: AsRef<str>>`): builds a rope
/// holding exactly the given text.
#[verifier::external_body]
fn jumprope_from_str(s: &str) -> (r: JumpRope)
    ensures
        jumprope_chars(r) == s@,
{
    JumpRope::from(s)
}

/// Relies on `JumpRope::len_chars`: the length of the rope's text in
/// unicode characters.
#[verifier::external_body]
fn jumprope_len_chars(r: &JumpRope) -> (n: usize)
    ensures
        n == jumprope_chars(*r).len(),
{
    r.len_chars()
}

/// Relies on `JumpRope::insert`: inserts the text at the given character
/// offset; a position past the end is truncated to the end.
#[verifier::external_body]
fn jumprope_insert(r: &mut JumpRope, pos: usize, t: &str)
    ensures
        jumprope_chars(*final(r)) == insert_chars(
            jumprope_chars(*old(r)),
            vstd::math::min(pos as int, jumprope_chars(*old(r)).len() as int),
            t@,
        ),
{
    r.insert(pos, t);
}

/// Relies on `JumpRope::remove`: deletes the given character range; the
/// range's end is truncated to the rope's end, and a range that is empty
/// after truncation is ignored.
#[verifier::external_body]
fn jumprope_remove(r: &mut JumpRope, start: usize, end: usize)
    ensures
        jumprope_chars(*final(r)) == if start as int >= vstd::math::min(
            end as int,
            jumprope_chars(*old(r)).len() as int,
        ) {
            jumprope_chars(*old(r))
        } else {
            delete_chars(
                jumprope_chars(*old(r)),
                start as int,
                vstd::math::min(end as int, jumprope_chars(*old(r)).len() as int),
            )
        },
{
    r.remove(start..end);
}

/// Relies on `JumpRope::replace`: deletes the given character range and
/// inserts the text at its start, both ends truncated to the rope's end.
/// The range must be ordered; a reversed range would underflow inside the
/// call.
#[verifier::external_body]
fn jumprope_replace(r: &mut JumpRope, start: usize, end: usize, t: &str)
    requires
        start <= end,
    ensures
        jumprope_chars(*final(r)) == replace_chars(
            jumprope_chars(*old(r)),
            vstd::math::min(start as int, jumprope_chars(*old(r)).len() as int),
            vstd::math::min(end as int, jumprope_chars(*old(r)).len() as int),
            t@,
        ),
{
    r.replace(start..end, t);
}

/// Relies on `JumpRope`'s `Display` impl: writes every substring of the
/// rope's text in order.
#[verifier::external_body]
fn jumprope_to_string(r: &JumpRope) -> (s: String)
    ensures
        s@ == jumprope_chars(*r),
{
    r.to_string()
}

/// Relies on `JumpRopeBuf::from` (`From<S: AsRef<str>>`): builds a rope
/// holding exactly the given text.
#[verifier::external_body]
fn jumpropebuf_from_str(s: &str) -> (r: JumpRopeBuf)
    ensures
        jumpropebuf_chars(r) == s@,
{
    JumpRopeBuf::from(s)
}

/// Relies on `JumpRopeBuf::len_chars`: the length of the rope's text in
/// unicode characters, the pending buffered edit included.
#[verifier::external_body]
fn jumpropebuf_len_chars(r: &JumpRopeBuf) -> (n: usize)
    ensures
        n == jumpropebuf_chars(*r).len(),
{
    r.len_chars()
}

/// Relies on `JumpRopeBuf::insert`, documented as semantically equivalent
/// to `JumpRope::insert`; the position is required to be in range so the
/// buffered length arithmetic stays exact.
#[verifier::external_body]
fn jumpropebuf_insert(r: &mut JumpRopeBuf, pos: usize, t: &str)
    requires
        pos <= jumpropebuf_chars(*old(r)).len(),
    ensures
        jumpropebuf_chars(*final(r)) == insert_chars(jumpropebuf_chars(*old(r)), pos as int, t@),
{
    r.insert(pos, t);
}

/// Relies on `JumpRopeBuf::remove`, documented as semantically equivalent
/// to `JumpRope::remove`; the range is required to be ordered and in range
/// so the buffered length arithmetic stays exact.
#[verifier::external_body]
fn jumpropebuf_remove(r: &mut JumpRopeBuf, start: usize, end: usize)
    requires
        start <= end <= jumpropebuf_chars(*old(r)).len(),
    ensures
        jumpropebuf_chars(*final(r)) == delete_chars(
            jumpropebuf_chars(*old(r)),
            start as int,
            end as int,
        ),
{
    r.remove(start..end);
}

/// Relies on `JumpRopeBuf`'s `Display` impl: flushes the pending edit and
/// writes every substring of the rope's text in order.
#[verifier::external_body]
fn jumpropebuf_to_string(r: &JumpRopeBuf) -> (s: String)
    ensures
        s@ == jumpropebuf_chars(*r),
{
    r.to_string()
}

impl Rope for JumpRope {
    open spec fn content(&self) -> Seq<char> {
        jumprope_chars(*self)
    }

    open spec fn byte_units() -> bool {
        false
    }

    fn edits_use_byte_offsets() -> (b: bool) {
        false
    }

    fn from_str(s: &str) -> (r: Self) {
        jumprope_from_str(s)
    }

    fn len(&self) -> (n: usize) {
        jumprope_len_chars(self)
    }

    fn insert(&mut self, at_offset: usize, text: &str) {
        jumprope_insert(self, at_offset, text);
    }

    fn remove(&mut self, start: usize, end: usize) {
        jumprope_remove(self, start, end);
        proof {
            if start == end {
                assert(final(self).content() =~= delete_chars(
                    old(self).content(),
                    start as int,
                    end as int,
                ));
            }
        }
    }

    fn replace(&mut self, start: usize, end: usize, text: &str) {
        jumprope_replace(self, start, end, text);
    }

    fn to_text(&self) -> (t: String) {
        jumprope_to_string(self)
    }
}

impl Rope for JumpRopeBuf {
    open spec fn content(&self) -> Seq<char> {
        jumpropebuf_chars(*self)
    }

    open spec fn byte_units() -> bool {
        false
    }

    fn edits_use_byte_offsets() -> (b: bool) {
        false
    }

    fn from_str(s: &str) -> (r: Self) {
        jumpropebuf_from_str(s)
    }

    fn len(&self) -> (n: usize) {
        jumpropebuf_len_chars(self)
    }

    fn insert(&mut self, at_offset: usize, text: &str) {
        jumpropebuf_insert(self, at_offset, text);
    }

    fn remove(&mut self, start: usize, end: usize) {
        jumpropebuf_remove(self, start, end);
    }

    fn to_text(&self) -> (t: String) {
        jumpropebuf_to_string(self)
    }
}

} // verus!
