//! The `ropey` crate's rope as a candidate: a B-tree rope, addressed in
//! codepoint units.

use vstd::prelude::*;

use ropey::Rope as RopeyRope;

use crate::rope::Rope;
use crate::text::{delete_chars, insert_chars};

verus! {

#[verifier::external_type_specification]
#[verifier::external_body]
pub struct ExRopeyRope(RopeyRope);

/// The characters a `ropey` rope holds.
pub uninterp spec fn ropey_chars(r: RopeyRope) -> Seq<char>;

/// Relies on `ropey::Rope::from_str`: builds a rope holding exactly the
/// given text.
#[verifier::external_body]
fn ropey_from_str(s: &str) -> (r: RopeyRope)
    ensures
        ropey_chars(r) == s@,
{
    RopeyRope::from_str(s)
}

/// Relies on `ropey::Rope::len_chars`: the length of the rope's text in
/// chars.
#[verifier::external_body]
fn ropey_len_chars(r: &RopeyRope) -> (n: usize)
    ensures
        n == ropey_chars(*r).len(),
{
    r.len_chars()
}

/// Relies on `ropey::Rope::insert`: inserts the text at the given char
/// index. The index is required to be at or before the end, which is
/// exactly the condition under which `insert` does not panic.
#[verifier::external_body]
fn ropey_insert(r: &mut RopeyRope, at: usize, t: &str)
    requires
        at <= ropey_chars(*old(r)).len(),
    ensures
        ropey_chars(*final(r)) == insert_chars(ropey_chars(*old(r)), at as int, t@),
{
    r.insert(at, t);
}

/// Relies on `ropey::Rope::remove`: removes the given char range. The range
/// is required to be ordered and to end at or before the rope's end, which
/// is exactly the condition under which `remove` does not panic.
#[verifier::external_body]
fn ropey_remove(r: &mut RopeyRope, start: usize, end: usize)
    requires
        start <= end <= ropey_chars(*old(r)).len(),
    ensures
        ropey_chars(*final(r)) == delete_chars(ropey_chars(*old(r)), start as int, end as int),
{
    r.remove(start..end);
}

/// Relies on `ropey::Rope`'s `Display` impl: writes every chunk of the
/// rope's text in order.
#[verifier::external_body]
fn ropey_to_string(r: &RopeyRope) -> (s: String)
    ensures
        s@ == ropey_chars(*r),
{
    r.to_string()
}

impl Rope for RopeyRope {
    open spec fn content(&self) -> Seq<char> {
        ropey_chars(*self)
    }

    open spec fn byte_units() -> bool {
        false
    }

    fn edits_use_byte_offsets() -> (b: bool) {
        false
    }

    fn from_str(s: &str) -> (r: Self) {
        ropey_from_str(s)
    }

    fn len(&self) -> (n: usize) {
        ropey_len_chars(self)
    }

    fn insert(&mut self, at_offset: usize, text: &str) {
        ropey_insert(self, at_offset, text);
    }

    fn remove(&mut self, start: usize, end: usize) {
        ropey_remove(self, start, end);
    }

    fn to_text(&self) -> (t: String) {
        ropey_to_string(self)
    }
}

} // verus!
