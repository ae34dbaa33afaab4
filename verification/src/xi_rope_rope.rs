//! The `xi-rope` crate's rope as a candidate: a persistent tree rope,
//! addressed in byte units. All three edits go through the crate's single
//! `edit` operation, as they do in `xi-rope` itself.

use vstd::prelude::*;

use crate::rope::Rope;
use crate::text::{
    byte_boundary_index, byte_len, delete_chars, is_byte_boundary, replace_chars,
};

verus! {

/// An `xi_rope::Rope` held behind an opaque struct: the rope is an alias
/// for a generic tree type whose declaration Verus refuses, so it sits in a
/// field Verus does not look into.
#[verifier::external_body]
pub struct XiRope {
    rope: xi_rope::Rope,
}

/// The characters an `xi-rope` rope holds.
pub uninterp spec fn xi_chars(r: XiRope) -> Seq<char>;

/// Relies on `xi_rope::Rope::from` (`From<T: AsRef<str>>`): builds a rope
/// holding exactly the given text.
#[verifier::external_body]
fn xi_from_str(s: &str) -> (r: XiRope)
    ensures
        xi_chars(r) == s@,
{
    XiRope { rope: xi_rope::Rope::from(s) }
}

/// Relies on `xi_rope::Rope::len` (`Node::len`): the length of the rope's
/// text in bytes of its UTF-8 encoding, the tree's base units.
#[verifier::external_body]
fn xi_len(r: &XiRope) -> (n: usize)
    ensures
        n == byte_len(xi_chars(*r)),
{
    r.rope.len()
}

/// Relies on `xi_rope::Rope::edit` (`Node::edit`): replaces the given byte
/// range by the given text, keeping the content before and after it. Both
/// ends are required to lie on character boundaries at or before the end,
/// in order; off-boundary offsets would panic while the leaf strings are
/// sliced.
#[verifier::external_body]
fn xi_edit(r: &mut XiRope, start: usize, end: usize, t: &str)
    requires
        start <= end,
        is_byte_boundary(xi_chars(*old(r)), start as nat),
        is_byte_boundary(xi_chars(*old(r)), end as nat),
    ensures
        xi_chars(*final(r)) == replace_chars(
            xi_chars(*old(r)),
            byte_boundary_index(xi_chars(*old(r)), start as nat),
            byte_boundary_index(xi_chars(*old(r)), end as nat),
            t@,
        ),
{
    r.rope.edit(start..end, t);
}

/// Relies on `String::from(&xi_rope::Rope)`: copies the whole rope into an
/// owned string.
#[verifier::external_body]
fn xi_to_string(r: &XiRope) -> (s: String)
    ensures
        s@ == xi_chars(*r),
{
    String::from(&r.rope)
}

impl Rope for XiRope {
    open spec fn content(&self) -> Seq<char> {
        xi_chars(*self)
    }

    open spec fn byte_units() -> bool {
        true
    }

    fn edits_use_byte_offsets() -> (b: bool) {
        true
    }

    fn from_str(s: &str) -> (r: Self) {
        xi_from_str(s)
    }

    fn len(&self) -> (n: usize) {
        xi_len(self)
    }

    fn insert(&mut self, at_offset: usize, text: &str) {
        xi_edit(self, at_offset, at_offset, text);
    }

    fn remove(&mut self, start: usize, end: usize) {
        xi_edit(self, start, end, "");
        proof {
            reveal_strlit("");
            assert(final(self).content() =~= delete_chars(
                old(self).content(),
                byte_boundary_index(old(self).content(), start as nat),
                byte_boundary_index(old(self).content(), end as nat),
            ));
        }
    }

    fn replace(&mut self, start: usize, end: usize, text: &str) {
        xi_edit(self, start, end, text);
    }

    fn to_text(&self) -> (t: String) {
        xi_to_string(self)
    }
}

} // verus!
