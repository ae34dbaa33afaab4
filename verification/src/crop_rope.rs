//! The `crop` crate's rope as a candidate: a balanced-tree rope, addressed in byte
//! units.
//!
//! The rope's text is named by [`crop_chars`]; every trusted wrapper below
//! states what the wrapped `crop` call does to that text, as the crate's
//! source and documentation show it.

use vstd::prelude::*;

use crop::Rope as CropRope;

use crate::rope::Rope;
use crate::text::{
    byte_boundary_index, byte_len, delete_chars, insert_chars, is_byte_boundary, replace_chars,
};

verus! {

#[verifier::external_type_specification]
#[verifier::external_body]
pub struct ExCropRope(CropRope);

/// The characters a `crop` rope holds.
pub uninterp spec fn crop_chars(r: CropRope) -> Seq<char>;

/// Relies on `crop::Rope::from` (`From<&str>`): builds a rope holding
/// exactly the given text.
#[verifier::external_body]
fn crop_from_str(s: &str) -> (r: CropRope)
    ensures
        crop_chars(r) == s@,
{
    CropRope::from(s)
}

/// Relies on `crop::Rope::byte_len`: the length of the rope's text in bytes
/// of its UTF-8 encoding.
#[verifier::external_body]
fn crop_byte_len(r: &CropRope) -> (n: usize)
    ensures
        n == byte_len(crop_chars(*r)),
{
    r.byte_len()
}

/// Relies on `crop::Rope::insert`: inserts the text at the given byte
/// offset. The offset is required to lie on a character boundary at or
/// before the end, which is exactly the condition under which `insert` does
/// not panic.
#[verifier::external_body]
fn crop_insert(r: &mut CropRope, at: usize, t: &str)
    requires
        is_byte_boundary(crop_chars(*old(r)), at as nat),
    ensures
        crop_chars(*final(r)) == insert_chars(
            crop_chars(*old(r)),
            byte_boundary_index(crop_chars(*old(r)), at as nat),
            t@,
        ),
{
    r.insert(at, t);
}

/// Relies on `crop::Rope::delete`: removes the given byte range. Both ends
/// are required to lie on character boundaries at or before the end, in
/// order, which is exactly the condition under which `delete` does not
/// panic.
#[verifier::external_body]
fn crop_delete(r: &mut CropRope, start: usize, end: usize)
    requires
        start <= end,
        is_byte_boundary(crop_chars(*old(r)), start as nat),
        is_byte_boundary(crop_chars(*old(r)), end as nat),
    ensures
        crop_chars(*final(r)) == delete_chars(
            crop_chars(*old(r)),
            byte_boundary_index(crop_chars(*old(r)), start as nat),
            byte_boundary_index(crop_chars(*old(r)), end as nat),
        ),
{
    r.delete(start..end);
}

/// Relies on `crop::Rope::replace`: removes the given byte range and puts
/// the given text in its place, under the same boundary conditions as
/// [`crop_delete`].
#[verifier::external_body]
fn crop_replace(r: &mut CropRope, start: usize, end: usize, t: &str)
    requires
        start <= end,
        is_byte_boundary(crop_chars(*old(r)), start as nat),
        is_byte_boundary(crop_chars(*old(r)), end as nat),
    ensures
        crop_chars(*final(r)) == replace_chars(
            crop_chars(*old(r)),
            byte_boundary_index(crop_chars(*old(r)), start as nat),
            byte_boundary_index(crop_chars(*old(r)), end as nat),
            t@,
        ),
{
    r.replace(start..end, t);
}

/// Relies on `crop::Rope`'s `Display` impl: writes every chunk of the
/// rope's text in order.
#[verifier::external_body]
fn crop_to_string(r: &CropRope) -> (s: String)
    ensures
        s@ == crop_chars(*r),
{
    r.to_string()
}

impl Rope for CropRope {
    open spec fn content(&self) -> Seq<char> {
        crop_chars(*self)
    }

    open spec fn byte_units() -> bool {
        true
    }

    fn edits_use_byte_offsets() -> (b: bool) {
        true
    }

    fn from_str(s: &str) -> (r: Self) {
        crop_from_str(s)
    }

    fn len(&self) -> (n: usize) {
        crop_byte_len(self)
    }

    fn insert(&mut self, at_offset: usize, text: &str) {
        crop_insert(self, at_offset, text);
    }

    fn remove(&mut self, start: usize, end: usize) {
        crop_delete(self, start, end);
    }

    fn replace(&mut self, start: usize, end: usize, text: &str) {
        crop_replace(self, start, end, text);
    }

    fn to_text(&self) -> (t: String) {
        crop_to_string(self)
    }
}

} // verus!
