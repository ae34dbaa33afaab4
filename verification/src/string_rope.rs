//! `String` as a candidate: the flat-buffer baseline, addressed in byte
//! units.

use vstd::prelude::*;
use vstd::string::StringSliceAdditionalSpecFns;

use crate::rope::Rope;
use crate::text::{
    byte_boundary_index, delete_chars, insert_chars, is_byte_boundary,
    lemma_byte_len_is_encoding_len, replace_chars,
};

verus! {

/// Relies on `String::insert_str`: inserts the string at the given byte
/// index. The index is required to lie on a character boundary at or before
/// the end of the string, which is exactly the condition under which
/// `insert_str` does not panic.
#[verifier::external_body]
fn string_insert_str(s: &mut String, at: usize, t: &str)
    requires
        is_byte_boundary(old(s)@, at as nat),
    ensures
        final(s)@ == insert_chars(old(s)@, byte_boundary_index(old(s)@, at as nat), t@),
{
    s.insert_str(at, t);
}

/// Relies on `String::replace_range`: removes the given byte range and puts
/// the given string in its place. Both ends of the range are required to lie
/// on character boundaries at or before the end of the string, in order,
/// which is exactly the condition under which `replace_range` does not
/// panic.
#[verifier::external_body]
fn string_replace_range(s: &mut String, start: usize, end: usize, t: &str)
    requires
        start <= end,
        is_byte_boundary(old(s)@, start as nat),
        is_byte_boundary(old(s)@, end as nat),
    ensures
        final(s)@ == replace_chars(
            old(s)@,
            byte_boundary_index(old(s)@, start as nat),
            byte_boundary_index(old(s)@, end as nat),
            t@,
        ),
{
    s.replace_range(start..end, t);
}

impl Rope for String {
    open spec fn content(&self) -> Seq<char> {
        self.view()
    }

    open spec fn byte_units() -> bool {
        true
    }

    fn edits_use_byte_offsets() -> (b: bool) {
        true
    }

    fn from_str(s: &str) -> (r: Self) {
        s.to_owned()
    }

    fn len(&self) -> (n: usize) {
        proof {
            lemma_byte_len_is_encoding_len(self@);
        }
        self.as_str().as_bytes().len()
    }

    fn insert(&mut self, at_offset: usize, text: &str) {
        string_insert_str(self, at_offset, text);
    }

    fn remove(&mut self, start: usize, end: usize) {
        string_replace_range(self, start, end, "");
        proof {
            reveal_strlit("");
            assert(final(self)@ =~= delete_chars(
                old(self)@,
                byte_boundary_index(old(self)@, start as nat),
                byte_boundary_index(old(self)@, end as nat),
            ));
        }
    }

    fn replace(&mut self, start: usize, end: usize, text: &str) {
        string_replace_range(self, start, end, text);
    }

    fn to_text(&self) -> (t: String) {
        self.clone()
    }
}

} // verus!
