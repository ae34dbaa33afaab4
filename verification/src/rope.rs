//! The uniform capability contract every candidate buffer satisfies.
//!
//! A candidate holds a sequence of characters and edits it in place. Offsets
//! and lengths handed to the editing operations are interpreted in the
//! candidate's native unit — bytes of the UTF-8 encoding or codepoints — as
//! declared by [`Rope::byte_units`]. All contracts are stated over the
//! character-sequence model in [`crate::text`], so two candidates with
//! different units still agree on what content an edit produces.

use vstd::prelude::*;
use vstd::string::StrSliceExecFns;

use crate::text::{
    byte_len, delete_chars, edit_index, insert_chars, is_edit_boundary, lemma_edit_index,
    lemma_edit_index_ordered, lemma_prefix_is_boundary, lemma_replace_empty_is_delete,
    lemma_replace_is_delete_then_insert, replace_chars, unit_len,
};

verus! {

/// The capability set of an editable text buffer under test: creation from
/// text, length, insert, delete and replace, all addressed in the
/// candidate's native offset unit.
pub trait Rope: Sized {
    /// The character content this candidate currently holds.
    spec fn content(&self) -> Seq<char>;

    /// Whether offsets and lengths passed to the editing operations are byte
    /// offsets into the UTF-8 encoding (`true`) or codepoint offsets
    /// (`false`). Fixed per implementation.
    spec fn byte_units() -> bool;

    /// Executable mirror of [`Rope::byte_units`], read by the replay engine
    /// to decide whether recorded codepoint positions must be converted.
    fn edits_use_byte_offsets() -> (b: bool)
        ensures
            b == Self::byte_units(),
    ;

    /// Builds a candidate whose content equals `s`.
    fn from_str(s: &str) -> (r: Self)
        ensures
            r.content() == s@,
    ;

    /// Current size in the candidate's native unit.
    fn len(&self) -> (n: usize)
        ensures
            n == unit_len(self.content(), Self::byte_units()),
    ;

    /// Inserts `text` at the unit offset `at_offset`, which must lie on a
    /// valid boundary of the current content.
    fn insert(&mut self, at_offset: usize, text: &str)
        requires
            is_edit_boundary(old(self).content(), at_offset as nat, Self::byte_units()),
        ensures
            final(self).content() == insert_chars(
                old(self).content(),
                edit_index(old(self).content(), at_offset as nat, Self::byte_units()),
                text@,
            ),
    ;

    /// Removes the content between the unit offsets `start` and `end`, both
    /// of which must lie on valid boundaries of the current content.
    fn remove(&mut self, start: usize, end: usize)
        requires
            start <= end,
            is_edit_boundary(old(self).content(), start as nat, Self::byte_units()),
            is_edit_boundary(old(self).content(), end as nat, Self::byte_units()),
        ensures
            final(self).content() == delete_chars(
                old(self).content(),
                edit_index(old(self).content(), start as nat, Self::byte_units()),
                edit_index(old(self).content(), end as nat, Self::byte_units()),
            ),
    ;

    /// The whole content as an owned string.
    fn to_text(&self) -> (t: String)
        ensures
            t@ == self.content(),
    ;

    /// The content between the unit offsets `start` and `end` as an owned
    /// string: the windowed read the slicing scenarios exercise.
    fn slice_text(&self, start: usize, end: usize) -> (t: String)
        requires
            start <= end,
            is_edit_boundary(self.content(), start as nat, Self::byte_units()),
            is_edit_boundary(self.content(), end as nat, Self::byte_units()),
        ensures
            t@ == self.content().subrange(
                edit_index(self.content(), start as nat, Self::byte_units()),
                edit_index(self.content(), end as nat, Self::byte_units()),
            ),
    {
        proof {
            lemma_edit_index(self.content(), start as nat, Self::byte_units());
            lemma_edit_index(self.content(), end as nat, Self::byte_units());
            lemma_edit_index_ordered(self.content(), start as nat, end as nat, Self::byte_units());
        }
        let full = self.to_text();
        let (a, b) = if Self::edits_use_byte_offsets() {
            (
                crate::text::char_index_of_byte(full.as_str(), start),
                crate::text::char_index_of_byte(full.as_str(), end),
            )
        } else {
            (start, end)
        };
        let sub = full.as_str().substring_char(a, b);
        <String as vstd::string::StringExecFns>::from_str(sub)
    }

    /// Replaces the content between `start` and `end` by `text`. Observable
    /// content is identical to `remove(start, end)` followed by
    /// `insert(start, text)`; implementations may override this default for
    /// efficiency but must produce the same content.
    ///
    /// The default body deletes first and then inserts at the *original*
    /// `start`: the delete removes `[start, end)`, which leaves `start` as
    /// the correct insertion offset.
    fn replace(&mut self, start: usize, end: usize, text: &str)
        requires
            start <= end,
            is_edit_boundary(old(self).content(), start as nat, Self::byte_units()),
            is_edit_boundary(old(self).content(), end as nat, Self::byte_units()),
        ensures
            final(self).content() == replace_chars(
                old(self).content(),
                edit_index(old(self).content(), start as nat, Self::byte_units()),
                edit_index(old(self).content(), end as nat, Self::byte_units()),
                text@,
            ),
    {
        let ghost s = old(self).content();
        let ghost bu = Self::byte_units();
        let ghost a = edit_index(s, start as nat, bu);
        let ghost b = edit_index(s, end as nat, bu);
        proof {
            lemma_edit_index(s, start as nat, bu);
            lemma_edit_index(s, end as nat, bu);
            lemma_edit_index_ordered(s, start as nat, end as nat, bu);
        }
        if end > start {
            self.remove(start, end);
            proof {
                assert(self.content() == delete_chars(s, a, b));
                if bu {
                    assert(self.content().take(a) =~= s.take(a));
                    lemma_prefix_is_boundary(self.content(), a);
                    assert(byte_len(self.content().take(a)) == start as nat);
                } else {
                    assert(self.content().len() >= a);
                }
                assert(is_edit_boundary(self.content(), start as nat, bu));
                assert(edit_index(self.content(), start as nat, bu) == a);
            }
            if !text.is_empty() {
                self.insert(start, text);
                proof {
                    lemma_replace_is_delete_then_insert(s, a, b, text@);
                }
            } else {
                proof {
                    assert(text@ =~= Seq::<char>::empty());
                    lemma_replace_empty_is_delete(s, a, b);
                }
            }
        } else {
            if !text.is_empty() {
                self.insert(start, text);
                proof {
                    assert(replace_chars(s, a, b, text@) =~= insert_chars(s, a, text@));
                }
            } else {
                proof {
                    assert(replace_chars(s, a, b, text@) =~= s);
                }
            }
        }
    }
}

} // verus!
