//! Synthetic workloads driven by the range sampler.
//!
//! Each workload owns one candidate and a cyclic sampler over the
//! candidate's initial extent. Trial after trial it alternates between the
//! sampled range's start and its end as the edit anchor, so both advancing
//! and retreating edit locality are exercised. The insert workload grows
//! the candidate monotonically; the delete workload shrinks it and rebuilds
//! it from the original text once it falls below a quarter of its original
//! length; the replace workload keeps the size roughly stable; the slice
//! workload only reads.
//!
//! Because sampled anchors are arbitrary unit offsets, a candidate that
//! edits in byte units is driven with pure-ASCII text, where every offset
//! lies on a character boundary; a codepoint-unit candidate takes any text.

use vstd::prelude::*;
use vstd::string::StrSliceExecFns;
use vstd::utf8::is_ascii_chars;

use crate::rope::Rope;
use crate::sampler::CyclicRanges;
use crate::text::{
    delete_chars, edit_index, insert_chars, lemma_ascii_boundary, lemma_ascii_byte_len,
    lemma_ascii_replace, lemma_byte_len_bounds, lemma_byte_len_concat, lemma_byte_len_split,
    lemma_edit_index, lemma_edit_index_ordered, replace_chars, unit_len,
};

verus! {

/// Grows a candidate by inserting a fixed payload at sampled anchors.
pub struct InsertWorkload<R: Rope> {
    rope: R,
    ranges: CyclicRanges,
    retreating: bool,
    payload: String,
}

impl<R: Rope> InsertWorkload<R> {
    /// The candidate's current content.
    pub closed spec fn content(self) -> Seq<char> {
        self.rope.content()
    }

    /// The payload inserted on every trial.
    pub closed spec fn payload(self) -> Seq<char> {
        self.payload@
    }

    /// Whether the next trial anchors at the sampled range's end (odd
    /// trials) instead of its start (even trials).
    pub closed spec fn retreating(self) -> bool {
        self.retreating
    }

    /// The unit offset the next trial edits at.
    pub closed spec fn anchor(self) -> usize {
        if self.retreating {
            self.ranges.current().1
        } else {
            self.ranges.current().0
        }
    }

    /// The workload's invariant: the sampler stays within the candidate's
    /// initial extent, the content only grows past it, and a byte-unit
    /// candidate holds pure-ASCII text so every anchor is a boundary.
    pub closed spec fn wf(self) -> bool {
        &&& self.ranges.wf()
        &&& self.ranges.spec_extent() <= unit_len(self.rope.content(), R::byte_units())
        &&& R::byte_units() ==> is_ascii_chars(self.rope.content()) && is_ascii_chars(
            self.payload@,
        )
    }

    /// A workload over a candidate built from `text`, sampling over the
    /// candidate's initial length.
    pub fn new(text: &str, payload: &str) -> (w: Self)
        requires
            text@.len() > 0,
            R::byte_units() ==> is_ascii_chars(text@) && is_ascii_chars(payload@),
        ensures
            w.wf(),
            w.content() == text@,
            w.payload() == payload@,
            !w.retreating(),
    {
        let rope = R::from_str(text);
        let extent = rope.len();
        proof {
            if R::byte_units() {
                lemma_byte_len_bounds(text@);
            }
        }
        InsertWorkload {
            rope,
            ranges: CyclicRanges::new(extent),
            retreating: false,
            payload: payload.to_owned(),
        }
    }

    /// Current length in the candidate's native unit.
    pub fn len(&self) -> (n: usize)
        ensures
            n == unit_len(self.content(), R::byte_units()),
    {
        self.rope.len()
    }

    /// The candidate's content as text.
    pub fn content_text(&self) -> (t: String)
        ensures
            t@ == self.content(),
    {
        self.rope.to_text()
    }

    /// One trial: inserts the payload at the sampled anchor. The candidate
    /// grows monotonically; state is never reset.
    pub fn trial(&mut self)
        requires
            old(self).wf(),
        ensures
            final(self).wf(),
            final(self).content() == insert_chars(
                old(self).content(),
                edit_index(old(self).content(), old(self).anchor() as nat, R::byte_units()),
                old(self).payload(),
            ),
            final(self).payload() == old(self).payload(),
            final(self).retreating() == !old(self).retreating(),
    {
        let ghost s = self.rope.content();
        let (a, b) = self.ranges.next();
        let at = if self.retreating {
            b
        } else {
            a
        };
        self.retreating = !self.retreating;
        proof {
            if R::byte_units() {
                lemma_ascii_byte_len(s);
                lemma_ascii_boundary(s, at as nat);
            }
        }
        let ghost k = edit_index(s, at as nat, R::byte_units());
        self.rope.insert(at, self.payload.as_str());
        proof {
            lemma_edit_index(s, at as nat, R::byte_units());
            assert(s =~= s.take(k) + s.skip(k));
            lemma_byte_len_split(s, k);
            lemma_byte_len_concat(s.take(k) + self.payload@, s.skip(k));
            lemma_byte_len_concat(s.take(k), self.payload@);
            assert((s.take(k) + self.payload@) + s.skip(k) =~= insert_chars(s, k, self.payload@));
            if R::byte_units() {
                lemma_ascii_replace(s, k, k, self.payload@);
                assert(insert_chars(s, k, self.payload@) =~= replace_chars(
                    s,
                    k,
                    k,
                    self.payload@,
                ));
            }
        }
    }
}

/// Shrinks a candidate by deleting a fixed number of units at sampled
/// anchors, rebuilding it from the original text when it gets too small.
pub struct DeleteWorkload<R: Rope> {
    rope: R,
    ranges: CyclicRanges,
    retreating: bool,
    payload_units: usize,
    source: String,
    orig_len: usize,
}

impl<R: Rope> DeleteWorkload<R> {
    /// The candidate's current content.
    pub closed spec fn content(self) -> Seq<char> {
        self.rope.content()
    }

    /// The text the candidate is rebuilt from.
    pub closed spec fn source_text(self) -> Seq<char> {
        self.source@
    }

    /// Number of units each trial deletes.
    pub closed spec fn payload_units(self) -> usize {
        self.payload_units
    }

    /// The candidate's original length in its native unit; the rebuild
    /// threshold is a quarter of it.
    pub closed spec fn orig_len(self) -> usize {
        self.orig_len
    }

    /// Whether the next trial anchors at the sampled range's end.
    pub closed spec fn retreating(self) -> bool {
        self.retreating
    }

    /// The unit offset the next trial edits at, before clamping.
    pub closed spec fn anchor(self) -> usize {
        if self.retreating {
            self.ranges.current().1
        } else {
            self.ranges.current().0
        }
    }

    /// The anchor clamped to the current length.
    pub closed spec fn clamped_start(self) -> usize {
        let u = unit_len(self.content(), R::byte_units());
        if self.anchor() as nat > u {
            u as usize
        } else {
            self.anchor()
        }
    }

    /// The delete's end: one payload past the clamped anchor, clamped to
    /// the current length.
    pub closed spec fn clamped_end(self) -> usize {
        let u = unit_len(self.content(), R::byte_units());
        if self.clamped_start() + self.payload_units > u {
            u as usize
        } else {
            (self.clamped_start() + self.payload_units) as usize
        }
    }

    /// The content the next trial's delete leaves, before any rebuild.
    pub closed spec fn shrunk(self) -> Seq<char> {
        delete_chars(
            self.content(),
            edit_index(self.content(), self.clamped_start() as nat, R::byte_units()),
            edit_index(self.content(), self.clamped_end() as nat, R::byte_units()),
        )
    }

    /// The workload's invariant: the original length measures the source
    /// text, and a byte-unit candidate holds pure-ASCII text.
    pub closed spec fn wf(self) -> bool {
        &&& self.ranges.wf()
        &&& self.orig_len == unit_len(self.source@, R::byte_units())
        &&& R::byte_units() ==> is_ascii_chars(self.rope.content()) && is_ascii_chars(self.source@)
    }

    /// A workload over a candidate built from `text`, deleting
    /// `payload_units` units per trial.
    pub fn new(text: &str, payload_units: usize) -> (w: Self)
        requires
            text@.len() > 0,
            R::byte_units() ==> is_ascii_chars(text@),
        ensures
            w.wf(),
            w.content() == text@,
            w.source_text() == text@,
            w.payload_units() == payload_units,
            w.orig_len() == unit_len(text@, R::byte_units()),
            !w.retreating(),
    {
        let rope = R::from_str(text);
        let extent = rope.len();
        proof {
            if R::byte_units() {
                lemma_byte_len_bounds(text@);
            }
        }
        DeleteWorkload {
            rope,
            ranges: CyclicRanges::new(extent),
            retreating: false,
            payload_units,
            source: text.to_owned(),
            orig_len: extent,
        }
    }

    /// Current length in the candidate's native unit.
    pub fn len(&self) -> (n: usize)
        ensures
            n == unit_len(self.content(), R::byte_units()),
    {
        self.rope.len()
    }

    /// The candidate's content as text.
    pub fn content_text(&self) -> (t: String)
        ensures
            t@ == self.content(),
    {
        self.rope.to_text()
    }

    /// One trial: deletes `payload_units` units starting at the clamped
    /// anchor. When that leaves the candidate shorter than a quarter of its
    /// original length, the candidate is rebuilt from the original text
    /// before the next trial, so the benchmark never degenerates to editing
    /// a near-empty buffer.
    pub fn trial(&mut self)
        requires
            old(self).wf(),
        ensures
            final(self).wf(),
            final(self).content() == if unit_len(old(self).shrunk(), R::byte_units()) < old(
                self,
            ).orig_len() / 4 {
                old(self).source_text()
            } else {
                old(self).shrunk()
            },
            final(self).source_text() == old(self).source_text(),
            final(self).payload_units() == old(self).payload_units(),
            final(self).orig_len() == old(self).orig_len(),
            final(self).retreating() == !old(self).retreating(),
    {
        let ghost s = self.rope.content();
        let ghost shrunk = self.shrunk();
        let (a, b) = self.ranges.next();
        let anchor = if self.retreating {
            b
        } else {
            a
        };
        self.retreating = !self.retreating;
        let len = self.rope.len();
        let start = if anchor > len {
            len
        } else {
            anchor
        };
        let end = if self.payload_units > len - start {
            len
        } else {
            start + self.payload_units
        };
        proof {
            if R::byte_units() {
                lemma_ascii_byte_len(s);
                lemma_ascii_boundary(s, start as nat);
                lemma_ascii_boundary(s, end as nat);
            }
            lemma_edit_index(s, start as nat, R::byte_units());
            lemma_edit_index(s, end as nat, R::byte_units());
            lemma_edit_index_ordered(s, start as nat, end as nat, R::byte_units());
        }
        let ghost ka = edit_index(s, start as nat, R::byte_units());
        let ghost kb = edit_index(s, end as nat, R::byte_units());
        self.rope.remove(start, end);
        proof {
            if R::byte_units() {
                lemma_ascii_replace(s, ka, kb, Seq::<char>::empty());
                assert(delete_chars(s, ka, kb) =~= replace_chars(s, ka, kb, Seq::<char>::empty()));
            }
            assert(self.rope.content() == shrunk);
        }
        let shrunk_len = self.rope.len();
        if shrunk_len < self.orig_len / 4 {
            self.rope = R::from_str(self.source.as_str());
        }
    }
}

/// Replaces a fixed number of units at sampled anchors by a fixed payload,
/// keeping the candidate's size roughly stable.
pub struct ReplaceWorkload<R: Rope> {
    rope: R,
    ranges: CyclicRanges,
    retreating: bool,
    payload: String,
    payload_units: usize,
}

impl<R: Rope> ReplaceWorkload<R> {
    /// The candidate's current content.
    pub closed spec fn content(self) -> Seq<char> {
        self.rope.content()
    }

    /// The payload written on every trial.
    pub closed spec fn payload(self) -> Seq<char> {
        self.payload@
    }

    /// Whether the next trial anchors at the sampled range's end.
    pub closed spec fn retreating(self) -> bool {
        self.retreating
    }

    /// The unit offset the next trial edits at, before clamping.
    pub closed spec fn anchor(self) -> usize {
        if self.retreating {
            self.ranges.current().1
        } else {
            self.ranges.current().0
        }
    }

    /// The anchor clamped to the current length.
    pub closed spec fn clamped_start(self) -> usize {
        let u = unit_len(self.content(), R::byte_units());
        if self.anchor() as nat > u {
            u as usize
        } else {
            self.anchor()
        }
    }

    /// The replaced range's end: one payload past the clamped anchor,
    /// clamped to the current length.
    pub closed spec fn clamped_end(self) -> usize {
        let u = unit_len(self.content(), R::byte_units());
        if self.clamped_start() + self.payload_units > u {
            u as usize
        } else {
            (self.clamped_start() + self.payload_units) as usize
        }
    }

    /// The workload's invariant: the stored unit count measures the
    /// payload, and a byte-unit candidate holds pure-ASCII text.
    pub closed spec fn wf(self) -> bool {
        &&& self.ranges.wf()
        &&& self.payload_units == unit_len(self.payload@, R::byte_units())
        &&& R::byte_units() ==> is_ascii_chars(self.rope.content()) && is_ascii_chars(
            self.payload@,
        )
    }

    /// A workload over a candidate built from `text`, replacing one
    /// payload's worth of units per trial.
    pub fn new(text: &str, payload: &str) -> (w: Self)
        requires
            text@.len() > 0,
            R::byte_units() ==> is_ascii_chars(text@) && is_ascii_chars(payload@),
        ensures
            w.wf(),
            w.content() == text@,
            w.payload() == payload@,
            !w.retreating(),
    {
        let rope = R::from_str(text);
        let extent = rope.len();
        let payload_units = if R::edits_use_byte_offsets() {
            proof {
                crate::text::lemma_byte_len_is_encoding_len(payload@);
            }
            payload.as_bytes().len()
        } else {
            payload.unicode_len()
        };
        proof {
            if R::byte_units() {
                lemma_byte_len_bounds(text@);
            }
        }
        ReplaceWorkload {
            rope,
            ranges: CyclicRanges::new(extent),
            retreating: false,
            payload: payload.to_owned(),
            payload_units,
        }
    }

    /// Current length in the candidate's native unit.
    pub fn len(&self) -> (n: usize)
        ensures
            n == unit_len(self.content(), R::byte_units()),
    {
        self.rope.len()
    }

    /// The candidate's content as text.
    pub fn content_text(&self) -> (t: String)
        ensures
            t@ == self.content(),
    {
        self.rope.to_text()
    }

    /// One trial: replaces the units between the clamped anchor and one
    /// payload past it by the payload. No reset logic: the size stays
    /// roughly stable because the replaced length is at most the payload's.
    pub fn trial(&mut self)
        requires
            old(self).wf(),
        ensures
            final(self).wf(),
            final(self).content() == replace_chars(
                old(self).content(),
                edit_index(old(self).content(), old(self).clamped_start() as nat, R::byte_units()),
                edit_index(old(self).content(), old(self).clamped_end() as nat, R::byte_units()),
                old(self).payload(),
            ),
            final(self).payload() == old(self).payload(),
            final(self).retreating() == !old(self).retreating(),
    {
        let ghost s = self.rope.content();
        let (a, b) = self.ranges.next();
        let anchor = if self.retreating {
            b
        } else {
            a
        };
        self.retreating = !self.retreating;
        let len = self.rope.len();
        let start = if anchor > len {
            len
        } else {
            anchor
        };
        let end = if self.payload_units > len - start {
            len
        } else {
            start + self.payload_units
        };
        proof {
            if R::byte_units() {
                lemma_ascii_byte_len(s);
                lemma_ascii_boundary(s, start as nat);
                lemma_ascii_boundary(s, end as nat);
            }
            lemma_edit_index(s, start as nat, R::byte_units());
            lemma_edit_index(s, end as nat, R::byte_units());
            lemma_edit_index_ordered(s, start as nat, end as nat, R::byte_units());
        }
        let ghost ka = edit_index(s, start as nat, R::byte_units());
        let ghost kb = edit_index(s, end as nat, R::byte_units());
        self.rope.replace(start, end, self.payload.as_str());
        proof {
            if R::byte_units() {
                lemma_ascii_replace(s, ka, kb, self.payload@);
            }
        }
    }
}

/// Reads windows of a candidate at sampled ranges without mutating it.
pub struct SliceWorkload<R: Rope> {
    rope: R,
    ranges: CyclicRanges,
}

impl<R: Rope> SliceWorkload<R> {
    /// The candidate's content, fixed for the workload's lifetime.
    pub closed spec fn content(self) -> Seq<char> {
        self.rope.content()
    }

    /// The range the next trial reads.
    pub closed spec fn window(self) -> (usize, usize) {
        self.ranges.current()
    }

    /// The workload's invariant: the sampler stays within the content, and
    /// a byte-unit candidate holds pure-ASCII text.
    pub closed spec fn wf(self) -> bool {
        &&& self.ranges.wf()
        &&& self.ranges.spec_extent() <= unit_len(self.rope.content(), R::byte_units())
        &&& R::byte_units() ==> is_ascii_chars(self.rope.content())
    }

    /// A workload over a candidate built from `text`.
    pub fn new(text: &str) -> (w: Self)
        requires
            text@.len() > 0,
            R::byte_units() ==> is_ascii_chars(text@),
        ensures
            w.wf(),
            w.content() == text@,
    {
        let rope = R::from_str(text);
        let extent = rope.len();
        proof {
            if R::byte_units() {
                lemma_byte_len_bounds(text@);
            }
        }
        SliceWorkload { rope, ranges: CyclicRanges::new(extent) }
    }

    /// One trial: reads the sampled window of the content as text.
    pub fn trial(&mut self) -> (t: String)
        requires
            old(self).wf(),
        ensures
            final(self).wf(),
            final(self).content() == old(self).content(),
            t@ == old(self).content().subrange(
                edit_index(old(self).content(), old(self).window().0 as nat, R::byte_units()),
                edit_index(old(self).content(), old(self).window().1 as nat, R::byte_units()),
            ),
    {
        let ghost s = self.rope.content();
        let (a, b) = self.ranges.next();
        proof {
            if R::byte_units() {
                lemma_ascii_byte_len(s);
                lemma_ascii_boundary(s, a as nat);
                lemma_ascii_boundary(s, b as nat);
            }
        }
        self.rope.slice_text(a, b)
    }
}

} // verus!
