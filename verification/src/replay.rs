//! The trace replay engine.
//!
//! A [`Trace`] is a recorded editing session: a starting content, an ordered
//! sequence of transactions each holding ordered patches, and the expected
//! final content. Replaying builds a candidate from the starting content and
//! applies every patch in recorded order through [`Rope::replace`]; the
//! candidate's final length must come out equal to the expected content's
//! length in the candidate's native unit, else the candidate diverged from
//! the reference session.
//!
//! Patch positions and lengths are recorded in codepoint units. For a
//! candidate that edits in byte units the engine converts each patch against
//! the evolving text just before applying it, which preserves correctness
//! because earlier patches shift the offsets of later ones.

use vstd::prelude::*;

use crate::rope::Rope;
use crate::text::{
    byte_len, char_utf8_len, lemma_byte_len_concat, lemma_byte_len_is_encoding_len,
    lemma_prefix_byte_len_le, lemma_prefix_is_boundary, replace_chars, splice_chars,
    str_to_chars, unit_len,
};
use vstd::string::StrSliceExecFns;

verus! {

/// One recorded edit: at codepoint position `pos`, delete `del` codepoints
/// and insert `ins` in their place.
pub struct Patch {
    pub pos: usize,
    pub del: usize,
    pub ins: String,
}

/// An ordered group of patches applied as one trace step.
pub struct Transaction {
    pub patches: Vec<Patch>,
}

/// A recorded editing session with its expected outcome.
pub struct Trace {
    pub start_content: String,
    pub txns: Vec<Transaction>,
    pub end_content: String,
}

impl Patch {
    /// The patch stays inside a content of this shape.
    pub open spec fn applies_to(self, s: Seq<char>) -> bool {
        self.pos + self.del <= s.len()
    }

    /// The content after this patch.
    pub open spec fn apply(self, s: Seq<char>) -> Seq<char> {
        replace_chars(s, self.pos as int, self.pos + self.del, self.ins@)
    }
}

/// The content after applying `ps` in order, starting from `s`.
pub open spec fn apply_patches(s: Seq<char>, ps: Seq<Patch>) -> Seq<char>
    decreases ps.len(),
{
    if ps.len() == 0 {
        s
    } else {
        apply_patches(ps[0].apply(s), ps.drop_first())
    }
}

/// Every patch of `ps` stays inside the content it is applied to.
pub open spec fn patches_ok(s: Seq<char>, ps: Seq<Patch>) -> bool
    decreases ps.len(),
{
    if ps.len() == 0 {
        true
    } else {
        ps[0].applies_to(s) && patches_ok(ps[0].apply(s), ps.drop_first())
    }
}

/// The content after applying the patches of every transaction in order.
pub open spec fn apply_txns(s: Seq<char>, ts: Seq<Transaction>) -> Seq<char>
    decreases ts.len(),
{
    if ts.len() == 0 {
        s
    } else {
        apply_txns(apply_patches(s, ts[0].patches@), ts.drop_first())
    }
}

/// Every patch of every transaction stays inside the evolving content.
pub open spec fn txns_ok(s: Seq<char>, ts: Seq<Transaction>) -> bool
    decreases ts.len(),
{
    if ts.len() == 0 {
        true
    } else {
        patches_ok(s, ts[0].patches@) && txns_ok(apply_patches(s, ts[0].patches@), ts.drop_first())
    }
}

impl Trace {
    /// The trace invariant: every patch stays inside the evolving content.
    pub open spec fn ok(self) -> bool {
        txns_ok(self.start_content@, self.txns@)
    }

    /// The content the recorded session ends in.
    pub open spec fn replayed(self) -> Seq<char> {
        apply_txns(self.start_content@, self.txns@)
    }
}

/// How a replay failed.
#[derive(Clone, Copy, Debug, PartialEq, Eq)]
pub enum ReplayError {
    /// A patch reached outside the content it was applied to: the trace
    /// itself is malformed.
    MalformedTrace,
    /// The candidate's final length differs from the expected end content's
    /// length in the candidate's unit: the candidate diverged.
    LengthMismatch,
}

/// Appending one patch to a batch applies it to the batch's result.
proof fn lemma_patches_snoc(s: Seq<char>, ps: Seq<Patch>, p: Patch)
    ensures
        apply_patches(s, ps.push(p)) == p.apply(apply_patches(s, ps)),
        patches_ok(s, ps.push(p)) <==> (patches_ok(s, ps) && p.applies_to(apply_patches(s, ps))),
    decreases ps.len(),
{
    if ps.len() == 0 {
        reveal_with_fuel(apply_patches, 2);
        reveal_with_fuel(patches_ok, 2);
        assert(ps.push(p)[0] == p);
        assert(ps.push(p).drop_first() =~= Seq::<Patch>::empty());
    } else {
        assert(ps.push(p)[0] == ps[0]);
        assert(ps.push(p).drop_first() =~= ps.drop_first().push(p));
        lemma_patches_snoc(ps[0].apply(s), ps.drop_first(), p);
    }
}

/// Appending one transaction to a sequence applies its patches to the
/// sequence's result.
proof fn lemma_txns_snoc(s: Seq<char>, ts: Seq<Transaction>, t: Transaction)
    ensures
        apply_txns(s, ts.push(t)) == apply_patches(apply_txns(s, ts), t.patches@),
        txns_ok(s, ts.push(t)) <==> (txns_ok(s, ts) && patches_ok(apply_txns(s, ts), t.patches@)),
    decreases ts.len(),
{
    if ts.len() == 0 {
        reveal_with_fuel(apply_txns, 2);
        reveal_with_fuel(txns_ok, 2);
        assert(ts.push(t)[0] == t);
        assert(ts.push(t).drop_first() =~= Seq::<Transaction>::empty());
    } else {
        assert(ts.push(t)[0] == ts[0]);
        assert(ts.push(t).drop_first() =~= ts.drop_first().push(t));
        lemma_txns_snoc(apply_patches(s, ts[0].patches@), ts.drop_first(), t);
    }
}

/// The byte length of the first `k` characters of `v`.
fn byte_offset_of(v: &Vec<char>, k: usize) -> (b: usize)
    requires
        k <= v@.len(),
        byte_len(v@) <= usize::MAX,
    ensures
        b == byte_len(v@.take(k as int)),
{
    let mut b: usize = 0;
    let mut i: usize = 0;
    while i < k
        invariant
            i <= k <= v@.len(),
            b == byte_len(v@.take(i as int)),
            byte_len(v@) <= usize::MAX,
        decreases k - i,
    {
        proof {
            assert(v@.take(i + 1) =~= v@.take(i as int) + seq![v@[i as int]]);
            lemma_byte_len_concat(v@.take(i as int), seq![v@[i as int]]);
            crate::text::lemma_byte_len_singleton(v@[i as int]);
            lemma_prefix_byte_len_le(v@, i + 1);
        }
        b = b + char_utf8_len(v[i]);
        i = i + 1;
    }
    b
}

/// Unit independence of replay: the replayed content is a function of the
/// trace alone, never of the candidate's offset unit. Any two candidates a
/// replay of the same trace returned — one may edit in byte offsets, the
/// other in codepoint offsets, so the raw offsets fed to each differed —
/// hold the same characters, and hence byte-for-byte identical text once
/// encoded.
pub proof fn lemma_replay_unit_independent<R1: Rope, R2: Rope>(trace: Trace, r1: R1, r2: R2)
    requires
        r1.content() == trace.replayed(),
        r2.content() == trace.replayed(),
    ensures
        r1.content() == r2.content(),
        vstd::utf8::encode_utf8(r1.content()) == vstd::utf8::encode_utf8(r2.content()),
{
}

/// Replays `trace` against a fresh candidate built from the trace's starting
/// content, applying every patch of every transaction in recorded order, and
/// checks the candidate's final length against the expected end content.
///
/// Returns the candidate when the trace is well formed and the final length
/// matches; `MalformedTrace` exactly when some patch reaches outside the
/// evolving content; `LengthMismatch` exactly when the trace is well formed
/// but the replayed content's length differs from the expected end content's
/// length in the candidate's unit.
pub fn replay<R: Rope>(trace: &Trace) -> (r: Result<R, ReplayError>)
    ensures
        r is Ok <==> (trace.ok() && unit_len(trace.replayed(), R::byte_units()) == unit_len(
            trace.end_content@,
            R::byte_units(),
        )),
        r matches Ok(rope) ==> rope.content() == trace.replayed(),
        r matches Err(e) && e == ReplayError::MalformedTrace <==> !trace.ok(),
        r matches Err(e) && e == ReplayError::LengthMismatch <==> (trace.ok() && unit_len(
            trace.replayed(),
            R::byte_units(),
        ) != unit_len(trace.end_content@, R::byte_units())),
{
    let byte_offsets = R::edits_use_byte_offsets();
    let mut rope: R = R::from_str(trace.start_content.as_str());
    let mut shadow: Vec<char> = str_to_chars(trace.start_content.as_str());
    let ghost start = trace.start_content@;
    let ghost all_txns = trace.txns@;
    let mut ti: usize = 0;
    proof {
        assert(all_txns.take(0) =~= Seq::<Transaction>::empty());
        assert(all_txns.skip(0) =~= all_txns);
    }
    while ti < trace.txns.len()
        invariant
            ti <= all_txns.len(),
            all_txns == trace.txns@,
            start == trace.start_content@,
            shadow@ == apply_txns(start, all_txns.take(ti as int)),
            txns_ok(start, all_txns.take(ti as int)),
            rope.content() == shadow@,
            byte_offsets == R::byte_units(),
            trace.ok() <==> txns_ok(shadow@, all_txns.skip(ti as int)),
            trace.replayed() == apply_txns(shadow@, all_txns.skip(ti as int)),
        decreases all_txns.len() - ti,
    {
        let t = &trace.txns[ti];
        let ghost s0 = shadow@;
        let ghost ps = t.patches@;
        let mut pi: usize = 0;
        proof {
            assert(ps.take(0) =~= Seq::<Patch>::empty());
            assert(ps.skip(0) =~= ps);
            assert(all_txns.skip(ti as int)[0] == all_txns[ti as int]);
        }
        while pi < t.patches.len()
            invariant
                pi <= ps.len(),
                ps == t.patches@,
                t == trace.txns@[ti as int],
                ti < all_txns.len(),
                all_txns == trace.txns@,
                start == trace.start_content@,
                s0 == apply_txns(start, all_txns.take(ti as int)),
                txns_ok(start, all_txns.take(ti as int)),
                shadow@ == apply_patches(s0, ps.take(pi as int)),
                patches_ok(s0, ps.take(pi as int)),
                rope.content() == shadow@,
                byte_offsets == R::byte_units(),
                trace.ok() <==> txns_ok(s0, all_txns.skip(ti as int)),
                trace.replayed() == apply_txns(s0, all_txns.skip(ti as int)),
                patches_ok(s0, ps) <==> patches_ok(shadow@, ps.skip(pi as int)),
                apply_patches(s0, ps) == apply_patches(shadow@, ps.skip(pi as int)),
            decreases ps.len() - pi,
        {
            let p = &trace.txns[ti].patches[pi];
            let ghost pg = ps[pi as int];
            proof {
                assert(ps.skip(pi as int)[0] == ps[pi as int]);
                assert(ps.skip(pi as int).drop_first() =~= ps.skip(pi + 1));
            }
            if p.del > shadow.len() || p.pos > shadow.len() - p.del {
                proof {
                    assert(!pg.applies_to(shadow@));
                    assert(!patches_ok(shadow@, ps.skip(pi as int)));
                    assert(!patches_ok(s0, ps));
                    assert(!txns_ok(s0, all_txns.skip(ti as int)));
                }
                return Err(ReplayError::MalformedTrace);
            }
            let ghost pre = shadow@;
            if byte_offsets {
                let total = rope.len();
                proof {
                    assert(total == byte_len(shadow@));
                }
                let b_start = byte_offset_of(&shadow, p.pos);
                let b_end = byte_offset_of(&shadow, p.pos + p.del);
                proof {
                    crate::text::lemma_prefix_byte_len_increases(
                        shadow@,
                        p.pos as int,
                        p.pos + p.del,
                    );
                    lemma_prefix_is_boundary(shadow@, p.pos as int);
                    lemma_prefix_is_boundary(shadow@, p.pos + p.del);
                }
                rope.replace(b_start, b_end, p.ins.as_str());
            } else {
                rope.replace(p.pos, p.pos + p.del, p.ins.as_str());
            }
            let spliced = splice_chars(&shadow, p.pos, p.pos + p.del, p.ins.as_str());
            shadow = spliced;
            pi = pi + 1;
            proof {
                assert(shadow@ == pg.apply(pre));
                assert(ps.take(pi as int) =~= ps.take(pi - 1).push(pg));
                lemma_patches_snoc(s0, ps.take(pi - 1), pg);
                assert(patches_ok(pre, ps.skip(pi - 1)) <==> (pg.applies_to(pre) && patches_ok(
                    shadow@,
                    ps.skip(pi as int),
                )));
            }
        }
        ti = ti + 1;
        proof {
            assert(ps.take(ps.len() as int) =~= ps);
            assert(ps.skip(ps.len() as int) =~= Seq::<Patch>::empty());
            assert(all_txns.take(ti as int) =~= all_txns.take(ti - 1).push(all_txns[ti - 1]));
            lemma_txns_snoc(start, all_txns.take(ti - 1), all_txns[ti - 1]);
            assert(all_txns.skip(ti - 1)[0] == all_txns[ti - 1]);
            assert(all_txns.skip(ti - 1).drop_first() =~= all_txns.skip(ti as int));
        }
    }
    proof {
        assert(all_txns.take(all_txns.len() as int) =~= all_txns);
        assert(all_txns.skip(all_txns.len() as int) =~= Seq::<Transaction>::empty());
    }
    let got = rope.len();
    let want = if byte_offsets {
        proof {
            lemma_byte_len_is_encoding_len(trace.end_content@);
        }
        trace.end_content.as_str().as_bytes().len()
    } else {
        trace.end_content.as_str().unicode_len()
    };
    if got == want {
        Ok(rope)
    } else {
        Err(ReplayError::LengthMismatch)
    }
}

} // verus!
