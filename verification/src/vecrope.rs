//! Two fully verified flat-buffer candidates.
//!
//! [`VecRope`] addresses its content in codepoint units and [`Utf8Rope`] in
//! byte units. Neither is a serious contender performance-wise; they are the
//! reference models the contract is demonstrated on, and the pair exercises
//! both offset units end to end.

use vstd::prelude::*;

use vstd::string::StringSliceAdditionalSpecFns;

use crate::rope::Rope;
use crate::text::{
    chars_to_string, delete_chars, edit_index, replace_chars, splice_chars, str_to_chars,
};

verus! {

/// A flat buffer of characters, addressed in codepoint units.
pub struct VecRope {
    chars: Vec<char>,
}

impl Rope for VecRope {
    closed spec fn content(&self) -> Seq<char> {
        self.chars@
    }

    closed spec fn byte_units() -> bool {
        false
    }

    fn edits_use_byte_offsets() -> (b: bool) {
        false
    }

    fn from_str(s: &str) -> (r: Self) {
        VecRope { chars: str_to_chars(s) }
    }

    fn len(&self) -> (n: usize) {
        self.chars.len()
    }

    fn insert(&mut self, at_offset: usize, text: &str) {
        let spliced = splice_chars(&self.chars, at_offset, at_offset, text);
        self.chars = spliced;
    }

    fn remove(&mut self, start: usize, end: usize) {
        let spliced = splice_chars(&self.chars, start, end, "");
        self.chars = spliced;
        proof {
            reveal_strlit("");
            assert(final(self).content() =~= old(self).content().take(start as int) + old(
                self,
            ).content().skip(end as int));
        }
    }

    fn to_text(&self) -> (t: String) {
        chars_to_string(&self.chars)
    }
}

/// A flat buffer holding the UTF-8 encoding of its content, addressed in
/// byte units.
pub struct Utf8Rope {
    bytes: Vec<u8>,
}

impl Utf8Rope {
    /// The buffer always holds a valid UTF-8 encoding.
    #[verifier::type_invariant]
    spec fn inv(self) -> bool {
        vstd::utf8::valid_utf8(self.bytes@)
    }
}

/// Splicing the UTF-8 encoding of a content at byte boundaries is the
/// encoding of splicing the content at the character indices those
/// boundaries address.
proof fn lemma_utf8_splice(bytes: Seq<u8>, off: nat, off2: nat, t: Seq<char>)
    requires
        vstd::utf8::valid_utf8(bytes),
        off <= off2,
        crate::text::is_byte_boundary(vstd::utf8::decode_utf8(bytes), off),
        crate::text::is_byte_boundary(vstd::utf8::decode_utf8(bytes), off2),
    ensures
        off2 <= bytes.len(),
        vstd::utf8::valid_utf8(
            bytes.take(off as int) + vstd::utf8::encode_utf8(t) + bytes.skip(off2 as int),
        ),
        vstd::utf8::decode_utf8(
            bytes.take(off as int) + vstd::utf8::encode_utf8(t) + bytes.skip(off2 as int),
        ) == replace_chars(
            vstd::utf8::decode_utf8(bytes),
            crate::text::byte_boundary_index(vstd::utf8::decode_utf8(bytes), off),
            crate::text::byte_boundary_index(vstd::utf8::decode_utf8(bytes), off2),
            t,
        ),
{
    let s = vstd::utf8::decode_utf8(bytes);
    vstd::utf8::decode_utf8_encode_utf8(bytes);
    let a = crate::text::byte_boundary_index(s, off);
    let b = crate::text::byte_boundary_index(s, off2);
    crate::text::lemma_byte_boundary_index(s, off);
    crate::text::lemma_byte_boundary_index(s, off2);
    crate::text::lemma_edit_index_ordered(s, off, off2, true);
    crate::text::lemma_byte_len_is_encoding_len(s.take(a));
    crate::text::lemma_byte_len_is_encoding_len(s.take(b));
    assert(s =~= s.take(a) + s.skip(a));
    crate::text::lemma_encode_utf8_concat(s.take(a), s.skip(a));
    assert(s =~= s.take(b) + s.skip(b));
    crate::text::lemma_encode_utf8_concat(s.take(b), s.skip(b));
    assert(bytes == vstd::utf8::encode_utf8(s.take(a)) + vstd::utf8::encode_utf8(s.skip(a)));
    assert(bytes.take(off as int) =~= vstd::utf8::encode_utf8(s.take(a)));
    assert(bytes.skip(off2 as int) =~= vstd::utf8::encode_utf8(s.skip(b)));
    let spliced = replace_chars(s, a, b, t);
    crate::text::lemma_encode_utf8_concat(s.take(a) + t, s.skip(b));
    crate::text::lemma_encode_utf8_concat(s.take(a), t);
    assert(spliced =~= (s.take(a) + t) + s.skip(b));
    assert(bytes.take(off as int) + vstd::utf8::encode_utf8(t) + bytes.skip(off2 as int)
        =~= vstd::utf8::encode_utf8(spliced));
    vstd::utf8::encode_utf8_valid_utf8(spliced);
    vstd::utf8::encode_utf8_decode_utf8(spliced);
}

impl Rope for Utf8Rope {
    closed spec fn content(&self) -> Seq<char> {
        vstd::utf8::decode_utf8(self.bytes@)
    }

    closed spec fn byte_units() -> bool {
        true
    }

    fn edits_use_byte_offsets() -> (b: bool) {
        true
    }

    fn from_str(s: &str) -> (r: Self) {
        let bytes = s.as_bytes_vec();
        proof {
            vstd::utf8::encode_utf8_valid_utf8(s@);
            vstd::utf8::encode_utf8_decode_utf8(s@);
        }
        Utf8Rope { bytes }
    }

    fn len(&self) -> (n: usize) {
        proof {
            use_type_invariant(&*self);
            vstd::utf8::decode_utf8_encode_utf8(self.bytes@);
            crate::text::lemma_byte_len_is_encoding_len(self.content());
        }
        self.bytes.len()
    }

    fn insert(&mut self, at_offset: usize, text: &str) {
        proof {
            use_type_invariant(&*self);
            lemma_utf8_splice(self.bytes@, at_offset as nat, at_offset as nat, text@);
        }
        let spliced = splice_bytes(&self.bytes, at_offset, at_offset, text);
        *self = Utf8Rope { bytes: spliced };
    }

    fn remove(&mut self, start: usize, end: usize) {
        proof {
            use_type_invariant(&*self);
            lemma_utf8_splice(self.bytes@, start as nat, end as nat, ""@);
            reveal_strlit("");
            assert(vstd::utf8::encode_utf8(""@) =~= Seq::<u8>::empty());
            assert(replace_chars(
                old(self).content(),
                edit_index(old(self).content(), start as nat, true),
                edit_index(old(self).content(), end as nat, true),
                ""@,
            ) =~= delete_chars(
                old(self).content(),
                edit_index(old(self).content(), start as nat, true),
                edit_index(old(self).content(), end as nat, true),
            ));
        }
        let spliced = splice_bytes(&self.bytes, start, end, "");
        proof {
            assert(spliced@ =~= self.bytes@.take(start as int) + vstd::utf8::encode_utf8(""@)
                + self.bytes@.skip(end as int));
        }
        *self = Utf8Rope { bytes: spliced };
    }

    fn to_text(&self) -> (t: String) {
        proof {
            use_type_invariant(&*self);
        }
        string_from_utf8(&self.bytes)
    }
}

/// Relies on `String::from_utf8`: converts a vector of bytes holding valid
/// UTF-8 into the string of the characters it encodes.
#[verifier::external_body]
fn string_from_utf8(v: &Vec<u8>) -> (r: String)
    requires
        vstd::utf8::valid_utf8(v@),
    ensures
        r@ == vstd::utf8::decode_utf8(v@),
{
    match String::from_utf8(v.clone()) {
        Ok(s) => s,
        Err(_) => String::new(),
    }
}

/// The bytes of `v` with `[a, b)` replaced by the UTF-8 encoding of `t`.
fn splice_bytes(v: &Vec<u8>, a: usize, b: usize, t: &str) -> (r: Vec<u8>)
    requires
        a <= b <= v@.len(),
    ensures
        r@ == v@.take(a as int) + t.spec_bytes() + v@.skip(b as int),
{
    let tb = t.as_bytes();
    let mut r: Vec<u8> = Vec::new();
    let mut i: usize = 0;
    while i < a
        invariant
            i <= a <= b <= v@.len(),
            r@ == v@.take(i as int),
        decreases a - i,
    {
        r.push(v[i]);
        i = i + 1;
        proof {
            assert(v@.take(i as int) =~= v@.take(i - 1).push(v@[i - 1]));
        }
    }
    let mut j: usize = 0;
    while j < tb.len()
        invariant
            j <= tb@.len(),
            a <= b <= v@.len(),
            tb@ == t.spec_bytes(),
            r@ == v@.take(a as int) + tb@.take(j as int),
        decreases tb@.len() - j,
    {
        r.push(tb[j]);
        j = j + 1;
        proof {
            assert(v@.take(a as int) + tb@.take(j as int) =~= (v@.take(a as int) + tb@.take(j - 1))
                .push(tb@[j - 1]));
        }
    }
    proof {
        assert(tb@.take(tb@.len() as int) =~= tb@);
    }
    let mut k: usize = b;
    while k < v.len()
        invariant
            b <= k <= v@.len(),
            a <= b,
            tb@ == t.spec_bytes(),
            r@ == v@.take(a as int) + tb@ + v@.subrange(b as int, k as int),
        decreases v@.len() - k,
    {
        r.push(v[k]);
        k = k + 1;
        proof {
            assert(v@.take(a as int) + tb@ + v@.subrange(b as int, k as int) =~= (v@.take(a as int)
                + tb@ + v@.subrange(b as int, k - 1)).push(v@[k - 1]));
        }
    }
    proof {
        assert(v@.subrange(b as int, v@.len() as int) =~= v@.skip(b as int));
    }
    r
}

} // verus!
