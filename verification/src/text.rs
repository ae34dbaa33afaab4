//! The mathematical model of buffer contents.
//!
//! A buffer's content is modelled as a sequence of characters. Candidate
//! implementations address that content either in codepoint units (one unit
//! per character) or in byte units (one unit per byte of the UTF-8 encoding),
//! so the model provides both length measures, the notion of a valid edit
//! boundary in either unit, and the three primitive edits (insert, delete,
//! replace) as splices on the character sequence.

use vstd::prelude::*;
use vstd::string::StrSliceExecFns;

verus! {

/// Number of bytes in the UTF-8 encoding of one character.
pub open spec fn utf8_len(c: char) -> nat {
    if (c as u32) < 0x80 {
        1
    } else if (c as u32) < 0x800 {
        2
    } else if (c as u32) < 0x10000 {
        3
    } else {
        4
    }
}

/// Number of bytes in the UTF-8 encoding of a character sequence.
pub open spec fn byte_len(s: Seq<char>) -> nat
    decreases s.len(),
{
    if s.len() == 0 {
        0
    } else {
        utf8_len(s.first()) + byte_len(s.drop_first())
    }
}

/// Length of a content in the unit a candidate uses: bytes of the UTF-8
/// encoding when `byte_units` holds, characters otherwise.
pub open spec fn unit_len(s: Seq<char>, byte_units: bool) -> nat {
    if byte_units {
        byte_len(s)
    } else {
        s.len()
    }
}

/// `off` is the byte length of some character prefix of `s`, i.e. a byte
/// offset that lies on a character boundary of the UTF-8 encoding of `s`.
pub open spec fn is_byte_boundary(s: Seq<char>, off: nat) -> bool {
    exists|k: int| 0 <= k <= s.len() && off == #[trigger] byte_len(s.take(k))
}

/// The character index whose prefix has byte length `off`; meaningful only
/// when `is_byte_boundary(s, off)` holds, and then unique
/// (see [`lemma_byte_boundary_index`]).
pub open spec fn byte_boundary_index(s: Seq<char>, off: nat) -> int {
    choose|k: int| 0 <= k <= s.len() && off == #[trigger] byte_len(s.take(k))
}

/// `off` is a valid edit boundary of `s` in the given unit.
pub open spec fn is_edit_boundary(s: Seq<char>, off: nat, byte_units: bool) -> bool {
    if byte_units {
        is_byte_boundary(s, off)
    } else {
        off <= s.len()
    }
}

/// The character index a unit offset addresses: the offset itself in
/// codepoint units, the index of the boundary in byte units.
pub open spec fn edit_index(s: Seq<char>, off: nat, byte_units: bool) -> int {
    if byte_units {
        byte_boundary_index(s, off)
    } else {
        off as int
    }
}

/// Content of `s` with `t` inserted before character index `k`.
pub open spec fn insert_chars(s: Seq<char>, k: int, t: Seq<char>) -> Seq<char> {
    s.take(k) + t + s.skip(k)
}

/// Content of `s` with the characters in `[a, b)` removed.
pub open spec fn delete_chars(s: Seq<char>, a: int, b: int) -> Seq<char> {
    s.take(a) + s.skip(b)
}

/// Content of `s` with the characters in `[a, b)` replaced by `t`.
pub open spec fn replace_chars(s: Seq<char>, a: int, b: int, t: Seq<char>) -> Seq<char> {
    s.take(a) + t + s.skip(b)
}

/// The byte length of a concatenation is the sum of the byte lengths.
pub proof fn lemma_byte_len_concat(a: Seq<char>, b: Seq<char>)
    ensures
        byte_len(a + b) == byte_len(a) + byte_len(b),
    decreases a.len(),
{
    if a.len() == 0 {
        assert(a + b =~= b);
    } else {
        assert((a + b).drop_first() =~= a.drop_first() + b);
        assert((a + b).first() == a.first());
        lemma_byte_len_concat(a.drop_first(), b);
    }
}

/// Every character takes between one and four bytes.
pub proof fn lemma_byte_len_bounds(s: Seq<char>)
    ensures
        s.len() <= byte_len(s) <= 4 * s.len(),
    decreases s.len(),
{
    if s.len() > 0 {
        lemma_byte_len_bounds(s.drop_first());
    }
}

/// Splitting a content at a character index splits its byte length.
pub proof fn lemma_byte_len_split(s: Seq<char>, k: int)
    requires
        0 <= k <= s.len(),
    ensures
        byte_len(s) == byte_len(s.take(k)) + byte_len(s.skip(k)),
{
    assert(s =~= s.take(k) + s.skip(k));
    lemma_byte_len_concat(s.take(k), s.skip(k));
}

/// A longer character prefix has a strictly larger byte length.
pub proof fn lemma_prefix_byte_len_increases(s: Seq<char>, k1: int, k2: int)
    requires
        0 <= k1 <= k2 <= s.len(),
    ensures
        byte_len(s.take(k1)) + (k2 - k1) <= byte_len(s.take(k2)),
{
    assert(s.take(k2) =~= s.take(k1) + s.take(k2).skip(k1));
    lemma_byte_len_concat(s.take(k1), s.take(k2).skip(k1));
    lemma_byte_len_bounds(s.take(k2).skip(k1));
}

/// On a boundary, `byte_boundary_index` picks the one character index whose
/// prefix has exactly that byte length.
pub proof fn lemma_byte_boundary_index(s: Seq<char>, off: nat)
    requires
        is_byte_boundary(s, off),
    ensures
        0 <= byte_boundary_index(s, off) <= s.len(),
        byte_len(s.take(byte_boundary_index(s, off))) == off,
        forall|k: int|
            0 <= k <= s.len() && off == #[trigger] byte_len(s.take(k)) ==> k
                == byte_boundary_index(s, off),
{
    let k0 = byte_boundary_index(s, off);
    assert(0 <= k0 <= s.len() && off == byte_len(s.take(k0)));
    assert forall|k: int|
        0 <= k <= s.len() && off == #[trigger] byte_len(s.take(k)) implies k == k0 by {
        if k < k0 {
            lemma_prefix_byte_len_increases(s, k, k0);
        } else if k0 < k {
            lemma_prefix_byte_len_increases(s, k0, k);
        }
    }
}

/// The byte length of any character prefix is a boundary, and it addresses
/// exactly that prefix's length as a character index.
pub proof fn lemma_prefix_is_boundary(s: Seq<char>, k: int)
    requires
        0 <= k <= s.len(),
    ensures
        is_byte_boundary(s, byte_len(s.take(k))),
        byte_boundary_index(s, byte_len(s.take(k))) == k,
{
    assert(0 <= k <= s.len() && byte_len(s.take(k)) == byte_len(s.take(k)));
    lemma_byte_boundary_index(s, byte_len(s.take(k)));
}

/// A single character's byte length is its UTF-8 width.
pub proof fn lemma_byte_len_singleton(c: char)
    ensures
        byte_len(seq![c]) == utf8_len(c),
{
    reveal_with_fuel(byte_len, 2);
    assert(seq![c].drop_first() =~= Seq::<char>::empty());
    assert(seq![c].first() == c);
}

/// A character prefix never has more bytes than the whole content.
pub proof fn lemma_prefix_byte_len_le(s: Seq<char>, k: int)
    requires
        0 <= k <= s.len(),
    ensures
        byte_len(s.take(k)) <= byte_len(s),
{
    lemma_byte_len_split(s, k);
}

/// Ordered unit offsets on boundaries address ordered character indices.
pub proof fn lemma_edit_index_ordered(s: Seq<char>, off1: nat, off2: nat, byte_units: bool)
    requires
        off1 <= off2,
        is_edit_boundary(s, off1, byte_units),
        is_edit_boundary(s, off2, byte_units),
    ensures
        edit_index(s, off1, byte_units) <= edit_index(s, off2, byte_units),
{
    if byte_units {
        lemma_byte_boundary_index(s, off1);
        lemma_byte_boundary_index(s, off2);
        let k1 = byte_boundary_index(s, off1);
        let k2 = byte_boundary_index(s, off2);
        if k2 < k1 {
            lemma_prefix_byte_len_increases(s, k2, k1);
        }
    }
}

/// Replacing `[a, b)` by `t` is deleting `[a, b)` and then inserting `t` at
/// the character index `a` of the shortened content: the delete removes
/// `[a, b)` first, which leaves `a` as the correct insertion point.
pub proof fn lemma_replace_is_delete_then_insert(s: Seq<char>, a: int, b: int, t: Seq<char>)
    requires
        0 <= a <= b <= s.len(),
    ensures
        replace_chars(s, a, b, t) == insert_chars(delete_chars(s, a, b), a, t),
{
    assert(delete_chars(s, a, b).take(a) =~= s.take(a));
    assert(delete_chars(s, a, b).skip(a) =~= s.skip(b));
    assert(replace_chars(s, a, b, t) =~= insert_chars(delete_chars(s, a, b), a, t));
}

/// Replacing a range by nothing is deleting it.
pub proof fn lemma_replace_empty_is_delete(s: Seq<char>, a: int, b: int)
    ensures
        replace_chars(s, a, b, Seq::<char>::empty()) == delete_chars(s, a, b),
{
    assert(replace_chars(s, a, b, Seq::<char>::empty()) =~= delete_chars(s, a, b));
}

/// Replacing an empty range is inserting at its start.
pub proof fn lemma_replace_point_is_insert(s: Seq<char>, a: int, t: Seq<char>)
    ensures
        replace_chars(s, a, a, t) == insert_chars(s, a, t),
{
}

/// Inserting `t` at character index `k` and then deleting the range it
/// occupies restores the original content exactly.
pub proof fn lemma_insert_then_delete(s: Seq<char>, k: int, t: Seq<char>)
    requires
        0 <= k <= s.len(),
    ensures
        delete_chars(insert_chars(s, k, t), k, k + t.len()) == s,
{
    assert(insert_chars(s, k, t).take(k) =~= s.take(k));
    assert(insert_chars(s, k, t).skip(k + t.len()) =~= s.skip(k));
    assert(delete_chars(insert_chars(s, k, t), k, k + t.len()) =~= s);
}

/// In a pure-ASCII content the byte and codepoint measures coincide, so
/// every offset up to the length is a boundary and addresses itself.
pub proof fn lemma_ascii_byte_len(s: Seq<char>)
    ensures
        vstd::utf8::is_ascii_chars(s) ==> byte_len(s) == s.len(),
    decreases s.len(),
{
    if s.len() > 0 && vstd::utf8::is_ascii_chars(s) {
        assert(vstd::utf8::is_ascii_chars(s.drop_first()));
        lemma_ascii_byte_len(s.drop_first());
        assert('\0' <= s.first() <= '\u{7f}');
        assert(utf8_len(s.first()) == 1);
    }
}

/// In a pure-ASCII content every offset up to the length is a byte boundary
/// and addresses the character index equal to itself.
pub proof fn lemma_ascii_boundary(s: Seq<char>, off: nat)
    requires
        vstd::utf8::is_ascii_chars(s),
        off <= s.len(),
    ensures
        is_byte_boundary(s, off),
        byte_boundary_index(s, off) == off,
{
    assert(vstd::utf8::is_ascii_chars(s.take(off as int)));
    lemma_ascii_byte_len(s.take(off as int));
    assert(byte_len(s.take(off as int)) == off);
    lemma_prefix_is_boundary(s, off as int);
}

/// A splice of pure-ASCII parts is pure ASCII.
pub proof fn lemma_ascii_replace(s: Seq<char>, a: int, b: int, t: Seq<char>)
    requires
        0 <= a <= b <= s.len(),
        vstd::utf8::is_ascii_chars(s),
        vstd::utf8::is_ascii_chars(t),
    ensures
        vstd::utf8::is_ascii_chars(replace_chars(s, a, b, t)),
{
    let r = replace_chars(s, a, b, t);
    assert forall|i: int| 0 <= i < r.len() implies '\0' <= #[trigger] r[i] <= '\u{7f}' by {
        if i < a {
            assert(r[i] == s[i]);
        } else if i < a + t.len() {
            assert(r[i] == t[i - a]);
        } else {
            assert(r[i] == s[b + (i - (a + t.len()))]);
        }
    }
}

/// The character index whose prefix has byte length `off`, computed by
/// scanning from the front.
pub fn char_index_of_byte(s: &str, off: usize) -> (k: usize)
    requires
        is_byte_boundary(s@, off as nat),
    ensures
        k == byte_boundary_index(s@, off as nat),
        0 <= k <= s@.len(),
        byte_len(s@.take(k as int)) == off,
{
    proof {
        lemma_byte_boundary_index(s@, off as nat);
    }
    let ghost k0 = byte_boundary_index(s@, off as nat);
    let mut k: usize = 0;
    let mut b: usize = 0;
    while b < off
        invariant
            is_byte_boundary(s@, off as nat),
            k0 == byte_boundary_index(s@, off as nat),
            k <= k0 <= s@.len(),
            b == byte_len(s@.take(k as int)),
            byte_len(s@.take(k0)) == off,
            b <= off,
        decreases off - b,
    {
        proof {
            if k0 <= k {
                lemma_prefix_byte_len_increases(s@, k0, k as int);
            }
            assert(k < k0);
            assert(s@.take(k + 1) =~= s@.take(k as int) + seq![s@[k as int]]);
            lemma_byte_len_concat(s@.take(k as int), seq![s@[k as int]]);
            lemma_byte_len_singleton(s@[k as int]);
            lemma_prefix_byte_len_increases(s@, k + 1, k0);
            lemma_byte_len_bounds(s@.take(k0));
        }
        b = b + char_utf8_len(s.get_char(k));
        k = k + 1;
    }
    proof {
        lemma_byte_boundary_index(s@, off as nat);
        assert(byte_len(s@.take(k as int)) == off);
    }
    k
}

/// `byte_len` agrees with the length of the UTF-8 encoding of the content.
pub proof fn lemma_byte_len_is_encoding_len(s: Seq<char>)
    ensures
        byte_len(s) == vstd::utf8::encode_utf8(s).len(),
    decreases s.len(),
{
    if s.len() > 0 {
        let c = s.first();
        vstd::utf8::char_is_scalar(c);
        assert(vstd::utf8::encode_scalar(c as u32).len() == utf8_len(c));
        lemma_byte_len_is_encoding_len(s.drop_first());
    }
}

/// Number of bytes the UTF-8 encoding of `c` takes.
pub fn char_utf8_len(c: char) -> (n: usize)
    ensures
        n == utf8_len(c),
{
    let u = c as u32;
    if u < 0x80 {
        1
    } else if u < 0x800 {
        2
    } else if u < 0x10000 {
        3
    } else {
        4
    }
}

/// The UTF-8 encoding of a concatenation is the concatenation of the
/// encodings.
pub proof fn lemma_encode_utf8_concat(a: Seq<char>, b: Seq<char>)
    ensures
        vstd::utf8::encode_utf8(a + b) == vstd::utf8::encode_utf8(a) + vstd::utf8::encode_utf8(b),
    decreases a.len(),
{
    if a.len() == 0 {
        assert(a + b =~= b);
        assert(vstd::utf8::encode_utf8(a) + vstd::utf8::encode_utf8(b) =~= vstd::utf8::encode_utf8(
            b,
        ));
    } else {
        assert((a + b).drop_first() =~= a.drop_first() + b);
        assert((a + b).first() == a.first());
        lemma_encode_utf8_concat(a.drop_first(), b);
        assert(vstd::utf8::encode_utf8(a + b) =~= vstd::utf8::encode_utf8(a)
            + vstd::utf8::encode_utf8(b));
    }
}

/// Relies on `String::push`: appends the given character to the end of the
/// string.
#[verifier::external_body]
pub(crate) fn string_push(s: &mut String, c: char)
    ensures
        final(s)@ == old(s)@.push(c),
{
    s.push(c);
}

/// The characters of `s` as a vector.
pub fn str_to_chars(s: &str) -> (r: Vec<char>)
    ensures
        r@ == s@,
{
    let n = s.unicode_len();
    let mut r: Vec<char> = Vec::new();
    let mut i: usize = 0;
    while i < n
        invariant
            i <= n == s@.len(),
            r@ == s@.take(i as int),
        decreases n - i,
    {
        r.push(s.get_char(i));
        i = i + 1;
        proof {
            assert(s@.take(i as int) =~= s@.take(i - 1) + seq![s@[i - 1]]);
        }
    }
    proof {
        assert(s@.take(n as int) =~= s@);
    }
    r
}

/// The characters of `v` as an owned string.
pub fn chars_to_string(v: &Vec<char>) -> (r: String)
    ensures
        r@ == v@,
{
    let mut r = String::new();
    let mut i: usize = 0;
    while i < v.len()
        invariant
            i <= v@.len(),
            r@ == v@.take(i as int),
        decreases v@.len() - i,
    {
        string_push(&mut r, v[i]);
        i = i + 1;
        proof {
            assert(v@.take(i as int) =~= v@.take(i - 1).push(v@[i - 1]));
        }
    }
    proof {
        assert(v@.take(v@.len() as int) =~= v@);
    }
    r
}

/// The characters of `v` with `[a, b)` replaced by the characters of `t`.
pub fn splice_chars(v: &Vec<char>, a: usize, b: usize, t: &str) -> (r: Vec<char>)
    requires
        a <= b <= v@.len(),
    ensures
        r@ == replace_chars(v@, a as int, b as int, t@),
{
    let mut r: Vec<char> = Vec::new();
    let mut i: usize = 0;
    while i < a
        invariant
            i <= a <= b <= v@.len(),
            r@ == v@.take(i as int),
        decreases a - i,
    {
        r.push(v[i]);
        i = i + 1;
        proof {
            assert(v@.take(i as int) =~= v@.take(i - 1).push(v@[i - 1]));
        }
    }
    let n = t.unicode_len();
    let mut j: usize = 0;
    while j < n
        invariant
            j <= n == t@.len(),
            a <= b <= v@.len(),
            r@ == v@.take(a as int) + t@.take(j as int),
        decreases n - j,
    {
        r.push(t.get_char(j));
        j = j + 1;
        proof {
            assert(v@.take(a as int) + t@.take(j as int) =~= (v@.take(a as int) + t@.take(j - 1))
                .push(t@[j - 1]));
        }
    }
    proof {
        assert(t@.take(n as int) =~= t@);
    }
    let mut k: usize = b;
    while k < v.len()
        invariant
            b <= k <= v@.len(),
            a <= b,
            r@ == v@.take(a as int) + t@ + v@.subrange(b as int, k as int),
        decreases v@.len() - k,
    {
        r.push(v[k]);
        k = k + 1;
        proof {
            assert(v@.take(a as int) + t@ + v@.subrange(b as int, k as int) =~= (v@.take(a as int)
                + t@ + v@.subrange(b as int, k - 1)).push(v@[k - 1]));
        }
    }
    proof {
        assert(v@.subrange(b as int, v@.len() as int) =~= v@.skip(b as int));
    }
    r
}

/// In either unit, a unit offset on a boundary addresses one character index,
/// the index is within the content, and the prefix up to it measures back to
/// the offset.
pub proof fn lemma_edit_index(s: Seq<char>, off: nat, byte_units: bool)
    requires
        is_edit_boundary(s, off, byte_units),
    ensures
        0 <= edit_index(s, off, byte_units) <= s.len(),
        unit_len(s.take(edit_index(s, off, byte_units)), byte_units) == off,
{
    if byte_units {
        lemma_byte_boundary_index(s, off);
    }
}

} // verus!
