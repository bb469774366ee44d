//! Facts about UTF-8 encoding and about character order that the
//! NUL-terminated buffer relies on: the NUL character is the only character
//! whose encoding contains a zero byte, appending a character appends its
//! encoding, and a common prefix does not affect lexicographic order.

use vstd::prelude::*;

verus! {

use core::cmp::Ordering;
use vstd::utf8::char_is_scalar;
use vstd::utf8::char_u32_cast;
use vstd::utf8::encode_scalar;
use vstd::utf8::encode_utf8;
use vstd::utf8::has_width_1_encoding;
use vstd::utf8::has_width_2_encoding;
use vstd::utf8::has_width_3_encoding;
use vstd::utf8::is_scalar;

/// A character casts to the scalar zero exactly when it is the NUL character.
pub proof fn lemma_nul_char_scalar(c: char)
    ensures
        (c as u32 == 0) <==> (c == '\0'),
{
    if c as u32 == 0 {
        char_u32_cast(c, 0u32);
        char_u32_cast('\0', 0u32);
    }
}

/// Two characters with the same scalar value are the same character.
pub proof fn lemma_char_scalar_injective(c1: char, c2: char)
    requires
        c1 as u32 == c2 as u32,
    ensures
        c1 == c2,
{
    char_u32_cast(c1, c1 as u32);
    char_u32_cast(c2, c2 as u32);
}

/// The NUL character encodes to the single zero byte.
pub proof fn lemma_encode_scalar_nul()
    ensures
        encode_scalar('\0' as u32) == seq![0u8],
{
    assert('\0' as u32 == 0);
    assert((0u32 & 0x7F) as u8 == 0) by (bit_vector);
    assert(encode_scalar(0u32) =~= seq![0u8]);
}

proof fn lemma_u8_or_nonzero(a: u8, b: u8)
    by (bit_vector)
    requires
        a != 0,
    ensures
        (a | b) != 0,
{
}

proof fn lemma_low_mask_nonzero(v: u32)
    by (bit_vector)
    requires
        v != 0,
        v <= 0x7F,
    ensures
        ((v & 0x7F) as u8) != 0,
{
}

/// The encoding of a nonzero scalar contains no zero byte: a one-byte
/// encoding is the scalar itself, and every leading or continuation byte of
/// a longer encoding has one of its two top bits set.
pub proof fn lemma_encode_scalar_no_nul(v: u32)
    requires
        is_scalar(v),
        v != 0,
    ensures
        forall|j: int| 0 <= j < encode_scalar(v).len() ==> encode_scalar(v)[j] != 0,
{
    if has_width_1_encoding(v) {
        lemma_low_mask_nonzero(v);
    } else if has_width_2_encoding(v) {
        lemma_u8_or_nonzero(0xC0, ((v >> 6) & 0x1F) as u8);
        lemma_u8_or_nonzero(0x80, (v & 0x3F) as u8);
    } else if has_width_3_encoding(v) {
        lemma_u8_or_nonzero(0xE0, ((v >> 12) & 0x0F) as u8);
        lemma_u8_or_nonzero(0x80, ((v >> 6) & 0x3F) as u8);
        lemma_u8_or_nonzero(0x80, (v & 0x3F) as u8);
    } else {
        lemma_u8_or_nonzero(0xF0, ((v >> 18) & 0x7) as u8);
        lemma_u8_or_nonzero(0x80, ((v >> 12) & 0x3F) as u8);
        lemma_u8_or_nonzero(0x80, ((v >> 6) & 0x3F) as u8);
        lemma_u8_or_nonzero(0x80, (v & 0x3F) as u8);
    }
}

/// Appending a character to a text appends that character's encoding to the
/// text's encoding.
pub proof fn lemma_encode_utf8_push(s: Seq<char>, c: char)
    ensures
        encode_utf8(s.push(c)) == encode_utf8(s) + encode_scalar(c as u32),
    decreases s.len(),
{
    if s.len() == 0 {
        assert(s.push(c)[0] == c);
        assert(s.push(c).drop_first() =~= s);
        assert(encode_utf8(s.push(c)) =~= encode_utf8(s) + encode_scalar(c as u32));
    } else {
        assert(s.push(c)[0] == s[0]);
        assert(s.push(c).drop_first() =~= s.drop_first().push(c));
        lemma_encode_utf8_push(s.drop_first(), c);
        assert(encode_utf8(s.push(c)) =~= encode_utf8(s) + encode_scalar(c as u32));
    }
}

/// The encoding of a text free of NUL characters is free of zero bytes.
pub proof fn lemma_encode_utf8_no_nul(s: Seq<char>)
    requires
        forall|i: int| 0 <= i < s.len() ==> s[i] != '\0',
    ensures
        forall|j: int| 0 <= j < encode_utf8(s).len() ==> encode_utf8(s)[j] != 0,
    decreases s.len(),
{
    if s.len() > 0 {
        char_is_scalar(s[0]);
        lemma_nul_char_scalar(s[0]);
        lemma_encode_scalar_no_nul(s[0] as u32);
        lemma_encode_utf8_no_nul(s.drop_first());
        let head = encode_scalar(s[0] as u32);
        let tail = encode_utf8(s.drop_first());
        assert(encode_utf8(s) == head + tail);
        assert forall|j: int| 0 <= j < encode_utf8(s).len() implies encode_utf8(s)[j] != 0 by {
            if j < head.len() {
                assert(encode_utf8(s)[j] == head[j]);
            } else {
                assert(encode_utf8(s)[j] == tail[j - head.len()]);
            }
        }
    }
}

/// Lexicographic order on character sequences, by scalar value, with a
/// proper prefix ordered before everything it prefixes.
pub open spec fn lex_cmp(a: Seq<char>, b: Seq<char>) -> Ordering
    decreases a.len(),
{
    if a.len() == 0 && b.len() == 0 {
        Ordering::Equal
    } else if a.len() == 0 {
        Ordering::Less
    } else if b.len() == 0 {
        Ordering::Greater
    } else if (a[0] as u32) < (b[0] as u32) {
        Ordering::Less
    } else if (a[0] as u32) > (b[0] as u32) {
        Ordering::Greater
    } else {
        lex_cmp(a.drop_first(), b.drop_first())
    }
}

/// Dropping a common prefix does not change the lexicographic comparison.
pub proof fn lemma_lex_cmp_common_prefix(a: Seq<char>, b: Seq<char>, i: int)
    requires
        0 <= i <= a.len(),
        i <= b.len(),
        forall|j: int| 0 <= j < i ==> a[j] == b[j],
    ensures
        lex_cmp(a, b) == lex_cmp(a.skip(i), b.skip(i)),
    decreases i,
{
    if i == 0 {
        assert(a.skip(0) =~= a);
        assert(b.skip(0) =~= b);
    } else {
        assert(a[0] == b[0]);
        lemma_char_scalar_injective(a[0], b[0]);
        assert(lex_cmp(a, b) == lex_cmp(a.drop_first(), b.drop_first()));
        assert(a.drop_first() =~= a.skip(1));
        assert(b.drop_first() =~= b.skip(1));
        lemma_lex_cmp_common_prefix(a.drop_first(), b.drop_first(), i - 1);
        assert(a.drop_first().skip(i - 1) =~= a.skip(i));
        assert(b.drop_first().skip(i - 1) =~= b.skip(i));
    }
}

/// Appending a NUL sentinel to two texts free of NUL characters does not
/// change how they compare: the sentinel orders a proper prefix first, just
/// as the bare comparison does.
pub proof fn lemma_lex_cmp_sentinel(t1: Seq<char>, t2: Seq<char>)
    requires
        forall|i: int| 0 <= i < t1.len() ==> t1[i] != '\0',
        forall|i: int| 0 <= i < t2.len() ==> t2[i] != '\0',
    ensures
        lex_cmp(t1.push('\0'), t2.push('\0')) == lex_cmp(t1, t2),
    decreases t1.len(),
{
    let a = t1.push('\0');
    let b = t2.push('\0');
    assert('\0' as u32 == 0);
    assert(a.len() == t1.len() + 1 && b.len() == t2.len() + 1);
    if t1.len() == 0 && t2.len() == 0 {
        assert(a[0] == '\0' && b[0] == '\0');
        assert(a.drop_first() =~= Seq::<char>::empty());
        assert(b.drop_first() =~= Seq::<char>::empty());
        assert(lex_cmp(a.drop_first(), b.drop_first()) == Ordering::Equal);
        assert(lex_cmp(a, b) == Ordering::Equal);
        assert(lex_cmp(t1, t2) == Ordering::Equal);
    } else if t1.len() == 0 {
        assert(a[0] == '\0');
        assert(b[0] == t2[0]);
        lemma_nul_char_scalar(t2[0]);
        char_is_scalar(t2[0]);
        assert((a[0] as u32) < (b[0] as u32));
        assert(lex_cmp(a, b) == Ordering::Less);
        assert(lex_cmp(t1, t2) == Ordering::Less);
    } else if t2.len() == 0 {
        assert(b[0] == '\0');
        assert(a[0] == t1[0]);
        lemma_nul_char_scalar(t1[0]);
        char_is_scalar(t1[0]);
        assert((a[0] as u32) > (b[0] as u32));
        assert(lex_cmp(a, b) == Ordering::Greater);
        assert(lex_cmp(t1, t2) == Ordering::Greater);
    } else {
        assert(a[0] == t1[0] && b[0] == t2[0]);
        if (t1[0] as u32) < (t2[0] as u32) {
            assert(lex_cmp(a, b) == Ordering::Less);
            assert(lex_cmp(t1, t2) == Ordering::Less);
        } else if (t1[0] as u32) > (t2[0] as u32) {
            assert(lex_cmp(a, b) == Ordering::Greater);
            assert(lex_cmp(t1, t2) == Ordering::Greater);
        } else {
            lemma_char_scalar_injective(t1[0], t2[0]);
            assert(a.drop_first() =~= t1.drop_first().push('\0'));
            assert(b.drop_first() =~= t2.drop_first().push('\0'));
            lemma_lex_cmp_sentinel(t1.drop_first(), t2.drop_first());
            assert(lex_cmp(a, b) == lex_cmp(a.drop_first(), b.drop_first()));
            assert(lex_cmp(t1, t2) == lex_cmp(t1.drop_first(), t2.drop_first()));
        }
    }
}

} // verus!
