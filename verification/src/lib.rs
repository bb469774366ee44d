//! NUL-terminated string constants for handing to C-style interfaces.
//!
//! A [`ConstCStr`] wraps an immutable text buffer that ends in exactly one
//! NUL byte and holds no NUL byte before it. The invariant is established
//! once, at construction, so every view — the text without the terminator,
//! the bytes without the terminator, the bytes with it — is total and needs
//! no runtime scan or validity check.

use vstd::prelude::*;

pub mod encoding;

verus! {

use core::cmp::Ordering;
use vstd::std_specs::cmp::PartialEqSpec;
use vstd::std_specs::cmp::PartialOrdSpec;
use vstd::utf8::encode_utf8;

use crate::encoding::lemma_char_scalar_injective;
use crate::encoding::lemma_encode_scalar_nul;
use crate::encoding::lemma_encode_utf8_no_nul;
use crate::encoding::lemma_encode_utf8_push;
use crate::encoding::lemma_lex_cmp_common_prefix;
use crate::encoding::lemma_lex_cmp_sentinel;
use crate::encoding::lex_cmp;

/// A string constant guaranteed to end in exactly one NUL byte,
/// with no interior NUL bytes.
#[derive(Debug, Eq, Hash)]
pub struct ConstCStr {
    val: String,
}

impl View for ConstCStr {
    type V = Seq<char>;

    /// The full character sequence, terminating NUL included.
    closed spec fn view(&self) -> Seq<char> {
        self.val@
    }
}

impl ConstCStr {
    /// The characters of the text, terminating NUL excluded.
    pub open spec fn text(&self) -> Seq<char> {
        self@.drop_last()
    }

    /// The UTF-8 bytes of the text, terminating NUL excluded.
    pub open spec fn bytes(&self) -> Seq<u8> {
        encode_utf8(self.text())
    }

    /// The UTF-8 bytes of the full buffer, terminating NUL included.
    pub open spec fn bytes_with_nul(&self) -> Seq<u8> {
        encode_utf8(self@)
    }

    /// The buffer is non-empty, its last character is NUL,
    /// and no character before the last is NUL.
    #[verifier::type_invariant]
    pub open spec fn wf(&self) -> bool {
        &&& self@.len() >= 1
        &&& self@.last() == '\0'
        &&& forall|i: int| 0 <= i < self@.len() - 1 ==> self@[i] != '\0'
    }

    /// Wraps a buffer that already carries its NUL terminator.
    ///
    /// No runtime validation is performed: the caller must establish that
    /// the buffer ends in one NUL character and has no interior NUL.
    pub fn from_str_with_nul_unchecked(val: String) -> (r: ConstCStr)
        requires
            val@.len() >= 1,
            val@.last() == '\0',
            forall|i: int| 0 <= i < val@.len() - 1 ==> val@[i] != '\0',
        ensures
            r@ == val@,
    {
        ConstCStr { val }
    }

    /// Appends the NUL terminator to a piece of text free of NUL characters.
    ///
    /// This is the intended way to build a constant from a string literal:
    /// the terminator is added here, once, and every later view is free of
    /// checks. Whether the argument is free of NUL is not tested at runtime.
    pub fn const_cstr(s: &str) -> (r: ConstCStr)
        requires
            forall|i: int| 0 <= i < s@.len() ==> s@[i] != '\0',
        ensures
            r@ == s@.push('\0'),
            r.text() == s@,
    {
        let mut val = s.to_owned();
        val.append("\0");
        proof {
            reveal_strlit("\0");
            assert(val@ =~= s@.push('\0'));
            assert(val@.drop_last() =~= s@);
        }
        ConstCStr { val }
    }

    /// The text without the terminating NUL character.
    pub fn as_str(&self) -> (r: &str)
        ensures
            r@ == self.text(),
    {
        proof {
            use_type_invariant(self);
        }
        let full = self.val.as_str();
        let n = full.unicode_len();
        let r = full.substring_char(0, n - 1);
        proof {
            assert(r@ =~= self.text());
        }
        r
    }

    /// The UTF-8 bytes of the text, without the terminating NUL byte.
    pub fn as_bytes(&self) -> (r: &[u8])
        ensures
            r@ == self.bytes(),
    {
        self.as_str().as_bytes()
    }

    /// The UTF-8 bytes of the full buffer, with the terminating NUL byte.
    pub fn as_bytes_with_nul(&self) -> (r: &[u8])
        ensures
            r@ == self.bytes_with_nul(),
    {
        self.val.as_str().as_bytes()
    }
}

impl PartialEq for ConstCStr {
    fn eq(&self, other: &Self) -> (r: bool) {
        self.val.eq(&other.val)
    }
}

impl vstd::std_specs::cmp::PartialEqSpecImpl for ConstCStr {
    open spec fn obeys_eq_spec() -> bool {
        true
    }

    open spec fn eq_spec(&self, other: &Self) -> bool {
        self@ == other@
    }
}

impl PartialOrd for ConstCStr {
    fn partial_cmp(&self, other: &Self) -> (r: Option<Ordering>) {
        let a = self.val.as_str();
        let b = other.val.as_str();
        let an = a.unicode_len();
        let bn = b.unicode_len();
        let mut i: usize = 0;
        loop
            invariant
                i <= an,
                i <= bn,
                an == self@.len(),
                bn == other@.len(),
                a@ == self@,
                b@ == other@,
                forall|j: int| 0 <= j < i ==> a@[j] == b@[j],
            ensures
                i == an || i == bn,
            decreases an - i,
        {
            if i == an || i == bn {
                break;
            }
            let ca = a.get_char(i);
            let cb = b.get_char(i);
            if (ca as u32) < (cb as u32) {
                proof {
                    lemma_lex_cmp_common_prefix(self@, other@, i as int);
                    assert(self@.skip(i as int)[0] == ca);
                    assert(other@.skip(i as int)[0] == cb);
                }
                return Some(Ordering::Less);
            }
            if (ca as u32) > (cb as u32) {
                proof {
                    lemma_lex_cmp_common_prefix(self@, other@, i as int);
                    assert(self@.skip(i as int)[0] == ca);
                    assert(other@.skip(i as int)[0] == cb);
                }
                return Some(Ordering::Greater);
            }
            proof {
                lemma_char_scalar_injective(ca, cb);
            }
            i = i + 1;
        }
        proof {
            lemma_lex_cmp_common_prefix(self@, other@, i as int);
            if i == an && i == bn {
                assert(self@.skip(i as int) =~= Seq::<char>::empty());
                assert(other@.skip(i as int) =~= Seq::<char>::empty());
            } else if i == an {
                assert(self@.skip(i as int) =~= Seq::<char>::empty());
                assert(other@.skip(i as int).len() > 0);
            } else {
                assert(other@.skip(i as int) =~= Seq::<char>::empty());
                assert(self@.skip(i as int).len() > 0);
            }
        }
        if an == bn {
            Some(Ordering::Equal)
        } else if an < bn {
            Some(Ordering::Less)
        } else {
            Some(Ordering::Greater)
        }
    }
}

impl vstd::std_specs::cmp::PartialOrdSpecImpl for ConstCStr {
    open spec fn obeys_partial_cmp_spec() -> bool {
        true
    }

    open spec fn partial_cmp_spec(&self, other: &Self) -> Option<Ordering> {
        Some(lex_cmp(self@, other@))
    }
}

impl Clone for ConstCStr {
    fn clone(&self) -> (r: Self)
        ensures
            r == *self,
    {
        proof {
            use_type_invariant(self);
        }
        ConstCStr { val: self.val.clone() }
    }
}

impl Default for ConstCStr {
    /// The canonical empty constant: no text, a buffer of one NUL byte.
    fn default() -> (r: Self)
        ensures
            r@ == Seq::<char>::empty().push('\0'),
            r.text() == Seq::<char>::empty(),
    {
        proof {
            reveal_strlit("");
        }
        let r = ConstCStr::const_cstr("");
        proof {
            assert(r@ =~= Seq::<char>::empty().push('\0'));
            assert(r.text() =~= Seq::<char>::empty());
        }
        r
    }
}

/// The full views append exactly the terminator to the bare views: the
/// characters with NUL are the text plus one NUL character, and the bytes
/// with NUL are the text's bytes plus one zero byte, one longer.
pub proof fn lemma_terminated(c: &ConstCStr)
    requires
        c.wf(),
    ensures
        c@ == c.text().push('\0'),
        c.bytes_with_nul() == c.bytes().push(0u8),
        c.bytes_with_nul().len() == c.bytes().len() + 1,
{
    assert(c@ =~= c.text().push('\0'));
    lemma_encode_utf8_push(c.text(), '\0');
    lemma_encode_scalar_nul();
    assert(c.bytes_with_nul() =~= c.bytes().push(0u8));
}

/// The single zero byte of the full byte view is its last byte: every byte
/// of the text's encoding is nonzero. Reading from the start up to and
/// including the first zero byte therefore reproduces the full byte view.
pub proof fn lemma_nul_position(c: &ConstCStr)
    requires
        c.wf(),
    ensures
        c.bytes_with_nul()[c.bytes().len() as int] == 0,
        forall|i: int| 0 <= i < c.bytes().len() ==> c.bytes_with_nul()[i] != 0,
        forall|i: int| 0 <= i < c.bytes().len() ==> c.bytes()[i] != 0,
{
    lemma_terminated(c);
    assert(forall|i: int| 0 <= i < c.text().len() ==> c.text()[i] != '\0');
    lemma_encode_utf8_no_nul(c.text());
    assert(forall|i: int|
        0 <= i < c.bytes().len() ==> c.bytes_with_nul()[i] == c.bytes()[i]);
}

/// A constant with empty text is the canonical empty constant, the one the
/// default yields: its buffer is the single NUL character, its byte view is
/// empty, and its full byte view is the single zero byte.
pub proof fn lemma_empty_text(c: &ConstCStr)
    requires
        c.wf(),
        c.text() == Seq::<char>::empty(),
    ensures
        c@ == Seq::<char>::empty().push('\0'),
        c.bytes() == Seq::<u8>::empty(),
        c.bytes_with_nul() == seq![0u8],
{
    lemma_terminated(c);
    assert(c.bytes() =~= Seq::<u8>::empty());
    assert(c.bytes_with_nul() =~= seq![0u8]);
}

/// Views are determined by the value: each view's contract fixes its
/// result's contents from the constant alone, so repeated calls on one
/// constant agree, and equal constants are interchangeable in every view.
pub proof fn lemma_views_determined(a: &ConstCStr, b: &ConstCStr)
    requires
        a.eq_spec(b),
    ensures
        a.text() == b.text(),
        a.bytes() == b.bytes(),
        a.bytes_with_nul() == b.bytes_with_nul(),
{
}

/// Equality and order go by the text alone. Because each buffer ends in its
/// one NUL character, two values compare equal under `==` exactly when their
/// texts are equal, and `partial_cmp` orders them lexicographically by their
/// texts.
pub proof fn lemma_cmp_by_text(a: &ConstCStr, b: &ConstCStr)
    requires
        a.wf(),
        b.wf(),
    ensures
        a.eq_spec(b) <==> (a.text() == b.text()),
        a.partial_cmp_spec(b) == Some(lex_cmp(a.text(), b.text())),
{
    lemma_terminated(a);
    lemma_terminated(b);
    if a.text() == b.text() {
        assert(a@ =~= b@);
    }
    lemma_lex_cmp_sentinel(a.text(), b.text());
}

} // verus!
