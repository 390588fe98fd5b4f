//! Base64 text for the bytes of a font.
//!
//! The text is the one that RFC 4648 defines for the standard alphabet, with
//! `=` padding. [`base64_text`] states it, the `base64` crate computes it, and
//! [`lemma_decoding_restores_bytes`] shows that the bytes can be read back
//! from it.

use vstd::prelude::*;

verus! {

/// The character that the standard alphabet gives to a six-bit value:
/// `A`–`Z` for 0–25, `a`–`z` for 26–51, `0`–`9` for 52–61, then `+` and `/`.
pub open spec fn sextet_char(sextet: int) -> char {
    if sextet < 26 {
        ('A' as int + sextet) as char
    } else if sextet < 52 {
        ('a' as int + sextet - 26) as char
    } else if sextet < 62 {
        ('0' as int + sextet - 52) as char
    } else if sextet == 62 {
        '+'
    } else {
        '/'
    }
}

/// The padded base64 text of `bytes`.
///
/// Each group of three bytes is 24 bits, written as four characters of six
/// bits each, the highest bits first. A last group of one or two bytes is
/// filled up with zero bits, and `=` takes the place of each character that
/// would hold no bit of the input.
pub open spec fn base64_text(bytes: Seq<u8>) -> Seq<char>
    decreases bytes.len(),
{
    if bytes.len() == 0 {
        Seq::empty()
    } else {
        let b0 = bytes[0] as int;
        let b1 = if bytes.len() > 1 { bytes[1] as int } else { 0 };
        let b2 = if bytes.len() > 2 { bytes[2] as int } else { 0 };
        let group = seq![
            sextet_char(b0 / 4),
            sextet_char(b0 % 4 * 16 + b1 / 16),
            if bytes.len() > 1 { sextet_char(b1 % 16 * 4 + b2 / 64) } else { '=' },
            if bytes.len() > 2 { sextet_char(b2 % 64) } else { '=' },
        ];
        if bytes.len() <= 3 {
            group
        } else {
            group + base64_text(bytes.skip(3))
        }
    }
}

/// The number of characters in the base64 text of `len` bytes.
pub open spec fn base64_len(len: nat) -> nat {
    4 * ((len + 2) / 3)
}

/// The bytes that `text` is the base64 text of, if there are any.
pub open spec fn base64_bytes(text: Seq<char>) -> Option<Seq<u8>> {
    if exists|bytes: Seq<u8>| base64_text(bytes) == text {
        Some(choose|bytes: Seq<u8>| base64_text(bytes) == text)
    } else {
        None
    }
}

/// Returns whether the base64 text of `len` bytes has a length that a `usize`
/// can hold, which is what encoding asks of its input.
pub fn encodable(len: usize) -> (fits: bool)
    ensures
        fits == (base64_len(len as nat) <= usize::MAX),
{
    let groups: usize = if len % 3 == 0 {
        len / 3
    } else {
        len / 3 + 1
    };
    groups <= usize::MAX / 4
}

/// Encodes `bytes` with `base64::Engine::encode` on the crate's `STANDARD`
/// engine.
///
/// Trusted: that engine is documented as the RFC 4648 standard alphabet with
/// padding, which is what `base64_text` states. The call fails where the
/// length of the text does not fit in a `usize`; `requires` leaves that out.
#[verifier::external_body]
pub(crate) fn encode_standard(bytes: &[u8]) -> (text: String)
    requires
        base64_len(bytes@.len()) <= usize::MAX,
    ensures
        text@ == base64_text(bytes@),
{
    base64::Engine::encode(&base64::engine::general_purpose::STANDARD, bytes)
}

/// The base64 text of `bytes` has `base64_len(bytes.len())` characters.
pub proof fn lemma_base64_text_len(bytes: Seq<u8>)
    ensures
        base64_text(bytes).len() == base64_len(bytes.len()),
    decreases bytes.len(),
{
    if bytes.len() >= 3 {
        lemma_base64_text_len(bytes.skip(3));
    }
}

/// No two six-bit values share a character, and none is written as `=`.
proof fn lemma_sextet_char_distinct(v: int, w: int)
    requires
        0 <= v < 64,
        0 <= w < 64,
    ensures
        sextet_char(v) != '=',
        sextet_char(v) == sextet_char(w) ==> v == w,
{
}

/// Two byte sequences with the same base64 text are the same sequence.
pub proof fn lemma_base64_text_injective(a: Seq<u8>, b: Seq<u8>)
    requires
        base64_text(a) == base64_text(b),
    ensures
        a == b,
    decreases a.len(),
{
    lemma_base64_text_len(a);
    lemma_base64_text_len(b);
    if a.len() > 0 && b.len() > 0 {
        let a0 = a[0] as int;
        let a1 = if a.len() > 1 { a[1] as int } else { 0 };
        let a2 = if a.len() > 2 { a[2] as int } else { 0 };
        let b0 = b[0] as int;
        let b1 = if b.len() > 1 { b[1] as int } else { 0 };
        let b2 = if b.len() > 2 { b[2] as int } else { 0 };
        lemma_sextet_char_distinct(a0 / 4, b0 / 4);
        lemma_sextet_char_distinct(a0 % 4 * 16 + a1 / 16, b0 % 4 * 16 + b1 / 16);
        lemma_sextet_char_distinct(a1 % 16 * 4 + a2 / 64, b1 % 16 * 4 + b2 / 64);
        lemma_sextet_char_distinct(a2 % 64, b2 % 64);
        let text = base64_text(a);
        assert(text[0] == sextet_char(a0 / 4) && text[0] == sextet_char(b0 / 4));
        assert(text[1] == sextet_char(a0 % 4 * 16 + a1 / 16));
        assert(text[1] == sextet_char(b0 % 4 * 16 + b1 / 16));
        assert((text[2] == '=') == (a.len() == 1) && (text[2] == '=') == (b.len() == 1));
        assert((text[3] == '=') == (a.len() <= 2) && (text[3] == '=') == (b.len() <= 2));
        if a.len() > 3 {
            assert(text.skip(4) =~= base64_text(a.skip(3)));
            assert(text.skip(4) =~= base64_text(b.skip(3)));
            lemma_base64_text_injective(a.skip(3), b.skip(3));
            assert forall|i: int| 3 <= i < a.len() implies a[i] == b[i] by {
                assert(a[i] == a.skip(3)[i - 3]);
                assert(b[i] == b.skip(3)[i - 3]);
            }
        }
    }
    assert(a =~= b);
}

/// Decoding the base64 text of `bytes` gives `bytes` back, all of them and
/// nothing else.
pub proof fn lemma_decoding_restores_bytes(bytes: Seq<u8>)
    ensures
        base64_bytes(base64_text(bytes)) == Some(bytes),
{
    let text = base64_text(bytes);
    let found = choose|other: Seq<u8>| base64_text(other) == text;
    lemma_base64_text_injective(found, bytes);
}

} // verus!
