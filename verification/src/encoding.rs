//! Byte encodings the library relies on: unpadded base64url (through the
//! `base64` crate) and percent-decoding followed by UTF-8 decoding (through
//! the `percent-encoding` crate), each stated as a spec function.
use vstd::prelude::*;
use vstd::utf8::*;
use base64::Engine;

verus! {

broadcast use vstd::string::group_string_axioms;

// ---------------------------------------------------------------------------
// base64url without padding
// ---------------------------------------------------------------------------

/// The symbol of the 6-bit value `v` in the URL-safe base64 alphabet
/// (`A`-`Z`, `a`-`z`, `0`-`9`, `-`, `_`).
pub open spec fn b64url_symbol(v: int) -> char {
    if v < 26 {
        ((v + 65) as u8) as char
    } else if v < 52 {
        ((v - 26 + 97) as u8) as char
    } else if v < 62 {
        ((v - 52 + 48) as u8) as char
    } else if v == 62 {
        '-'
    } else {
        '_'
    }
}

/// Unpadded base64url encoding: each group of three bytes becomes four
/// symbols, a final group of two bytes three symbols, of one byte two.
pub open spec fn b64url_encode(b: Seq<u8>) -> Seq<char>
    decreases b.len(),
{
    if b.len() == 0 {
        seq![]
    } else if b.len() == 1 {
        seq![b64url_symbol((b[0] as int) / 4), b64url_symbol(((b[0] as int) % 4) * 16)]
    } else if b.len() == 2 {
        seq![
            b64url_symbol((b[0] as int) / 4),
            b64url_symbol(((b[0] as int) % 4) * 16 + (b[1] as int) / 16),
            b64url_symbol(((b[1] as int) % 16) * 4),
        ]
    } else {
        seq![
            b64url_symbol((b[0] as int) / 4),
            b64url_symbol(((b[0] as int) % 4) * 16 + (b[1] as int) / 16),
            b64url_symbol(((b[1] as int) % 16) * 4 + (b[2] as int) / 64),
            b64url_symbol((b[2] as int) % 64),
        ] + b64url_encode(b.skip(3))
    }
}

/// The four symbols of the first full group of three bytes.
spec fn b64url_group(b: Seq<u8>) -> Seq<char> {
    seq![
        b64url_symbol((b[0] as int) / 4),
        b64url_symbol(((b[0] as int) % 4) * 16 + (b[1] as int) / 16),
        b64url_symbol(((b[1] as int) % 16) * 4 + (b[2] as int) / 64),
        b64url_symbol((b[2] as int) % 64),
    ]
}

/// `s` is the unpadded base64url encoding of some bytes.
pub open spec fn is_b64url(s: Seq<char>) -> bool {
    exists|b: Seq<u8>| #[trigger] b64url_encode(b) == s
}

/// The error type of the `base64` crate's decoder.
#[verifier::external_type_specification]
#[verifier::external_body]
pub struct ExDecodeError(base64::DecodeError);

/// The error that `URL_SAFE_NO_PAD.decode` reports for a text it refuses.
pub uninterp spec fn b64url_decode_error(s: Seq<char>) -> base64::DecodeError;

/// The `Display` text of a `base64::DecodeError` (it names the offending
/// offset and byte, or the length or padding fault).
pub uninterp spec fn decode_error_display(e: base64::DecodeError) -> Seq<char>;

/// `base64::engine::general_purpose::URL_SAFE_NO_PAD.decode`.
///
/// That engine rejects padding, symbols outside the URL-safe alphabet, a
/// length of one more than a multiple of four, and set trailing bits, so
/// the texts it accepts are exactly the encodings of byte sequences; the
/// contract says so: on success the bytes encode back to `s`, and a failure
/// means that no bytes encode to `s`. The error itself depends on `s` alone.
#[verifier::external_body]
pub(crate) fn decode_b64url(s: &str) -> (r: Result<Vec<u8>, base64::DecodeError>)
    ensures
        match r {
            Ok(v) => b64url_encode(v@) == s@,
            Err(e) => !is_b64url(s@) && e == b64url_decode_error(s@),
        },
{
    base64::engine::general_purpose::URL_SAFE_NO_PAD.decode(s)
}

/// `format!("{e}")`: the `Display` text of a `base64::DecodeError`.
#[verifier::external_body]
pub(crate) fn decode_error_text(e: &base64::DecodeError) -> (r: String)
    ensures
        r@ == decode_error_display(*e),
{
    format!("{e}")
}

/// `base64::engine::general_purpose::URL_SAFE_NO_PAD.encode`.
#[verifier::external_body]
pub(crate) fn encode_b64url(bytes: &[u8]) -> (r: String)
    ensures
        r@ == b64url_encode(bytes@),
{
    base64::engine::general_purpose::URL_SAFE_NO_PAD.encode(bytes)
}

/// Decoding gives back what was encoded: two byte sequences with the same
/// base64url encoding are equal, so a successful `decode_b64url` of
/// `b64url_encode(b)` yields `b`.
pub proof fn lemma_b64url_injective(a: Seq<u8>, b: Seq<u8>)
    requires
        b64url_encode(a) == b64url_encode(b),
    ensures
        a == b,
    decreases a.len(),
{
    lemma_b64url_len(a);
    lemma_b64url_len(b);
    let ea = b64url_encode(a);
    let eb = b64url_encode(b);
    if a.len() == 0 {
        assert(b.len() == 0);
    } else if a.len() == 1 {
        assert(b.len() == 1);
        lemma_symbol_injective((a[0] as int) / 4, (b[0] as int) / 4);
        lemma_symbol_injective(((a[0] as int) % 4) * 16, ((b[0] as int) % 4) * 16);
        assert(a =~= b);
    } else if a.len() == 2 {
        assert(b.len() == 2);
        assert(ea[0] == eb[0] && ea[1] == eb[1] && ea[2] == eb[2]);
        lemma_symbol_injective((a[0] as int) / 4, (b[0] as int) / 4);
        lemma_symbol_injective(((a[0] as int) % 4) * 16 + (a[1] as int) / 16, ((b[0] as int) % 4) * 16 + (b[1] as int) / 16);
        lemma_symbol_injective(((a[1] as int) % 16) * 4, ((b[1] as int) % 16) * 4);
        assert(a =~= b);
    } else {
        assert(b.len() >= 3);
        let ha = b64url_group(a);
        let hb = b64url_group(b);
        assert(ea == ha + b64url_encode(a.skip(3)));
        assert(eb == hb + b64url_encode(b.skip(3)));
        assert(ha[0] == ea[0] && ha[1] == ea[1] && ha[2] == ea[2] && ha[3] == ea[3]);
        assert(hb[0] == eb[0] && hb[1] == eb[1] && hb[2] == eb[2] && hb[3] == eb[3]);
        lemma_symbol_injective((a[0] as int) / 4, (b[0] as int) / 4);
        lemma_symbol_injective(((a[0] as int) % 4) * 16 + (a[1] as int) / 16, ((b[0] as int) % 4) * 16 + (b[1] as int) / 16);
        lemma_symbol_injective(((a[1] as int) % 16) * 4 + (a[2] as int) / 64, ((b[1] as int) % 16) * 4 + (b[2] as int) / 64);
        lemma_symbol_injective((a[2] as int) % 64, (b[2] as int) % 64);
        assert(b64url_encode(a.skip(3)) =~= ea.skip(4));
        assert(b64url_encode(b.skip(3)) =~= eb.skip(4));
        lemma_b64url_injective(a.skip(3), b.skip(3));
        assert(a =~= a.take(3) + a.skip(3));
        assert(b =~= b.take(3) + b.skip(3));
        assert(a.take(3) =~= b.take(3));
    }
}

/// Length of an encoding: four symbols per full group of three bytes, plus
/// two or three for a final partial group.
proof fn lemma_b64url_len(b: Seq<u8>)
    ensures
        b.len() == 0 <==> b64url_encode(b).len() == 0,
        b.len() == 1 <==> b64url_encode(b).len() == 2,
        b.len() == 2 <==> b64url_encode(b).len() == 3,
        b.len() >= 3 <==> b64url_encode(b).len() >= 4,
    decreases b.len(),
{
    if b.len() >= 3 {
        lemma_b64url_len(b.skip(3));
    }
}

/// Distinct 6-bit values have distinct symbols.
proof fn lemma_symbol_injective(x: int, y: int)
    requires
        0 <= x < 64,
        0 <= y < 64,
        b64url_symbol(x) == b64url_symbol(y),
    ensures
        x == y,
{
    assert(b64url_symbol(x) as u32 == b64url_symbol(y) as u32);
}

// ---------------------------------------------------------------------------
// percent-decoding
// ---------------------------------------------------------------------------

/// The value of an ASCII hexadecimal digit (either case).
pub open spec fn hex_digit_value(b: u8) -> Option<u8> {
    if 48 <= b && b <= 57 {
        Some((b - 48) as u8)
    } else if 97 <= b && b <= 102 {
        Some((b - 87) as u8)
    } else if 65 <= b && b <= 70 {
        Some((b - 55) as u8)
    } else {
        None
    }
}

/// Percent-decoding of bytes: `%` followed by two hexadecimal digits
/// becomes the byte they write; every other byte, a lone `%` included,
/// stays as it is.
pub open spec fn percent_decode_bytes(b: Seq<u8>) -> Seq<u8>
    decreases b.len(),
{
    if b.len() == 0 {
        seq![]
    } else if b[0] == 37 && b.len() >= 3 && hex_digit_value(b[1]) is Some && hex_digit_value(
        b[2],
    ) is Some {
        seq![(hex_digit_value(b[1])->0 * 16 + hex_digit_value(b[2])->0) as u8]
            + percent_decode_bytes(b.skip(3))
    } else {
        seq![b[0]] + percent_decode_bytes(b.skip(1))
    }
}

/// Percent-decoding of the UTF-8 bytes of `s`, read back as UTF-8 text:
/// `None` when the decoded bytes are not valid UTF-8.
pub open spec fn percent_decode_text(s: Seq<char>) -> Option<Seq<char>> {
    let bytes = percent_decode_bytes(encode_utf8(s));
    if valid_utf8(bytes) {
        Some(decode_utf8(bytes))
    } else {
        None
    }
}

/// `percent_encoding::percent_decode_str(s).decode_utf8()`, with the
/// `Utf8Error` turned into `None`.
#[verifier::external_body]
pub(crate) fn percent_decode_utf8(s: &str) -> (r: Option<String>)
    ensures
        match r {
            Some(t) => percent_decode_text(s@) == Some(t@),
            None => percent_decode_text(s@) is None,
        },
{
    match percent_encoding::percent_decode_str(s).decode_utf8() {
        Ok(t) => Some(t.into_owned()),
        Err(_) => None,
    }
}

} // verus!
