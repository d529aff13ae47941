//! Byte/text encodings used on the wire: lowercase hex for keys and
//! standard base64 for the envelope, with exact specifications, plus
//! the ASCII bridge between byte and character sequences.

use base64::Engine;
use crate::error::E2EEError;
use vstd::prelude::*;

verus! {

/// The characters of an ASCII byte sequence, one per byte.
pub open spec fn ascii_chars_of(b: Seq<u8>) -> Seq<char> {
    Seq::new(b.len(), |i: int| b[i] as char)
}

/// The lowercase hex digit (as an ASCII byte) for a value below 16.
pub open spec fn hex_digit(v: u8) -> u8 {
    if v < 10 {
        (48 + v) as u8
    } else {
        (87 + v) as u8
    }
}

/// The lowercase hex encoding of a byte sequence, as ASCII bytes:
/// two digits per byte, high nibble first.
pub open spec fn hex_bytes(b: Seq<u8>) -> Seq<u8> {
    Seq::new(b.len() * 2, |i: int| if i % 2 == 0 {
        hex_digit(b[i / 2] / 16)
    } else {
        hex_digit(b[i / 2] % 16)
    })
}

/// The lowercase hex encoding of a byte sequence, as characters.
pub open spec fn hex_chars(b: Seq<u8>) -> Seq<char> {
    ascii_chars_of(hex_bytes(b))
}

/// Whether a character is a hex digit (either case).
pub open spec fn is_hex_char(c: char) -> bool {
    (48 <= c as u32 && c as u32 <= 57) || (97 <= c as u32 && c as u32 <= 102) || (65 <= c as u32
        && c as u32 <= 70)
}

/// The value of a hex digit character.
pub open spec fn hex_char_val(c: char) -> u8 {
    if c as u32 <= 57 {
        (c as u32 - 48) as u8
    } else if c as u32 <= 70 {
        (c as u32 - 55) as u8
    } else {
        (c as u32 - 87) as u8
    }
}

/// Whether a character sequence is a well-formed hex string: even length,
/// hex digits throughout.
pub open spec fn hex_valid(s: Seq<char>) -> bool {
    s.len() % 2 == 0 && (forall|i: int| 0 <= i < s.len() ==> is_hex_char(#[trigger] s[i]))
}

/// The bytes encoded by a well-formed hex string.
pub open spec fn decoded_hex(s: Seq<char>) -> Seq<u8> {
    Seq::new(s.len() / 2, |i: int| (hex_char_val(s[2 * i]) * 16 + hex_char_val(s[2 * i + 1])) as u8)
}

/// Relies on `hex::encode`: two lowercase hex digits per byte, high
/// nibble first.
#[verifier::external_body]
pub(crate) fn hex_encode(b: &[u8]) -> (r: String)
    ensures
        r@ == hex_chars(b@),
{
    hex::encode(b)
}

/// Relies on `hex::decode`: accepts exactly the even-length strings of
/// hex digits (either case) and returns the encoded bytes.
#[verifier::external_body]
pub(crate) fn hex_decode(s: &str) -> (r: Result<Vec<u8>, E2EEError>)
    ensures
        r is Ok <==> hex_valid(s@),
        r is Ok ==> r->Ok_0@ == decoded_hex(s@),
        r is Err ==> r->Err_0 == E2EEError::Serialization,
{
    hex::decode(s).map_err(|_| E2EEError::Serialization)
}

/// Decoding inverts encoding: the hex string of `b` is well formed and
/// decodes back to `b`.
pub proof fn lemma_hex_round_trip(b: Seq<u8>)
    ensures
        hex_valid(hex_chars(b)),
        decoded_hex(hex_chars(b)) == b,
        hex_chars(b).len() == b.len() * 2,
{
    let s = hex_chars(b);
    assert forall|i: int| 0 <= i < s.len() implies is_hex_char(#[trigger] s[i]) by {
        let v = if i % 2 == 0 { b[i / 2] / 16 } else { b[i / 2] % 16 };
        assert(v < 16);
        assert(s[i] == hex_digit(v) as char);
        assert(hex_digit(v) as char as u32 == hex_digit(v) as u32);
    }
    assert(decoded_hex(s) =~= b) by {
        assert forall|i: int| 0 <= i < b.len() implies decoded_hex(s)[i] == b[i] by {
            let hi = b[i] / 16;
            let lo = b[i] % 16;
            assert(s[2 * i] == hex_digit(hi) as char);
            assert(s[2 * i + 1] == hex_digit(lo) as char);
            assert(hex_char_val(hex_digit(hi) as char) == hi);
            assert(hex_char_val(hex_digit(lo) as char) == lo);
            assert(hi * 16 + lo == b[i]);
        }
    }
}


/// The base64 alphabet character (as an ASCII byte) for a value below 64.
pub open spec fn b64_char(v: u8) -> u8 {
    if v < 26 {
        (65 + v) as u8
    } else if v < 52 {
        (71 + v) as u8
    } else if v < 62 {
        (v - 4) as u8
    } else if v == 62 {
        43
    } else {
        47
    }
}

/// The standard base64 encoding with padding, as ASCII bytes: three input
/// bytes become four alphabet characters; a final group of one or two
/// bytes is padded with '='.
pub open spec fn b64_bytes(d: Seq<u8>) -> Seq<u8>
    decreases d.len(),
{
    if d.len() == 0 {
        Seq::empty()
    } else if d.len() == 1 {
        seq![
            b64_char(d[0] / 4),
            b64_char(((d[0] % 4) * 16) as u8),
            61u8,
            61u8,
        ]
    } else if d.len() == 2 {
        seq![
            b64_char(d[0] / 4),
            b64_char(((d[0] % 4) * 16 + d[1] / 16) as u8),
            b64_char(((d[1] % 16) * 4) as u8),
            61u8,
        ]
    } else {
        seq![
            b64_char(d[0] / 4),
            b64_char(((d[0] % 4) * 16 + d[1] / 16) as u8),
            b64_char(((d[1] % 16) * 4 + d[2] / 64) as u8),
            b64_char(d[2] % 64),
        ] + b64_bytes(d.skip(3))
    }
}

/// Relies on `base64`'s STANDARD engine (padded): the canonical base64
/// string of the input, returned as ASCII characters.
#[verifier::external_body]
pub(crate) fn b64_encode(d: &[u8]) -> (r: String)
    ensures
        r@ == ascii_chars_of(b64_bytes(d@)),
{
    base64::engine::general_purpose::STANDARD.encode(d)
}

/// Relies on `base64`'s STANDARD engine (padded, canonical padding
/// required, trailing bits rejected): decoding accepts exactly the
/// canonical encodings and inverts encoding.
#[verifier::external_body]
pub(crate) fn b64_decode(s: &[u8]) -> (r: Result<Vec<u8>, E2EEError>)
    ensures
        r is Ok ==> s@ == b64_bytes(r->Ok_0@),
        forall|d: Seq<u8>| s@ == b64_bytes(d) ==> r is Ok && r->Ok_0@ == d,
        r is Err ==> r->Err_0 == E2EEError::Serialization,
{
    base64::engine::general_purpose::STANDARD.decode(s).map_err(|_| E2EEError::Serialization)
}

/// Base64 alphabet characters are ASCII and are never a quote or a
/// backslash.
pub proof fn lemma_b64_char_range(v: u8)
    requires
        v < 64,
    ensures
        43 <= b64_char(v) && b64_char(v) <= 122,
        b64_char(v) != 34,
        b64_char(v) != 92,
        b64_char(v) < 128,
{
}

/// Every byte of a base64 encoding is ASCII and is never a quote or a
/// backslash, and the encoding's length is the padded group count.
pub proof fn lemma_b64_bytes_props(d: Seq<u8>)
    ensures
        b64_bytes(d).len() == 4 * ((d.len() + 2) / 3),
        forall|i: int|
            0 <= i < b64_bytes(d).len() ==> 43 <= #[trigger] b64_bytes(d)[i] && b64_bytes(d)[i]
                <= 122 && b64_bytes(d)[i] != 34 && b64_bytes(d)[i] != 92,
    decreases d.len(),
{
    if d.len() == 0 {
    } else if d.len() == 1 {
        lemma_b64_char_range(d[0] / 4);
        lemma_b64_char_range(((d[0] % 4) * 16) as u8);
    } else if d.len() == 2 {
        lemma_b64_char_range(d[0] / 4);
        lemma_b64_char_range(((d[0] % 4) * 16 + d[1] / 16) as u8);
        lemma_b64_char_range(((d[1] % 16) * 4) as u8);
    } else {
        lemma_b64_char_range(d[0] / 4);
        lemma_b64_char_range(((d[0] % 4) * 16 + d[1] / 16) as u8);
        lemma_b64_char_range(((d[1] % 16) * 4 + d[2] / 64) as u8);
        lemma_b64_char_range(d[2] % 64);
        lemma_b64_bytes_props(d.skip(3));
    }
}

/// An all-ASCII byte sequence turns into characters and back without loss.
pub proof fn lemma_ascii_chars_of_encode(b: Seq<u8>)
    requires
        forall|i: int| 0 <= i < b.len() ==> b[i] < 128,
    ensures
        vstd::utf8::is_ascii_chars(ascii_chars_of(b)),
        vstd::utf8::encode_utf8(ascii_chars_of(b)) =~= b,
{
    let chars = ascii_chars_of(b);
    assert forall|i: int| 0 <= i < chars.len() implies '\0' <= #[trigger] chars[i] <= '\u{7f}' by {
        assert(chars[i] == b[i] as char);
        assert(chars[i] as u32 == b[i] as u32);
    }
    vstd::utf8::is_ascii_chars_encode_utf8(chars);
    assert forall|i: int| 0 <= i < b.len() implies vstd::utf8::encode_utf8(chars)[i] == b[i] by {
        assert(chars[i] as u8 == vstd::utf8::encode_utf8(chars)[i]);
        assert(chars[i] as u32 == b[i] as u32);
    }
}

/// Relies on `String::from_utf8`: an all-ASCII byte vector is valid UTF-8
/// and decodes to one character per byte.
#[verifier::external_body]
pub(crate) fn ascii_to_string(b: Vec<u8>) -> (r: Option<String>)
    ensures
        (forall|i: int| 0 <= i < b@.len() ==> b@[i] < 128) ==> (r is Some && r->Some_0@
            == ascii_chars_of(b@)),
{
    match String::from_utf8(b) {
        Ok(s) => Some(s),
        Err(_) => None,
    }
}

} // verus!


verus! {

/// Element-wise equality of two byte slices.
pub(crate) fn slice_eq(a: &[u8], b: &[u8]) -> (r: bool)
    ensures
        r <==> a@ == b@,
{
    if a.len() != b.len() {
        proof {
            assert(a@.len() != b@.len());
        }
        return false;
    }
    let mut i: usize = 0;
    while i < a.len()
        invariant
            i <= a@.len(),
            a@.len() == b@.len(),
            forall|j: int| 0 <= j < i ==> a@[j] == b@[j],
        decreases a@.len() - i,
    {
        if a[i] != b[i] {
            return false;
        }
        i = i + 1;
    }
    proof {
        assert(a@ =~= b@);
    }
    true
}

} // verus!

verus! {

/// Append all bytes of a slice to a vector.
pub(crate) fn push_all(v: &mut Vec<u8>, s: &[u8])
    ensures
        final(v)@ == old(v)@ + s@,
{
    let mut i: usize = 0;
    while i < s.len()
        invariant
            i <= s@.len(),
            v@ == old(v)@ + s@.take(i as int),
        decreases s@.len() - i,
    {
        v.push(s[i]);
        proof {
            assert(v@ =~= old(v)@ + s@.take(i + 1));
        }
        i = i + 1;
    }
    proof {
        assert(v@ =~= old(v)@ + s@);
    }
}

/// Copy a 32-byte slice into an array.
pub(crate) fn to_array_32(s: &[u8]) -> (r: [u8; 32])
    requires
        s@.len() == 32,
    ensures
        r@ == s@,
{
    let mut r = [0u8; 32];
    let mut i: usize = 0;
    while i < 32
        invariant
            i <= 32,
            s@.len() == 32,
            forall|j: int| 0 <= j < i ==> r@[j] == s@[j],
        decreases 32 - i,
    {
        r[i] = s[i];
        i = i + 1;
    }
    proof {
        assert(r@ =~= s@);
    }
    r
}

} // verus!

verus! {

/// The bytes of a slice as a vector.
pub(crate) fn vec_of(s: &[u8]) -> (r: Vec<u8>)
    ensures
        r@ == s@,
{
    let mut v: Vec<u8> = Vec::new();
    push_all(&mut v, s);
    proof {
        assert(v@ =~= s@);
    }
    v
}

/// Copy a 64-byte slice into an array.
pub(crate) fn to_array_64(s: &[u8]) -> (r: [u8; 64])
    requires
        s@.len() == 64,
    ensures
        r@ == s@,
{
    let mut r = [0u8; 64];
    let mut i: usize = 0;
    while i < 64
        invariant
            i <= 64,
            s@.len() == 64,
            forall|j: int| 0 <= j < i ==> r@[j] == s@[j],
        decreases 64 - i,
    {
        r[i] = s[i];
        i = i + 1;
    }
    proof {
        assert(r@ =~= s@);
    }
    r
}

} // verus!
