//! The envelope's wire form: one canonical JSON object (fixed field
//! order, no spaces, ciphertext as base64, numbers in canonical decimal),
//! carried as standard base64 of the JSON bytes. The encoder and the
//! parser are verified against the same byte-level grammar, and parsing
//! inverts encoding.

use crate::encoding::ascii_chars_of;
use crate::encoding::b64_bytes;
use crate::envelope::MessageEnvelope;
use crate::error::E2EEError;
use crate::envelope::MessageType;
use vstd::prelude::*;

verus! {

/// `{"version":`
pub open spec fn lit_version() -> Seq<u8> {
    seq![123u8, 34u8, 118u8, 101u8, 114u8, 115u8, 105u8, 111u8, 110u8, 34u8, 58u8]
}

/// `,"message_type":"`
pub open spec fn lit_message_type() -> Seq<u8> {
    seq![
        44u8, 34u8, 109u8, 101u8, 115u8, 115u8, 97u8, 103u8, 101u8, 95u8, 116u8, 121u8, 112u8,
        101u8, 34u8, 58u8, 34u8,
    ]
}

/// `","ciphertext":"`
pub open spec fn lit_ciphertext() -> Seq<u8> {
    seq![
        34u8, 44u8, 34u8, 99u8, 105u8, 112u8, 104u8, 101u8, 114u8, 116u8, 101u8, 120u8, 116u8,
        34u8, 58u8, 34u8,
    ]
}

/// `","header":{"dh_public_key":"`
pub open spec fn lit_header() -> Seq<u8> {
    seq![
        34u8, 44u8, 34u8, 104u8, 101u8, 97u8, 100u8, 101u8, 114u8, 34u8, 58u8, 123u8, 34u8, 100u8,
        104u8, 95u8, 112u8, 117u8, 98u8, 108u8, 105u8, 99u8, 95u8, 107u8, 101u8, 121u8, 34u8,
        58u8, 34u8,
    ]
}

/// `","previous_chain_length":`
pub open spec fn lit_previous() -> Seq<u8> {
    seq![
        34u8, 44u8, 34u8, 112u8, 114u8, 101u8, 118u8, 105u8, 111u8, 117u8, 115u8, 95u8, 99u8,
        104u8, 97u8, 105u8, 110u8, 95u8, 108u8, 101u8, 110u8, 103u8, 116u8, 104u8, 34u8, 58u8,
    ]
}

/// `,"message_number":`
pub open spec fn lit_number() -> Seq<u8> {
    seq![
        44u8, 34u8, 109u8, 101u8, 115u8, 115u8, 97u8, 103u8, 101u8, 95u8, 110u8, 117u8, 109u8,
        98u8, 101u8, 114u8, 34u8, 58u8,
    ]
}

/// `}}`
pub open spec fn lit_close() -> Seq<u8> {
    seq![125u8, 125u8]
}

/// The wire name of a message type.
pub open spec fn message_type_name(t: MessageType) -> Seq<u8> {
    match t {
        MessageType::Regular => seq![82u8, 101u8, 103u8, 117u8, 108u8, 97u8, 114u8],
        MessageType::PreKey => seq![80u8, 114u8, 101u8, 75u8, 101u8, 121u8],
        MessageType::KeyExchange => seq![
            75u8, 101u8, 121u8, 69u8, 120u8, 99u8, 104u8, 97u8, 110u8, 103u8, 101u8,
        ],
    }
}

/// The canonical decimal digits of a number, as ASCII bytes.
pub open spec fn dec_bytes(n: nat) -> Seq<u8>
    decreases n,
{
    if n < 10 {
        seq![(48 + n) as u8]
    } else {
        dec_bytes(n / 10) + seq![(48 + n % 10) as u8]
    }
}

/// Whether a byte is an ASCII decimal digit.
pub open spec fn is_digit(b: u8) -> bool {
    48 <= b <= 57
}

/// The value of a sequence of digit bytes.
pub open spec fn val_of_digits(s: Seq<u8>) -> nat
    decreases s.len(),
{
    if s.len() == 0 {
        0
    } else {
        val_of_digits(s.drop_last()) * 10 + (if s.last() >= 48 {
            (s.last() - 48) as nat
        } else {
            0
        })
    }
}

/// The canonical JSON bytes of an envelope.
pub open spec fn json_bytes(e: MessageEnvelope) -> Seq<u8> {
    lit_version() + dec_bytes(e.version as nat) + lit_message_type() + message_type_name(
        e.message_type,
    ) + lit_ciphertext() + b64_bytes(e.ciphertext@) + lit_header() + vstd::utf8::encode_utf8(
        e.header.dh_public_key@,
    ) + lit_previous() + dec_bytes(e.header.previous_chain_length as nat) + lit_number()
        + dec_bytes(e.header.message_number as nat) + lit_close()
}

/// The wire bytes of an envelope: base64 of its canonical JSON.
pub open spec fn wire_bytes(e: MessageEnvelope) -> Seq<u8> {
    b64_bytes(json_bytes(e))
}

/// The wire string of an envelope, character by character.
pub open spec fn wire_chars(e: MessageEnvelope) -> Seq<char> {
    ascii_chars_of(wire_bytes(e))
}

/// An envelope that the wire form can carry faithfully: its key field is
/// ASCII and free of the quote and backslash characters.
pub open spec fn env_wf(e: MessageEnvelope) -> bool {
    &&& vstd::utf8::is_ascii_chars(e.header.dh_public_key@)
    &&& forall|i: int|
        0 <= i < e.header.dh_public_key@.len() ==> #[trigger] e.header.dh_public_key@[i] != '"'
            && e.header.dh_public_key@[i] != '\\'
}

/// Two envelopes hold the same values in every field.
pub open spec fn envelope_eq(a: MessageEnvelope, b: MessageEnvelope) -> bool {
    &&& a.version == b.version
    &&& a.message_type == b.message_type
    &&& a.ciphertext@ == b.ciphertext@
    &&& a.header.dh_public_key@ == b.header.dh_public_key@
    &&& a.header.previous_chain_length == b.header.previous_chain_length
    &&& a.header.message_number == b.header.message_number
}

/// Every byte of a canonical decimal is a digit, and the first byte is
/// `'0'` exactly for the number zero.
pub proof fn lemma_dec_bytes_props(n: nat)
    ensures
        dec_bytes(n).len() >= 1,
        forall|i: int| 0 <= i < dec_bytes(n).len() ==> is_digit(#[trigger] dec_bytes(n)[i]),
        dec_bytes(n)[0] == 48 <==> n == 0,
        n >= 10 ==> dec_bytes(n).len() >= 2,
    decreases n,
{
    if n >= 10 {
        lemma_dec_bytes_props(n / 10);
        assert(dec_bytes(n) == dec_bytes(n / 10) + seq![(48 + n % 10) as u8]);
        assert(dec_bytes(n)[0] == dec_bytes(n / 10)[0]);
    }
}

/// The digits of a number evaluate back to the number.
pub proof fn lemma_val_of_dec_bytes(n: nat)
    ensures
        val_of_digits(dec_bytes(n)) == n,
    decreases n,
{
    if n < 10 {
        assert(dec_bytes(n) == seq![(48 + n) as u8]);
        assert(dec_bytes(n).drop_last() =~= Seq::<u8>::empty());
        assert(val_of_digits(Seq::<u8>::empty()) == 0);
        assert(val_of_digits(dec_bytes(n)) == 0 * 10 + ((48 + n) as u8 - 48) as nat);
    } else {
        lemma_val_of_dec_bytes(n / 10);
        assert(dec_bytes(n) == dec_bytes(n / 10) + seq![(48 + n % 10) as u8]);
        assert(dec_bytes(n).drop_last() =~= dec_bytes(n / 10));
        assert(dec_bytes(n).last() == (48 + n % 10) as u8);
        assert(val_of_digits(dec_bytes(n)) == n / 10 * 10 + n % 10);
        vstd::arithmetic::div_mod::lemma_fundamental_div_mod(n as int, 10);
    }
}

/// A nonempty all-digit region without a leading zero (unless it is the
/// single digit zero) is the canonical decimal of its value.
pub proof fn lemma_digits_are_dec_bytes(s: Seq<u8>)
    requires
        s.len() >= 1,
        forall|i: int| 0 <= i < s.len() ==> is_digit(#[trigger] s[i]),
        s[0] == 48 ==> s.len() == 1,
    ensures
        dec_bytes(val_of_digits(s)) == s,
    decreases s.len(),
{
    if s.len() == 1 {
        assert(s.drop_last() =~= Seq::<u8>::empty());
        assert(val_of_digits(Seq::<u8>::empty()) == 0);
        assert(s.last() == s[0]);
        assert(val_of_digits(s) == 0 * 10 + (s[0] - 48) as nat);
        assert(val_of_digits(s) == (s[0] - 48) as nat);
        assert(dec_bytes(val_of_digits(s)) =~= s);
    } else {
        let head = s.drop_last();
        assert(forall|i: int| 0 <= i < head.len() ==> is_digit(#[trigger] head[i]));
        assert(head[0] == s[0]);
        lemma_digits_are_dec_bytes(head);
        let v = val_of_digits(s);
        let hv = val_of_digits(head);
        assert(v == hv * 10 + (s.last() - 48) as nat);
        lemma_dec_bytes_props(hv);
        assert(hv >= 1) by {
            if hv == 0 {
                assert(dec_bytes(0nat) == seq![48u8]);
                assert(head[0] == 48);
            }
        }
        assert(v >= 10);
        assert(v / 10 == hv && v % 10 == (s.last() - 48) as nat) by {
            vstd::arithmetic::div_mod::lemma_fundamental_div_mod_converse(
                v as int,
                10,
                hv as int,
                (s.last() - 48) as int,
            );
        }
        assert(dec_bytes(v) == dec_bytes(hv) + seq![(48 + v % 10) as u8]);
        assert(dec_bytes(v) =~= s);
    }
}

/// Extending a digit region on the right cannot shrink its value.
pub proof fn lemma_val_monotonic(s: Seq<u8>, i: int, j: int)
    requires
        0 <= i <= j <= s.len(),
    ensures
        val_of_digits(s.subrange(0, i)) <= val_of_digits(s.subrange(0, j)),
    decreases j - i,
{
    if i < j {
        lemma_val_monotonic(s, i, j - 1);
        assert(s.subrange(0, j).drop_last() =~= s.subrange(0, j - 1));
        let a = val_of_digits(s.subrange(0, j - 1));
        assert(val_of_digits(s.subrange(0, j)) >= a * 10);
    }
}



/// A byte region that some byte vector encodes to in base64.
pub open spec fn is_b64_region(region: Seq<u8>) -> bool {
    exists|d: Seq<u8>| region == b64_bytes(d)
}

/// A key-field region: ASCII bytes, none a backslash.
pub open spec fn key_region_ok(region: Seq<u8>) -> bool {
    forall|i: int| 0 <= i < region.len() ==> #[trigger] region[i] < 128 && region[i] != 92
}

/// The literal `lit` stands in `s` at position `pos`.
pub open spec fn match_lit(s: Seq<u8>, pos: int, lit: Seq<u8>) -> bool {
    &&& 0 <= pos
    &&& pos + lit.len() <= s.len()
    &&& s.subrange(pos, pos + lit.len()) == lit
}

/// The position of the first quote byte at or after `pos`, if any.
pub open spec fn find_quote(s: Seq<u8>, pos: int) -> Option<int>
    decreases s.len() - pos,
    when 0 <= pos <= s.len()
{
    if pos >= s.len() {
        Option::None
    } else if s[pos] == 34 {
        Option::Some(pos)
    } else {
        find_quote(s, pos + 1)
    }
}

/// The position of the first non-digit byte at or after `pos` (or the end).
pub open spec fn scan_digits(s: Seq<u8>, pos: int) -> int
    decreases s.len() - pos,
    when 0 <= pos <= s.len()
{
    if pos >= s.len() {
        pos
    } else if !is_digit(s[pos]) {
        pos
    } else {
        scan_digits(s, pos + 1)
    }
}

/// A canonical decimal number read at `pos`: its value and the position
/// after it. There is none when no digit stands at `pos` or a leading
/// zero is followed by more digits.
pub open spec fn parse_number(s: Seq<u8>, pos: int) -> Option<(nat, int)> {
    let end = scan_digits(s, pos);
    if end == pos {
        Option::None
    } else if s[pos] == 48 && end > pos + 1 {
        Option::None
    } else {
        Option::Some((val_of_digits(s.subrange(pos, end)), end))
    }
}

/// The fields read off a canonical JSON envelope, with the two string
/// fields still in their wire form (base64 and UTF-8 bytes).
pub struct WireFields {
    /// The version number.
    pub version: u32,
    /// The message type.
    pub message_type: MessageType,
    /// The ciphertext field's bytes: base64 of the ciphertext.
    pub ciphertext_b64: Seq<u8>,
    /// The key field's bytes: the UTF-8 of the hex string.
    pub key_bytes: Seq<u8>,
    /// The previous chain length.
    pub previous_chain_length: u32,
    /// The message number.
    pub message_number: u64,
}

/// Parse canonical envelope JSON: exactly the shape `json_bytes` emits,
/// with canonical numbers in range, a base64-decodable ciphertext field,
/// and an ASCII, backslash-free key field.
#[verifier::opaque]
pub open spec fn spec_parse_json(s: Seq<u8>) -> Option<WireFields> {
    if !match_lit(s, 0, lit_version()) {
        Option::None
    } else {
        match parse_number(s, lit_version().len() as int) {
            Option::None => Option::None,
            Option::Some((ver, p1)) => if ver > u32::MAX {
                Option::None
            } else if !match_lit(s, p1, lit_message_type()) {
                Option::None
            } else {
                let p2 = p1 + lit_message_type().len();
                let ty_parse = if match_lit(s, p2, message_type_name(MessageType::Regular)) {
                    Option::Some((MessageType::Regular, p2 + 7))
                } else if match_lit(s, p2, message_type_name(MessageType::PreKey)) {
                    Option::Some((MessageType::PreKey, p2 + 6))
                } else if match_lit(s, p2, message_type_name(MessageType::KeyExchange)) {
                    Option::Some((MessageType::KeyExchange, p2 + 11))
                } else {
                    Option::None
                };
                match ty_parse {
                    Option::None => Option::None,
                    Option::Some((ty, p3)) => if !match_lit(s, p3, lit_ciphertext()) {
                        Option::None
                    } else {
                        let p4 = p3 + lit_ciphertext().len();
                        match find_quote(s, p4) {
                            Option::None => Option::None,
                            Option::Some(q1) => {
                                let ct_region = s.subrange(p4, q1);
                                if !is_b64_region(ct_region) {
                                    Option::None
                                } else if !match_lit(s, q1, lit_header()) {
                                    Option::None
                                } else {
                                    let p5 = q1 + lit_header().len();
                                    match find_quote(s, p5) {
                                        Option::None => Option::None,
                                        Option::Some(q2) => {
                                            let key_region = s.subrange(p5, q2);
                                            if !key_region_ok(key_region) {
                                                Option::None
                                            } else if !match_lit(s, q2, lit_previous()) {
                                                Option::None
                                            } else {
                                                spec_parse_tail(
                                                    s,
                                                    q2 + lit_previous().len(),
                                                    ver as u32,
                                                    ty,
                                                    ct_region,
                                                    key_region,
                                                )
                                            }
                                        },
                                    }
                                }
                            },
                        }
                    },
                }
            },
        }
    }
}

/// The numeric tail of the envelope JSON: previous chain length, message
/// number, and the closing braces ending the input.
#[verifier::opaque]
pub open spec fn spec_parse_tail(
    s: Seq<u8>,
    pos: int,
    ver: u32,
    ty: MessageType,
    ct_region: Seq<u8>,
    key_region: Seq<u8>,
) -> Option<WireFields> {
    match parse_number(s, pos) {
        Option::None => Option::None,
        Option::Some((pcl, p7)) => if pcl > u32::MAX {
            Option::None
        } else if !match_lit(s, p7, lit_number()) {
            Option::None
        } else {
            match parse_number(s, p7 + lit_number().len()) {
                Option::None => Option::None,
                Option::Some((mn, p9)) => if mn > u64::MAX {
                    Option::None
                } else if !(match_lit(s, p9, lit_close()) && p9 + 2 == s.len()) {
                    Option::None
                } else {
                    Option::Some(
                        WireFields {
                            version: ver,
                            message_type: ty,
                            ciphertext_b64: ct_region,
                            key_bytes: key_region,
                            previous_chain_length: pcl as u32,
                            message_number: mn as u64,
                        },
                    )
                },
            }
        },
    }
}


/// The wire-level fields of an envelope: what parsing its canonical JSON
/// yields.
pub open spec fn wire_fields_of(e: MessageEnvelope) -> WireFields {
    WireFields {
        version: e.version,
        message_type: e.message_type,
        ciphertext_b64: b64_bytes(e.ciphertext@),
        key_bytes: vstd::utf8::encode_utf8(e.header.dh_public_key@),
        previous_chain_length: e.header.previous_chain_length,
        message_number: e.header.message_number,
    }
}

/// A region of digits bounded by a non-digit (or the end) is exactly what
/// the digit scan covers.
pub proof fn lemma_scan_digits_region(s: Seq<u8>, pos: int, end: int)
    requires
        0 <= pos <= end <= s.len(),
        forall|i: int| pos <= i < end ==> is_digit(#[trigger] s[i]),
        end == s.len() || !is_digit(s[end]),
    ensures
        scan_digits(s, pos) == end,
    decreases end - pos,
{
    if pos < end {
        lemma_scan_digits_region(s, pos + 1, end);
    }
}

/// A quote preceded by a quote-free region is exactly what the quote scan
/// finds.
pub proof fn lemma_find_quote_region(s: Seq<u8>, pos: int, q: int)
    requires
        0 <= pos <= q < s.len(),
        forall|i: int| pos <= i < q ==> #[trigger] s[i] != 34,
        s[q] == 34,
    ensures
        find_quote(s, pos) == Option::Some(q),
    decreases q - pos,
{
    if pos < q {
        lemma_find_quote_region(s, pos + 1, q);
    }
}


/// Parsing inverts encoding: the canonical JSON of a well-formed envelope
/// parses back to exactly its fields (the round-trip law at the JSON
/// layer).

/// The canonical JSON of an envelope splits at fixed offsets into its
/// thirteen segments.
#[verifier::rlimit(100)]
#[verifier::spinoff_prover]
pub proof fn lemma_json_layout(e: MessageEnvelope)
    ensures
        ({
            let s = json_bytes(e);
            let a = lit_version();
            let b = dec_bytes(e.version as nat);
            let c = lit_message_type();
            let d = message_type_name(e.message_type);
            let f = lit_ciphertext();
            let g = b64_bytes(e.ciphertext@);
            let h = lit_header();
            let k = vstd::utf8::encode_utf8(e.header.dh_public_key@);
            let l = lit_previous();
            let m = dec_bytes(e.header.previous_chain_length as nat);
            let nn = lit_number();
            let o = dec_bytes(e.header.message_number as nat);
            let p = lit_close();
            let o1 = a.len() as int;
            let o2 = o1 + b.len();
            let o3 = o2 + c.len();
            let o4 = o3 + d.len();
            let o5 = o4 + f.len();
            let o6 = o5 + g.len();
            let o7 = o6 + h.len();
            let o8 = o7 + k.len();
            let o9 = o8 + l.len();
            let o10 = o9 + m.len();
            let o11 = o10 + nn.len();
            let o12 = o11 + o.len();
            let o13 = o12 + p.len();
            &&& s.len() == o13
            &&& s.subrange(0, o1) == a
            &&& s.subrange(o1, o2) == b
            &&& s.subrange(o2, o3) == c
            &&& s.subrange(o3, o4) == d
            &&& s.subrange(o4, o5) == f
            &&& s.subrange(o5, o6) == g
            &&& s.subrange(o6, o7) == h
            &&& s.subrange(o7, o8) == k
            &&& s.subrange(o8, o9) == l
            &&& s.subrange(o9, o10) == m
            &&& s.subrange(o10, o11) == nn
            &&& s.subrange(o11, o12) == o
            &&& s.subrange(o12, o13) == p
        }),
{
    let s = json_bytes(e);
    let a = lit_version();
    let b = dec_bytes(e.version as nat);
    let c = lit_message_type();
    let d = message_type_name(e.message_type);
    let f = lit_ciphertext();
    let g = b64_bytes(e.ciphertext@);
    let h = lit_header();
    let k = vstd::utf8::encode_utf8(e.header.dh_public_key@);
    let l = lit_previous();
    let m = dec_bytes(e.header.previous_chain_length as nat);
    let nn = lit_number();
    let o = dec_bytes(e.header.message_number as nat);
    let p = lit_close();
    let t1 = a + b;
    let t2 = t1 + c;
    let t3 = t2 + d;
    let t4 = t3 + f;
    let t5 = t4 + g;
    let t6 = t5 + h;
    let t7 = t6 + k;
    let t8 = t7 + l;
    let t9 = t8 + m;
    let t10 = t9 + nn;
    let t11 = t10 + o;
    assert(s == t11 + p);
    assert(s.subrange(0, s.len() as int) =~= t11 + p);
    lemma_split_at(s, t11, p, 0);
    lemma_split_at(s, t10, o, 0);
    lemma_split_at(s, t9, nn, 0);
    lemma_split_at(s, t8, m, 0);
    lemma_split_at(s, t7, l, 0);
    lemma_split_at(s, t6, k, 0);
    lemma_split_at(s, t5, h, 0);
    lemma_split_at(s, t4, g, 0);
    lemma_split_at(s, t3, f, 0);
    lemma_split_at(s, t2, d, 0);
    lemma_split_at(s, t1, c, 0);
    lemma_split_at(s, a, b, 0);
}

/// A region known to hold a concatenation splits at the seam.
proof fn lemma_split_at(s: Seq<u8>, x: Seq<u8>, y: Seq<u8>, lo: int)
    requires
        0 <= lo,
        lo + x.len() + y.len() <= s.len(),
        s.subrange(lo, lo + x.len() + y.len()) == x + y,
    ensures
        s.subrange(lo, lo + x.len()) == x,
        s.subrange(lo + x.len(), lo + x.len() + y.len()) == y,
{
    let big = s.subrange(lo, lo + x.len() + y.len());
    assert forall|i: int| 0 <= i < x.len() implies s.subrange(lo, lo + x.len())[i] == x[i] by {
        assert(big[i] == (x + y)[i]);
        assert(big[i] == s[lo + i]);
    }
    assert(s.subrange(lo, lo + x.len()) =~= x);
    assert forall|i: int|
        0 <= i < y.len() implies s.subrange(lo + x.len(), lo + x.len() + y.len())[i] == y[i] by {
        assert(big[x.len() + i] == (x + y)[x.len() + i]);
        assert(big[x.len() + i] == s[lo + x.len() + i]);
    }
    assert(s.subrange(lo + x.len(), lo + x.len() + y.len()) =~= y);
}

#[verifier::rlimit(100)]
#[verifier::spinoff_prover]
pub proof fn lemma_parse_inverts_encode(e: MessageEnvelope)
    requires
        env_wf(e),
    ensures
        spec_parse_json(json_bytes(e)) == Option::Some(wire_fields_of(e)),
{
    reveal(spec_parse_json);
    reveal(spec_parse_tail);
    let s = json_bytes(e);
    let a = lit_version();
    let b = dec_bytes(e.version as nat);
    let c = lit_message_type();
    let d = message_type_name(e.message_type);
    let f = lit_ciphertext();
    let g = b64_bytes(e.ciphertext@);
    let h = lit_header();
    let k = vstd::utf8::encode_utf8(e.header.dh_public_key@);
    let l = lit_previous();
    let m = dec_bytes(e.header.previous_chain_length as nat);
    let nn = lit_number();
    let o = dec_bytes(e.header.message_number as nat);
    let p = lit_close();
    let o1 = a.len() as int;
    let o2 = o1 + b.len();
    let o3 = o2 + c.len();
    let o4 = o3 + d.len();
    let o5 = o4 + f.len();
    let o6 = o5 + g.len();
    let o7 = o6 + h.len();
    let o8 = o7 + k.len();
    let o9 = o8 + l.len();
    let o10 = o9 + m.len();
    let o11 = o10 + nn.len();
    let o12 = o11 + o.len();
    let o13 = o12 + p.len();
    lemma_json_layout(e);
    assert(s.len() == o13);

    // the version number
    lemma_dec_bytes_props(e.version as nat);
    lemma_val_of_dec_bytes(e.version as nat);
    assert(forall|i: int| o1 <= i < o2 ==> is_digit(#[trigger] s[i])) by {
        assert(forall|i: int| o1 <= i < o2 ==> s[i] == b[i - o1]);
    }
    assert(s[o2] == c[0]);
    assert(!is_digit(s[o2]));
    lemma_scan_digits_region(s, o1, o2);
    assert(s[o1] == b[0]);
    assert(s[o1] == 48 ==> o2 == o1 + 1);
    assert(parse_number(s, o1) == Option::Some((e.version as nat, o2)));

    // the message type name: the names start with distinct bytes
    assert(s[o3] == d[0]);
    match e.message_type {
        MessageType::Regular => {
            assert(match_lit(s, o3, message_type_name(MessageType::Regular)));
            assert(o4 == o3 + 7);
        },
        MessageType::PreKey => {
            assert(s[o3] == 80);
            assert(!match_lit(s, o3, message_type_name(MessageType::Regular))) by {
                if match_lit(s, o3, message_type_name(MessageType::Regular)) {
                    assert(s.subrange(o3, o3 + 7)[0] == 82);
                }
            }
            assert(match_lit(s, o3, message_type_name(MessageType::PreKey)));
            assert(o4 == o3 + 6);
        },
        MessageType::KeyExchange => {
            assert(s[o3] == 75);
            assert(!match_lit(s, o3, message_type_name(MessageType::Regular))) by {
                if match_lit(s, o3, message_type_name(MessageType::Regular)) {
                    assert(s.subrange(o3, o3 + 7)[0] == 82);
                }
            }
            assert(!match_lit(s, o3, message_type_name(MessageType::PreKey))) by {
                if match_lit(s, o3, message_type_name(MessageType::PreKey)) {
                    assert(s.subrange(o3, o3 + 6)[0] == 80);
                }
            }
            assert(match_lit(s, o3, message_type_name(MessageType::KeyExchange)));
            assert(o4 == o3 + 11);
        },
    }

    // the ciphertext region: quote-free base64, closed by lit_header's quote
    crate::encoding::lemma_b64_bytes_props(e.ciphertext@);
    assert(forall|i: int| o5 <= i < o6 ==> #[trigger] s[i] != 34) by {
        assert(forall|i: int| o5 <= i < o6 ==> s[i] == g[i - o5]);
    }
    assert(s[o6] == h[0]);
    assert(s[o6] == 34);
    lemma_find_quote_region(s, o5, o6);
    assert(is_b64_region(s.subrange(o5, o6))) by {
        assert(s.subrange(o5, o6) == b64_bytes(e.ciphertext@));
    }

    // the key region: ASCII bytes of a quote- and backslash-free string
    let key = e.header.dh_public_key@;
    vstd::utf8::is_ascii_chars_encode_utf8(key);
    assert(forall|i: int| 0 <= i < k.len() ==> #[trigger] k[i] < 128 && k[i] != 34 && k[i] != 92)
        by {
        assert forall|i: int| 0 <= i < k.len() implies #[trigger] k[i] < 128 && k[i] != 34 && k[i]
            != 92 by {
            assert(key[i] as u8 == k[i]);
            assert('\0' <= key[i] <= '\u{7f}');
            assert((key[i] as u32) < 128);
            assert(k[i] == key[i] as u32 as u8);
            if k[i] == 34 {
                assert(key[i] as u32 == 34);
                assert(key[i] == '"');
            }
            if k[i] == 92 {
                assert(key[i] as u32 == 92);
                assert(key[i] == '\\');
            }
        }
    }
    assert(forall|i: int| o7 <= i < o8 ==> #[trigger] s[i] != 34) by {
        assert(forall|i: int| o7 <= i < o8 ==> s[i] == k[i - o7]);
    }
    assert(s[o8] == l[0]);
    assert(s[o8] == 34);
    lemma_find_quote_region(s, o7, o8);
    assert(key_region_ok(s.subrange(o7, o8))) by {
        assert(s.subrange(o7, o8) == k);
    }

    // the previous chain length
    lemma_dec_bytes_props(e.header.previous_chain_length as nat);
    lemma_val_of_dec_bytes(e.header.previous_chain_length as nat);
    assert(forall|i: int| o9 <= i < o10 ==> is_digit(#[trigger] s[i])) by {
        assert(forall|i: int| o9 <= i < o10 ==> s[i] == m[i - o9]);
    }
    assert(s[o10] == nn[0]);
    assert(!is_digit(s[o10]));
    lemma_scan_digits_region(s, o9, o10);
    assert(s[o9] == m[0]);
    assert(s[o9] == 48 ==> o10 == o9 + 1);
    assert(parse_number(s, o9) == Option::Some(
        (e.header.previous_chain_length as nat, o10),
    ));

    // the message number
    lemma_dec_bytes_props(e.header.message_number as nat);
    lemma_val_of_dec_bytes(e.header.message_number as nat);
    assert(forall|i: int| o11 <= i < o12 ==> is_digit(#[trigger] s[i])) by {
        assert(forall|i: int| o11 <= i < o12 ==> s[i] == o[i - o11]);
    }
    assert(s[o12] == p[0]);
    assert(!is_digit(s[o12]));
    lemma_scan_digits_region(s, o11, o12);
    assert(s[o11] == o[0]);
    assert(s[o11] == 48 ==> o12 == o11 + 1);
    assert(parse_number(s, o11) == Option::Some((e.header.message_number as nat, o12)));

    assert(match_lit(s, o12, lit_close()) && o12 + 2 == s.len());
}


pub(crate) fn lit_version_bytes() -> (r: Vec<u8>)
    ensures
        r@ == lit_version(),
{
    let mut v: Vec<u8> = Vec::new();
    v.push(123);
    v.push(34);
    v.push(118);
    v.push(101);
    v.push(114);
    v.push(115);
    v.push(105);
    v.push(111);
    v.push(110);
    v.push(34);
    v.push(58);
    proof {
        assert(v@ =~= lit_version());
    }
    v
}

pub(crate) fn lit_message_type_bytes() -> (r: Vec<u8>)
    ensures
        r@ == lit_message_type(),
{
    let mut v: Vec<u8> = Vec::new();
    v.push(44);
    v.push(34);
    v.push(109);
    v.push(101);
    v.push(115);
    v.push(115);
    v.push(97);
    v.push(103);
    v.push(101);
    v.push(95);
    v.push(116);
    v.push(121);
    v.push(112);
    v.push(101);
    v.push(34);
    v.push(58);
    v.push(34);
    proof {
        assert(v@ =~= lit_message_type());
    }
    v
}

pub(crate) fn lit_ciphertext_bytes() -> (r: Vec<u8>)
    ensures
        r@ == lit_ciphertext(),
{
    let mut v: Vec<u8> = Vec::new();
    v.push(34);
    v.push(44);
    v.push(34);
    v.push(99);
    v.push(105);
    v.push(112);
    v.push(104);
    v.push(101);
    v.push(114);
    v.push(116);
    v.push(101);
    v.push(120);
    v.push(116);
    v.push(34);
    v.push(58);
    v.push(34);
    proof {
        assert(v@ =~= lit_ciphertext());
    }
    v
}

pub(crate) fn lit_header_bytes() -> (r: Vec<u8>)
    ensures
        r@ == lit_header(),
{
    let mut v: Vec<u8> = Vec::new();
    v.push(34);
    v.push(44);
    v.push(34);
    v.push(104);
    v.push(101);
    v.push(97);
    v.push(100);
    v.push(101);
    v.push(114);
    v.push(34);
    v.push(58);
    v.push(123);
    v.push(34);
    v.push(100);
    v.push(104);
    v.push(95);
    v.push(112);
    v.push(117);
    v.push(98);
    v.push(108);
    v.push(105);
    v.push(99);
    v.push(95);
    v.push(107);
    v.push(101);
    v.push(121);
    v.push(34);
    v.push(58);
    v.push(34);
    proof {
        assert(v@ =~= lit_header());
    }
    v
}

pub(crate) fn lit_previous_bytes() -> (r: Vec<u8>)
    ensures
        r@ == lit_previous(),
{
    let mut v: Vec<u8> = Vec::new();
    v.push(34);
    v.push(44);
    v.push(34);
    v.push(112);
    v.push(114);
    v.push(101);
    v.push(118);
    v.push(105);
    v.push(111);
    v.push(117);
    v.push(115);
    v.push(95);
    v.push(99);
    v.push(104);
    v.push(97);
    v.push(105);
    v.push(110);
    v.push(95);
    v.push(108);
    v.push(101);
    v.push(110);
    v.push(103);
    v.push(116);
    v.push(104);
    v.push(34);
    v.push(58);
    proof {
        assert(v@ =~= lit_previous());
    }
    v
}

pub(crate) fn lit_number_bytes() -> (r: Vec<u8>)
    ensures
        r@ == lit_number(),
{
    let mut v: Vec<u8> = Vec::new();
    v.push(44);
    v.push(34);
    v.push(109);
    v.push(101);
    v.push(115);
    v.push(115);
    v.push(97);
    v.push(103);
    v.push(101);
    v.push(95);
    v.push(110);
    v.push(117);
    v.push(109);
    v.push(98);
    v.push(101);
    v.push(114);
    v.push(34);
    v.push(58);
    proof {
        assert(v@ =~= lit_number());
    }
    v
}

pub(crate) fn lit_close_bytes() -> (r: Vec<u8>)
    ensures
        r@ == lit_close(),
{
    let mut v: Vec<u8> = Vec::new();
    v.push(125);
    v.push(125);
    proof {
        assert(v@ =~= lit_close());
    }
    v
}

pub(crate) fn message_type_name_bytes(t: MessageType) -> (r: Vec<u8>)
    ensures
        r@ == message_type_name(t),
{
    let mut v: Vec<u8> = Vec::new();
    match t {
        MessageType::Regular => {
            v.push(82);
            v.push(101);
            v.push(103);
            v.push(117);
            v.push(108);
            v.push(97);
            v.push(114);
        },
        MessageType::PreKey => {
            v.push(80);
            v.push(114);
            v.push(101);
            v.push(75);
            v.push(101);
            v.push(121);
        },
        MessageType::KeyExchange => {
            v.push(75);
            v.push(101);
            v.push(121);
            v.push(69);
            v.push(120);
            v.push(99);
            v.push(104);
            v.push(97);
            v.push(110);
            v.push(103);
            v.push(101);
        },
    }
    proof {
        assert(v@ =~= message_type_name(t));
    }
    v
}

/// Append the canonical decimal digits of a number.
pub(crate) fn push_dec_u64(v: &mut Vec<u8>, n: u64)
    ensures
        final(v)@ == old(v)@ + dec_bytes(n as nat),
    decreases n,
{
    if n < 10 {
        v.push(48 + n as u8);
        proof {
            assert(final(v)@ =~= old(v)@ + dec_bytes(n as nat));
        }
    } else {
        push_dec_u64(v, n / 10);
        v.push(48 + (n % 10) as u8);
        proof {
            assert(dec_bytes(n as nat) == dec_bytes((n / 10) as nat) + seq![
                (48 + (n as nat) % 10) as u8,
            ]);
            assert(final(v)@ =~= old(v)@ + dec_bytes(n as nat));
        }
    }
}

/// Whether the literal stands at the position.
fn expect_lit(s: &[u8], pos: usize, lit: &[u8]) -> (r: bool)
    ensures
        r == match_lit(s@, pos as int, lit@),
{
    if pos > s.len() {
        return false;
    }
    if lit.len() > s.len() - pos {
        return false;
    }
    let mut i: usize = 0;
    while i < lit.len()
        invariant
            i <= lit@.len(),
            pos + lit@.len() <= s@.len(),
            s@.len() <= usize::MAX,
            forall|j: int| 0 <= j < i ==> s@[pos + j] == lit@[j],
        decreases lit@.len() - i,
    {
        if s[pos + i] != lit[i] {
            proof {
                assert(s@.subrange(pos as int, pos + lit@.len())[i as int] != lit@[i as int]);
            }
            return false;
        }
        i = i + 1;
    }
    proof {
        assert(s@.subrange(pos as int, pos + lit@.len()) =~= lit@);
    }
    true
}

/// What the quote scan knows about its result.
proof fn lemma_find_quote_props(s: Seq<u8>, pos: int)
    requires
        0 <= pos <= s.len(),
    ensures
        match find_quote(s, pos) {
            Option::Some(q) => pos <= q < s.len() && s[q] == 34 && (forall|i: int|
                pos <= i < q ==> #[trigger] s[i] != 34),
            Option::None => forall|i: int| pos <= i < s.len() ==> #[trigger] s[i] != 34,
        },
    decreases s.len() - pos,
{
    if pos < s.len() && s[pos] != 34 {
        lemma_find_quote_props(s, pos + 1);
    }
}

/// The position of the first quote byte at or after `pos`, if any.
fn find_quote_exec(s: &[u8], pos: usize) -> (r: Option<usize>)
    requires
        pos <= s@.len(),
    ensures
        match find_quote(s@, pos as int) {
            Option::Some(q) => r == Option::Some(q as usize),
            Option::None => r is None,
        },
{
    let mut i: usize = pos;
    while i < s.len()
        invariant
            pos <= i <= s@.len(),
            find_quote(s@, pos as int) == find_quote(s@, i as int),
        decreases s@.len() - i,
    {
        if s[i] == 34 {
            return Option::Some(i);
        }
        i = i + 1;
    }
    Option::None
}

/// What the digit scan knows about its result.
proof fn lemma_scan_digits_props(s: Seq<u8>, pos: int)
    requires
        0 <= pos <= s.len(),
    ensures
        ({
            let end = scan_digits(s, pos);
            &&& pos <= end <= s.len()
            &&& (forall|i: int| pos <= i < end ==> is_digit(#[trigger] s[i]))
            &&& (end == s.len() || !is_digit(s[end]))
        }),
    decreases s.len() - pos,
{
    if pos < s.len() && is_digit(s[pos]) {
        lemma_scan_digits_props(s, pos + 1);
    }
}


/// The position of the first non-digit byte at or after `pos`.
fn scan_digits_exec(s: &[u8], pos: usize) -> (r: usize)
    requires
        pos <= s@.len(),
    ensures
        r == scan_digits(s@, pos as int),
{
    let mut i: usize = pos;
    while i < s.len()
        invariant
            pos <= i <= s@.len(),
            scan_digits(s@, pos as int) == scan_digits(s@, i as int),
        decreases s@.len() - i,
    {
        let b = s[i];
        if b < 48 || b > 57 {
            return i;
        }
        i = i + 1;
    }
    i
}

/// A canonical decimal number at `pos`, if one fits in a `u64`.
fn parse_number_exec(s: &[u8], pos: usize) -> (r: Option<(u64, usize)>)
    requires
        pos <= s@.len(),
    ensures
        match parse_number(s@, pos as int) {
            Option::None => r is None,
            Option::Some((v, end)) => if v <= u64::MAX {
                r == Option::Some((v as u64, end as usize))
            } else {
                r is None
            },
        },
        parse_number(s@, pos as int) matches Option::Some(t) ==> pos <= t.1 <= s@.len(),
{
    proof {
        lemma_scan_digits_props(s@, pos as int);
    }
    let end = scan_digits_exec(s, pos);
    if end == pos {
        return Option::None;
    }
    if s[pos] == 48 && end > pos + 1 {
        return Option::None;
    }
    let ghost region = s@.subrange(pos as int, end as int);
    let mut acc: u64 = 0;
    let mut i: usize = pos;
    while i < end
        invariant
            pos <= i <= end <= s@.len(),
            pos < end,
            end as int == scan_digits(s@, pos as int),
            !(s@[pos as int] == 48 && end > pos + 1),
            forall|j: int| pos <= j < end ==> is_digit(#[trigger] s@[j]),
            acc as nat == val_of_digits(s@.subrange(pos as int, i as int)),
            region == s@.subrange(pos as int, end as int),
        decreases end - i,
    {
        let d = s[i] - 48;
        if acc > (u64::MAX - d as u64) / 10 {
            proof {
                assert(s@.subrange(pos as int, i + 1).drop_last() =~= s@.subrange(
                    pos as int,
                    i as int,
                ));
                assert(val_of_digits(s@.subrange(pos as int, i + 1)) == acc as nat * 10 + d as nat);
                assert(acc as nat * 10 + d as nat > u64::MAX) by {
                    vstd::arithmetic::div_mod::lemma_fundamental_div_mod(
                        (u64::MAX - d as u64) as int,
                        10,
                    );
                }
                lemma_val_monotonic(region, i + 1 - pos, end - pos);
                assert(region.subrange(0, i + 1 - pos) =~= s@.subrange(pos as int, i + 1));
                assert(region.subrange(0, end - pos) =~= s@.subrange(pos as int, end as int));
                assert(val_of_digits(s@.subrange(pos as int, end as int)) > u64::MAX);
            }
            return Option::None;
        }
        acc = acc * 10 + d as u64;
        proof {
            assert(s@.subrange(pos as int, i + 1).drop_last() =~= s@.subrange(
                pos as int,
                i as int,
            ));
        }
        i = i + 1;
    }
    Option::Some((acc, end))
}

/// The bytes of a region of a slice.
fn copy_range(s: &[u8], a: usize, b: usize) -> (r: Vec<u8>)
    requires
        a <= b <= s@.len(),
    ensures
        r@ == s@.subrange(a as int, b as int),
{
    let mut v: Vec<u8> = Vec::new();
    let mut i: usize = a;
    while i < b
        invariant
            a <= i <= b <= s@.len(),
            v@ == s@.subrange(a as int, i as int),
        decreases b - i,
    {
        v.push(s[i]);
        proof {
            assert(v@ =~= s@.subrange(a as int, i + 1));
        }
        i = i + 1;
    }
    v
}



/// Whether every byte is ASCII and none is a backslash.
fn key_bytes_ok(s: &[u8]) -> (r: bool)
    ensures
        r == key_region_ok(s@),
{
    let mut i: usize = 0;
    while i < s.len()
        invariant
            i <= s@.len(),
            forall|j: int| 0 <= j < i ==> #[trigger] s@[j] < 128 && s@[j] != 92,
        decreases s@.len() - i,
    {
        let b = s[i];
        if b >= 128 || b == 92 {
            proof {
                assert(!(0 <= i ==> s@[i as int] < 128 && s@[i as int] != 92));
                assert(!key_region_ok(s@));
            }
            return false;
        }
        i = i + 1;
    }
    true
}

/// Parse the canonical JSON bytes of an envelope: exactly the shape
/// `json_bytes` emits. Everything `spec_parse_json` accepts is parsed,
/// and nothing else.
#[verifier::rlimit(100)]
#[verifier::spinoff_prover]
#[verifier::loop_isolation(false)]
pub(crate) fn parse_envelope_bytes(json: &[u8]) -> (r: Result<MessageEnvelope, E2EEError>)
    ensures
        ({
            match spec_parse_json(json@) {
                Option::None => r is Err && r->Err_0 == E2EEError::Serialization,
                Option::Some(t) => {
                    &&& r is Ok
                    &&& r->Ok_0.version == t.version
                    &&& r->Ok_0.message_type == t.message_type
                    &&& b64_bytes(r->Ok_0.ciphertext@) == t.ciphertext_b64
                    &&& (forall|d: Seq<u8>|
                        t.ciphertext_b64 == b64_bytes(d) ==> r->Ok_0.ciphertext@ == d)
                    &&& vstd::utf8::encode_utf8(r->Ok_0.header.dh_public_key@) == t.key_bytes
                    &&& r->Ok_0.header.previous_chain_length == t.previous_chain_length
                    &&& r->Ok_0.header.message_number == t.message_number
                    &&& env_wf(r->Ok_0)
                },
            }
        }),
{
    reveal(spec_parse_json);
    reveal(spec_parse_tail);
    let total = json.len();
    let lit1 = lit_version_bytes();
    if !expect_lit(json, 0, lit1.as_slice()) {
        return Err(E2EEError::Serialization);
    }
    let p0 = lit1.len();
    let (ver64, p1) = match parse_number_exec(json, p0) {
        Option::Some(t) => t,
        Option::None => {
            return Err(E2EEError::Serialization);
        },
    };
    if ver64 > 0xffff_ffff {
        return Err(E2EEError::Serialization);
    }
    let lit2 = lit_message_type_bytes();
    if !expect_lit(json, p1, lit2.as_slice()) {
        return Err(E2EEError::Serialization);
    }
    let p2 = p1 + lit2.len();
    let name_regular = message_type_name_bytes(MessageType::Regular);
    let name_prekey = message_type_name_bytes(MessageType::PreKey);
    let name_keyexchange = message_type_name_bytes(MessageType::KeyExchange);
    let (message_type, p3): (MessageType, usize) = if expect_lit(json, p2, name_regular.as_slice()) {
        (MessageType::Regular, p2 + 7)
    } else if expect_lit(json, p2, name_prekey.as_slice()) {
        (MessageType::PreKey, p2 + 6)
    } else if expect_lit(json, p2, name_keyexchange.as_slice()) {
        (MessageType::KeyExchange, p2 + 11)
    } else {
        return Err(E2EEError::Serialization);
    };
    let lit3 = lit_ciphertext_bytes();
    if !expect_lit(json, p3, lit3.as_slice()) {
        return Err(E2EEError::Serialization);
    }
    let p4 = p3 + lit3.len();
    proof {
        lemma_find_quote_props(json@, p4 as int);
    }
    let q1 = match find_quote_exec(json, p4) {
        Option::Some(q) => q,
        Option::None => {
            return Err(E2EEError::Serialization);
        },
    };
    let ct_region = copy_range(json, p4, q1);
    let ghost ct_sub = json@.subrange(p4 as int, q1 as int);
    let ciphertext = match crate::encoding::b64_decode(ct_region.as_slice()) {
        Result::Ok(v) => v,
        Result::Err(_) => {
            proof {
                assert(ct_sub == ct_region@);
                assert(!is_b64_region(ct_sub)) by {
                    if exists|d: Seq<u8>| ct_sub == b64_bytes(d) {
                        let d = choose|d: Seq<u8>| ct_sub == b64_bytes(d);
                        assert(ct_region@ == b64_bytes(d));
                    }
                }
            }
            return Err(E2EEError::Serialization);
        },
    };
    let lit4 = lit_header_bytes();
    if !expect_lit(json, q1, lit4.as_slice()) {
        return Err(E2EEError::Serialization);
    }
    let p5 = q1 + lit4.len();
    proof {
        lemma_find_quote_props(json@, p5 as int);
    }
    let q2 = match find_quote_exec(json, p5) {
        Option::Some(q) => q,
        Option::None => {
            return Err(E2EEError::Serialization);
        },
    };
    let key_region = copy_range(json, p5, q2);
    let ghost key_sub = json@.subrange(p5 as int, q2 as int);
    if !key_bytes_ok(key_region.as_slice()) {
        proof {
            assert(key_sub == key_region@);
            assert(is_b64_region(json@.subrange(p4 as int, q1 as int))) by {
                assert(json@.subrange(p4 as int, q1 as int) == b64_bytes(ciphertext@));
            }
        }
        return Err(E2EEError::Serialization);
    }
    proof {
        assert(key_sub == key_region@);
        assert(is_b64_region(json@.subrange(p4 as int, q1 as int))) by {
            assert(json@.subrange(p4 as int, q1 as int) == b64_bytes(ciphertext@));
        }
        crate::encoding::lemma_ascii_chars_of_encode(key_region@);
    }
    let ghost key_region_view = key_region@;
    let dh_public_key = match crate::encoding::ascii_to_string(key_region) {
        Option::Some(st) => st,
        Option::None => {
            return Err(E2EEError::Serialization);
        },
    };
    let lit5 = lit_previous_bytes();
    if !expect_lit(json, q2, lit5.as_slice()) {
        return Err(E2EEError::Serialization);
    }
    let p6 = q2 + lit5.len();
    let (pcl64, p7) = match parse_number_exec(json, p6) {
        Option::Some(t) => t,
        Option::None => {
            return Err(E2EEError::Serialization);
        },
    };
    if pcl64 > 0xffff_ffff {
        return Err(E2EEError::Serialization);
    }
    let lit6 = lit_number_bytes();
    if !expect_lit(json, p7, lit6.as_slice()) {
        return Err(E2EEError::Serialization);
    }
    let p8 = p7 + lit6.len();
    let (message_number, p9) = match parse_number_exec(json, p8) {
        Option::Some(t) => t,
        Option::None => {
            return Err(E2EEError::Serialization);
        },
    };
    let lit7 = lit_close_bytes();
    if !expect_lit(json, p9, lit7.as_slice()) {
        return Err(E2EEError::Serialization);
    }
    if p9 + 2 != total {
        return Err(E2EEError::Serialization);
    }
    let envelope = MessageEnvelope {
        version: ver64 as u32,
        message_type,
        ciphertext,
        header: crate::envelope::MessageHeader {
            dh_public_key,
            previous_chain_length: pcl64 as u32,
            message_number,
        },
    };
    proof {
        let key = envelope.header.dh_public_key@;
        assert(key == ascii_chars_of(key_region_view));
        assert forall|i: int| 0 <= i < key.len() implies #[trigger] key[i] != '"' && key[i]
            != '\\' by {
            assert(key[i] == key_region_view[i] as char);
            assert(key[i] as u32 == key_region_view[i] as u32);
            assert(key_region_view[i] != 34 && key_region_view[i] != 92);
        }
        assert(env_wf(envelope));
    }
    Ok(envelope)
}

impl MessageEnvelope {
    /// Serialize to the wire: the canonical JSON bytes, base64-encoded.
    /// Succeeds exactly on well-formed envelopes (ASCII key field free of
    /// quotes and backslashes).
    #[verifier::rlimit(100)]
    #[verifier::spinoff_prover]
    #[verifier::loop_isolation(false)]
    pub fn to_base64(&self) -> (r: Result<String, E2EEError>)
        ensures
            r is Ok <==> env_wf(*self),
            r is Ok ==> r->Ok_0@ == wire_chars(*self),
            r is Err ==> r->Err_0 == E2EEError::Serialization,
    {
        let key_str = self.header.dh_public_key.as_str();
        if !key_str.is_ascii() {
            return Err(E2EEError::Serialization);
        }
        proof {
            vstd::string::is_ascii_spec_bytes(key_str);
        }
        let key_bytes = key_str.as_bytes();
        let ghost key = self.header.dh_public_key@;
        let mut ki: usize = 0;
        while ki < key_bytes.len()
            invariant
                ki <= key_bytes@.len(),
                key_bytes@.len() == key.len(),
                key == self.header.dh_public_key@,
                vstd::utf8::is_ascii_chars(key),
                forall|j: int| 0 <= j < key.len() ==> key[j] as u8 == #[trigger] key_bytes@[j],
                forall|j: int| 0 <= j < ki ==> #[trigger] key[j] != '"' && key[j] != '\\',
            decreases key_bytes@.len() - ki,
        {
            let b = key_bytes[ki];
            if b == 34 || b == 92 {
                proof {
                    assert(key[ki as int] as u8 == b);
                    assert((key[ki as int] as u32) < 128);
                    if b == 34 {
                        assert(key[ki as int] as u32 == 34);
                        assert(key[ki as int] == '"');
                    } else {
                        assert(key[ki as int] as u32 == 92);
                        assert(key[ki as int] == '\\');
                    }
                }
                return Err(E2EEError::Serialization);
            }
            proof {
                assert(key[ki as int] as u8 == b);
                assert((key[ki as int] as u32) < 128);
                if key[ki as int] == '"' {
                    assert(key[ki as int] as u32 == 34);
                }
                if key[ki as int] == '\\' {
                    assert(key[ki as int] as u32 == 92);
                }
            }
            ki = ki + 1;
        }
        proof {
            assert(env_wf(*self));
        }
        let mut json: Vec<u8> = Vec::new();
        let lit1 = lit_version_bytes();
        crate::encoding::push_all(&mut json, lit1.as_slice());
        push_dec_u64(&mut json, self.version as u64);
        let lit2 = lit_message_type_bytes();
        crate::encoding::push_all(&mut json, lit2.as_slice());
        let name = message_type_name_bytes(self.message_type);
        crate::encoding::push_all(&mut json, name.as_slice());
        let lit3 = lit_ciphertext_bytes();
        crate::encoding::push_all(&mut json, lit3.as_slice());
        let ct_b64 = crate::encoding::b64_encode(self.ciphertext.as_slice());
        proof {
            crate::encoding::lemma_b64_bytes_props(self.ciphertext@);
            crate::encoding::lemma_ascii_chars_of_encode(b64_bytes(self.ciphertext@));
        }
        let ct_b64_bytes = ct_b64.as_str().as_bytes();
        crate::encoding::push_all(&mut json, ct_b64_bytes);
        let lit4 = lit_header_bytes();
        crate::encoding::push_all(&mut json, lit4.as_slice());
        crate::encoding::push_all(&mut json, key_bytes);
        proof {
            vstd::string::is_ascii_spec_bytes(key_str);
            crate::encoding::lemma_ascii_chars_of_encode(key_bytes@);
            assert(ascii_chars_of(key_bytes@) =~= key);
            assert(key_bytes@ == vstd::utf8::encode_utf8(key));
        }
        let lit5 = lit_previous_bytes();
        crate::encoding::push_all(&mut json, lit5.as_slice());
        push_dec_u64(&mut json, self.header.previous_chain_length as u64);
        let lit6 = lit_number_bytes();
        crate::encoding::push_all(&mut json, lit6.as_slice());
        push_dec_u64(&mut json, self.header.message_number);
        let lit7 = lit_close_bytes();
        crate::encoding::push_all(&mut json, lit7.as_slice());
        proof {
            assert(json@ == json_bytes(*self));
        }
        let wire = crate::encoding::b64_encode(json.as_slice());
        Ok(wire)
    }

    /// Parse the wire form back into an envelope. Decoding inverts
    /// `to_base64`: on the wire string of any well-formed envelope it
    /// returns an envelope equal to it, field by field; any input it
    /// accepts decodes through the same canonical grammar.
    #[verifier::rlimit(100)]
    #[verifier::spinoff_prover]
    pub fn from_base64(b64: &str) -> (r: Result<MessageEnvelope, E2EEError>)
        ensures
            r is Err ==> r->Err_0 == E2EEError::Serialization,
            r is Ok ==> env_wf(r->Ok_0),
            r is Ok ==> b64@ == wire_chars(r->Ok_0),
            forall|e: MessageEnvelope|
                env_wf(e) && b64@ == wire_chars(e) ==> r is Ok && envelope_eq(r->Ok_0, e),
    {
        let wire_bytes_in = b64.as_bytes();
        let ghost had: bool = exists|e: MessageEnvelope| env_wf(e) && b64@ == wire_chars(e);
        proof {
            if had {
                let e = choose|e: MessageEnvelope| env_wf(e) && b64@ == wire_chars(e);
                crate::encoding::lemma_b64_bytes_props(json_bytes(e));
                crate::encoding::lemma_ascii_chars_of_encode(wire_bytes(e));
                assert(vstd::utf8::encode_utf8(b64@) == wire_bytes(e));
                assert(wire_bytes_in@ == b64_bytes(json_bytes(e)));
            }
        }
        let json = match crate::encoding::b64_decode(wire_bytes_in) {
            Result::Ok(v) => v,
            Result::Err(_) => {
                return Err(E2EEError::Serialization);
            },
        };
        proof {
            if had {
                let e = choose|e: MessageEnvelope| env_wf(e) && b64@ == wire_chars(e);
                assert(wire_bytes_in@ == b64_bytes(json_bytes(e)));
                assert(json@ == json_bytes(e));
                lemma_parse_inverts_encode(e);
            }
        }
        let envelope = match parse_envelope_bytes(json.as_slice()) {
            Result::Ok(e) => e,
            Result::Err(err) => {
                return Err(err);
            },
        };
        proof {
            let t = spec_parse_json(json@)->Some_0;
            assert(t == wire_fields_of(envelope));
            lemma_parse_sound(json@, wire_fields_of(envelope));
            assert(rebuild_json(wire_fields_of(envelope)) =~= json_bytes(envelope));
            assert(json@ == json_bytes(envelope));
            assert(wire_bytes_in@ == b64_bytes(json_bytes(envelope)));
            crate::encoding::lemma_b64_bytes_props(json_bytes(envelope));
            crate::encoding::lemma_ascii_chars_of_encode(wire_bytes(envelope));
            assert(vstd::utf8::encode_utf8(b64@) == wire_bytes(envelope));
            vstd::utf8::encode_utf8_decode_utf8(b64@);
            vstd::utf8::encode_utf8_decode_utf8(ascii_chars_of(wire_bytes(envelope)));
            assert(b64@ == wire_chars(envelope));
            assert forall|e: MessageEnvelope|
                env_wf(e) && b64@ == wire_chars(e) implies envelope_eq(envelope, e) by {
                crate::encoding::lemma_b64_bytes_props(json_bytes(e));
                crate::encoding::lemma_ascii_chars_of_encode(wire_bytes(e));
                assert(vstd::utf8::encode_utf8(b64@) == wire_bytes(e));
                assert(wire_bytes_in@ == b64_bytes(json_bytes(e)));
                assert(json@ == json_bytes(e));
                lemma_parse_inverts_encode(e);
                assert(b64_bytes(envelope.ciphertext@) == b64_bytes(e.ciphertext@));
                assert(envelope.ciphertext@ == e.ciphertext@);
                vstd::utf8::encode_utf8_decode_utf8(envelope.header.dh_public_key@);
                vstd::utf8::encode_utf8_decode_utf8(e.header.dh_public_key@);
                assert(envelope.header.dh_public_key@ == e.header.dh_public_key@);
            }
        }
        Ok(envelope)
    }
}


/// The canonical JSON with the given wire fields.
pub open spec fn rebuild_json(t: WireFields) -> Seq<u8> {
    lit_version() + dec_bytes(t.version as nat) + lit_message_type() + message_type_name(
        t.message_type,
    ) + lit_ciphertext() + t.ciphertext_b64 + lit_header() + t.key_bytes + lit_previous()
        + dec_bytes(t.previous_chain_length as nat) + lit_number() + dec_bytes(
        t.message_number as nat,
    ) + lit_close()
}

/// Whatever the parser accepts is exactly the canonical JSON of the fields
/// it returns: the soundness half of the round trip.
#[verifier::rlimit(100)]
#[verifier::spinoff_prover]
pub proof fn lemma_parse_sound(s: Seq<u8>, t: WireFields)
    requires
        spec_parse_json(s) == Option::Some(t),
    ensures
        s == rebuild_json(t),
{
    reveal(spec_parse_json);
    reveal(spec_parse_tail);
    assert(match_lit(s, 0, lit_version()));
    let o1 = lit_version().len() as int;
    assert(parse_number(s, o1) is Some);
    let ver = parse_number(s, o1)->Some_0.0;
    let p1 = parse_number(s, o1)->Some_0.1;
    lemma_scan_digits_props(s, o1);
    assert(p1 == scan_digits(s, o1));
    lemma_digits_are_dec_bytes(s.subrange(o1, p1));
    assert(s.subrange(o1, p1) == dec_bytes(ver));
    assert(ver == t.version as nat);

    assert(match_lit(s, p1, lit_message_type()));
    let p2 = p1 + lit_message_type().len();
    let p3 = p2 + message_type_name(t.message_type).len();
    assert(s.subrange(p2, p3) == message_type_name(t.message_type)) by {
        if match_lit(s, p2, message_type_name(MessageType::Regular)) {
            assert(t.message_type == MessageType::Regular);
        } else if match_lit(s, p2, message_type_name(MessageType::PreKey)) {
            assert(t.message_type == MessageType::PreKey);
        } else {
            assert(match_lit(s, p2, message_type_name(MessageType::KeyExchange)));
            assert(t.message_type == MessageType::KeyExchange);
        }
    }

    assert(match_lit(s, p3, lit_ciphertext()));
    let p4 = p3 + lit_ciphertext().len();
    lemma_find_quote_props(s, p4);
    assert(find_quote(s, p4) is Some);
    let q1 = find_quote(s, p4)->Some_0;
    assert(s.subrange(p4, q1) == t.ciphertext_b64);

    assert(match_lit(s, q1, lit_header()));
    let p5 = q1 + lit_header().len();
    lemma_find_quote_props(s, p5);
    assert(find_quote(s, p5) is Some);
    let q2 = find_quote(s, p5)->Some_0;
    assert(s.subrange(p5, q2) == t.key_bytes);

    assert(match_lit(s, q2, lit_previous()));
    let p6 = q2 + lit_previous().len();
    assert(parse_number(s, p6) is Some);
    let pcl = parse_number(s, p6)->Some_0.0;
    let p7 = parse_number(s, p6)->Some_0.1;
    lemma_scan_digits_props(s, p6);
    lemma_digits_are_dec_bytes(s.subrange(p6, p7));
    assert(s.subrange(p6, p7) == dec_bytes(pcl));
    assert(pcl == t.previous_chain_length as nat);

    assert(match_lit(s, p7, lit_number()));
    let p8 = p7 + lit_number().len();
    assert(parse_number(s, p8) is Some);
    let mn = parse_number(s, p8)->Some_0.0;
    let p9 = parse_number(s, p8)->Some_0.1;
    lemma_scan_digits_props(s, p8);
    lemma_digits_are_dec_bytes(s.subrange(p8, p9));
    assert(s.subrange(p8, p9) == dec_bytes(mn));
    assert(mn == t.message_number as nat);

    assert(match_lit(s, p9, lit_close()) && p9 + 2 == s.len());

    // stitch the thirteen segments back together, left to right
    let a = lit_version();
    let b = dec_bytes(t.version as nat);
    let c = lit_message_type();
    let d = message_type_name(t.message_type);
    let f = lit_ciphertext();
    let g = t.ciphertext_b64;
    let h = lit_header();
    let k = t.key_bytes;
    let l = lit_previous();
    let m = dec_bytes(t.previous_chain_length as nat);
    let nn = lit_number();
    let o = dec_bytes(t.message_number as nat);
    let p = lit_close();
    let t1 = a + b;
    let t2 = t1 + c;
    let t3 = t2 + d;
    let t4 = t3 + f;
    let t5 = t4 + g;
    let t6 = t5 + h;
    let t7 = t6 + k;
    let t8 = t7 + l;
    let t9 = t8 + m;
    let t10 = t9 + nn;
    let t11 = t10 + o;
    assert(s.subrange(0, p1) =~= t1);
    assert(s.subrange(0, p2) =~= t1 + c);
    assert(s.subrange(0, p3) =~= t2 + d);
    assert(s.subrange(0, p4) =~= t3 + f);
    assert(s.subrange(0, q1) =~= t4 + g);
    assert(s.subrange(0, p5) =~= t5 + h);
    assert(s.subrange(0, q2) =~= t6 + k);
    assert(s.subrange(0, p6) =~= t7 + l);
    assert(s.subrange(0, p7) =~= t8 + m);
    assert(s.subrange(0, p8) =~= t9 + nn);
    assert(s.subrange(0, p9) =~= t10 + o);
    assert(s =~= t11 + p);
    assert(s == rebuild_json(t));
}

} // verus!





