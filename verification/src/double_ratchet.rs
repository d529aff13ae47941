//! The Double Ratchet session: a sending and a receiving KDF chain seeded
//! from the X3DH shared secret (swapped on the responder side), a local DH
//! key pair advertised in every envelope, and a DH ratchet step on the
//! receiving chain whenever the peer advertises a changed key.

use crate::chain::message_key_of;
use crate::chain::next_chain_key_of;
use crate::chain::Chain;
use crate::crypto::aes_gcm_open;
use crate::crypto::aes_gcm_seal;
use crate::crypto::aes_gcm_seal_of;
use crate::crypto::dh_of;
use crate::crypto::hkdf_sha256;
use crate::crypto::hkdf_sha256_of;
use crate::crypto::hmac_sha256;
use crate::crypto::hmac_sha256_of;
use crate::crypto::random_bytes_32;
use crate::crypto::x25519_dh;
use crate::crypto::x25519_public;
use crate::crypto::x25519_public_of;
use crate::crypto::AES_GCM_MAX_PLAINTEXT;
use crate::encoding::decoded_hex;
use crate::encoding::hex_chars;
use crate::encoding::hex_decode;
use crate::encoding::hex_encode;
use crate::encoding::hex_valid;
use crate::encoding::lemma_hex_round_trip;
use crate::encoding::slice_eq;
use crate::encoding::to_array_32;
use crate::envelope::MessageEnvelope;
use crate::envelope::MessageType;
use crate::error::E2EEError;
use vstd::prelude::*;

verus! {

/// The HKDF info label of the initiator's sending chain: "sending".
pub open spec fn sending_label() -> Seq<u8> {
    seq![115u8, 101u8, 110u8, 100u8, 105u8, 110u8, 103u8]
}

/// The HKDF info label of the initiator's receiving chain: "receiving".
pub open spec fn receiving_label() -> Seq<u8> {
    seq![114u8, 101u8, 99u8, 101u8, 105u8, 118u8, 105u8, 110u8, 103u8]
}

/// The chain key derived from a shared secret under the "sending" label.
pub open spec fn ck_send_init(sk: Seq<u8>) -> Seq<u8> {
    hkdf_sha256_of(Seq::empty(), sk, sending_label())
}

/// The chain key derived from a shared secret under the "receiving" label.
pub open spec fn ck_recv_init(sk: Seq<u8>) -> Seq<u8> {
    hkdf_sha256_of(Seq::empty(), sk, receiving_label())
}

/// The receiving chain key installed by a DH ratchet step over `dh_out`.
pub open spec fn ratchet_recv_key(dh_out: Seq<u8>) -> Seq<u8> {
    hkdf_sha256_of(Seq::empty(), dh_out, receiving_label())
}

/// The eight little-endian bytes of a message number.
pub open spec fn u64_le_bytes(n: u64) -> Seq<u8> {
    Seq::new(8, |i: int| (n >> ((8 * i) as u64)) as u8)
}

/// The 12-byte AEAD nonce for a message: the first 12 bytes of
/// HMAC-SHA256 keyed by the message key over the little-endian number.
pub open spec fn nonce_of(mk: Seq<u8>, n: u64) -> Seq<u8> {
    hmac_sha256_of(mk, u64_le_bytes(n)).take(12)
}

/// The ciphertext of a message sealed under message key `mk` with
/// message number `n`.
pub open spec fn sealed(mk: Seq<u8>, n: u64, plaintext: Seq<u8>) -> Seq<u8> {
    aes_gcm_seal_of(mk, nonce_of(mk, n), plaintext)
}

pub(crate) fn sending_label_bytes() -> (r: Vec<u8>)
    ensures
        r@ == sending_label(),
{
    let mut v: Vec<u8> = Vec::new();
    v.push(115);
    v.push(101);
    v.push(110);
    v.push(100);
    v.push(105);
    v.push(110);
    v.push(103);
    proof {
        assert(v@ =~= sending_label());
    }
    v
}

pub(crate) fn receiving_label_bytes() -> (r: Vec<u8>)
    ensures
        r@ == receiving_label(),
{
    let mut v: Vec<u8> = Vec::new();
    v.push(114);
    v.push(101);
    v.push(99);
    v.push(101);
    v.push(105);
    v.push(118);
    v.push(105);
    v.push(110);
    v.push(103);
    proof {
        assert(v@ =~= receiving_label());
    }
    v
}

fn u64_to_le_bytes(n: u64) -> (r: Vec<u8>)
    ensures
        r@ == u64_le_bytes(n),
{
    let mut v: Vec<u8> = Vec::new();
    let mut i: usize = 0;
    while i < 8
        invariant
            i <= 8,
            v@.len() == i,
            forall|j: int| 0 <= j < i ==> v@[j] == (n >> ((8 * j) as u64)) as u8,
        decreases 8 - i,
    {
        let sh: u64 = 8 * (i as u64);
        v.push((n >> sh) as u8);
        i = i + 1;
    }
    proof {
        assert(v@ =~= u64_le_bytes(n));
    }
    v
}

/// The nonce for one message: HMAC-SHA256(message key, little-endian
/// number), truncated to 12 bytes.
fn derive_nonce(mk: &[u8; 32], n: u64) -> (r: [u8; 12])
    ensures
        r@ == nonce_of(mk@, n),
{
    let data = u64_to_le_bytes(n);
    let tag = hmac_sha256(mk.as_slice(), data.as_slice());
    let mut r = [0u8; 12];
    let mut i: usize = 0;
    while i < 12
        invariant
            i <= 12,
            forall|j: int| 0 <= j < i ==> r@[j] == tag@[j],
        decreases 12 - i,
    {
        r[i] = tag[i];
        i = i + 1;
    }
    proof {
        assert(r@ =~= tag@.take(12));
    }
    r
}

/// A Double Ratchet session endpoint.
pub struct DoubleRatchet {
    sending_chain: Chain,
    receiving_chain: Chain,
    dh_private: [u8; 32],
    dh_public: [u8; 32],
    remote_dh_public: Option<[u8; 32]>,
    sending_message_number: u64,
}

impl DoubleRatchet {
    /// The sending chain's key.
    pub closed spec fn send_key(&self) -> Seq<u8> {
        self.sending_chain.key()
    }

    /// The sending chain's counter.
    pub closed spec fn send_count(&self) -> u32 {
        self.sending_chain.number()
    }

    /// The receiving chain's key.
    pub closed spec fn recv_key(&self) -> Seq<u8> {
        self.receiving_chain.key()
    }

    /// The receiving chain's counter.
    pub closed spec fn recv_count(&self) -> u32 {
        self.receiving_chain.number()
    }

    /// The local DH scalar.
    pub closed spec fn dh_private_spec(&self) -> Seq<u8> {
        self.dh_private@
    }

    /// The local DH public key advertised in outbound envelopes.
    pub closed spec fn dh_public_spec(&self) -> Seq<u8> {
        self.dh_public@
    }

    /// The last recorded remote DH public key, if any message has been
    /// received.
    pub closed spec fn remote_spec(&self) -> Option<Seq<u8>> {
        match self.remote_dh_public {
            Option::Some(k) => Option::Some(k@),
            Option::None => Option::None,
        }
    }

    /// The number of messages sent, which the next envelope exceeds by one.
    pub closed spec fn send_no(&self) -> u64 {
        self.sending_message_number
    }

    /// Well-formedness: the advertised public key is the scalar's, and the
    /// sent-message count walks in lockstep with the sending chain.
    pub open spec fn wf(&self) -> bool {
        &&& self.dh_private_spec().len() == 32
        &&& self.dh_public_spec().len() == 32
        &&& self.dh_public_spec() == x25519_public_of(self.dh_private_spec())
        &&& self.send_no() == self.send_count() as u64
    }

    /// Seed a session from an X3DH shared secret. The initiator's sending
    /// chain is derived under "sending" and its receiving chain under
    /// "receiving"; the responder swaps the two, so that each side's
    /// sending chain matches the other's receiving chain.
    pub fn from_shared_secret(shared_secret: &[u8; 32], is_initiator: bool) -> (r: Result<
        Self,
        E2EEError,
    >)
        ensures
            r is Ok,
            ({
                let s = r->Ok_0;
                &&& s.wf()
                &&& s.send_key() == if is_initiator {
                    ck_send_init(shared_secret@)
                } else {
                    ck_recv_init(shared_secret@)
                }
                &&& s.recv_key() == if is_initiator {
                    ck_recv_init(shared_secret@)
                } else {
                    ck_send_init(shared_secret@)
                }
                &&& s.send_count() == 0
                &&& s.recv_count() == 0
                &&& s.send_no() == 0
                &&& s.remote_spec() is None
            }),
    {
        let empty: Vec<u8> = Vec::new();
        let send_info = sending_label_bytes();
        let recv_info = receiving_label_bytes();
        let ck_sending = hkdf_sha256(empty.as_slice(), shared_secret.as_slice(), send_info.as_slice());
        let ck_receiving = hkdf_sha256(
            empty.as_slice(),
            shared_secret.as_slice(),
            recv_info.as_slice(),
        );
        let (sending_key, receiving_key) = if is_initiator {
            (ck_sending, ck_receiving)
        } else {
            (ck_receiving, ck_sending)
        };
        let dh_private = random_bytes_32();
        let dh_public = x25519_public(&dh_private);
        Ok(
            Self {
                sending_chain: Chain::new(sending_key),
                receiving_chain: Chain::new(receiving_key),
                dh_private,
                dh_public,
                remote_dh_public: Option::None,
                sending_message_number: 0,
            },
        )
    }

    /// Encrypt one message: step the sending chain, seal the plaintext
    /// under the emitted message key with the nonce of the new message
    /// number, and wrap it in a regular envelope advertising the current
    /// DH public key. Message numbers run strictly 1, 2, 3, ...
    pub fn encrypt_envelope(&mut self, plaintext: &[u8]) -> (r: Result<MessageEnvelope, E2EEError>)
        requires
            old(self).wf(),
            old(self).send_count() < u32::MAX,
        ensures
            final(self).wf(),
            final(self).send_key() == next_chain_key_of(old(self).send_key()),
            final(self).send_count() == old(self).send_count() + 1,
            final(self).send_no() == old(self).send_no() + 1,
            final(self).recv_key() == old(self).recv_key(),
            final(self).recv_count() == old(self).recv_count(),
            final(self).dh_private_spec() == old(self).dh_private_spec(),
            final(self).dh_public_spec() == old(self).dh_public_spec(),
            final(self).remote_spec() == old(self).remote_spec(),
            plaintext@.len() <= AES_GCM_MAX_PLAINTEXT ==> r is Ok,
            r is Err ==> r->Err_0 == E2EEError::Crypto,
            r is Ok ==> ({
                let env = r->Ok_0;
                &&& env.version == 1
                &&& env.message_type == MessageType::Regular
                &&& env.header.message_number == old(self).send_no() + 1
                &&& env.header.previous_chain_length == 0
                &&& env.header.dh_public_key@ == hex_chars(old(self).dh_public_spec())
                &&& env.ciphertext@ == sealed(
                    message_key_of(old(self).send_key()),
                    (old(self).send_no() + 1) as u64,
                    plaintext@,
                )
                &&& env.ciphertext@.len() == plaintext@.len() + 16
            }),
    {
        let (message_key, _next) = match self.sending_chain.ratchet_forward() {
            Result::Ok(t) => t,
            Result::Err(e) => {
                return Err(e);
            },
        };
        self.sending_message_number = self.sending_message_number + 1;
        let message_number = self.sending_message_number;
        let nonce = derive_nonce(&message_key, message_number);
        let ciphertext = match aes_gcm_seal(&message_key, &nonce, plaintext) {
            Result::Ok(c) => c,
            Result::Err(e) => {
                return Err(e);
            },
        };
        let dh_public_hex = hex_encode(self.dh_public.as_slice());
        Ok(MessageEnvelope::regular(ciphertext, dh_public_hex, 0, message_number))
    }

    /// Decrypt one envelope: reject a malformed header (a DH key field
    /// that is not the hex of 32 bytes is a `Protocol` fault, with the
    /// state untouched), record the peer's DH key on first sight, ratchet
    /// the receiving chain when that key changes, then step the receiving
    /// chain and open the ciphertext under the emitted message key with
    /// the envelope's message number.
    pub fn decrypt_envelope(&mut self, envelope: &MessageEnvelope) -> (r: Result<
        Vec<u8>,
        E2EEError,
    >)
        requires
            old(self).wf(),
            old(self).recv_count() < u32::MAX,
        ensures
            ({
                let key_hex = envelope.header.dh_public_key@;
                let rk = decoded_hex(key_hex);
                let mk = message_key_of(decrypt_chain_key(*old(self), rk));
                let n = envelope.header.message_number;
                &&& (!(hex_valid(key_hex) && rk.len() == 32) ==> r is Err && r->Err_0
                    == E2EEError::Protocol && same_state(*final(self), *old(self)))
                &&& (hex_valid(key_hex) && rk.len() == 32 ==> {
                    &&& final(self).wf()
                    &&& final(self).remote_spec() == Option::Some(rk)
                    &&& final(self).recv_key() == next_chain_key_of(
                        decrypt_chain_key(*old(self), rk),
                    )
                    &&& final(self).recv_count() == if ratchet_triggered(*old(self), rk) {
                        1int
                    } else {
                        old(self).recv_count() + 1
                    }
                    &&& final(self).send_key() == old(self).send_key()
                    &&& final(self).send_count() == old(self).send_count()
                    &&& final(self).send_no() == old(self).send_no()
                    &&& (!ratchet_triggered(*old(self), rk) ==> final(self).dh_private_spec()
                        == old(self).dh_private_spec() && final(self).dh_public_spec() == old(
                        self,
                    ).dh_public_spec())
                    &&& (r is Ok ==> envelope.ciphertext@ == aes_gcm_seal_of(
                        mk,
                        nonce_of(mk, n),
                        r->Ok_0@,
                    ))
                    &&& (forall|p: Seq<u8>|
                        envelope.ciphertext@ == aes_gcm_seal_of(mk, nonce_of(mk, n), p) ==> r is Ok
                            && r->Ok_0@ == p)
                    &&& (r is Err ==> r->Err_0 == E2EEError::Crypto)
                })
            }),
    {
        let key_vec = match hex_decode(envelope_key_str(envelope)) {
            Result::Ok(v) => v,
            Result::Err(_) => {
                return Err(E2EEError::Protocol);
            },
        };
        if key_vec.len() != 32 {
            return Err(E2EEError::Protocol);
        }
        let remote_key = to_array_32(key_vec.as_slice());
        let should_ratchet: bool = match &self.remote_dh_public {
            Option::None => false,
            Option::Some(existing) => !slice_eq(existing.as_slice(), remote_key.as_slice()),
        };
        if should_ratchet {
            let dh_out = x25519_dh(&self.dh_private, &remote_key);
            let empty: Vec<u8> = Vec::new();
            let recv_info = receiving_label_bytes();
            let new_receiving_key = hkdf_sha256(
                empty.as_slice(),
                dh_out.as_slice(),
                recv_info.as_slice(),
            );
            self.receiving_chain = Chain::new(new_receiving_key);
            let new_private = random_bytes_32();
            let new_public = x25519_public(&new_private);
            self.dh_private = new_private;
            self.dh_public = new_public;
        }
        self.remote_dh_public = Option::Some(remote_key);
        let (message_key, _next) = match self.receiving_chain.ratchet_forward() {
            Result::Ok(t) => t,
            Result::Err(e) => {
                return Err(e);
            },
        };
        let message_number = envelope.header.message_number;
        let nonce = derive_nonce(&message_key, message_number);
        aes_gcm_open(&message_key, &nonce, envelope.ciphertext.as_slice())
    }
}

/// The envelope's DH key field as a string slice.
fn envelope_key_str(envelope: &MessageEnvelope) -> (r: &str)
    ensures
        r@ == envelope.header.dh_public_key@,
{
    envelope.header.dh_public_key.as_str()
}

/// Whether decrypting an envelope that advertises `rk` makes the session
/// perform a DH ratchet step: only when a different remote key was already
/// recorded.
pub open spec fn ratchet_triggered(s: DoubleRatchet, rk: Seq<u8>) -> bool {
    match s.remote_spec() {
        Option::Some(o) => o != rk,
        Option::None => false,
    }
}

/// The receiving chain key that decrypting an envelope advertising `rk`
/// steps: the current one, or the freshly ratcheted one when `rk` is a
/// changed key.
pub open spec fn decrypt_chain_key(s: DoubleRatchet, rk: Seq<u8>) -> Seq<u8> {
    if ratchet_triggered(s, rk) {
        ratchet_recv_key(dh_of(s.dh_private_spec(), rk))
    } else {
        s.recv_key()
    }
}

/// Two session endpoints hold the same state.
pub open spec fn same_state(a: DoubleRatchet, b: DoubleRatchet) -> bool {
    &&& a.send_key() == b.send_key()
    &&& a.send_count() == b.send_count()
    &&& a.recv_key() == b.recv_key()
    &&& a.recv_count() == b.recv_count()
    &&& a.dh_private_spec() == b.dh_private_spec()
    &&& a.dh_public_spec() == b.dh_public_spec()
    &&& a.remote_spec() == b.remote_spec()
    &&& a.send_no() == b.send_no()
}

/// Two session endpoints are matched: each side's sending chain is the
/// other side's receiving chain, position included, and each recorded
/// remote key is the other side's current key.
pub open spec fn matched(a: DoubleRatchet, b: DoubleRatchet) -> bool {
    &&& a.wf()
    &&& b.wf()
    &&& a.send_key() == b.recv_key()
    &&& a.send_count() == b.recv_count()
    &&& b.send_key() == a.recv_key()
    &&& b.send_count() == a.recv_count()
    &&& (b.remote_spec() is None || b.remote_spec() == Option::Some(a.dh_public_spec()))
    &&& (a.remote_spec() is None || a.remote_spec() == Option::Some(b.dh_public_spec()))
}

/// Matching is symmetric, so one delivery lemma serves both directions of
/// turn-taking.
pub proof fn lemma_matched_symmetric(a: DoubleRatchet, b: DoubleRatchet)
    requires
        matched(a, b),
    ensures
        matched(b, a),
{
}

/// Two freshly seeded endpoints over the same shared secret, one initiator
/// and one responder, are matched.
pub proof fn lemma_fresh_sessions_matched(a: DoubleRatchet, b: DoubleRatchet, sk: Seq<u8>)
    requires
        a.wf(),
        b.wf(),
        a.send_key() == ck_send_init(sk),
        a.recv_key() == ck_recv_init(sk),
        b.send_key() == ck_recv_init(sk),
        b.recv_key() == ck_send_init(sk),
        a.send_count() == 0,
        a.recv_count() == 0,
        b.send_count() == 0,
        b.recv_count() == 0,
        a.remote_spec() is None,
        b.remote_spec() is None,
    ensures
        matched(a, b),
{
}

/// On matched sessions, a message sealed by one side is exactly what the
/// other side's decryption opens: the advertised key decodes back to the
/// sender's key, triggers no ratchet, and selects the chain whose next
/// message key is the one the sender sealed with.
pub proof fn lemma_matched_sessions_agree(a: DoubleRatchet, b: DoubleRatchet, n: u64, p: Seq<u8>)
    requires
        matched(a, b),
    ensures
        ({
            let rk = decoded_hex(hex_chars(a.dh_public_spec()));
            let mk = message_key_of(a.send_key());
            &&& rk == a.dh_public_spec()
            &&& hex_valid(hex_chars(a.dh_public_spec()))
            &&& !ratchet_triggered(b, rk)
            &&& decrypt_chain_key(b, rk) == a.send_key()
            &&& sealed(mk, n, p) == aes_gcm_seal_of(
                message_key_of(decrypt_chain_key(b, rk)),
                nonce_of(message_key_of(decrypt_chain_key(b, rk)), n),
                p,
            )
        }),
{
    lemma_hex_round_trip(a.dh_public_spec());
}

/// One in-order delivery preserves matching: if `a2` is `a1` after one
/// encryption and `b2` is `b1` after decrypting the envelope that
/// encryption produced (as the contracts of `encrypt_envelope` and
/// `decrypt_envelope` describe those states), the sessions are matched
/// again.
pub proof fn lemma_matched_sessions_preserved(
    a1: DoubleRatchet,
    a2: DoubleRatchet,
    b1: DoubleRatchet,
    b2: DoubleRatchet,
)
    requires
        matched(a1, b1),
        a2.wf(),
        a2.send_key() == next_chain_key_of(a1.send_key()),
        a2.send_count() == a1.send_count() + 1,
        a2.recv_key() == a1.recv_key(),
        a2.recv_count() == a1.recv_count(),
        a2.dh_private_spec() == a1.dh_private_spec(),
        a2.dh_public_spec() == a1.dh_public_spec(),
        a2.remote_spec() == a1.remote_spec(),
        b2.wf(),
        b2.remote_spec() == Option::Some(decoded_hex(hex_chars(a1.dh_public_spec()))),
        b2.recv_key() == next_chain_key_of(
            decrypt_chain_key(b1, decoded_hex(hex_chars(a1.dh_public_spec()))),
        ),
        b2.recv_count() == if ratchet_triggered(
            b1,
            decoded_hex(hex_chars(a1.dh_public_spec())),
        ) {
            1int
        } else {
            b1.recv_count() + 1
        },
        b2.send_key() == b1.send_key(),
        b2.send_count() == b1.send_count(),
        !ratchet_triggered(b1, decoded_hex(hex_chars(a1.dh_public_spec())))
            ==> b2.dh_private_spec() == b1.dh_private_spec() && b2.dh_public_spec()
            == b1.dh_public_spec(),
    ensures
        matched(a2, b2),
{
    lemma_hex_round_trip(a1.dh_public_spec());
}

} // verus!
