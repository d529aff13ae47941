//! Trusted boundary around the cryptographic primitives: X25519
//! scalar multiplication, Ed25519 signatures, HKDF-SHA256, HMAC-SHA256
//! and AES-256-GCM, plus the process random source.
//!
//! Each primitive's result is named by an uninterpreted spec function of
//! its arguments; the wrappers state what the outside crates' sources
//! show of those names, and everything above this module is verified
//! against the names alone.

use crate::error::E2EEError;
use ed25519_dalek::Signer;
use ed25519_dalek::Verifier;
use rand::RngCore;
use ring::aead::Aad;
use ring::aead::LessSafeKey;
use ring::aead::Nonce;
use ring::aead::UnboundKey;
use ring::aead::AES_256_GCM;
use vstd::prelude::*;

verus! {

/// The 32-byte shared point of X25519 scalar multiplication:
/// what `x25519_dalek::x25519(scalar, point)` returns.
pub uninterp spec fn dh_of(scalar: Seq<u8>, point: Seq<u8>) -> Seq<u8>;

/// The X25519 basepoint (u = 9).
pub open spec fn x25519_basepoint() -> Seq<u8> {
    Seq::new(32, |i: int| if i == 0 { 9u8 } else { 0u8 })
}

/// The X25519 public key derived from a scalar: the shared point with
/// the basepoint.
pub open spec fn x25519_public_of(scalar: Seq<u8>) -> Seq<u8> {
    dh_of(scalar, x25519_basepoint())
}

/// The Ed25519 verifying key derived from 32 secret-key bytes:
/// what `ed25519_dalek::SigningKey::verifying_key` returns.
pub uninterp spec fn ed25519_vk_of(sk: Seq<u8>) -> Seq<u8>;

/// The (deterministic) Ed25519 signature of a message under a secret key:
/// what `ed25519_dalek::SigningKey::sign` returns.
pub uninterp spec fn ed25519_sig_of(sk: Seq<u8>, msg: Seq<u8>) -> Seq<u8>;

/// Whether a signature verifies under 32 verifying-key bytes: the outcome
/// of `ed25519_dalek::VerifyingKey::verify`, with key decompression
/// failure counted as not verifying.
pub uninterp spec fn ed25519_verifies(vk: Seq<u8>, msg: Seq<u8>, sig: Seq<u8>) -> bool;

/// The 32-byte output of HKDF-SHA256 extract-then-expand:
/// what `ring::hkdf` produces for the given salt, input key material
/// and info, at output length 32.
pub uninterp spec fn hkdf_sha256_of(salt: Seq<u8>, ikm: Seq<u8>, info: Seq<u8>) -> Seq<u8>;

/// The 32-byte HMAC-SHA256 tag: what `ring::hmac::sign` returns.
pub uninterp spec fn hmac_sha256_of(key: Seq<u8>, data: Seq<u8>) -> Seq<u8>;

/// Ciphertext-with-tag of AES-256-GCM with empty additional data:
/// what `ring::aead` sealing produces for the given key, nonce and
/// plaintext.
pub uninterp spec fn aes_gcm_seal_of(key: Seq<u8>, nonce: Seq<u8>, plaintext: Seq<u8>) -> Seq<u8>;

/// Plaintext lengths up to this bound are always accepted by the AES-256-GCM
/// sealing call (ring's per-nonce limit is far larger).
pub const AES_GCM_MAX_PLAINTEXT: usize = 0x7fff_ffff;

/// Relies on `x25519_dalek::x25519`: scalar multiplication on Curve25519.
/// The second clause is the Diffie-Hellman property (RFC 7748): against a
/// point that is some scalar's public key, the shared point is the one that
/// scalar's holder computes against our public key.
#[verifier::external_body]
pub(crate) fn x25519_dh(scalar: &[u8; 32], point: &[u8; 32]) -> (r: [u8; 32])
    ensures
        r@ == dh_of(scalar@, point@),
        forall|y: Seq<u8>|
            point@ == x25519_public_of(y) ==> r@ == dh_of(y, x25519_public_of(scalar@)),
{
    x25519_dalek::x25519(*scalar, *point)
}

/// The X25519 basepoint as exec bytes.
pub(crate) fn x25519_basepoint_bytes() -> (r: [u8; 32])
    ensures
        r@ == x25519_basepoint(),
{
    let mut r = [0u8; 32];
    r[0] = 9;
    proof {
        assert(r@ =~= x25519_basepoint());
    }
    r
}

/// The X25519 public key of a scalar, computed against the basepoint.
pub(crate) fn x25519_public(scalar: &[u8; 32]) -> (r: [u8; 32])
    ensures
        r@ == x25519_public_of(scalar@),
{
    let base = x25519_basepoint_bytes();
    x25519_dh(scalar, &base)
}

/// Relies on `ed25519_dalek::SigningKey::verifying_key`: the verifying key
/// determined by the secret-key bytes.
#[verifier::external_body]
pub(crate) fn ed25519_verifying_key(sk: &[u8; 32]) -> (r: [u8; 32])
    ensures
        r@ == ed25519_vk_of(sk@),
{
    ed25519_dalek::SigningKey::from_bytes(sk).verifying_key().to_bytes()
}

/// Relies on `ed25519_dalek::SigningKey::sign`: deterministic Ed25519.
/// The signature it produces verifies under the key's own verifying key.
#[verifier::external_body]
pub(crate) fn ed25519_sign(sk: &[u8; 32], msg: &[u8]) -> (r: [u8; 64])
    ensures
        r@ == ed25519_sig_of(sk@, msg@),
        ed25519_verifies(ed25519_vk_of(sk@), msg@, r@),
{
    let key = ed25519_dalek::SigningKey::from_bytes(sk);
    key.sign(msg).to_bytes()
}

/// Relies on `ed25519_dalek::VerifyingKey::verify` (and `from_bytes` for
/// key decompression): whether the signature verifies; deterministic in
/// its inputs.
#[verifier::external_body]
pub(crate) fn ed25519_verify(vk: &[u8; 32], msg: &[u8], sig: &[u8; 64]) -> (r: bool)
    ensures
        r == ed25519_verifies(vk@, msg@, sig@),
{
    match ed25519_dalek::VerifyingKey::from_bytes(vk) {
        Ok(key) => key.verify(msg, &ed25519_dalek::Signature::from_bytes(sig)).is_ok(),
        Err(_) => false,
    }
}

/// Relies on `ring::hkdf` with HKDF_SHA256: extract with the given salt,
/// expand with the given info to 32 bytes (which is within the HKDF output
/// bound, so the calls cannot fail).
#[verifier::external_body]
pub(crate) fn hkdf_sha256(salt: &[u8], ikm: &[u8], info: &[u8]) -> (r: [u8; 32])
    ensures
        r@ == hkdf_sha256_of(salt@, ikm@, info@),
{
    let salt = ring::hkdf::Salt::new(ring::hkdf::HKDF_SHA256, salt);
    let prk = salt.extract(ikm);
    let info_parts = [info];
    let okm = prk.expand(&info_parts, ring::hkdf::HKDF_SHA256).unwrap();
    let mut out = [0u8; 32];
    okm.fill(&mut out).unwrap();
    out
}

/// Relies on `ring::hmac::sign` with HMAC_SHA256: the 32-byte tag.
#[verifier::external_body]
pub(crate) fn hmac_sha256(key: &[u8], data: &[u8]) -> (r: [u8; 32])
    ensures
        r@ == hmac_sha256_of(key@, data@),
{
    let key = ring::hmac::Key::new(ring::hmac::HMAC_SHA256, key);
    let tag = ring::hmac::sign(&key, data);
    let mut out = [0u8; 32];
    out.copy_from_slice(tag.as_ref());
    out
}

/// Relies on `ring::aead::LessSafeKey::seal_in_place_append_tag` with
/// AES_256_GCM and empty additional data: ciphertext plus 16-byte tag,
/// deterministic in key, nonce and plaintext; it accepts any plaintext
/// under ring's AES-GCM length bound.
#[verifier::external_body]
pub(crate) fn aes_gcm_seal(key: &[u8; 32], nonce: &[u8; 12], plaintext: &[u8]) -> (r: Result<
    Vec<u8>,
    E2EEError,
>)
    ensures
        r is Ok ==> r->Ok_0@ == aes_gcm_seal_of(key@, nonce@, plaintext@),
        r is Ok ==> r->Ok_0@.len() == plaintext@.len() + 16,
        plaintext@.len() <= AES_GCM_MAX_PLAINTEXT ==> r is Ok,
        r is Err ==> r->Err_0 == E2EEError::Crypto,
{
    let unbound = UnboundKey::new(&AES_256_GCM, key).map_err(|_| E2EEError::Crypto)?;
    let sealing = LessSafeKey::new(unbound);
    let nonce = Nonce::assume_unique_for_key(*nonce);
    let mut buf = plaintext.to_vec();
    sealing.seal_in_place_append_tag(nonce, Aad::empty(), &mut buf).map_err(
        |_| E2EEError::Crypto,
    )?;
    Ok(buf)
}

/// Relies on `ring::aead::LessSafeKey::open_in_place` with AES_256_GCM and
/// empty additional data: it returns the plaintext exactly when the input
/// is the sealing of that plaintext under the same key and nonce, and
/// rejects everything else.
#[verifier::external_body]
pub(crate) fn aes_gcm_open(key: &[u8; 32], nonce: &[u8; 12], ciphertext: &[u8]) -> (r: Result<
    Vec<u8>,
    E2EEError,
>)
    ensures
        r is Ok ==> ciphertext@ == aes_gcm_seal_of(key@, nonce@, r->Ok_0@),
        forall|p: Seq<u8>|
            ciphertext@ == aes_gcm_seal_of(key@, nonce@, p) ==> r is Ok && r->Ok_0@ == p,
        r is Err ==> r->Err_0 == E2EEError::Crypto,
{
    let unbound = UnboundKey::new(&AES_256_GCM, key).map_err(|_| E2EEError::Crypto)?;
    let opening = LessSafeKey::new(unbound);
    let nonce = Nonce::assume_unique_for_key(*nonce);
    let mut buf = ciphertext.to_vec();
    let plaintext_len = opening.open_in_place(nonce, Aad::empty(), &mut buf).map_err(
        |_| E2EEError::Crypto,
    )?.len();
    buf.truncate(plaintext_len);
    Ok(buf)
}

/// Relies on `rand::rngs::OsRng::fill_bytes`: 32 bytes from the operating
/// system's random source. Nothing is promised of the value; if the
/// operating system's source itself fails, the call aborts the process.
#[verifier::external_body]
pub(crate) fn random_bytes_32() -> (r: [u8; 32]) {
    let mut bytes = [0u8; 32];
    rand::rngs::OsRng.fill_bytes(&mut bytes);
    bytes
}

} // verus!
