//! Long-term identity material: an X25519 key pair for key agreement and
//! an independently generated Ed25519 key pair for signing prekeys.

use crate::crypto::ed25519_vk_of;
use crate::crypto::ed25519_verifying_key;
use crate::crypto::random_bytes_32;
use crate::crypto::x25519_public;
use crate::crypto::x25519_public_of;
use crate::encoding::hex_chars;
use crate::encoding::hex_encode;
use crate::encoding::slice_eq;
use crate::error::E2EEError;
use vstd::prelude::*;

verus! {

/// A party's long-term key pair: X25519 scalar and point for
/// Diffie-Hellman, Ed25519 secret and verifying key for signatures.
/// The two pairs are generated independently.
#[derive(Debug, Clone, Copy)]
pub struct IdentityKeyPair {
    x25519_private: [u8; 32],
    x25519_public: [u8; 32],
    ed25519_private: [u8; 32],
    ed25519_public: [u8; 32],
}

impl IdentityKeyPair {
    /// The X25519 scalar, as a mathematical value.
    pub closed spec fn x25519_private_spec(&self) -> Seq<u8> {
        self.x25519_private@
    }

    /// The X25519 public point, as a mathematical value.
    pub closed spec fn x25519_public_spec(&self) -> Seq<u8> {
        self.x25519_public@
    }

    /// The Ed25519 secret key, as a mathematical value.
    pub closed spec fn ed25519_private_spec(&self) -> Seq<u8> {
        self.ed25519_private@
    }

    /// The Ed25519 verifying key, as a mathematical value.
    pub closed spec fn ed25519_public_spec(&self) -> Seq<u8> {
        self.ed25519_public@
    }

    /// Well-formedness: each public key is the one derived from its
    /// private counterpart.
    pub open spec fn wf(&self) -> bool {
        &&& self.x25519_private_spec().len() == 32
        &&& self.x25519_public_spec().len() == 32
        &&& self.ed25519_private_spec().len() == 32
        &&& self.ed25519_public_spec().len() == 32
        &&& self.x25519_public_spec() == x25519_public_of(self.x25519_private_spec())
        &&& self.ed25519_public_spec() == ed25519_vk_of(self.ed25519_private_spec())
    }

    /// Generate a fresh identity: two independent random 32-byte secrets,
    /// with their derived public keys.
    pub fn generate() -> (r: Self)
        ensures
            r.wf(),
    {
        let x25519_private = random_bytes_32();
        let x25519_public = x25519_public(&x25519_private);
        let ed25519_private = random_bytes_32();
        let ed25519_public = ed25519_verifying_key(&ed25519_private);
        Self { x25519_private, x25519_public, ed25519_private, ed25519_public }
    }

    /// The X25519 public key.
    pub fn public_key(&self) -> (r: &[u8; 32])
        ensures
            r@ == self.x25519_public_spec(),
    {
        &self.x25519_public
    }

    /// The X25519 public key bytes.
    pub fn public_key_bytes(&self) -> (r: [u8; 32])
        ensures
            r@ == self.x25519_public_spec(),
    {
        self.x25519_public
    }

    /// The X25519 public key as 64 lowercase hex characters.
    pub fn public_key_hex(&self) -> (r: String)
        ensures
            r@ == hex_chars(self.x25519_public_spec()),
    {
        hex_encode(self.x25519_public.as_slice())
    }

    /// The Ed25519 verifying key bytes.
    pub fn verifying_key(&self) -> (r: [u8; 32])
        ensures
            r@ == self.ed25519_public_spec(),
    {
        self.ed25519_public
    }

    /// The X25519 scalar bytes.
    pub(crate) fn private_key_bytes(&self) -> (r: &[u8; 32])
        ensures
            r@ == self.x25519_private_spec(),
    {
        &self.x25519_private
    }

    /// The Ed25519 secret key bytes.
    pub(crate) fn signing_key(&self) -> (r: &[u8; 32])
        ensures
            r@ == self.ed25519_private_spec(),
    {
        &self.ed25519_private
    }

    /// Reconstruct an identity from stored bytes, checking that each
    /// public key matches the one its private key derives; a mismatch is
    /// malformed key material, the `Key` kind.
    pub fn from_bytes(
        x25519_private_key: [u8; 32],
        x25519_public_key: [u8; 32],
        ed25519_private_key: [u8; 32],
        ed25519_public_key: [u8; 32],
    ) -> (r: Result<Self, E2EEError>)
        ensures
            r is Ok <==> (x25519_public_key@ == x25519_public_of(x25519_private_key@)
                && ed25519_public_key@ == ed25519_vk_of(ed25519_private_key@)),
            r is Ok ==> {
                &&& r->Ok_0.wf()
                &&& r->Ok_0.x25519_private_spec() == x25519_private_key@
                &&& r->Ok_0.x25519_public_spec() == x25519_public_key@
                &&& r->Ok_0.ed25519_private_spec() == ed25519_private_key@
                &&& r->Ok_0.ed25519_public_spec() == ed25519_public_key@
            },
            r is Err ==> r->Err_0 == E2EEError::Key,
    {
        let derived_x = x25519_public(&x25519_private_key);
        if !slice_eq(derived_x.as_slice(), x25519_public_key.as_slice()) {
            return Err(E2EEError::Key);
        }
        let derived_ed = ed25519_verifying_key(&ed25519_private_key);
        if !slice_eq(derived_ed.as_slice(), ed25519_public_key.as_slice()) {
            return Err(E2EEError::Key);
        }
        Ok(
            Self {
                x25519_private: x25519_private_key,
                x25519_public: x25519_public_key,
                ed25519_private: ed25519_private_key,
                ed25519_public: ed25519_public_key,
            },
        )
    }
}

} // verus!
