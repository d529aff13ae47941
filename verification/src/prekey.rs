//! Prekey material: the medium-lived signed prekey (an X25519 pair whose
//! public point carries an Ed25519 signature by the owner's identity),
//! single-use one-time prekeys, and the published prekey bundle.

use crate::crypto::ed25519_sig_of;
use crate::crypto::ed25519_sign;
use crate::crypto::ed25519_verifies;
use crate::crypto::ed25519_verify;
use crate::crypto::random_bytes_32;
use crate::crypto::x25519_public;
use crate::crypto::x25519_public_of;
use crate::encoding::hex_chars;
use crate::encoding::hex_encode;
use crate::error::E2EEError;
use crate::identity::IdentityKeyPair;
use vstd::prelude::*;

verus! {

/// A signed prekey pair: a fresh X25519 pair, its id, and the Ed25519
/// signature over the raw 32-byte public point, produced with the owning
/// identity's signing key.
#[derive(Debug, Clone, Copy)]
pub struct SignedPreKeyPair {
    prekey_private: [u8; 32],
    prekey_public: [u8; 32],
    signature: [u8; 64],
    key_id: u32,
}

impl SignedPreKeyPair {
    /// The X25519 scalar, as a mathematical value.
    pub closed spec fn private_spec(&self) -> Seq<u8> {
        self.prekey_private@
    }

    /// The X25519 public point, as a mathematical value.
    pub closed spec fn public_spec(&self) -> Seq<u8> {
        self.prekey_public@
    }

    /// The signature bytes, as a mathematical value.
    pub closed spec fn signature_spec(&self) -> Seq<u8> {
        self.signature@
    }

    /// The key id, as a mathematical value.
    pub closed spec fn key_id_spec(&self) -> u32 {
        self.key_id
    }

    /// Well-formedness: the public point is derived from the scalar.
    pub open spec fn wf(&self) -> bool {
        &&& self.private_spec().len() == 32
        &&& self.public_spec().len() == 32
        &&& self.signature_spec().len() == 64
        &&& self.public_spec() == x25519_public_of(self.private_spec())
    }

    /// Generate a fresh prekey pair and sign its public point with the
    /// identity's Ed25519 key. The signature verifies under the identity's
    /// verifying key.
    pub fn generate(key_id: u32, identity_pair: &IdentityKeyPair) -> (r: Result<
        Self,
        E2EEError,
    >)
        requires
            identity_pair.wf(),
        ensures
            r is Ok,
            r->Ok_0.wf(),
            r->Ok_0.key_id_spec() == key_id,
            r->Ok_0.signature_spec() == ed25519_sig_of(
                identity_pair.ed25519_private_spec(),
                r->Ok_0.public_spec(),
            ),
            ed25519_verifies(
                identity_pair.ed25519_public_spec(),
                r->Ok_0.public_spec(),
                r->Ok_0.signature_spec(),
            ),
    {
        let prekey_private = random_bytes_32();
        let prekey_public = x25519_public(&prekey_private);
        let signature = ed25519_sign(identity_pair.signing_key(), prekey_public.as_slice());
        Ok(Self { prekey_private, prekey_public, signature, key_id })
    }

    /// Check the prekey's signature under the given Ed25519 verifying key:
    /// `Ok(true)` exactly when it verifies, `SignatureInvalid` otherwise.
    pub fn verify_signature(&self, identity_public: &[u8; 32]) -> (r: Result<bool, E2EEError>)
        ensures
            r is Ok <==> ed25519_verifies(
                identity_public@,
                self.public_spec(),
                self.signature_spec(),
            ),
            r is Ok ==> r->Ok_0 == true,
            r is Err ==> r->Err_0 == E2EEError::SignatureInvalid,
    {
        if ed25519_verify(identity_public, self.prekey_public.as_slice(), &self.signature) {
            Ok(true)
        } else {
            Err(E2EEError::SignatureInvalid)
        }
    }

    /// The prekey public point.
    pub fn public_key(&self) -> (r: &[u8; 32])
        ensures
            r@ == self.public_spec(),
    {
        &self.prekey_public
    }

    /// The prekey public point bytes.
    pub fn public_key_bytes(&self) -> (r: [u8; 32])
        ensures
            r@ == self.public_spec(),
    {
        self.prekey_public
    }

    /// The prekey public point as 64 lowercase hex characters.
    pub fn public_key_hex(&self) -> (r: String)
        ensures
            r@ == hex_chars(self.public_spec()),
    {
        hex_encode(self.prekey_public.as_slice())
    }

    /// The signature as a byte vector.
    pub fn signature_bytes(&self) -> (r: Vec<u8>)
        ensures
            r@ == self.signature_spec(),
    {
        let mut v: Vec<u8> = Vec::new();
        let mut i: usize = 0;
        while i < 64
            invariant
                i <= 64,
                v@.len() == i,
                forall|j: int| 0 <= j < i ==> v@[j] == self.signature@[j],

            decreases 64 - i,
        {
            v.push(self.signature[i]);
            i = i + 1;
        }
        proof {
            assert(v@ =~= self.signature_spec());
        }
        v
    }

    /// The signature as 128 lowercase hex characters.
    pub fn signature_hex(&self) -> (r: String)
        ensures
            r@ == hex_chars(self.signature_spec()),
    {
        hex_encode(self.signature.as_slice())
    }

    /// The key id.
    pub fn key_id(&self) -> (r: u32)
        ensures
            r == self.key_id_spec(),
    {
        self.key_id
    }

    /// The X25519 scalar bytes.
    pub(crate) fn private_key(&self) -> (r: &[u8; 32])
        ensures
            r@ == self.private_spec(),
    {
        &self.prekey_private
    }

    /// The signature bytes.
    pub fn signature(&self) -> (r: &[u8; 64])
        ensures
            r@ == self.signature_spec(),
    {
        &self.signature
    }
}

/// A one-time prekey pair: a fresh X25519 pair with an id, consumed at
/// most once by a remote initiator.
#[derive(Debug, Clone, Copy)]
pub struct OneTimePreKeyPair {
    private_key: [u8; 32],
    public_key: [u8; 32],
    key_id: u32,
}

impl OneTimePreKeyPair {
    /// The X25519 scalar, as a mathematical value.
    pub closed spec fn private_spec(&self) -> Seq<u8> {
        self.private_key@
    }

    /// The X25519 public point, as a mathematical value.
    pub closed spec fn public_spec(&self) -> Seq<u8> {
        self.public_key@
    }

    /// The key id, as a mathematical value.
    pub closed spec fn key_id_spec(&self) -> u32 {
        self.key_id
    }

    /// Well-formedness: the public point is derived from the scalar.
    pub open spec fn wf(&self) -> bool {
        &&& self.private_spec().len() == 32
        &&& self.public_spec().len() == 32
        &&& self.public_spec() == x25519_public_of(self.private_spec())
    }

    /// Generate a fresh one-time prekey pair.
    pub fn generate(key_id: u32) -> (r: Self)
        ensures
            r.wf(),
            r.key_id_spec() == key_id,
    {
        let private_key = random_bytes_32();
        let public_key = x25519_public(&private_key);
        Self { private_key, public_key, key_id }
    }

    /// The X25519 scalar bytes.
    pub fn private_key(&self) -> (r: &[u8; 32])
        ensures
            r@ == self.private_spec(),
    {
        &self.private_key
    }

    /// The public point.
    pub fn public_key(&self) -> (r: &[u8; 32])
        ensures
            r@ == self.public_spec(),
    {
        &self.public_key
    }

    /// The public point bytes.
    pub fn public_key_bytes(&self) -> (r: [u8; 32])
        ensures
            r@ == self.public_spec(),
    {
        self.public_key
    }

    /// The public point as 64 lowercase hex characters.
    pub fn public_key_hex(&self) -> (r: String)
        ensures
            r@ == hex_chars(self.public_spec()),
    {
        hex_encode(self.public_key.as_slice())
    }

    /// The key id.
    pub fn key_id(&self) -> (r: u32)
        ensures
            r == self.key_id_spec(),
    {
        self.key_id
    }
}

/// The published face of a signed prekey: public point, signature, id.
#[derive(Debug, Clone, Copy)]
pub struct SignedPreKey {
    /// The X25519 public point.
    pub public_key: [u8; 32],
    /// The Ed25519 signature over the raw public point.
    pub signature: [u8; 64],
    /// The key id.
    pub key_id: u32,
}

impl SignedPreKey {
    /// The published face of a signed prekey pair.
    pub fn from(key_pair: &SignedPreKeyPair) -> (r: Self)
        ensures
            r.public_key@ == key_pair.public_spec(),
            r.signature@ == key_pair.signature_spec(),
            r.key_id == key_pair.key_id_spec(),
    {
        Self {
            public_key: key_pair.public_key_bytes(),
            signature: *key_pair.signature(),
            key_id: key_pair.key_id(),
        }
    }

    /// Assemble from parts already on the wire.
    pub fn from_components(public_key: [u8; 32], signature: [u8; 64], key_id: u32) -> (r: Self)
        ensures
            r.public_key@ == public_key@,
            r.signature@ == signature@,
            r.key_id == key_id,
    {
        Self { public_key, signature, key_id }
    }

    /// The public point.
    pub fn public_key(&self) -> (r: &[u8; 32])
        ensures
            r@ == self.public_key@,
    {
        &self.public_key
    }

    /// The public point as 64 lowercase hex characters.
    pub fn public_key_hex(&self) -> (r: String)
        ensures
            r@ == hex_chars(self.public_key@),
    {
        hex_encode(self.public_key.as_slice())
    }

    /// The signature bytes.
    pub fn signature(&self) -> (r: &[u8; 64])
        ensures
            r@ == self.signature@,
    {
        &self.signature
    }

    /// The key id.
    pub fn key_id(&self) -> (r: u32)
        ensures
            r == self.key_id,
    {
        self.key_id
    }
}

/// The published face of a one-time prekey: public point and id.
#[derive(Debug, Clone, Copy)]
pub struct OneTimePreKey {
    /// The X25519 public point.
    pub public_key: [u8; 32],
    /// The key id.
    pub key_id: u32,
}

impl OneTimePreKey {
    /// The published face of a one-time prekey pair.
    pub fn from(key_pair: &OneTimePreKeyPair) -> (r: Self)
        ensures
            r.public_key@ == key_pair.public_spec(),
            r.key_id == key_pair.key_id_spec(),
    {
        Self { public_key: key_pair.public_key_bytes(), key_id: key_pair.key_id() }
    }

    /// Assemble from parts already on the wire.
    pub fn from_components(public_key: [u8; 32], key_id: u32) -> (r: Self)
        ensures
            r.public_key@ == public_key@,
            r.key_id == key_id,
    {
        Self { public_key, key_id }
    }

    /// The public point.
    pub fn public_key(&self) -> (r: &[u8; 32])
        ensures
            r@ == self.public_key@,
    {
        &self.public_key
    }

    /// The public point as 64 lowercase hex characters.
    pub fn public_key_hex(&self) -> (r: String)
        ensures
            r@ == hex_chars(self.public_key@),
    {
        hex_encode(self.public_key.as_slice())
    }

    /// The key id.
    pub fn key_id(&self) -> (r: u32)
        ensures
            r == self.key_id,
    {
        self.key_id
    }
}

/// A party's published prekey bundle: identity X25519 public key (hex),
/// Ed25519 verifying key, one signed prekey and optionally one one-time
/// prekey. Its invariant is that the signed prekey's signature verifies
/// under the bundle's verifying key.
#[derive(Debug, Clone)]
pub struct PreKeyBundle {
    identity_public_hex: String,
    identity_ed25519_verifying_key: [u8; 32],
    signed_prekey: SignedPreKey,
    one_time_prekey: Option<OneTimePreKey>,
}

impl PreKeyBundle {
    /// The identity public key hex string, as a mathematical value.
    pub closed spec fn identity_public_hex_spec(&self) -> Seq<char> {
        self.identity_public_hex@
    }

    /// The Ed25519 verifying key, as a mathematical value.
    pub closed spec fn verifying_key_spec(&self) -> Seq<u8> {
        self.identity_ed25519_verifying_key@
    }

    /// The signed prekey.
    pub closed spec fn signed_prekey_spec(&self) -> SignedPreKey {
        self.signed_prekey
    }

    /// The one-time prekey, if the bundle carries one.
    pub closed spec fn one_time_prekey_spec(&self) -> Option<OneTimePreKey> {
        self.one_time_prekey
    }

    /// Assemble a bundle.
    pub fn new(
        identity_public_hex: String,
        identity_ed25519_verifying_key: [u8; 32],
        signed_prekey: SignedPreKey,
        one_time_prekey: Option<OneTimePreKey>,
    ) -> (r: Self)
        ensures
            r.identity_public_hex_spec() == identity_public_hex@,
            r.verifying_key_spec() == identity_ed25519_verifying_key@,
            r.signed_prekey_spec() == signed_prekey,
            r.one_time_prekey_spec() == one_time_prekey,
    {
        Self { identity_public_hex, identity_ed25519_verifying_key, signed_prekey, one_time_prekey }
    }

    /// The identity public key as hex.
    pub fn identity_public_hex(&self) -> (r: &str)
        ensures
            r@ == self.identity_public_hex_spec(),
    {
        self.identity_public_hex.as_str()
    }

    /// The Ed25519 verifying key bytes.
    pub fn identity_ed25519_verifying_key(&self) -> (r: &[u8; 32])
        ensures
            r@ == self.verifying_key_spec(),
    {
        &self.identity_ed25519_verifying_key
    }

    /// The signed prekey.
    pub fn signed_prekey(&self) -> (r: &SignedPreKey)
        ensures
            *r == self.signed_prekey_spec(),
    {
        &self.signed_prekey
    }

    /// The one-time prekey, if present.
    pub fn one_time_prekey(&self) -> (r: Option<&OneTimePreKey>)
        ensures
            r is Some <==> self.one_time_prekey_spec() is Some,
            r is Some ==> *r->Some_0 == self.one_time_prekey_spec()->Some_0,
    {
        self.one_time_prekey.as_ref()
    }

    /// Check the bundle's invariant: the signed prekey's signature
    /// verifies under the bundle's verifying key. `Ok(true)` exactly when
    /// it does, `SignatureInvalid` otherwise.
    pub fn verify_signature(&self) -> (r: Result<bool, E2EEError>)
        ensures
            r is Ok <==> ed25519_verifies(
                self.verifying_key_spec(),
                self.signed_prekey_spec().public_key@,
                self.signed_prekey_spec().signature@,
            ),
            r is Ok ==> r->Ok_0 == true,
            r is Err ==> r->Err_0 == E2EEError::SignatureInvalid,
    {
        if ed25519_verify(
            &self.identity_ed25519_verifying_key,
            self.signed_prekey.public_key.as_slice(),
            &self.signed_prekey.signature,
        ) {
            Ok(true)
        } else {
            Err(E2EEError::SignatureInvalid)
        }
    }
}

} // verus!
