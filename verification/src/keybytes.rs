//! Plain-value forms of the key material for storage and transport:
//! the identity pair as four byte vectors, and the prekey bundle as hex
//! strings, with verified conversion to and from the library's types.

use crate::crypto::ed25519_vk_of;
use crate::crypto::x25519_public_of;
use crate::encoding::decoded_hex;
use crate::encoding::hex_chars;
use crate::encoding::hex_decode;
use crate::encoding::hex_encode;
use crate::encoding::hex_valid;
use crate::encoding::to_array_32;
use crate::encoding::to_array_64;
use crate::encoding::vec_of;
use crate::error::E2EEError;
use crate::identity::IdentityKeyPair;
use crate::prekey::OneTimePreKey;
use crate::prekey::PreKeyBundle;
use crate::prekey::SignedPreKey;
use vstd::prelude::*;

verus! {

/// An identity key pair as raw bytes, for the caller's secure store.
#[derive(Debug, Clone)]
pub struct IdentityKeyPairBytes {
    /// X25519 private key bytes (32 bytes).
    pub x25519_private_key: Vec<u8>,
    /// X25519 public key bytes (32 bytes).
    pub x25519_public_key: Vec<u8>,
    /// Ed25519 private key bytes (32 bytes).
    pub ed25519_private_key: Vec<u8>,
    /// Ed25519 public key bytes (32 bytes).
    pub ed25519_public_key: Vec<u8>,
}

impl IdentityKeyPairBytes {
    /// The raw bytes of an identity key pair.
    pub fn from_identity_key_pair(identity: &IdentityKeyPair) -> (r: Self)
        ensures
            r.x25519_private_key@ == identity.x25519_private_spec(),
            r.x25519_public_key@ == identity.x25519_public_spec(),
            r.ed25519_private_key@ == identity.ed25519_private_spec(),
            r.ed25519_public_key@ == identity.ed25519_public_spec(),
    {
        Self {
            x25519_private_key: vec_of(identity.private_key_bytes().as_slice()),
            x25519_public_key: vec_of(identity.public_key().as_slice()),
            ed25519_private_key: vec_of(identity.signing_key().as_slice()),
            ed25519_public_key: vec_of(identity.verifying_key().as_slice()),
        }
    }

    /// Rebuild the identity key pair. A vector of the wrong length is a
    /// reconstruction fault (`Serialization`); bytes of the right shape
    /// whose public keys do not match their private keys are malformed key
    /// material (`Key`).
    pub fn to_identity_key_pair(&self) -> (r: Result<IdentityKeyPair, E2EEError>)
        ensures
            r is Ok <==> ({
                &&& self.x25519_private_key@.len() == 32
                &&& self.x25519_public_key@.len() == 32
                &&& self.ed25519_private_key@.len() == 32
                &&& self.ed25519_public_key@.len() == 32
                &&& self.x25519_public_key@ == x25519_public_of(self.x25519_private_key@)
                &&& self.ed25519_public_key@ == ed25519_vk_of(self.ed25519_private_key@)
            }),
            r is Ok ==> {
                &&& r->Ok_0.wf()
                &&& r->Ok_0.x25519_private_spec() == self.x25519_private_key@
                &&& r->Ok_0.x25519_public_spec() == self.x25519_public_key@
                &&& r->Ok_0.ed25519_private_spec() == self.ed25519_private_key@
                &&& r->Ok_0.ed25519_public_spec() == self.ed25519_public_key@
            },
            r is Err ==> ({
                let lens_ok = self.x25519_private_key@.len() == 32
                    && self.x25519_public_key@.len() == 32 && self.ed25519_private_key@.len() == 32
                    && self.ed25519_public_key@.len() == 32;
                r->Err_0 == if lens_ok {
                    E2EEError::Key
                } else {
                    E2EEError::Serialization
                }
            }),
    {
        if self.x25519_private_key.len() != 32 || self.x25519_public_key.len() != 32 {
            return Err(E2EEError::Serialization);
        }
        if self.ed25519_private_key.len() != 32 || self.ed25519_public_key.len() != 32 {
            return Err(E2EEError::Serialization);
        }
        IdentityKeyPair::from_bytes(
            to_array_32(self.x25519_private_key.as_slice()),
            to_array_32(self.x25519_public_key.as_slice()),
            to_array_32(self.ed25519_private_key.as_slice()),
            to_array_32(self.ed25519_public_key.as_slice()),
        )
    }
}

/// The hex public key of stored identity bytes.
pub fn get_public_key_hex(identity_bytes: &IdentityKeyPairBytes) -> (r: String)
    ensures
        r@ == hex_chars(identity_bytes.x25519_public_key@),
{
    hex_encode(identity_bytes.x25519_public_key.as_slice())
}

/// A signed prekey in wire form: hex strings and an id.
#[derive(Debug, Clone)]
pub struct SignedPreKeyJSON {
    /// The X25519 public point, 64 hex characters.
    pub public_key_hex: String,
    /// The Ed25519 signature, 128 hex characters.
    pub signature_hex: String,
    /// The key id.
    pub key_id: u32,
}

/// A one-time prekey in wire form: a hex string and an id.
#[derive(Debug, Clone)]
pub struct OneTimePreKeyJSON {
    /// The X25519 public point, 64 hex characters.
    pub public_key_hex: String,
    /// The key id.
    pub key_id: u32,
}

/// A prekey bundle in wire form, all keys hex-encoded.
#[derive(Debug, Clone)]
pub struct PreKeyBundleJSON {
    /// The identity X25519 public key, 64 hex characters.
    pub identity_public_hex: String,
    /// The identity Ed25519 verifying key, 64 hex characters.
    pub identity_ed25519_verifying_key_hex: String,
    /// The signed prekey.
    pub signed_prekey: SignedPreKeyJSON,
    /// The one-time prekey, if the bundle carries one.
    pub one_time_prekey: Option<OneTimePreKeyJSON>,
}

impl PreKeyBundleJSON {
    /// The wire form of a bundle: each key as lowercase hex.
    pub fn from_prekey_bundle(bundle: &PreKeyBundle) -> (r: Self)
        ensures
            r.identity_public_hex@ == bundle.identity_public_hex_spec(),
            r.identity_ed25519_verifying_key_hex@ == hex_chars(bundle.verifying_key_spec()),
            r.signed_prekey.public_key_hex@ == hex_chars(bundle.signed_prekey_spec().public_key@),
            r.signed_prekey.signature_hex@ == hex_chars(bundle.signed_prekey_spec().signature@),
            r.signed_prekey.key_id == bundle.signed_prekey_spec().key_id,
            r.one_time_prekey is Some <==> bundle.one_time_prekey_spec() is Some,
            r.one_time_prekey matches Some(o) ==> bundle.one_time_prekey_spec() matches Some(b)
                && o.public_key_hex@ == hex_chars(b.public_key@) && o.key_id == b.key_id,
    {
        let one_time_prekey = match bundle.one_time_prekey() {
            Option::Some(otp) => Option::Some(
                OneTimePreKeyJSON { public_key_hex: otp.public_key_hex(), key_id: otp.key_id() },
            ),
            Option::None => Option::None,
        };
        Self {
            identity_public_hex: identity_hex_string(bundle),
            identity_ed25519_verifying_key_hex: hex_encode(
                bundle.identity_ed25519_verifying_key().as_slice(),
            ),
            signed_prekey: SignedPreKeyJSON {
                public_key_hex: bundle.signed_prekey().public_key_hex(),
                signature_hex: hex_encode(bundle.signed_prekey().signature().as_slice()),
                key_id: bundle.signed_prekey().key_id(),
            },
            one_time_prekey,
        }
    }

    /// Reconstruct the bundle from its wire form. Hex failures and wrong
    /// key or signature lengths are `Serialization`; the one exception is
    /// a one-time prekey of the wrong length, which is a `Protocol` fault
    /// and is rejected before any key agreement could use it.
    pub fn to_prekey_bundle(&self) -> (r: Result<PreKeyBundle, E2EEError>)
        ensures
            ({
                let id_ok = hex_valid(self.identity_public_hex@) && decoded_hex(
                    self.identity_public_hex@,
                ).len() == 32;
                let vk_ok = hex_valid(self.identity_ed25519_verifying_key_hex@) && decoded_hex(
                    self.identity_ed25519_verifying_key_hex@,
                ).len() == 32;
                let spk_ok = hex_valid(self.signed_prekey.public_key_hex@) && decoded_hex(
                    self.signed_prekey.public_key_hex@,
                ).len() == 32;
                let sig_ok = hex_valid(self.signed_prekey.signature_hex@) && decoded_hex(
                    self.signed_prekey.signature_hex@,
                ).len() == 64;
                let otp_hex_ok = match self.one_time_prekey {
                    Option::Some(o) => hex_valid(o.public_key_hex@),
                    Option::None => true,
                };
                let otp_ok = match self.one_time_prekey {
                    Option::Some(o) => hex_valid(o.public_key_hex@) && decoded_hex(
                        o.public_key_hex@,
                    ).len() == 32,
                    Option::None => true,
                };
                match r {
                    Result::Ok(b) => {
                        &&& id_ok
                        &&& vk_ok
                        &&& spk_ok
                        &&& sig_ok
                        &&& otp_ok
                        &&& b.identity_public_hex_spec() == self.identity_public_hex@
                        &&& b.verifying_key_spec() == decoded_hex(
                            self.identity_ed25519_verifying_key_hex@,
                        )
                        &&& b.signed_prekey_spec().public_key@ == decoded_hex(
                            self.signed_prekey.public_key_hex@,
                        )
                        &&& b.signed_prekey_spec().signature@ == decoded_hex(
                            self.signed_prekey.signature_hex@,
                        )
                        &&& b.signed_prekey_spec().key_id == self.signed_prekey.key_id
                        &&& (match self.one_time_prekey {
                            Option::Some(o) => b.one_time_prekey_spec() matches Some(bo)
                                && bo.public_key@ == decoded_hex(o.public_key_hex@) && bo.key_id
                                == o.key_id,
                            Option::None => b.one_time_prekey_spec() is None,
                        })
                    },
                    Result::Err(e) => {
                        &&& !(id_ok && vk_ok && spk_ok && sig_ok && otp_ok)
                        &&& (!id_ok ==> e == E2EEError::Serialization)
                        &&& (id_ok && !vk_ok ==> e == E2EEError::Serialization)
                        &&& (id_ok && vk_ok && !spk_ok ==> e == E2EEError::Serialization)
                        &&& (id_ok && vk_ok && spk_ok && !sig_ok ==> e == E2EEError::Serialization)
                        &&& (id_ok && vk_ok && spk_ok && sig_ok && !otp_hex_ok ==> e
                            == E2EEError::Serialization)
                        &&& (id_ok && vk_ok && spk_ok && sig_ok && otp_hex_ok && !otp_ok ==> e
                            == E2EEError::Protocol)
                    },
                }
            }),
    {
        let identity_vec = match hex_decode(self.identity_public_hex.as_str()) {
            Result::Ok(v) => v,
            Result::Err(e) => {
                return Err(e);
            },
        };
        if identity_vec.len() != 32 {
            return Err(E2EEError::Serialization);
        }
        let vk_vec = match hex_decode(self.identity_ed25519_verifying_key_hex.as_str()) {
            Result::Ok(v) => v,
            Result::Err(e) => {
                return Err(e);
            },
        };
        if vk_vec.len() != 32 {
            return Err(E2EEError::Serialization);
        }
        let spk_vec = match hex_decode(self.signed_prekey.public_key_hex.as_str()) {
            Result::Ok(v) => v,
            Result::Err(e) => {
                return Err(e);
            },
        };
        if spk_vec.len() != 32 {
            return Err(E2EEError::Serialization);
        }
        let sig_vec = match hex_decode(self.signed_prekey.signature_hex.as_str()) {
            Result::Ok(v) => v,
            Result::Err(e) => {
                return Err(e);
            },
        };
        if sig_vec.len() != 64 {
            return Err(E2EEError::Serialization);
        }
        let one_time_prekey = match &self.one_time_prekey {
            Option::Some(otp) => {
                let otp_vec = match hex_decode(otp.public_key_hex.as_str()) {
                    Result::Ok(v) => v,
                    Result::Err(e) => {
                        return Err(e);
                    },
                };
                if otp_vec.len() != 32 {
                    return Err(E2EEError::Protocol);
                }
                Option::Some(
                    OneTimePreKey::from_components(to_array_32(otp_vec.as_slice()), otp.key_id),
                )
            },
            Option::None => Option::None,
        };
        let signed_prekey = SignedPreKey::from_components(
            to_array_32(spk_vec.as_slice()),
            to_array_64(sig_vec.as_slice()),
            self.signed_prekey.key_id,
        );
        Ok(
            PreKeyBundle::new(
                clone_string(&self.identity_public_hex),
                to_array_32(vk_vec.as_slice()),
                signed_prekey,
                one_time_prekey,
            ),
        )
    }
}

/// The bundle's identity hex string as an owned value.
fn identity_hex_string(bundle: &PreKeyBundle) -> (r: String)
    ensures
        r@ == bundle.identity_public_hex_spec(),
{
    bundle.identity_public_hex().to_owned()
}

/// A copy of a string.
fn clone_string(s: &String) -> (r: String)
    ensures
        r@ == s@,
{
    s.clone()
}

} // verus!
