//! X3DH key agreement: the initiator derives a 32-byte shared secret from
//! a peer's published prekey bundle; the responder derives the same secret
//! from its own private material and the initiator's public keys. The
//! secret is HKDF-SHA256 over the concatenated Diffie-Hellman outputs
//! DH1..DH3, with DH4 appended exactly when a one-time prekey is involved.

use crate::crypto::dh_of;
use crate::crypto::ed25519_verifies;
use crate::crypto::hkdf_sha256;
use crate::crypto::hkdf_sha256_of;
use crate::crypto::random_bytes_32;
use crate::crypto::x25519_dh;
use crate::crypto::x25519_public;
use crate::crypto::x25519_public_of;
use crate::encoding::decoded_hex;
use crate::encoding::hex_chars;
use crate::encoding::hex_decode;
use crate::encoding::hex_encode;
use crate::encoding::hex_valid;
use crate::encoding::push_all;
use crate::encoding::to_array_32;
use crate::error::E2EEError;
use crate::identity::IdentityKeyPair;
use crate::prekey::PreKeyBundle;
use crate::prekey::SignedPreKeyPair;
use vstd::prelude::*;

verus! {

/// The HKDF info label for the X3DH shared secret:
/// "E2EE X3DH Shared Secret".
pub open spec fn x3dh_info() -> Seq<u8> {
    seq![
        69u8, 50u8, 69u8, 69u8, 32u8, 88u8, 51u8, 68u8, 72u8, 32u8, 83u8, 104u8, 97u8, 114u8,
        101u8, 100u8, 32u8, 83u8, 101u8, 99u8, 114u8, 101u8, 116u8,
    ]
}

/// The X3DH HKDF salt: 32 zero bytes.
pub open spec fn x3dh_salt() -> Seq<u8> {
    Seq::new(32, |i: int| 0u8)
}

/// The input key material: DH1 through DH3 concatenated, with DH4
/// appended exactly when present.
pub open spec fn x3dh_ikm(dh1: Seq<u8>, dh2: Seq<u8>, dh3: Seq<u8>, dh4: Option<Seq<u8>>) -> Seq<
    u8,
> {
    dh1 + dh2 + dh3 + (match dh4 {
        Option::Some(d) => d,
        Option::None => Seq::empty(),
    })
}

/// The shared secret derived from the four Diffie-Hellman outputs.
pub open spec fn x3dh_shared_secret(
    dh1: Seq<u8>,
    dh2: Seq<u8>,
    dh3: Seq<u8>,
    dh4: Option<Seq<u8>>,
) -> Seq<u8> {
    hkdf_sha256_of(x3dh_salt(), x3dh_ikm(dh1, dh2, dh3, dh4), x3dh_info())
}

/// The shared secret as the responder computes it, from the responder's
/// private scalars and the initiator's two public keys.
pub open spec fn x3dh_responder_sk(
    ik_b: Seq<u8>,
    spk_b: Seq<u8>,
    opk_b: Option<Seq<u8>>,
    ik_a_pub: Seq<u8>,
    ek_pub: Seq<u8>,
) -> Seq<u8> {
    x3dh_shared_secret(
        dh_of(spk_b, ik_a_pub),
        dh_of(ik_b, ek_pub),
        dh_of(spk_b, ek_pub),
        match opk_b {
            Option::Some(o) => Option::Some(dh_of(o, ek_pub)),
            Option::None => Option::None,
        },
    )
}

/// When a bundle omits the one-time prekey, the input key material is
/// shorter by exactly the 32 bytes of the absent DH4.
pub proof fn lemma_ikm_len_without_otpk(dh1: Seq<u8>, dh2: Seq<u8>, dh3: Seq<u8>, dh4: Seq<u8>)
    requires
        dh4.len() == 32,
    ensures
        x3dh_ikm(dh1, dh2, dh3, Option::Some(dh4)).len() == x3dh_ikm(
            dh1,
            dh2,
            dh3,
            Option::None,
        ).len() + 32,
{
}

pub(crate) fn x3dh_info_bytes() -> (r: Vec<u8>)
    ensures
        r@ == x3dh_info(),
{
    let mut v: Vec<u8> = Vec::new();
    v.push(69);
    v.push(50);
    v.push(69);
    v.push(69);
    v.push(32);
    v.push(88);
    v.push(51);
    v.push(68);
    v.push(72);
    v.push(32);
    v.push(83);
    v.push(104);
    v.push(97);
    v.push(114);
    v.push(101);
    v.push(100);
    v.push(32);
    v.push(83);
    v.push(101);
    v.push(99);
    v.push(114);
    v.push(101);
    v.push(116);
    proof {
        assert(v@ =~= x3dh_info());
    }
    v
}

/// Derive the X3DH shared secret from precomputed Diffie-Hellman outputs:
/// HKDF-SHA256 over DH1 ‖ DH2 ‖ DH3 [‖ DH4], salted with 32 zero bytes.
pub fn calculate_shared_secret_from_dh(
    dh1: &[u8; 32],
    dh2: &[u8; 32],
    dh3: &[u8; 32],
    dh4: Option<&[u8; 32]>,
) -> (r: Result<[u8; 32], E2EEError>)
    ensures
        r is Ok,
        r->Ok_0@ == x3dh_shared_secret(
            dh1@,
            dh2@,
            dh3@,
            match dh4 {
                Option::Some(d) => Option::Some(d@),
                Option::None => Option::None,
            },
        ),
{
    let mut ikm: Vec<u8> = Vec::new();
    push_all(&mut ikm, dh1.as_slice());
    push_all(&mut ikm, dh2.as_slice());
    push_all(&mut ikm, dh3.as_slice());
    match dh4 {
        Option::Some(d) => push_all(&mut ikm, d.as_slice()),
        Option::None => (),
    }
    let salt = [0u8; 32];
    proof {
        assert(salt@ =~= x3dh_salt());
        match dh4 {
            Option::Some(d) => {
                assert(ikm@ =~= x3dh_ikm(dh1@, dh2@, dh3@, Option::Some(d@)));
            },
            Option::None => {
                assert(ikm@ =~= x3dh_ikm(dh1@, dh2@, dh3@, Option::None));
            },
        }
    }
    let info = x3dh_info_bytes();
    let secret = hkdf_sha256(salt.as_slice(), ikm.as_slice(), info.as_slice());
    Ok(secret)
}

/// One Diffie-Hellman on Curve25519 between a private scalar and a peer
/// public point. Against a point that is some scalar's public key, the
/// result is what that scalar's holder computes against our public key.
pub fn perform_dh(private: &[u8; 32], public: &[u8; 32]) -> (r: Result<[u8; 32], E2EEError>)
    ensures
        r is Ok,
        r->Ok_0@ == dh_of(private@, public@),
        forall|y: Seq<u8>|
            public@ == x25519_public_of(y) ==> r->Ok_0@ == dh_of(y, x25519_public_of(private@)),
{
    Ok(x25519_dh(private, public))
}

/// What the initiator hands back: the shared secret, its ephemeral public
/// key (hex) for the responder, and the id of the one-time prekey it used,
/// if the bundle carried one.
#[derive(Debug)]
pub struct X3DHResult {
    /// The 32-byte shared secret.
    pub shared_secret: [u8; 32],
    /// The ephemeral public key, as 64 lowercase hex characters.
    pub ephemeral_public_key_hex: String,
    /// The id of the bundle's one-time prekey, if it was used.
    pub used_otpk_id: Option<u32>,
}

/// The initiator ran X3DH against the bundle using the ephemeral scalar
/// `ek`: the result carries `ek`'s public key, the shared secret is the
/// HKDF of the four DH outputs in order, and — the agreement property —
/// for every choice of responder scalars matching the bundle's public
/// keys, the secret equals what the responder computes from its own side.
pub open spec fn initiate_agrees(
    id: IdentityKeyPair,
    bundle: PreKeyBundle,
    res: X3DHResult,
    ek: Seq<u8>,
) -> bool {
    let ika_pub = x25519_public_of(id.x25519_private_spec());
    let ekp = x25519_public_of(ek);
    let ikb_pub = decoded_hex(bundle.identity_public_hex_spec());
    let spk_pub = bundle.signed_prekey_spec().public_key@;
    &&& ekp.len() == 32
    &&& res.ephemeral_public_key_hex@ == hex_chars(ekp)
    &&& res.shared_secret@ == x3dh_shared_secret(
        dh_of(id.x25519_private_spec(), spk_pub),
        dh_of(ek, ikb_pub),
        dh_of(ek, spk_pub),
        match bundle.one_time_prekey_spec() {
            Option::Some(otp) => Option::Some(dh_of(ek, otp.public_key@)),
            Option::None => Option::None,
        },
    )
    &&& forall|ik_b: Seq<u8>, spk_b: Seq<u8>|
        ikb_pub == #[trigger] x25519_public_of(ik_b) && spk_pub == #[trigger] x25519_public_of(
            spk_b,
        ) ==> (match bundle.one_time_prekey_spec() {
            Option::None => res.shared_secret@ == x3dh_responder_sk(
                ik_b,
                spk_b,
                Option::None,
                ika_pub,
                ekp,
            ),
            Option::Some(otp) => forall|opk_b: Seq<u8>|
                otp.public_key@ == #[trigger] x25519_public_of(opk_b)
                    ==> res.shared_secret@ == x3dh_responder_sk(
                    ik_b,
                    spk_b,
                    Option::Some(opk_b),
                    ika_pub,
                    ekp,
                ),
        })
}

/// The initiator half of X3DH.
pub struct X3DHInitiator {
    identity_pair: IdentityKeyPair,
}

impl X3DHInitiator {
    /// The initiator's identity.
    pub closed spec fn identity(&self) -> IdentityKeyPair {
        self.identity_pair
    }

    /// An initiator over the given identity.
    pub fn new(identity_pair: IdentityKeyPair) -> (r: Self)
        ensures
            r.identity() == identity_pair,
    {
        Self { identity_pair }
    }

    /// Run the initiator side against a peer's bundle: verify the signed
    /// prekey's signature (else `SignatureInvalid`, before any DH), decode
    /// the peer identity key (a malformed or short key is the `Key` kind),
    /// generate a fresh ephemeral pair, compute DH1..DH4 and derive the
    /// shared secret. On success the secret agrees with the responder's
    /// computation for every matching set of responder scalars.
    pub fn initiate(&self, bundle: &PreKeyBundle) -> (r: Result<X3DHResult, E2EEError>)
        requires
            self.identity().wf(),
        ensures
            ({
                let sig_ok = ed25519_verifies(
                    bundle.verifying_key_spec(),
                    bundle.signed_prekey_spec().public_key@,
                    bundle.signed_prekey_spec().signature@,
                );
                let id_hex = bundle.identity_public_hex_spec();
                match r {
                    Result::Ok(res) => {
                        &&& sig_ok
                        &&& hex_valid(id_hex)
                        &&& decoded_hex(id_hex).len() == 32
                        &&& res.shared_secret@.len() == 32
                        &&& (match bundle.one_time_prekey_spec() {
                            Option::Some(otp) => res.used_otpk_id == Option::Some(otp.key_id),
                            Option::None => res.used_otpk_id is None,
                        })
                        &&& exists|ek: Seq<u8>| #[trigger] initiate_agrees(
                            self.identity(),
                            *bundle,
                            res,
                            ek,
                        )
                    },
                    Result::Err(e) => {
                        &&& (!sig_ok ==> e == E2EEError::SignatureInvalid)
                        &&& (sig_ok ==> !(hex_valid(id_hex) && decoded_hex(id_hex).len() == 32)
                            && e == E2EEError::Key)
                    },
                }
            }),
    {
        match bundle.verify_signature() {
            Result::Ok(_) => (),
            Result::Err(e) => {
                return Err(e);
            },
        }
        let identity_b_vec = match hex_decode(bundle.identity_public_hex()) {
            Result::Ok(v) => v,
            Result::Err(_) => {
                return Err(E2EEError::Key);
            },
        };
        if identity_b_vec.len() != 32 {
            return Err(E2EEError::Key);
        }
        let identity_b_public = to_array_32(identity_b_vec.as_slice());
        let spk_public: [u8; 32] = *bundle.signed_prekey().public_key();

        let ephemeral_private = random_bytes_32();
        let ephemeral_public = x25519_public(&ephemeral_private);
        let ephemeral_public_key_hex = hex_encode(ephemeral_public.as_slice());

        let dh1 = x25519_dh(self.identity_pair.private_key_bytes(), &spk_public);
        let dh2 = x25519_dh(&ephemeral_private, &identity_b_public);
        let dh3 = x25519_dh(&ephemeral_private, &spk_public);
        let (dh4, used_otpk_id) = match bundle.one_time_prekey() {
            Option::Some(otp) => (
                Option::Some(x25519_dh(&ephemeral_private, otp.public_key())),
                Option::Some(otp.key_id()),
            ),
            Option::None => (Option::None, Option::None),
        };
        let shared_secret = match calculate_shared_secret_from_dh(&dh1, &dh2, &dh3, dh4.as_ref()) {
            Result::Ok(s) => s,
            Result::Err(e) => {
                return Err(e);
            },
        };
        let res = X3DHResult { shared_secret, ephemeral_public_key_hex, used_otpk_id };
        proof {
            let ek = ephemeral_private@;
            let ika_pub = x25519_public_of(self.identity().x25519_private_spec());
            let ekp = x25519_public_of(ek);
            let ikb_pub = decoded_hex(bundle.identity_public_hex_spec());
            let spk_pub = bundle.signed_prekey_spec().public_key@;
            assert(identity_b_public@ == ikb_pub);
            assert forall|ik_b: Seq<u8>, spk_b: Seq<u8>|
                ikb_pub == #[trigger] x25519_public_of(ik_b) && spk_pub
                    == #[trigger] x25519_public_of(spk_b) implies (match bundle
                .one_time_prekey_spec() {
                Option::None => res.shared_secret@ == x3dh_responder_sk(
                    ik_b,
                    spk_b,
                    Option::None,
                    ika_pub,
                    ekp,
                ),
                Option::Some(otp) => forall|opk_b: Seq<u8>|
                    otp.public_key@ == #[trigger] x25519_public_of(opk_b)
                        ==> res.shared_secret@ == x3dh_responder_sk(
                        ik_b,
                        spk_b,
                        Option::Some(opk_b),
                        ika_pub,
                        ekp,
                    ),
            }) by {
                assert(dh1@ == dh_of(spk_b, ika_pub));
                assert(dh2@ == dh_of(ik_b, ekp));
                assert(dh3@ == dh_of(spk_b, ekp));
                match bundle.one_time_prekey_spec() {
                    Option::None => {},
                    Option::Some(otp) => {
                        assert forall|opk_b: Seq<u8>|
                            otp.public_key@ == #[trigger] x25519_public_of(opk_b) implies res
                            .shared_secret@ == x3dh_responder_sk(
                            ik_b,
                            spk_b,
                            Option::Some(opk_b),
                            ika_pub,
                            ekp,
                        ) by {
                            let d = dh4->Some_0;
                            assert(d@ == dh_of(opk_b, ekp));
                        }
                    },
                }
            }
            assert(initiate_agrees(self.identity(), *bundle, res, ek));
        }
        Ok(res)
    }
}

/// What the responder hands back: the shared secret.
#[derive(Debug)]
pub struct X3DHResponseResult {
    /// The 32-byte shared secret.
    pub shared_secret: [u8; 32],
}

/// The responder half of X3DH: the party's identity, its signed prekey
/// pair, and optionally the one-time prekey named by the initiator.
pub struct X3DHResponder {
    identity_pair: IdentityKeyPair,
    signed_prekey_pair: SignedPreKeyPair,
    one_time_prekey_private: Option<[u8; 32]>,
    one_time_prekey_public: Option<[u8; 32]>,
    one_time_prekey_id: Option<u32>,
}

impl X3DHResponder {
    /// The responder's identity.
    pub closed spec fn identity(&self) -> IdentityKeyPair {
        self.identity_pair
    }

    /// The responder's signed prekey pair.
    pub closed spec fn signed_prekey(&self) -> SignedPreKeyPair {
        self.signed_prekey_pair
    }

    /// The one-time prekey scalar, if one is loaded.
    pub closed spec fn otp_private(&self) -> Option<Seq<u8>> {
        match self.one_time_prekey_private {
            Option::Some(k) => Option::Some(k@),
            Option::None => Option::None,
        }
    }

    /// The one-time prekey id, if one is loaded.
    pub closed spec fn otp_id(&self) -> Option<u32> {
        self.one_time_prekey_id
    }

    /// A responder with no one-time prekey loaded.
    pub fn new(identity_pair: IdentityKeyPair, signed_prekey_pair: SignedPreKeyPair) -> (r: Self)
        ensures
            r.identity() == identity_pair,
            r.signed_prekey() == signed_prekey_pair,
            r.otp_private() is None,
            r.otp_id() is None,
    {
        Self {
            identity_pair,
            signed_prekey_pair,
            one_time_prekey_private: Option::None,
            one_time_prekey_public: Option::None,
            one_time_prekey_id: Option::None,
        }
    }

    /// Load the one-time prekey the initiator consumed. The caller must
    /// delete it from its store after a successful response.
    pub fn set_one_time_prekey(&mut self, key_id: u32, private_key: [u8; 32], public_key: [u8; 32])
        ensures
            final(self).identity() == old(self).identity(),
            final(self).signed_prekey() == old(self).signed_prekey(),
            final(self).otp_private() == Option::Some(private_key@),
            final(self).otp_id() == Option::Some(key_id),
    {
        self.one_time_prekey_private = Option::Some(private_key);
        self.one_time_prekey_public = Option::Some(public_key);
        self.one_time_prekey_id = Option::Some(key_id);
    }

    /// Run the responder side: decode the initiator's identity and
    /// ephemeral public keys (a malformed or short key is the `Key` kind),
    /// compute the commuted DH1..DH4 and derive the same shared secret the
    /// initiator derived.
    pub fn respond(&self, identity_a_hex: &str, ephemeral_public_key_hex: &str) -> (r: Result<
        X3DHResponseResult,
        E2EEError,
    >)
        ensures
            ({
                let id_ok = hex_valid(identity_a_hex@) && decoded_hex(identity_a_hex@).len() == 32;
                let ek_ok = hex_valid(ephemeral_public_key_hex@) && decoded_hex(
                    ephemeral_public_key_hex@,
                ).len() == 32;
                match r {
                    Result::Ok(res) => {
                        &&& id_ok
                        &&& ek_ok
                        &&& res.shared_secret@ == x3dh_responder_sk(
                            self.identity().x25519_private_spec(),
                            self.signed_prekey().private_spec(),
                            self.otp_private(),
                            decoded_hex(identity_a_hex@),
                            decoded_hex(ephemeral_public_key_hex@),
                        )
                    },
                    Result::Err(e) => {
                        &&& !(id_ok && ek_ok)
                        &&& e == E2EEError::Key
                    },
                }
            }),
    {
        let identity_a_vec = match hex_decode(identity_a_hex) {
            Result::Ok(v) => v,
            Result::Err(_) => {
                return Err(E2EEError::Key);
            },
        };
        if identity_a_vec.len() != 32 {
            return Err(E2EEError::Key);
        }
        let identity_a_public = to_array_32(identity_a_vec.as_slice());
        let ephemeral_vec = match hex_decode(ephemeral_public_key_hex) {
            Result::Ok(v) => v,
            Result::Err(_) => {
                return Err(E2EEError::Key);
            },
        };
        if ephemeral_vec.len() != 32 {
            return Err(E2EEError::Key);
        }
        let ephemeral_public = to_array_32(ephemeral_vec.as_slice());

        let dh1 = x25519_dh(self.signed_prekey_pair.private_key(), &identity_a_public);
        let dh2 = x25519_dh(self.identity_pair.private_key_bytes(), &ephemeral_public);
        let dh3 = x25519_dh(self.signed_prekey_pair.private_key(), &ephemeral_public);
        let dh4 = match &self.one_time_prekey_private {
            Option::Some(opk_private) => Option::Some(x25519_dh(opk_private, &ephemeral_public)),
            Option::None => Option::None,
        };
        let shared_secret = match calculate_shared_secret_from_dh(&dh1, &dh2, &dh3, dh4.as_ref()) {
            Result::Ok(s) => s,
            Result::Err(e) => {
                return Err(e);
            },
        };
        Ok(X3DHResponseResult { shared_secret })
    }
}

} // verus!
