//! Behavioral properties: identity uniqueness, handshake agreement with
//! and without a one-time prekey, signature binding, wire-format
//! exactness, tamper rejection, and role-mismatch failure.

use base64::Engine;
use e2ee_core::calculate_shared_secret_from_dh;
use e2ee_core::get_public_key_hex;
use e2ee_core::perform_dh;
use e2ee_core::Chain;
use e2ee_core::DoubleRatchet;
use e2ee_core::E2EEError;
use e2ee_core::IdentityKeyPair;
use e2ee_core::IdentityKeyPairBytes;
use e2ee_core::MessageEnvelope;
use e2ee_core::OneTimePreKey;
use e2ee_core::OneTimePreKeyPair;
use e2ee_core::PreKeyBundle;
use e2ee_core::PreKeyBundleJSON;
use e2ee_core::OneTimePreKeyJSON;
use e2ee_core::SignedPreKey;
use e2ee_core::SignedPreKeyJSON;
use e2ee_core::SignedPreKeyPair;
use e2ee_core::X3DHInitiator;
use e2ee_core::X3DHResponder;

#[test]
fn identity_keys_are_pairwise_distinct() {
    let mut keys: Vec<[u8; 32]> = Vec::new();
    for _ in 0..100 {
        let pair = IdentityKeyPair::generate();
        assert_eq!(pair.public_key_hex().len(), 64);
        keys.push(pair.public_key_bytes());
    }
    for i in 0..keys.len() {
        for j in (i + 1)..keys.len() {
            assert_ne!(keys[i], keys[j]);
        }
    }
}

#[test]
fn dh_is_commutative() {
    let a = OneTimePreKeyPair::generate(1);
    let b = OneTimePreKeyPair::generate(2);
    let ab = perform_dh(a.private_key(), b.public_key()).unwrap();
    let ba = perform_dh(b.private_key(), a.public_key()).unwrap();
    assert_eq!(ab, ba);
    // the shared point is not one of the inputs handed through
    assert_ne!(ab, *a.public_key());
    assert_ne!(ab, *b.public_key());
}

fn make_bundle(identity: &IdentityKeyPair, with_otpk: bool) -> (PreKeyBundle, SignedPreKeyPair, OneTimePreKeyPair) {
    let spk = SignedPreKeyPair::generate(1, identity).unwrap();
    let otpk = OneTimePreKeyPair::generate(1);
    let bundle = PreKeyBundle::new(
        identity.public_key_hex(),
        identity.verifying_key(),
        SignedPreKey::from(&spk),
        if with_otpk { Some(OneTimePreKey::from(&otpk)) } else { None },
    );
    (bundle, spk, otpk)
}

#[test]
fn handshake_with_one_time_prekey() {
    let alice_identity = IdentityKeyPair::generate();
    let bob_identity = IdentityKeyPair::generate();
    let (bundle, spk, otpk) = make_bundle(&bob_identity, true);

    let alice = X3DHInitiator::new(alice_identity.clone());
    let alice_result = alice.initiate(&bundle).unwrap();
    assert_eq!(alice_result.used_otpk_id, Some(1));

    let mut bob = X3DHResponder::new(bob_identity, spk);
    bob.set_one_time_prekey(1, *otpk.private_key(), *otpk.public_key());
    let bob_result = bob
        .respond(&alice_identity.public_key_hex(), &alice_result.ephemeral_public_key_hex)
        .unwrap();

    assert_eq!(alice_result.shared_secret, bob_result.shared_secret);
    assert_eq!(alice_result.shared_secret.len(), 32);
    assert_ne!(alice_result.shared_secret, [0u8; 32]);
}

#[test]
fn handshake_without_one_time_prekey() {
    let alice_identity = IdentityKeyPair::generate();
    let bob_identity = IdentityKeyPair::generate();
    let (bundle, spk, _otpk) = make_bundle(&bob_identity, false);

    let alice = X3DHInitiator::new(alice_identity.clone());
    let alice_result = alice.initiate(&bundle).unwrap();
    assert_eq!(alice_result.used_otpk_id, None);

    let bob = X3DHResponder::new(bob_identity, spk);
    let bob_result = bob
        .respond(&alice_identity.public_key_hex(), &alice_result.ephemeral_public_key_hex)
        .unwrap();

    assert_eq!(alice_result.shared_secret, bob_result.shared_secret);
    assert_eq!(alice_result.shared_secret.len(), 32);
    assert_ne!(alice_result.shared_secret, [0u8; 32]);
}

#[test]
fn prekey_signed_by_another_identity_fails() {
    let right_identity = IdentityKeyPair::generate();
    let wrong_identity = IdentityKeyPair::generate();
    let spk = SignedPreKeyPair::generate(1, &right_identity).unwrap();

    assert_eq!(spk.verify_signature(&right_identity.verifying_key()), Ok(true));
    assert_eq!(
        spk.verify_signature(&wrong_identity.verifying_key()),
        Err(E2EEError::SignatureInvalid)
    );

    // a bundle that claims the wrong identity's verifying key is rejected
    // by the initiator before any key agreement
    let bundle = PreKeyBundle::new(
        right_identity.public_key_hex(),
        wrong_identity.verifying_key(),
        SignedPreKey::from(&spk),
        None,
    );
    assert_eq!(bundle.verify_signature(), Err(E2EEError::SignatureInvalid));
    let alice = X3DHInitiator::new(IdentityKeyPair::generate());
    assert_eq!(alice.initiate(&bundle).unwrap_err(), E2EEError::SignatureInvalid);
}

#[test]
fn bundle_with_bad_one_time_prekey_length_fails_protocol() {
    let bob_identity = IdentityKeyPair::generate();
    let (bundle, _, _) = make_bundle(&bob_identity, false);
    let mut json = PreKeyBundleJSON::from_prekey_bundle(&bundle);
    json.one_time_prekey = Some(OneTimePreKeyJSON { public_key_hex: "aabb".to_string(), key_id: 1 });
    assert_eq!(json.to_prekey_bundle().unwrap_err(), E2EEError::Protocol);

    // a one-time prekey that is not hex at all is a serialization fault
    json.one_time_prekey = Some(OneTimePreKeyJSON { public_key_hex: "zz".to_string(), key_id: 1 });
    assert_eq!(json.to_prekey_bundle().unwrap_err(), E2EEError::Serialization);

    // and a good round trip reconstructs a bundle with a valid signature
    json.one_time_prekey = None;
    let rebuilt = json.to_prekey_bundle().unwrap();
    assert_eq!(rebuilt.verify_signature(), Ok(true));
}

#[test]
fn bit_flipped_ciphertext_fails_crypto() {
    let shared = [7u8; 32];
    let mut alice = DoubleRatchet::from_shared_secret(&shared, true).unwrap();
    let mut bob = DoubleRatchet::from_shared_secret(&shared, false).unwrap();

    let mut envelope = alice.encrypt_envelope(b"attack at dawn").unwrap();
    envelope.ciphertext[3] ^= 0x01;
    assert_eq!(bob.decrypt_envelope(&envelope).unwrap_err(), E2EEError::Crypto);
}

#[test]
fn mismatched_roles_fail_crypto() {
    let shared = [9u8; 32];
    // both sides configured as initiator: the chains do not line up
    let mut alice = DoubleRatchet::from_shared_secret(&shared, true).unwrap();
    let mut bob = DoubleRatchet::from_shared_secret(&shared, true).unwrap();
    let envelope = alice.encrypt_envelope(b"hello").unwrap();
    assert_eq!(bob.decrypt_envelope(&envelope).unwrap_err(), E2EEError::Crypto);

    // and both as responder
    let mut carol = DoubleRatchet::from_shared_secret(&shared, false).unwrap();
    let mut dave = DoubleRatchet::from_shared_secret(&shared, false).unwrap();
    let envelope2 = carol.encrypt_envelope(b"hello").unwrap();
    assert_eq!(dave.decrypt_envelope(&envelope2).unwrap_err(), E2EEError::Crypto);
}

#[test]
fn envelope_wire_form_is_exact() {
    let envelope = MessageEnvelope::regular(vec![1u8, 2, 3], "ab".to_string(), 0, 7);
    let wire = envelope.to_base64().unwrap();
    // the wire is base64 of one canonical JSON object
    let json = base64::engine::general_purpose::STANDARD.decode(&wire).unwrap();
    let expected = "{\"version\":1,\"message_type\":\"Regular\",\"ciphertext\":\"AQID\",\"header\":{\"dh_public_key\":\"ab\",\"previous_chain_length\":0,\"message_number\":7}}";
    assert_eq!(String::from_utf8(json).unwrap(), expected);

    let back = MessageEnvelope::from_base64(&wire).unwrap();
    assert_eq!(back, envelope);
}

#[test]
fn envelope_round_trip_with_decryption() {
    let shared = [3u8; 32];
    let mut alice = DoubleRatchet::from_shared_secret(&shared, true).unwrap();
    let mut bob = DoubleRatchet::from_shared_secret(&shared, false).unwrap();

    let plaintext = [0xA5u8; 32];
    let envelope = alice.encrypt_envelope(&plaintext).unwrap();
    let wire = envelope.to_base64().unwrap();
    assert!(wire.is_ascii());
    assert!(wire.len() >= envelope.ciphertext.len());

    let restored = MessageEnvelope::from_base64(&wire).unwrap();
    assert_eq!(restored, envelope);
    let decrypted = bob.decrypt_envelope(&restored).unwrap();
    assert_eq!(decrypted, plaintext.to_vec());
}

#[test]
fn malformed_wire_input_is_rejected() {
    assert_eq!(
        MessageEnvelope::from_base64("%%% not base64 %%%").unwrap_err(),
        E2EEError::Serialization
    );
    // valid base64, but not the canonical envelope JSON
    let stray = base64::engine::general_purpose::STANDARD.encode(b"{\"hello\":1}");
    assert_eq!(MessageEnvelope::from_base64(&stray).unwrap_err(), E2EEError::Serialization);
}

#[test]
fn malformed_peer_keys_are_rejected() {
    let bob_identity = IdentityKeyPair::generate();
    let spk = SignedPreKeyPair::generate(1, &bob_identity).unwrap();
    let bob = X3DHResponder::new(bob_identity, spk);

    // a peer key that is not hex, or hex of the wrong length, is
    // malformed key material: the Key kind, before any key agreement
    assert_eq!(bob.respond("zz", &"00".repeat(32)).unwrap_err(), E2EEError::Key);
    assert_eq!(bob.respond("aabb", &"00".repeat(32)).unwrap_err(), E2EEError::Key);
    let alice_hex = "11".repeat(32);
    assert_eq!(bob.respond(&alice_hex, "zz").unwrap_err(), E2EEError::Key);
    assert_eq!(bob.respond(&alice_hex, "aabb").unwrap_err(), E2EEError::Key);
}

#[test]
fn chain_steps_count_and_agree() {
    let seed = [5u8; 32];
    let mut one = Chain::new(seed);
    let mut two = Chain::new(seed);
    assert_eq!(one.message_number(), 0);

    let (mk_a, ck_a) = one.ratchet_forward().unwrap();
    let (mk_b, ck_b) = two.ratchet_forward().unwrap();
    assert_eq!(one.message_number(), 1);
    assert_eq!(mk_a, mk_b);
    assert_eq!(ck_a, ck_b);
    // the emitted keys are fresh, not the seed handed back
    assert_ne!(mk_a, seed);
    assert_ne!(ck_a, seed);
    assert_ne!(mk_a, ck_a);

    let (mk_a2, _) = one.ratchet_forward().unwrap();
    assert_eq!(one.message_number(), 2);
    assert_ne!(mk_a2, mk_a);
}

#[test]
fn shared_secret_from_dh_is_deterministic() {
    let dh1 = [1u8; 32];
    let dh2 = [2u8; 32];
    let dh3 = [3u8; 32];
    let dh4 = [4u8; 32];
    let with_otpk = calculate_shared_secret_from_dh(&dh1, &dh2, &dh3, Some(&dh4)).unwrap();
    let again = calculate_shared_secret_from_dh(&dh1, &dh2, &dh3, Some(&dh4)).unwrap();
    let without = calculate_shared_secret_from_dh(&dh1, &dh2, &dh3, None).unwrap();
    assert_eq!(with_otpk, again);
    assert_ne!(with_otpk, without);
}

#[test]
fn identity_bytes_round_trip() {
    let identity = IdentityKeyPair::generate();
    let bytes = IdentityKeyPairBytes::from_identity_key_pair(&identity);
    assert_eq!(get_public_key_hex(&bytes), identity.public_key_hex());

    let rebuilt = bytes.to_identity_key_pair().unwrap();
    assert_eq!(rebuilt.public_key_bytes(), identity.public_key_bytes());
    assert_eq!(rebuilt.verifying_key(), identity.verifying_key());

    // a public key that does not match its private key is malformed
    // key material (Key); a vector of the wrong length is a
    // reconstruction fault (Serialization)
    let mut bad = bytes.clone();
    bad.x25519_public_key[0] ^= 1;
    assert_eq!(bad.to_identity_key_pair().unwrap_err(), E2EEError::Key);
    let mut short = bytes.clone();
    short.ed25519_private_key.pop();
    assert_eq!(short.to_identity_key_pair().unwrap_err(), E2EEError::Serialization);
}

#[test]
fn bundle_json_round_trip() {
    let bob_identity = IdentityKeyPair::generate();
    let (bundle, _, _) = make_bundle(&bob_identity, true);
    let json = PreKeyBundleJSON::from_prekey_bundle(&bundle);
    assert_eq!(json.identity_public_hex, bundle.identity_public_hex());
    assert_eq!(json.identity_ed25519_verifying_key_hex.len(), 64);
    assert_eq!(json.signed_prekey.public_key_hex.len(), 64);
    assert_eq!(json.signed_prekey.signature_hex.len(), 128);
    assert_eq!(json.signed_prekey.key_id, 1);

    let rebuilt = json.to_prekey_bundle().unwrap();
    assert_eq!(rebuilt.identity_public_hex(), bundle.identity_public_hex());
    assert_eq!(rebuilt.identity_ed25519_verifying_key(), bundle.identity_ed25519_verifying_key());
    assert_eq!(rebuilt.signed_prekey().public_key(), bundle.signed_prekey().public_key());
    assert_eq!(rebuilt.verify_signature(), Ok(true));
    let rebuilt_otp = rebuilt.one_time_prekey().unwrap();
    assert_eq!(rebuilt_otp.public_key(), bundle.one_time_prekey().unwrap().public_key());

    // the hex layer is exact: a known public key encodes to a known string
    let known = IdentityKeyPairBytes {
        x25519_private_key: vec![0u8; 32],
        x25519_public_key: vec![0x00, 0x01, 0x0a, 0xff],
        ed25519_private_key: vec![0u8; 32],
        ed25519_public_key: vec![0u8; 32],
    };
    assert_eq!(get_public_key_hex(&known), "00010aff");

    // a signed prekey JSON with a truncated signature is rejected
    let bad = PreKeyBundleJSON {
        identity_public_hex: json.identity_public_hex.clone(),
        identity_ed25519_verifying_key_hex: json.identity_ed25519_verifying_key_hex.clone(),
        signed_prekey: SignedPreKeyJSON {
            public_key_hex: json.signed_prekey.public_key_hex.clone(),
            signature_hex: "aabb".to_string(),
            key_id: 1,
        },
        one_time_prekey: None,
    };
    assert_eq!(bad.to_prekey_bundle().unwrap_err(), E2EEError::Serialization);
}

#[test]
fn changed_remote_key_ratchets_the_receiving_chain() {
    let shared = [11u8; 32];
    let mut alice = DoubleRatchet::from_shared_secret(&shared, true).unwrap();
    let mut bob = DoubleRatchet::from_shared_secret(&shared, false).unwrap();

    let first = alice.encrypt_envelope(b"first").unwrap();
    assert_eq!(bob.decrypt_envelope(&first).unwrap(), b"first".to_vec());

    // an envelope advertising a different (but well-formed) DH key makes
    // the receiver ratchet onto a chain the sender never used, so the
    // ciphertext no longer opens
    let mut second = alice.encrypt_envelope(b"second").unwrap();
    let stranger = OneTimePreKeyPair::generate(9);
    second.header.dh_public_key = hex::encode(stranger.public_key());
    assert_ne!(second.header.dh_public_key, first.header.dh_public_key);
    assert_eq!(bob.decrypt_envelope(&second).unwrap_err(), E2EEError::Crypto);
}

#[test]
fn envelope_with_malformed_key_field_is_rejected() {
    let shared = [13u8; 32];
    let mut alice = DoubleRatchet::from_shared_secret(&shared, true).unwrap();
    let mut bob = DoubleRatchet::from_shared_secret(&shared, false).unwrap();

    // a header key that is not the hex of 32 bytes is a malformed
    // header: the Protocol kind either way
    let mut envelope = alice.encrypt_envelope(b"hello").unwrap();
    envelope.header.dh_public_key = "zz".to_string();
    assert_eq!(bob.decrypt_envelope(&envelope).unwrap_err(), E2EEError::Protocol);
    envelope.header.dh_public_key = "aabb".to_string();
    assert_eq!(bob.decrypt_envelope(&envelope).unwrap_err(), E2EEError::Protocol);
}

#[test]
fn initiator_rejects_malformed_peer_identity_key() {
    let alice = X3DHInitiator::new(IdentityKeyPair::generate());
    let bob_identity = IdentityKeyPair::generate();
    let spk = SignedPreKeyPair::generate(1, &bob_identity).unwrap();
    // the signed prekey verifies, but the bundle's identity key is not the
    // hex of 32 bytes: malformed key material, the Key kind, before any DH
    let bad_hex = PreKeyBundle::new(
        "zz".to_string(),
        bob_identity.verifying_key(),
        SignedPreKey::from(&spk),
        None,
    );
    assert_eq!(alice.initiate(&bad_hex).unwrap_err(), E2EEError::Key);
    let short = PreKeyBundle::new(
        "aabb".to_string(),
        bob_identity.verifying_key(),
        SignedPreKey::from(&spk),
        None,
    );
    assert_eq!(alice.initiate(&short).unwrap_err(), E2EEError::Key);
}
