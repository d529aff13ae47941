use e2ee_core::IdentityKeyPair;
use e2ee_core::MessageEnvelope;
use e2ee_core::MessageType;
use e2ee_core::OneTimePreKey;
use e2ee_core::OneTimePreKeyPair;
use e2ee_core::PreKeyBundle;
use e2ee_core::SignedPreKey;
use e2ee_core::SignedPreKeyPair;
use e2ee_core::DoubleRatchet;
use e2ee_core::X3DHInitiator;
use e2ee_core::X3DHResponder;

#[test]
fn test_identity_key_generation() {
    let key_pair = IdentityKeyPair::generate();

    // Verify public key is valid
    let public_bytes = key_pair.public_key_bytes();
    assert_eq!(public_bytes.len(), 32);

    // Verify hex encoding works
    let hex = key_pair.public_key_hex();
    assert_eq!(hex.len(), 64); // 32 bytes * 2 hex chars

    // Verify uniqueness
    let key_pair2 = IdentityKeyPair::generate();
    assert_ne!(key_pair.public_key_bytes(), key_pair2.public_key_bytes());
}

#[test]
fn test_x3dh_full_flow() {
    // Setup: Alice (initiator) and Bob (responder)
    let alice_identity = IdentityKeyPair::generate();
    let bob_identity = IdentityKeyPair::generate();

    // Bob generates prekeys
    let bob_signed_prekey = SignedPreKeyPair::generate(1, &bob_identity).unwrap();
    let bob_one_time_prekey = OneTimePreKeyPair::generate(1);

    // Create prekey bundle
    let prekey_bundle = PreKeyBundle::new(
        bob_identity.public_key_hex(),
        bob_identity.verifying_key(),
        SignedPreKey::from(&bob_signed_prekey),
        Some(OneTimePreKey::from(&bob_one_time_prekey)),
    );

    // Alice initiates X3DH
    let alice = X3DHInitiator::new(alice_identity.clone());
    let alice_result = alice.initiate(&prekey_bundle).unwrap();

    // Bob responds to X3DH
    let bob_one_time_private = *bob_one_time_prekey.private_key();
    let bob_one_time_public = *bob_one_time_prekey.public_key();

    let mut bob = X3DHResponder::new(bob_identity.clone(), bob_signed_prekey.clone());
    bob.set_one_time_prekey(1, bob_one_time_private, bob_one_time_public);

    let bob_result = bob
        .respond(
            &alice_identity.public_key_hex(),
            &alice_result.ephemeral_public_key_hex,
        )
        .unwrap();

    // Both should have the same shared secret
    assert_eq!(alice_result.shared_secret, bob_result.shared_secret);
}

#[test]
fn test_double_ratchet_encrypt_decrypt() {
    // Test Double Ratchet encryption and decryption
    let shared_secret = [42u8; 32];

    let mut alice = DoubleRatchet::from_shared_secret(&shared_secret, true).unwrap();
    let _bob = DoubleRatchet::from_shared_secret(&shared_secret, false).unwrap();

    // Alice encrypts a message
    let plaintext = b"Hello, Double Ratchet!";
    let envelope = alice.encrypt_envelope(plaintext).unwrap();

    // For now, let's test that encryption works
    assert_eq!(envelope.message_type, MessageType::Regular);
    assert!(!envelope.ciphertext.is_empty());
}

#[test]
fn test_message_envelope_serialization() {
    let envelope = MessageEnvelope::regular(b"test ciphertext".to_vec(), hex::encode([1u8; 32]), 0, 1);

    let b64 = envelope.to_base64().unwrap();
    let deserialized = MessageEnvelope::from_base64(&b64).unwrap();

    assert_eq!(envelope.version, deserialized.version);
    assert_eq!(envelope.message_type, deserialized.message_type);
    assert_eq!(envelope.header.message_number, deserialized.header.message_number);
}
