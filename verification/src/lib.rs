//! Verified core of an end-to-end encrypted messaging library:
//! X3DH key agreement and a Double Ratchet session, with a fixed
//! wire envelope (canonical JSON carried as base64).

pub mod chain;
pub mod crypto;
pub mod double_ratchet;
pub mod encoding;
pub mod envelope;
pub mod error;
pub mod identity;
pub mod keybytes;
pub mod prekey;
pub mod wire;
pub mod x3dh;

pub use error::E2EEError;
pub use error::Result;
pub use chain::Chain;
pub use double_ratchet::DoubleRatchet;
pub use envelope::MessageEnvelope;
pub use envelope::MessageHeader;
pub use envelope::MessageType;
pub use identity::IdentityKeyPair;
pub use keybytes::get_public_key_hex;
pub use keybytes::IdentityKeyPairBytes;
pub use keybytes::OneTimePreKeyJSON;
pub use keybytes::PreKeyBundleJSON;
pub use keybytes::SignedPreKeyJSON;
pub use prekey::OneTimePreKey;
pub use prekey::OneTimePreKeyPair;
pub use prekey::PreKeyBundle;
pub use prekey::SignedPreKey;
pub use prekey::SignedPreKeyPair;
pub use x3dh::calculate_shared_secret_from_dh;
pub use x3dh::perform_dh;
pub use x3dh::X3DHInitiator;
pub use x3dh::X3DHResponder;
pub use x3dh::X3DHResponseResult;
pub use x3dh::X3DHResult;
