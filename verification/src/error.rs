use vstd::prelude::*;

verus! {

/// Error kinds surfaced by the library.
///
/// Every fallible operation returns one of these kinds to its immediate
/// caller; nothing is retried or substituted.
#[derive(Clone, Copy, Debug, PartialEq, Eq, Structural)]
pub enum E2EEError {
    /// Primitive-level failure (AEAD tag mismatch, key construction failure).
    Crypto,
    /// Malformed key bytes or wrong key length.
    Key,
    /// JSON/base64/hex decode failure or length mismatch on reconstruction.
    Serialization,
    /// Semantic violation of the wire contract.
    Protocol,
    /// Operation invoked in an impossible state.
    State,
    /// A prekey signature that does not verify under the claimed identity.
    SignatureInvalid,
    /// Caller-provided argument out of domain.
    InvalidInput,
}

/// Result alias used throughout the library.
pub type Result<T> = core::result::Result<T, E2EEError>;

} // verus!
