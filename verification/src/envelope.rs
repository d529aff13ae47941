//! The wire message envelope: version, message type, ciphertext, and the
//! header the recipient needs to advance its ratchet.

use vstd::prelude::*;

verus! {

/// The wire protocol version carried by every envelope.
pub const MESSAGE_VERSION: u32 = 1;

/// The kind of message an envelope carries.
#[derive(Debug, Clone, Copy, PartialEq, Eq, Structural)]
pub enum MessageType {
    /// An ordinary ratchet message.
    Regular,
    /// The first message of a session, carrying X3DH material.
    PreKey,
    /// A key-exchange control message.
    KeyExchange,
}

/// Ratchet metadata carried beside the ciphertext.
#[derive(Debug, Clone, PartialEq, Eq)]
pub struct MessageHeader {
    /// The sender's current DH public key, as 64 lowercase hex characters.
    pub dh_public_key: String,
    /// The length of the sender's previous sending chain (not tracked by
    /// this core: always 0 on encode, carried through on decode).
    pub previous_chain_length: u32,
    /// The 1-based number of this message in the sender's current chain.
    pub message_number: u64,
}

/// A complete wire message: version, type, ciphertext and header.
#[derive(Debug, Clone, PartialEq, Eq)]
pub struct MessageEnvelope {
    /// The wire protocol version.
    pub version: u32,
    /// The kind of message.
    pub message_type: MessageType,
    /// The AEAD ciphertext, tag included.
    pub ciphertext: Vec<u8>,
    /// The ratchet metadata.
    pub header: MessageHeader,
}

impl MessageEnvelope {
    /// A regular envelope around a ciphertext.
    pub fn regular(
        ciphertext: Vec<u8>,
        dh_public_key: String,
        previous_chain_length: u32,
        message_number: u64,
    ) -> (r: Self)
        ensures
            r.version == MESSAGE_VERSION,
            r.message_type == MessageType::Regular,
            r.ciphertext@ == ciphertext@,
            r.header.dh_public_key@ == dh_public_key@,
            r.header.previous_chain_length == previous_chain_length,
            r.header.message_number == message_number,
    {
        Self {
            version: MESSAGE_VERSION,
            message_type: MessageType::Regular,
            ciphertext,
            header: MessageHeader { dh_public_key, previous_chain_length, message_number },
        }
    }
}

} // verus!
