//! Symmetric KDF chain: a 32-byte chain key and a message counter.
//! Each forward step emits a message key and advances the chain key,
//! both through HKDF-SHA256 with empty salt and the labels "mk" and "ck".

use crate::crypto::hkdf_sha256;
use crate::crypto::hkdf_sha256_of;
use crate::error::E2EEError;
use vstd::prelude::*;

verus! {

/// The HKDF info label under which message keys are derived: "mk".
pub open spec fn mk_label() -> Seq<u8> {
    seq![109u8, 107u8]
}

/// The HKDF info label under which the next chain key is derived: "ck".
pub open spec fn ck_label() -> Seq<u8> {
    seq![99u8, 107u8]
}

/// The message key emitted when stepping a chain whose key is `ck`.
pub open spec fn message_key_of(ck: Seq<u8>) -> Seq<u8> {
    hkdf_sha256_of(Seq::empty(), ck, mk_label())
}

/// The chain key that replaces `ck` when the chain steps forward.
pub open spec fn next_chain_key_of(ck: Seq<u8>) -> Seq<u8> {
    hkdf_sha256_of(Seq::empty(), ck, ck_label())
}

pub(crate) fn mk_label_bytes() -> (r: Vec<u8>)
    ensures
        r@ == mk_label(),
{
    let mut v: Vec<u8> = Vec::new();
    v.push(109);
    v.push(107);
    proof {
        assert(v@ =~= mk_label());
    }
    v
}

pub(crate) fn ck_label_bytes() -> (r: Vec<u8>)
    ensures
        r@ == ck_label(),
{
    let mut v: Vec<u8> = Vec::new();
    v.push(99);
    v.push(107);
    proof {
        assert(v@ =~= ck_label());
    }
    v
}

/// A KDF chain position: the current chain key and how many messages
/// this chain has already emitted keys for.
pub struct Chain {
    chain_key: [u8; 32],
    message_number: u32,
}

impl Chain {
    /// The current chain key, as a mathematical value.
    pub closed spec fn key(self) -> Seq<u8> {
        self.chain_key@
    }

    /// The current message number, as a mathematical value.
    pub closed spec fn number(self) -> u32 {
        self.message_number
    }

    /// Create a chain at position 0 from an initial chain key.
    pub fn new(chain_key: [u8; 32]) -> (r: Self)
        ensures
            r.key() == chain_key@,
            r.number() == 0,
    {
        Self { chain_key, message_number: 0 }
    }

    /// Step the chain: emit the message key for the current position,
    /// replace the chain key by its successor (the old key is overwritten),
    /// and advance the counter.
    pub fn ratchet_forward(&mut self) -> (r: Result<([u8; 32], [u8; 32]), E2EEError>)
        requires
            old(self).number() < u32::MAX,
        ensures
            r is Ok,
            r->Ok_0.0@ == message_key_of(old(self).key()),
            r->Ok_0.1@ == next_chain_key_of(old(self).key()),
            final(self).key() == next_chain_key_of(old(self).key()),
            final(self).number() == old(self).number() + 1,
    {
        let empty: Vec<u8> = Vec::new();
        let mk_info = mk_label_bytes();
        let ck_info = ck_label_bytes();
        let message_key = hkdf_sha256(empty.as_slice(), self.chain_key.as_slice(), mk_info.as_slice());
        let new_chain_key = hkdf_sha256(empty.as_slice(), self.chain_key.as_slice(), ck_info.as_slice());
        self.chain_key = new_chain_key;
        self.message_number = self.message_number + 1;
        Ok((message_key, new_chain_key))
    }

    /// The number of messages this chain has emitted keys for.
    pub fn message_number(&self) -> (r: u32)
        ensures
            r == self.number(),
    {
        self.message_number
    }

    /// The current chain key bytes.
    pub(crate) fn chain_key(&self) -> (r: &[u8; 32])
        ensures
            r@ == self.key(),
    {
        &self.chain_key
    }
}

} // verus!
