//! Pairing as the user and the list of paired phones see it: the user's
//! answer to a request to pair, and the form in which the key of a
//! session is kept with a paired phone.

use vstd::prelude::*;
use crate::crypto::{base64_bytes, base64_decode, base64_encode, base64_text, CryptoContext, KEY_SIZE};

verus! {

/// The user's answer to a request to pair. An acceptance carries the PIN
/// that the phone shows; the connection derives the key of the session
/// from it.
#[derive(Debug)]
pub enum PairingResponse {
    /// The user accepts, with the PIN shown on the phone.
    Accepted {
        /// The PIN.
        pin: String,
    },
    /// The user refuses.
    Rejected,
}

impl PairingResponse {
    /// Whether the user accepted.
    pub fn is_accepted(&self) -> (accepted: bool)
        ensures
            accepted == self is Accepted,
    {
        match self {
            PairingResponse::Accepted { .. } => true,
            PairingResponse::Rejected => false,
        }
    }
}

/// The key that a stored secret stands for: the secret is the key in
/// base64, and a text that is no base64 of exactly 32 bytes stands for
/// none.
pub open spec fn stored_key(secret: Seq<char>) -> Option<Seq<u8>> {
    match base64_bytes(secret) {
        Some(bytes) => if bytes.len() == KEY_SIZE {
            Some(bytes)
        } else {
            None
        },
        None => None,
    }
}

/// The key of a session as it is kept with a paired phone: in base64.
pub fn secret_to_store(crypto: &CryptoContext) -> (secret: String)
    ensures
        secret@ == base64_text(crypto@),
        stored_key(secret@) == Some(crypto@),
{
    base64_encode(crypto.key().as_slice())
}

/// The context of a session with a phone that was paired before, from
/// the secret kept with it. A secret that is no base64 of exactly 32
/// bytes gives none.
pub fn stored_context(secret: &str) -> (crypto: Option<CryptoContext>)
    ensures
        match crypto {
            Some(ctx) => stored_key(secret@) == Some(ctx@),
            None => stored_key(secret@) is None,
        },
{
    let bytes = match base64_decode(secret) {
        Ok(bytes) => bytes,
        Err(_) => {
            return None;
        },
    };
    if bytes.len() != KEY_SIZE {
        return None;
    }
    let mut key = [0u8; 32];
    let mut i: usize = 0;
    while i < 32
        invariant
            i <= 32,
            bytes@.len() == 32,
            forall|j: int| 0 <= j < i ==> key@[j] == bytes@[j],
        decreases 32 - i,
    {
        key[i] = bytes[i];
        i += 1;
    }
    assert(key@ =~= bytes@);
    Some(CryptoContext::new(key))
}

} // verus!
