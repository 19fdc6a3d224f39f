//! Key exchange on Curve25519: a key pair for one exchange, and the secret
//! that both sides arrive at.

use vstd::prelude::*;
use crate::crypto::{base64_bytes, base64_decode, base64_encode, base64_text, random_array};

verus! {

/// Bytes of a public key.
pub const PUBLIC_KEY_SIZE: usize = 32usize;

/// Bytes of a shared secret.
pub const SHARED_SECRET_SIZE: usize = 32usize;

/// What the X25519 function makes of a scalar and a point, both of 32
/// bytes: the point multiplied by the scalar, as 32 bytes.
pub uninterp spec fn x25519_product(scalar: Seq<u8>, point: Seq<u8>) -> Seq<u8>;

/// The base point of the curve: 9 and 31 zero bytes.
pub open spec fn basepoint() -> Seq<u8> {
    Seq::new(32, |i: int| if i == 0 { 9u8 } else { 0u8 })
}

/// Whether a public key serves its private key in an exchange: whoever
/// multiplies the public key by a private key of their own arrives at what
/// the owner makes of their public key.
pub open spec fn exchanges(secret: Seq<u8>, public: Seq<u8>) -> bool {
    forall|other: Seq<u8>|
        other.len() == 32 ==> #[trigger] x25519_product(other, public) == x25519_product(
            secret,
            x25519_product(other, basepoint()),
        )
}

/// Multiplies a point by a scalar.
///
/// Calls `x25519_dalek::x25519`. The contract gives the product a name: it
/// depends on scalar and point alone. It also states the law that the
/// function is used for, as its documentation shows it: a multiple of the
/// base point is a public key with which both sides of an exchange arrive
/// at the same secret.
#[verifier::external_body]
fn scalar_mult(scalar: &[u8], point: &[u8]) -> (product: [u8; 32])
    requires
        scalar@.len() == 32,
        point@.len() == 32,
    ensures
        product@ == x25519_product(scalar@, point@),
        point@ == basepoint() ==> exchanges(scalar@, product@),
{
    let mut k = [0u8; 32];
    k.copy_from_slice(scalar);
    let mut u = [0u8; 32];
    u.copy_from_slice(point);
    x25519_dalek::x25519(k, u)
}

/// The base point of the curve.
fn basepoint_bytes() -> (point: Vec<u8>)
    ensures
        point@ == basepoint(),
{
    let mut point: Vec<u8> = Vec::new();
    point.push(9u8);
    while point.len() < 32
        invariant
            1 <= point@.len() <= 32,
            point@[0] == 9u8,
            forall|i: int| 1 <= i < point@.len() ==> point@[i] == 0u8,
        decreases 32 - point@.len(),
    {
        point.push(0u8);
    }
    assert(point@ =~= basepoint());
    point
}

/// Why no shared secret was computed.
#[derive(Debug, Clone, Copy, PartialEq, Eq, Structural)]
pub enum KeyExchangeError {
    /// The peer's public key is no base64 text.
    InvalidBase64,
    /// The peer's public key does not have 32 bytes.
    InvalidKeySize,
}

impl KeyExchangeError {
    /// The error in words.
    pub fn message(&self) -> (text: &'static str)
        ensures
            text@ == match self {
                KeyExchangeError::InvalidBase64 => "Invalid base64 public key"@,
                KeyExchangeError::InvalidKeySize => "Invalid public key size: expected 32"@,
            },
    {
        match self {
            KeyExchangeError::InvalidBase64 => "Invalid base64 public key",
            KeyExchangeError::InvalidKeySize => "Invalid public key size: expected 32",
        }
    }
}

/// Whether a text is a public key: base64 of exactly 32 bytes.
pub open spec fn peer_key_check(text: Seq<char>) -> Result<Seq<u8>, KeyExchangeError> {
    match base64_bytes(text) {
        None => Err(KeyExchangeError::InvalidBase64),
        Some(bytes) => if bytes.len() == PUBLIC_KEY_SIZE {
            Ok(bytes)
        } else {
            Err(KeyExchangeError::InvalidKeySize)
        },
    }
}

/// A key pair for one key exchange. Computing the shared secret takes the
/// pair, so that it cannot be used twice.
pub struct EcdhKeypair {
    secret: [u8; 32],
    public_key: [u8; 32],
}

impl EcdhKeypair {
    /// The private key of the pair.
    pub closed spec fn secret(&self) -> Seq<u8> {
        self.secret@
    }

    /// The public key of the pair.
    pub closed spec fn public(&self) -> Seq<u8> {
        self.public_key@
    }

    /// Whether the pair is one: the public key is the base point
    /// multiplied by the private key, and serves it in an exchange.
    pub open spec fn wf(&self) -> bool {
        &&& self.secret().len() == 32
        &&& self.public().len() == PUBLIC_KEY_SIZE
        &&& self.public() == x25519_product(self.secret(), basepoint())
        &&& exchanges(self.secret(), self.public())
    }

    /// The key pair of a private key: the public key that belongs to it is
    /// the base point multiplied by the private key.
    pub fn of_private_key(private_key: [u8; 32]) -> (pair: EcdhKeypair)
        ensures
            pair.wf(),
            pair.secret() == private_key@,
            pair.public() == x25519_product(private_key@, basepoint()),
    {
        let base = basepoint_bytes();
        let public_key = scalar_mult(private_key.as_slice(), base.as_slice());
        EcdhKeypair { secret: private_key, public_key }
    }

    /// A fresh key pair: a random private key, and the public key that
    /// belongs to it. Nothing where the operating system gives no random
    /// bytes.
    pub fn generate() -> (pair: Option<EcdhKeypair>)
        ensures
            pair matches Some(p) ==> p.wf() && p.public() == x25519_product(
                p.secret(),
                basepoint(),
            ) && p.secret().len() == 32 && p.public().len() == PUBLIC_KEY_SIZE,
    {
        match random_array::<32>() {
            Some(private_key) => Some(EcdhKeypair::of_private_key(private_key)),
            None => None,
        }
    }

    /// The public key.
    pub fn public_key_bytes(&self) -> (public: [u8; 32])
        ensures
            public@ == self.public(),
    {
        self.public_key
    }

    /// The public key in base64, as it is sent to the peer.
    pub fn public_key_base64(&self) -> (text: String)
        ensures
            text@ == base64_text(self.public()),
            peer_key_check(text@) == Ok::<Seq<u8>, KeyExchangeError>(self.public()),
    {
        base64_encode(self.public_key.as_slice())
    }

    /// The secret shared with the owner of the given public key: that key
    /// multiplied by the private key of the pair. Takes the pair.
    pub fn compute_shared_secret(self, peer_public_key: &[u8; 32]) -> (shared: [u8; 32])
        ensures
            shared@ == x25519_product(self.secret(), peer_public_key@),
            shared@.len() == SHARED_SECRET_SIZE,
    {
        scalar_mult(self.secret.as_slice(), peer_public_key.as_slice())
    }

    /// The secret shared with the owner of the given public key in base64.
    /// A key that is no base64 or not of 32 bytes is refused before the
    /// curve is touched.
    pub fn compute_shared_secret_base64(self, peer_public_key_base64: &str) -> (shared: Result<
        [u8; 32],
        KeyExchangeError,
    >)
        ensures
            match shared {
                Ok(secret) => peer_key_check(peer_public_key_base64@) matches Ok(peer) && secret@
                    == x25519_product(self.secret(), peer) && secret@.len() == SHARED_SECRET_SIZE,
                Err(why) => peer_key_check(peer_public_key_base64@) == Err::<
                    Seq<u8>,
                    KeyExchangeError,
                >(why),
            },
    {
        let peer_bytes = match base64_decode(peer_public_key_base64) {
            Ok(bytes) => bytes,
            Err(_) => {
                return Err(KeyExchangeError::InvalidBase64);
            },
        };
        if peer_bytes.len() != PUBLIC_KEY_SIZE {
            return Err(KeyExchangeError::InvalidKeySize);
        }
        Ok(scalar_mult(self.secret.as_slice(), peer_bytes.as_slice()))
    }
}

/// Both sides of an exchange arrive at the same secret: what one makes of
/// the other's public key with its own private key is what the other makes
/// of the first's public key.
pub proof fn lemma_exchange_agrees(ours: EcdhKeypair, theirs: EcdhKeypair)
    requires
        ours.wf(),
        theirs.wf(),
    ensures
        x25519_product(ours.secret(), theirs.public()) == x25519_product(
            theirs.secret(),
            ours.public(),
        ),
{
    assert(x25519_product(ours.secret(), theirs.public()) == x25519_product(
        theirs.secret(),
        x25519_product(ours.secret(), basepoint()),
    ));
}

} // verus!
