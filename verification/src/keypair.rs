//! X25519 Diffie-Hellman key pairs for the session key exchange.
//!
//! A key pair is a fresh random 32-byte secret and its public key, the
//! X25519 function of the secret and the base point. The shared secret with
//! a peer is the X25519 function of our secret and the peer's public key;
//! both sides reach the same bytes.

use vstd::prelude::*;

use rand::rngs::OsRng;
use rand::RngCore;
use x25519_dalek::{PublicKey, X25519_BASEPOINT_BYTES};

verus! {

#[verifier::external_type_specification]
#[verifier::external_body]
pub struct ExPublicKey(PublicKey);

/// What `x25519_dalek::x25519` (RFC 7748's X25519 function) gives for the
/// scalar `k` and the u-coordinate `u`.
pub uninterp spec fn x25519_of(k: Seq<u8>, u: Seq<u8>) -> Seq<u8>;

/// The X25519 base point (u = 9), `X25519_BASEPOINT_BYTES`.
pub open spec fn basepoint() -> Seq<u8> {
    seq![9u8, 0, 0, 0, 0, 0, 0, 0, 0, 0, 0, 0, 0, 0, 0, 0, 0, 0, 0, 0, 0, 0, 0, 0, 0, 0, 0, 0, 0, 0, 0, 0]
}

/// The public key of a secret: X25519 of the secret and the base point.
pub open spec fn public_of(secret: Seq<u8>) -> Seq<u8> {
    x25519_of(secret, basepoint())
}

/// `OsRng.fill_bytes`: 32 bytes from the operating system's random source.
/// Nothing is stated of them.
#[verifier::external_body]
fn random_bytes() -> [u8; 32] {
    let mut bytes = [0u8; 32];
    OsRng.fill_bytes(&mut bytes);
    bytes
}

/// `x25519_dalek::x25519(k, u)`: `x25519_of(k, u)`. As the crate documents
/// (and Diffie-Hellman guarantees), when `u` is the public key of a secret
/// `b`, the result is what `b` gives with the public key of `k`.
#[verifier::external_body]
fn x25519(k: [u8; 32], u: [u8; 32]) -> (r: [u8; 32])
    ensures
        r@ == x25519_of(k@, u@),
        forall|b: Seq<u8>|
            b.len() == 32 && u@ == #[trigger] public_of(b) ==> r@ == x25519_of(b, public_of(k@)),
{
    x25519_dalek::x25519(k, u)
}

/// `x25519_dalek::X25519_BASEPOINT_BYTES`: the base point, 9 then 31 zero
/// bytes.
#[verifier::external_body]
fn basepoint_bytes() -> (r: [u8; 32])
    ensures
        r@ == basepoint(),
{
    X25519_BASEPOINT_BYTES
}

/// `PublicKey::from([u8; 32])`: the public key with these bytes. The key
/// is opaque here, so nothing ties it to the bytes by a clause.
#[verifier::external_body]
fn public_key_from(bytes: [u8; 32]) -> PublicKey {
    PublicKey::from(bytes)
}

/// X25519 Diffie-Hellman key pair for secure key exchange.
pub struct KeyPair {
    secret: [u8; 32],
    public: PublicKey,
    public_bytes: [u8; 32],
}

impl KeyPair {
    /// The public key is the one of the secret.
    #[verifier::type_invariant]
    spec fn keys_match(self) -> bool {
        self.public_bytes@ == public_of(self.secret@)
    }

    /// The pair's secret.
    pub closed spec fn secret_bytes(&self) -> Seq<u8> {
        self.secret@
    }

    /// The pair's public key.
    pub closed spec fn public_key_value(&self) -> PublicKey {
        self.public
    }

    /// The bytes of the pair's public key.
    pub closed spec fn public_bytes(&self) -> Seq<u8> {
        self.public_bytes@
    }

    /// Generate a new random X25519 key pair: a random secret and its public
    /// key.
    pub fn generate() -> (r: Self)
        ensures
            r.secret_bytes().len() == 32,
            r.public_bytes() == public_of(r.secret_bytes()),
    {
        let secret = random_bytes();
        let public_bytes = x25519(secret, basepoint_bytes());
        let public = public_key_from(public_bytes);
        Self { secret, public, public_bytes }
    }

    /// Get the public key bytes (32 bytes) for sending to the peer: those
    /// of the secret's public key.
    pub fn public_key_bytes(&self) -> (r: [u8; 32])
        ensures
            r@ == self.public_bytes(),
            r@ == public_of(self.secret_bytes()),
    {
        proof {
            use_type_invariant(self);
        }
        self.public_bytes
    }

    /// Get a reference to the public key
    pub fn public_key(&self) -> (r: &PublicKey)
        ensures
            *r == self.public_key_value(),
    {
        &self.public
    }

    /// Perform the Diffie-Hellman key exchange with the peer's public key,
    /// giving the 32 bytes of the shared secret. Consumes the key pair (its
    /// secret is used once). When the peer's key is the public key of a
    /// secret `b`, the result is what `b` gives with our public key: both
    /// sides reach the same secret.
    pub fn diffie_hellman(self, peer_public_key: &[u8; 32]) -> (r: [u8; 32])
        ensures
            r@ == x25519_of(self.secret_bytes(), peer_public_key@),
            forall|b: Seq<u8>|
                b.len() == 32 && peer_public_key@ == #[trigger] public_of(b) ==> r@ == x25519_of(
                    b,
                    self.public_bytes(),
                ),
    {
        proof {
            use_type_invariant(&self);
        }
        x25519(self.secret, *peer_public_key)
    }
}

} // verus!
