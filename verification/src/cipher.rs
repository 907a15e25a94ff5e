//! Authenticated encryption of voice and chat data with ChaCha20-Poly1305.
//!
//! Output format: `[nonce (12 bytes)] [ciphertext (N bytes)] [tag (16 bytes)]`.
//! The nonce is a per-cipher counter, so a key never encrypts twice under
//! the same nonce (until the 64-bit counter wraps).

use vstd::prelude::*;

use chacha20poly1305::aead::{Aead, KeyInit};
use chacha20poly1305::{ChaCha20Poly1305, Key, Nonce};

use crate::wire::{le64, lemma_le64_roundtrip, u64_at, u64_to_le, append_bytes, tail_vec};

verus! {

/// Error type for cipher operations
#[derive(Debug, Clone, Copy, PartialEq, Eq)]
pub enum CipherError {
    EncryptionFailed,
    DecryptionFailed,
    InvalidNonce,
    CiphertextTooShort { min: usize, got: usize },
}

/// What ChaCha20-Poly1305 encryption of `plaintext` under `key` and `nonce`
/// (no associated data) gives: ciphertext followed by the tag.
pub uninterp spec fn aead_seal(key: Seq<u8>, nonce: Seq<u8>, plaintext: Seq<u8>) -> Seq<u8>;

/// What ChaCha20-Poly1305 decryption of `ciphertext` (ciphertext followed by
/// tag) under `key` and `nonce` gives: the plaintext, or `None` when the tag
/// does not verify.
pub uninterp spec fn aead_open(key: Seq<u8>, nonce: Seq<u8>, ciphertext: Seq<u8>) -> Option<Seq<u8>>;

/// Whether the cipher accepts a message of this length (fewer than 2^32 - 1
/// blocks of 64 bytes).
pub open spec fn sealable(len: nat) -> bool {
    len / 64 < 0xffff_ffff
}

/// The model of an optional byte vector.
pub open spec fn opt_bytes(r: Option<Vec<u8>>) -> Option<Seq<u8>> {
    match r {
        Some(v) => Some(v@),
        None => None,
    }
}

/// `Aead::encrypt` of `ChaCha20Poly1305` (made from `key`) with `nonce` and
/// no associated data. It fails exactly when the message is too long for
/// the block counter; otherwise it gives `aead_seal` of its arguments, which
/// is 16 bytes (the tag) longer than the plaintext.
#[verifier::external_body]
fn chacha_encrypt(key: &[u8; 32], nonce: &[u8; 12], plaintext: &[u8]) -> (r: Option<Vec<u8>>)
    requires
        plaintext@.len() + 16 <= isize::MAX,
    ensures
        r is Some <==> sealable(plaintext@.len()),
        r matches Some(c) ==> c@ == aead_seal(key@, nonce@, plaintext@) && c@.len()
            == plaintext@.len() + 16,
{
    ChaCha20Poly1305::new(Key::from_slice(key)).encrypt(Nonce::from_slice(nonce), plaintext).ok()
}

/// `Aead::decrypt` of `ChaCha20Poly1305` (made from `key`) with `nonce` and
/// no associated data: `aead_open` of its arguments. Input shorter than the
/// tag is refused, and what `aead_seal` made under the same key and nonce
/// opens to its plaintext. That forged or altered input is refused is not
/// stated (it holds only with overwhelming probability).
#[verifier::external_body]
fn chacha_decrypt(key: &[u8; 32], nonce: &[u8], ciphertext: &[u8]) -> (r: Option<Vec<u8>>)
    requires
        nonce@.len() == 12,
    ensures
        opt_bytes(r) == aead_open(key@, nonce@, ciphertext@),
        ciphertext@.len() < 16 ==> r is None,
        forall|p: Seq<u8>|
            sealable(p.len()) && #[trigger] aead_seal(key@, nonce@, p) == ciphertext@ ==> opt_bytes(r)
                == Some(p),
{
    ChaCha20Poly1305::new(Key::from_slice(key)).decrypt(Nonce::from_slice(nonce), ciphertext).ok()
}

/// The nonce used for counter value `c`: four zero bytes, then `c` little-endian.
pub open spec fn nonce_bytes(c: u64) -> Seq<u8> {
    seq![0u8, 0u8, 0u8, 0u8] + le64(c)
}

/// ChaCha20-Poly1305 AEAD cipher with a monotonic nonce counter.
pub struct SessionCipher {
    key: [u8; 32],
    /// Monotonically increasing nonce counter
    nonce_counter: u64,
}

/// The result of decrypting `data` under `key`.
pub open spec fn decrypt_spec(key: Seq<u8>, data: Seq<u8>) -> Result<Seq<u8>, CipherError> {
    if data.len() < 28 {
        Err(CipherError::CiphertextTooShort { min: 28, got: data.len() as usize })
    } else {
        match aead_open(key, data.subrange(0, 12), data.subrange(12, data.len() as int)) {
            Some(p) => Ok(p),
            None => Err(CipherError::DecryptionFailed),
        }
    }
}

/// The model of a byte result.
pub open spec fn bytes_result(r: Result<Vec<u8>, CipherError>) -> Result<Seq<u8>, CipherError> {
    match r {
        Ok(v) => Ok(v@),
        Err(e) => Err(e),
    }
}

impl SessionCipher {
    /// Nonce size for ChaCha20-Poly1305
    pub const NONCE_SIZE: usize = 12;
    /// Auth tag size
    pub const TAG_SIZE: usize = 16;
    /// Total overhead added to plaintext: nonce + tag
    pub const OVERHEAD: usize = 28;

    /// The key this cipher uses.
    pub closed spec fn key(&self) -> Seq<u8> {
        self.key@
    }

    /// The counter value the next encryption uses.
    pub closed spec fn counter(&self) -> u64 {
        self.nonce_counter
    }

    /// Create a new cipher from a 32-byte key
    pub fn new(key_bytes: &[u8; 32]) -> (r: Self)
        ensures
            r.key() == key_bytes@,
            r.counter() == 0,
    {
        Self { key: *key_bytes, nonce_counter: 0 }
    }

    /// Encrypt plaintext. Returns nonce + ciphertext + tag. Each call takes the
    /// next counter value as its nonce (the counter advances even when
    /// encryption fails).
    pub fn encrypt(&mut self, plaintext: &[u8]) -> (r: Result<Vec<u8>, CipherError>)
        requires
            plaintext@.len() + 16 <= isize::MAX,
        ensures
            final(self).key() == old(self).key(),
            final(self).counter() == vstd::wrapping::u64_specs::wrapping_add(old(self).counter(), 1),
            r is Ok <==> sealable(plaintext@.len()),
            r is Err ==> r == Err::<Vec<u8>, CipherError>(CipherError::EncryptionFailed),
            r matches Ok(c) ==> c@ == nonce_bytes(old(self).counter()) + aead_seal(
                old(self).key(),
                nonce_bytes(old(self).counter()),
                plaintext@,
            ),
            r matches Ok(c) ==> c@.len() == plaintext@.len() + 28,
    {
        let counter = self.nonce_counter;
        self.nonce_counter = counter.wrapping_add(1);
        let nonce = Self::counter_to_nonce(counter);
        match chacha_encrypt(&self.key, &nonce, plaintext) {
            None => Err(CipherError::EncryptionFailed),
            Some(ciphertext) => {
                let mut output: Vec<u8> = Vec::new();
                append_bytes(&mut output, &nonce);
                append_bytes(&mut output, ciphertext.as_slice());
                Ok(output)
            },
        }
    }

    /// Decrypt ciphertext. Input must be: nonce (12B) + ciphertext + tag (16B).
    /// Whatever `encrypt` made under the same key decrypts to its plaintext.
    pub fn decrypt(&self, data: &[u8]) -> (r: Result<Vec<u8>, CipherError>)
        ensures
            bytes_result(r) == decrypt_spec(self.key(), data@),
            forall|c: u64, p: Seq<u8>|
                data@.len() >= 28 && sealable(p.len()) && data@ == nonce_bytes(c)
                    + #[trigger] aead_seal(self.key(), nonce_bytes(c), p) ==> bytes_result(r) == Ok::<
                    Seq<u8>,
                    CipherError,
                >(p),
    {
        if data.len() < 28 {
            return Err(CipherError::CiphertextTooShort { min: 28, got: data.len() });
        }
        let nonce = prefix12(data);
        let body = tail_vec(data, 12);
        proof {
            assert forall|c: u64, p: Seq<u8>|
                sealable(p.len()) && data@ == nonce_bytes(c) + #[trigger] aead_seal(
                    self.key(),
                    nonce_bytes(c),
                    p,
                ) implies nonce@ == nonce_bytes(c) && body@ == aead_seal(self.key(), nonce_bytes(c), p) by {
                assert(nonce_bytes(c).len() == 12);
                assert(nonce@ =~= nonce_bytes(c));
                assert(body@ =~= aead_seal(self.key(), nonce_bytes(c), p));
            }
        }
        match chacha_decrypt(&self.key, nonce.as_slice(), body.as_slice()) {
            Some(p) => Ok(p),
            None => Err(CipherError::DecryptionFailed),
        }
    }

    /// Convert a u64 counter to a 12-byte nonce: four zero bytes, then the
    /// counter little-endian.
    fn counter_to_nonce(counter: u64) -> (r: [u8; 12])
        ensures
            r@ == nonce_bytes(counter),
    {
        let c = u64_to_le(counter);
        let r = [0u8, 0u8, 0u8, 0u8, c[0], c[1], c[2], c[3], c[4], c[5], c[6], c[7]];
        assert(r@ =~= nonce_bytes(counter));
        r
    }

    /// Get the current nonce counter value (for diagnostics)
    pub fn nonce_count(&self) -> (r: u64)
        ensures
            r == self.counter(),
    {
        self.nonce_counter
    }
}

/// The first twelve bytes.
fn prefix12(data: &[u8]) -> (r: Vec<u8>)
    requires
        data@.len() >= 12,
    ensures
        r@ == data@.subrange(0, 12),
{
    let mut r: Vec<u8> = Vec::new();
    let mut i: usize = 0;
    while i < 12
        invariant
            i <= 12 <= data@.len(),
            r@ == data@.subrange(0, i as int),
        decreases 12 - i,
    {
        r.push(data[i]);
        i = i + 1;
        assert(r@ =~= data@.subrange(0, i as int));
    }
    r
}

/// Different counter values give different nonces.
pub proof fn lemma_nonces_distinct(a: u64, b: u64)
    requires
        a != b,
    ensures
        nonce_bytes(a) != nonce_bytes(b),
{
    lemma_le64_roundtrip(a);
    lemma_le64_roundtrip(b);
    if nonce_bytes(a) == nonce_bytes(b) {
        assert(nonce_bytes(a).subrange(4, 12) =~= le64(a));
        assert(nonce_bytes(b).subrange(4, 12) =~= le64(b));
        assert(u64_at(le64(a), 0) == u64_at(le64(b), 0));
    }
}

} // verus!
