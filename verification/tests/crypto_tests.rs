use chatcall::cipher::{CipherError, SessionCipher};
use chatcall::keypair::KeyPair;
use chatcall::session_key::SessionKeys;

fn test_key() -> [u8; 32] {
    let mut key = [0u8; 32];
    for (i, byte) in key.iter_mut().enumerate() {
        *byte = i as u8;
    }
    key
}

#[test]
fn test_encrypt_decrypt_roundtrip() {
    let mut cipher = SessionCipher::new(&test_key());
    let plaintext = b"Hello, ChatCall!";
    let encrypted = cipher.encrypt(plaintext).unwrap();
    let decrypted = cipher.decrypt(&encrypted).unwrap();
    assert_eq!(decrypted, plaintext);
}

#[test]
fn test_unique_nonces() {
    let mut cipher = SessionCipher::new(&test_key());
    let e1 = cipher.encrypt(b"test1").unwrap();
    let e2 = cipher.encrypt(b"test1").unwrap();
    // Same plaintext should produce different ciphertext (different nonces)
    assert_ne!(e1, e2);
    // Nonces should be different
    assert_ne!(&e1[..12], &e2[..12]);
}

#[test]
fn test_tampered_data_fails() {
    let mut cipher = SessionCipher::new(&test_key());
    let mut encrypted = cipher.encrypt(b"secret data").unwrap();
    // Tamper with a byte in the ciphertext (after the nonce)
    encrypted[15] ^= 0xFF;
    assert!(cipher.decrypt(&encrypted).is_err());
}

#[test]
fn test_wrong_key_fails() {
    let key1 = test_key();
    let mut key2 = test_key();
    key2[0] = 0xFF;

    let mut cipher1 = SessionCipher::new(&key1);
    let cipher2 = SessionCipher::new(&key2);

    let encrypted = cipher1.encrypt(b"hello").unwrap();
    assert!(cipher2.decrypt(&encrypted).is_err());
}

#[test]
fn test_empty_plaintext() {
    let mut cipher = SessionCipher::new(&test_key());
    let encrypted = cipher.encrypt(b"").unwrap();
    assert_eq!(encrypted.len(), SessionCipher::OVERHEAD);
    let decrypted = cipher.decrypt(&encrypted).unwrap();
    assert!(decrypted.is_empty());
}

#[test]
fn test_large_payload() {
    let mut cipher = SessionCipher::new(&test_key());
    let plaintext = vec![0xAB; 4096]; // 4KB payload
    let encrypted = cipher.encrypt(&plaintext).unwrap();
    let decrypted = cipher.decrypt(&encrypted).unwrap();
    assert_eq!(decrypted, plaintext);
}

#[test]
fn test_ciphertext_too_short() {
    let cipher = SessionCipher::new(&test_key());
    let short_data = [0u8; 10]; // less than OVERHEAD
    assert!(matches!(
        cipher.decrypt(&short_data),
        Err(CipherError::CiphertextTooShort { .. })
    ));
}

#[test]
fn test_key_exchange() {
    let alice = KeyPair::generate();
    let bob = KeyPair::generate();

    let alice_pub = alice.public_key_bytes();
    let bob_pub = bob.public_key_bytes();

    let alice_shared = alice.diffie_hellman(&bob_pub);
    let bob_shared = bob.diffie_hellman(&alice_pub);

    assert_eq!(alice_shared, bob_shared);
}

#[test]
fn test_different_keys_different_secrets() {
    let alice = KeyPair::generate();
    let bob = KeyPair::generate();
    let charlie = KeyPair::generate();

    let bob_pub = bob.public_key_bytes();
    let charlie_pub = charlie.public_key_bytes();

    let secret_ab = alice.diffie_hellman(&bob_pub);
    let secret_bc = bob.diffie_hellman(&charlie_pub);

    assert_ne!(secret_ab, secret_bc);
}

#[test]
fn test_session_keys_symmetric() {
    let alice = KeyPair::generate();
    let bob = KeyPair::generate();

    let alice_pub = alice.public_key_bytes();
    let bob_pub = bob.public_key_bytes();

    let alice_shared = alice.diffie_hellman(&bob_pub);
    let bob_shared = bob.diffie_hellman(&alice_pub);

    // Alice is host, Bob is client
    let mut alice_keys = SessionKeys::derive(&alice_shared, true);
    let mut bob_keys = SessionKeys::derive(&bob_shared, false);

    // Alice encrypts → Bob decrypts
    let msg = b"hello from alice";
    let encrypted = alice_keys.send_cipher.encrypt(msg).unwrap();
    let decrypted = bob_keys.recv_cipher.decrypt(&encrypted).unwrap();
    assert_eq!(decrypted, msg);

    // Bob encrypts → Alice decrypts
    let msg2 = b"hello from bob";
    let encrypted2 = bob_keys.send_cipher.encrypt(msg2).unwrap();
    let decrypted2 = alice_keys.recv_cipher.decrypt(&encrypted2).unwrap();
    assert_eq!(decrypted2, msg2);
}

#[test]
fn test_keys_are_different() {
    let secret = [42u8; 32];
    let mut keys = SessionKeys::derive(&secret, true);

    let test_msg = b"test";
    let enc_send = keys.send_cipher.encrypt(test_msg).unwrap();
    assert!(keys.send_cipher.decrypt(&enc_send).is_ok()); // same cipher, same key works
}

#[test]
fn test_different_contexts_different_keys() {
    let secret = [0xAB; 32];
    let key1 = SessionKeys::derive_key(&secret, b"context-1");
    let key2 = SessionKeys::derive_key(&secret, b"context-2");
    assert_ne!(key1, key2);
}

// ── Further cases ────────────────────────────────────────────

#[test]
fn nonce_layout_and_counter() {
    let mut cipher = SessionCipher::new(&test_key());
    assert_eq!(cipher.nonce_count(), 0);
    let e0 = cipher.encrypt(b"abc").unwrap();
    let e1 = cipher.encrypt(b"abc").unwrap();
    assert_eq!(cipher.nonce_count(), 2);
    assert_eq!(&e0[..12], &[0u8; 12]);
    assert_eq!(&e1[..12], &[0, 0, 0, 0, 1, 0, 0, 0, 0, 0, 0, 0]);
    assert_eq!(e0.len(), 3 + SessionCipher::OVERHEAD);
    // the ciphertext is not the plaintext handed back
    assert_ne!(&e0[12..15], b"abc");
}

#[test]
fn too_short_reports_lengths() {
    let cipher = SessionCipher::new(&test_key());
    assert_eq!(
        cipher.decrypt(&[0u8; 27]),
        Err(CipherError::CiphertextTooShort { min: 28, got: 27 })
    );
    // 28 bytes of zeros are long enough but do not authenticate
    assert_eq!(cipher.decrypt(&[0u8; 28]), Err(CipherError::DecryptionFailed));
}

#[test]
fn send_key_of_one_side_is_recv_key_of_other() {
    let secret = [7u8; 32];
    let mut host = SessionKeys::derive(&secret, true);
    let mut client = SessionKeys::derive(&secret, false);
    let c = host.send_cipher.encrypt(b"ping").unwrap();
    assert_eq!(client.recv_cipher.decrypt(&c).unwrap(), b"ping");
    // the host cannot read its own outgoing data with its receive key
    assert!(host.recv_cipher.decrypt(&c).is_err());
    let c2 = client.send_cipher.encrypt(b"pong").unwrap();
    assert_eq!(host.recv_cipher.decrypt(&c2).unwrap(), b"pong");
}

#[test]
fn derive_key_is_deterministic_and_secret_dependent() {
    let a = SessionKeys::derive_key(&[1u8; 32], b"ctx");
    let b = SessionKeys::derive_key(&[1u8; 32], b"ctx");
    let c = SessionKeys::derive_key(&[2u8; 32], b"ctx");
    assert_eq!(a, b);
    assert_ne!(a, c);
}

#[test]
fn public_key_is_x25519_of_base_point() {
    let kp = KeyPair::generate();
    let bytes = kp.public_key_bytes();
    assert_eq!(kp.public_key().to_bytes(), bytes);
    assert_ne!(bytes, [0u8; 32]);
    // two pairs that swap public keys agree
    let other = KeyPair::generate();
    let other_pub = other.public_key_bytes();
    let s1 = kp.diffie_hellman(&other_pub);
    let s2 = other.diffie_hellman(&bytes);
    assert_eq!(s1, s2);
    assert_ne!(s1, [0u8; 32]);
}
