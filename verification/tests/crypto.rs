use speech2prompt_desktop::crypto::{
    checksum, decrypt, derive_key, derive_key_from_ecdh, device_id_for_address, device_id_of, encrypt,
    encrypt_with_nonce, generate_device_id, CryptoContext, CryptoError,
};
use aes_gcm::aead::{Aead, KeyInit};
use aes_gcm::{Aes256Gcm, Key, Nonce};
use base64::engine::general_purpose::STANDARD;
use base64::Engine;
use speech2prompt_desktop::ecdh::{EcdhKeypair, KeyExchangeError, PUBLIC_KEY_SIZE};
use speech2prompt_desktop::pairing::{secret_to_store, stored_context};

fn hex_of(bytes: &[u8]) -> String {
    let mut out = String::new();
    for byte in bytes {
        out.push_str(&format!("{:02x}", byte));
    }
    out
}

#[test]
fn test_key_derivation() {
    let key1 = derive_key("123456", "android-abc", "linux-xyz");
    let key2 = derive_key("123456", "android-abc", "linux-xyz");
    let key3 = derive_key("654321", "android-abc", "linux-xyz");

    assert_eq!(key1, key2);
    assert_ne!(key1, key3);
}

#[test]
fn test_encrypt_decrypt() {
    let key = derive_key("123456", "android-abc", "linux-xyz");
    let plaintext = "Hello, World!";

    let encrypted = encrypt(plaintext, &key).unwrap();
    let decrypted = decrypt(&encrypted, &key).unwrap();

    assert_eq!(plaintext, decrypted);
    assert_ne!(plaintext, encrypted);
}

#[test]
fn test_checksum() {
    let key = derive_key("123456", "android-abc", "linux-xyz");
    let cs1 = checksum(1, "TEXT", "hello", 1234567890, &key);
    let cs2 = checksum(1, "TEXT", "hello", 1234567890, &key);
    let cs3 = checksum(1, "TEXT", "world", 1234567890, &key);

    assert_eq!(cs1.len(), 8);
    assert_eq!(cs1, cs2);
    assert_ne!(cs1, cs3);
}

#[test]
fn test_crypto_context() {
    let ctx = CryptoContext::from_pin("123456", "android-abc", "linux-xyz");

    let encrypted = ctx.encrypt("test message").unwrap();
    let decrypted = ctx.decrypt(&encrypted).unwrap();

    assert_eq!("test message", decrypted);

    let cs = ctx.checksum(1, "TEXT", "payload", 12345);
    assert!(ctx.verify_checksum(1, "TEXT", "payload", 12345, &cs));
    assert!(!ctx.verify_checksum(1, "TEXT", "different", 12345, &cs));
}

#[test]
fn test_key_exchange() {
    let android_keypair = EcdhKeypair::generate().expect("random bytes");
    let desktop_keypair = EcdhKeypair::generate().expect("random bytes");

    let android_public = android_keypair.public_key_bytes();
    let desktop_public = desktop_keypair.public_key_bytes();

    let android_shared = android_keypair.compute_shared_secret(&desktop_public);
    let desktop_shared = desktop_keypair.compute_shared_secret(&android_public);

    assert_eq!(android_shared, desktop_shared);
}

#[test]
fn test_base64_roundtrip() {
    let keypair = EcdhKeypair::generate().expect("random bytes");
    let base64_key = keypair.public_key_base64();

    assert_eq!(base64_key.len(), 44);

    let decoded = STANDARD.decode(&base64_key).unwrap();
    assert_eq!(decoded.len(), PUBLIC_KEY_SIZE);
}

#[test]
fn test_ecdh_key_exchange() {
    let android_keypair = EcdhKeypair::generate().expect("random bytes");
    let linux_keypair = EcdhKeypair::generate().expect("random bytes");

    let android_public = android_keypair.public_key_bytes();
    let linux_public = linux_keypair.public_key_bytes();

    let android_shared = android_keypair.compute_shared_secret(&linux_public);
    let linux_shared = linux_keypair.compute_shared_secret(&android_public);

    assert_eq!(android_shared, linux_shared);
}

#[test]
fn test_ecdh_based_encryption() {
    let android_id = "android-test123";
    let linux_id = "linux-test456";

    let android_keypair = EcdhKeypair::generate().expect("random bytes");
    let linux_keypair = EcdhKeypair::generate().expect("random bytes");

    let android_public = android_keypair.public_key_bytes();
    let linux_public = linux_keypair.public_key_bytes();

    let android_shared = android_keypair.compute_shared_secret(&linux_public);
    let linux_shared = linux_keypair.compute_shared_secret(&android_public);

    let android_ctx = CryptoContext::from_ecdh(&android_shared, android_id, linux_id);
    let linux_ctx = CryptoContext::from_ecdh(&linux_shared, android_id, linux_id);

    let plaintext = "Hello from Android!";
    let encrypted = android_ctx.encrypt(plaintext).unwrap();

    let decrypted = linux_ctx.decrypt(&encrypted).unwrap();

    assert_eq!(plaintext, decrypted);
}

#[test]
fn test_checksum_verification() {
    let android_id = "android-test123";
    let linux_id = "linux-test456";

    let android_keypair = EcdhKeypair::generate().expect("random bytes");
    let linux_keypair = EcdhKeypair::generate().expect("random bytes");

    let linux_public = linux_keypair.public_key_bytes();
    let shared = android_keypair.compute_shared_secret(&linux_public);

    let ctx = CryptoContext::from_ecdh(&shared, android_id, linux_id);

    let checksum = ctx.checksum(3, "WORD", "hello", 1234567890);

    assert!(ctx.verify_checksum(3, "WORD", "hello", 1234567890, &checksum));

    assert!(!ctx.verify_checksum(3, "WORD", "tampered", 1234567890, &checksum));
    assert!(!ctx.verify_checksum(3, "WORD", "hello", 1234567891, &checksum));
}

#[test]
fn test_device_id_binding() {
    let keypair1 = EcdhKeypair::generate().expect("random bytes");
    let keypair2 = EcdhKeypair::generate().expect("random bytes");
    let public2 = keypair2.public_key_bytes();

    let shared = keypair1.compute_shared_secret(&public2);

    let ctx1 = CryptoContext::from_ecdh(&shared, "android-1", "linux-1");
    let ctx2 = CryptoContext::from_ecdh(&shared, "android-2", "linux-2");

    let encrypted = ctx1.encrypt("test").unwrap();
    assert!(ctx2.decrypt(&encrypted).is_err());
}

#[test]
fn test_derive_key_known_value() {
    let key = derive_key("123456", "android-abc", "linux-xyz");
    assert_eq!(
        hex_of(&key),
        "43d46171d9391140edcbf0ea316de3ea5493fa0770620df4185037f87a809fd5"
    );
    let ctx = CryptoContext::from_pin("123456", "android-abc", "linux-xyz");
    assert_eq!(ctx.key(), &key);
}

#[test]
fn test_derive_key_from_ecdh_known_value() {
    let mut secret = [0u8; 32];
    for (i, byte) in secret.iter_mut().enumerate() {
        *byte = i as u8;
    }
    let key = derive_key_from_ecdh(&secret, "android-1", "linux-1");
    assert_eq!(
        hex_of(&key),
        "b0c234f83fa33acba8b0ab62b31e98dee564c8b2c75bc682c3d93f74782eae31"
    );
    assert_eq!(CryptoContext::from_ecdh(&secret, "android-1", "linux-1").key(), &key);
    assert_ne!(derive_key_from_ecdh(&secret, "android-2", "linux-1"), key);
}

#[test]
fn test_checksum_known_values() {
    let key = derive_key("123456", "android-abc", "linux-xyz");
    assert_eq!(checksum(1, "TEXT", "hello", 1234567890, &key), "e80d8192");
    assert_eq!(checksum(3, "WORD", "hello", 1234567890, &[7u8; 32]), "2f2a3393");
    let ctx = CryptoContext::new([7u8; 32]);
    assert_eq!(ctx.checksum(3, "WORD", "hello", 1234567890), "2f2a3393");
    assert!(ctx.verify_checksum(3, "WORD", "hello", 1234567890, "2f2a3393"));
    assert!(!ctx.verify_checksum(3, "WORD", "hello", 1234567890, "2F2A3393"));
    assert!(!ctx.verify_checksum(3, "TEXT", "hello", 1234567890, "2f2a3393"));
    assert!(!ctx.verify_checksum(2, "WORD", "hello", 1234567890, "2f2a3393"));
}

#[test]
fn test_encrypt_with_nonce_known_token() {
    let key = [7u8; 32];
    let mut nonce = [0u8; 12];
    for (i, byte) in nonce.iter_mut().enumerate() {
        *byte = i as u8;
    }
    let token = encrypt_with_nonce("Hello, World!", &key, &nonce).unwrap();
    assert_eq!(token, "AAECAwQFBgcICQoLUOSFHHIl+R4YwIn4wx9D+/5MGzqj2d1CiVy+s5E=");
    assert_eq!(decrypt(&token, &key).unwrap(), "Hello, World!");
    let bytes = STANDARD.decode(&token).unwrap();
    assert_eq!(&bytes[..12], &nonce);
    assert_eq!(bytes.len(), 12 + 13 + 16);
}

#[test]
fn test_encrypt_uses_fresh_nonce() {
    let key = [9u8; 32];
    let one = encrypt("same text", &key).unwrap();
    let other = encrypt("same text", &key).unwrap();
    assert_ne!(one, other);
    assert_eq!(decrypt(&one, &key).unwrap(), "same text");
    assert_eq!(decrypt(&other, &key).unwrap(), "same text");
}

#[test]
fn test_encrypt_decrypt_unicode_and_empty() {
    let key = [1u8; 32];
    for text in ["", "šmach", "héllo wörld ✓", "line\nbreak"] {
        let token = encrypt(text, &key).unwrap();
        assert_eq!(decrypt(&token, &key).unwrap(), text);
    }
}

#[test]
fn test_decrypt_errors() {
    let key = [7u8; 32];
    assert_eq!(decrypt("not base64!!", &key), Err(CryptoError::Base64DecodeFailed));
    assert_eq!(decrypt("AAECAwQF", &key), Err(CryptoError::CiphertextTooShort));
    assert_eq!(decrypt("", &key), Err(CryptoError::CiphertextTooShort));
    assert_eq!(
        decrypt("AAECAwQFBgcICQoLUOSFHHIl+R4YwIn4wx9D+/5MGzqj2d1CiVy+s5A=", &key),
        Err(CryptoError::DecryptionFailed)
    );
    assert_eq!(
        decrypt("AAECAwQFBgcICQoLUOSFHHIl+R4YwIn4wx9D+/5MGzqj2d1CiVy+s5E=", &[8u8; 32]),
        Err(CryptoError::DecryptionFailed)
    );
    assert_eq!(decrypt("AAECAwQFBgcICQoL", &key), Err(CryptoError::DecryptionFailed));
    assert_eq!(CryptoError::DecryptionFailed.message(), "Decryption failed");
    assert_eq!(CryptoError::Base64DecodeFailed.message(), "Base64 decode failed");
    assert_eq!(CryptoError::CiphertextTooShort.message(), "Ciphertext too short");
}

#[test]
fn test_generate_device_id_shape() {
    let id = generate_device_id().unwrap();
    assert!(id.starts_with("linux-"));
    assert_eq!(id.len(), 6 + 32);
    assert!(id[6..].chars().all(|c| c.is_ascii_hexdigit() && !c.is_ascii_uppercase()));
    assert_ne!(generate_device_id().unwrap(), id);
}

#[test]
fn test_shared_secret_from_base64_key() {
    let android = EcdhKeypair::generate().expect("random bytes");
    let desktop = EcdhKeypair::generate().expect("random bytes");
    let android_public = android.public_key_bytes();
    let desktop_public_text = desktop.public_key_base64();
    let android_shared = android.compute_shared_secret_base64(&desktop_public_text).unwrap();
    let desktop_shared = desktop.compute_shared_secret(&android_public);
    assert_eq!(android_shared, desktop_shared);
    assert_ne!(android_shared, [0u8; 32]);
}

#[test]
fn test_shared_secret_rejects_bad_keys() {
    assert_eq!(
        EcdhKeypair::generate().expect("random bytes").compute_shared_secret_base64("***"),
        Err(KeyExchangeError::InvalidBase64)
    );
    assert_eq!(
        EcdhKeypair::generate().expect("random bytes").compute_shared_secret_base64("AAECAwQF"),
        Err(KeyExchangeError::InvalidKeySize)
    );
    assert_eq!(
        EcdhKeypair::generate().expect("random bytes").compute_shared_secret_base64(""),
        Err(KeyExchangeError::InvalidKeySize)
    );
    assert_eq!(
        EcdhKeypair::generate().expect("random bytes")
            .compute_shared_secret_base64("AAECAwQFBgcICQoLDA0ODxAREhMUFRYXGBkaGxwdHh8g"),
        Err(KeyExchangeError::InvalidKeySize)
    );
    assert!(EcdhKeypair::generate().expect("random bytes")
        .compute_shared_secret_base64("AAECAwQFBgcICQoLDA0ODxAREhMUFRYXGBkaGxwdHh8=")
        .is_ok());
    assert_eq!(KeyExchangeError::InvalidBase64.message(), "Invalid base64 public key");
}

#[test]
fn test_public_key_base64_matches_bytes() {
    let keypair = EcdhKeypair::generate().expect("random bytes");
    let bytes = keypair.public_key_bytes();
    assert_eq!(STANDARD.decode(keypair.public_key_base64()).unwrap(), bytes.to_vec());
    assert_ne!(EcdhKeypair::generate().expect("random bytes").public_key_bytes(), bytes);
}

#[test]
fn test_decrypt_rejects_plaintext_that_is_no_text() {
    let key = [7u8; 32];
    let nonce = [5u8; 12];
    let cipher = Aes256Gcm::new(Key::<Aes256Gcm>::from_slice(&key));
    let sealed = cipher.encrypt(Nonce::from_slice(&nonce), &[0xffu8, 0xfe, 0x41][..]).unwrap();
    let mut combined = nonce.to_vec();
    combined.extend_from_slice(&sealed);
    let token = STANDARD.encode(combined);
    assert_eq!(decrypt(&token, &key), Err(CryptoError::Utf8DecodeFailed));
    assert_eq!(CryptoError::Utf8DecodeFailed.message(), "UTF-8 decode failed");

    let sealed = cipher.encrypt(Nonce::from_slice(&nonce), "šmach".as_bytes()).unwrap();
    let mut combined = nonce.to_vec();
    combined.extend_from_slice(&sealed);
    let token = STANDARD.encode(&combined);
    assert_eq!(decrypt(&token, &key).unwrap(), "šmach");
    assert_eq!(encrypt_with_nonce("šmach", &key, &nonce).unwrap(), token);
}

#[test]
fn test_key_exchange_with_ephemeral_peer() {
    let peer_secret = x25519_dalek::EphemeralSecret::random_from_rng(rand::rngs::OsRng);
    let peer_public = x25519_dalek::PublicKey::from(&peer_secret);
    let ours = EcdhKeypair::generate().expect("random bytes");
    let our_public = ours.public_key_bytes();
    let shared = ours.compute_shared_secret(peer_public.as_bytes());
    let theirs = peer_secret.diffie_hellman(&x25519_dalek::PublicKey::from(our_public));
    assert_eq!(&shared, theirs.as_bytes());
    assert_ne!(shared, our_public);
}

#[test]
fn test_public_key_is_base_point_times_private_key() {
    let one = EcdhKeypair::generate().expect("random bytes");
    let other = EcdhKeypair::generate().expect("random bytes");
    let one_public = one.public_key_bytes();
    let other_public = other.public_key_bytes();
    assert_ne!(one_public, [0u8; 32]);
    assert_ne!(one_public, other_public);
    let mut base = [0u8; 32];
    base[0] = 9;
    let via_base = one.compute_shared_secret(&base);
    assert_eq!(via_base, one_public);
    assert_ne!(other.compute_shared_secret(&base), one_public);
}

#[test]
fn test_device_id_of_bytes() {
    let mut bytes = [0u8; 16];
    for (i, byte) in bytes.iter_mut().enumerate() {
        *byte = (i * 17) as u8;
    }
    assert_eq!(device_id_of(&bytes), "linux-00112233445566778899aabbccddeeff");
    assert_eq!(device_id_of(&[0u8; 16]), "linux-00000000000000000000000000000000");
}

#[test]
fn test_key_pair_of_private_key() {
    let private_key = [0x42u8; 32];
    let pair = EcdhKeypair::of_private_key(private_key);
    assert_eq!(
        pair.public_key_bytes(),
        x25519_dalek::x25519(private_key, x25519_dalek::X25519_BASEPOINT_BYTES)
    );
    let peer = EcdhKeypair::of_private_key([0x17u8; 32]);
    let peer_public = peer.public_key_bytes();
    let our_public = pair.public_key_bytes();
    let ours = pair.compute_shared_secret(&peer_public);
    assert_eq!(ours, x25519_dalek::x25519(private_key, peer_public));
    assert_eq!(ours, peer.compute_shared_secret(&our_public));
    assert_ne!(ours, [0u8; 32]);
}

#[test]
fn test_token_holds_nonce_ciphertext_and_tag() {
    let key = [9u8; 32];
    let nonce = [3u8; 12];
    for text in ["", "a", "žluťoučký kůň", "0123456789abcdef0123456789abcdef"] {
        let token = encrypt_with_nonce(text, &key, &nonce).unwrap();
        let bytes = STANDARD.decode(&token).unwrap();
        assert_eq!(&bytes[..12], &nonce);
        assert_eq!(bytes.len(), 12 + text.len() + 16);
        let cipher = Aes256Gcm::new(Key::<Aes256Gcm>::from_slice(&key));
        let sealed = cipher.encrypt(Nonce::from_slice(&nonce), text.as_bytes()).unwrap();
        assert_eq!(&bytes[12..], &sealed[..]);
    }
}

#[test]
fn test_stored_secret_round_trip() {
    let ctx = CryptoContext::from_pin("123456", "android-abc", "linux-xyz");
    let secret = secret_to_store(&ctx);
    assert_eq!(secret, STANDARD.encode(ctx.key()));
    let restored = stored_context(&secret).unwrap();
    assert_eq!(restored.key(), ctx.key());
    assert!(stored_context("***").is_none());
    assert!(stored_context("").is_none());
    assert!(stored_context(&STANDARD.encode([1u8; 31])).is_none());
    assert!(stored_context(&STANDARD.encode([1u8; 33])).is_none());
    assert_eq!(stored_context(&STANDARD.encode([1u8; 32])).unwrap().key(), &[1u8; 32]);
}

#[test]
fn test_device_id_for_address() {
    assert_eq!(device_id_for_address("AA:BB:CC:00:11:22"), "linux-AABBCC001122");
    assert_eq!(device_id_for_address(""), "linux-");
    assert_eq!(device_id_for_address(":::"), "linux-");
    assert_eq!(device_id_for_address("no colons"), "linux-no colons");
}
