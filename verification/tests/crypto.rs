use jira_client::crypto::{CryptoError, LocalCrypto};

#[test]
fn test_encrypt_decrypt_roundtrip() {
    let crypto = LocalCrypto::new("test-user-id");
    let plaintext = b"secret jira credentials json";
    let encrypted = crypto.encrypt(plaintext).unwrap();
    let decrypted = crypto.decrypt(&encrypted).unwrap();
    assert_eq!(decrypted, plaintext);
}

#[test]
fn test_different_keys_cannot_decrypt() {
    let crypto1 = LocalCrypto::new("user-1");
    let crypto2 = LocalCrypto::new("user-2");
    let encrypted = crypto1.encrypt(b"secret").unwrap();
    assert!(crypto2.decrypt(&encrypted).is_err());
}

#[test]
fn test_invalid_data_too_short() {
    let crypto = LocalCrypto::new("user");
    assert!(crypto.decrypt(&[0u8; 5]).is_err());
}

#[test]
fn blob_is_nonce_then_ciphertext_with_tag() {
    let crypto = LocalCrypto::new("user");
    let blob = crypto.encrypt(b"abc").unwrap();
    // 12-byte nonce, 3 bytes of ciphertext, 16-byte tag
    assert_eq!(blob.len(), 12 + 3 + 16);
}

#[test]
fn short_blob_error_is_invalid_data() {
    let crypto = LocalCrypto::new("user");
    assert_eq!(crypto.decrypt(&[0u8; 11]), Err(CryptoError::InvalidData));
}

#[test]
fn tampered_blob_error_is_decryption_failed() {
    let crypto = LocalCrypto::new("user");
    let mut blob = crypto.encrypt(b"payload").unwrap();
    let last = blob.len() - 1;
    blob[last] ^= 1;
    assert_eq!(crypto.decrypt(&blob), Err(CryptoError::DecryptionFailed));
}

#[test]
fn nonce_only_blob_does_not_decrypt() {
    let crypto = LocalCrypto::new("user");
    assert_eq!(crypto.decrypt(&[0u8; 12]), Err(CryptoError::DecryptionFailed));
}

#[test]
fn same_user_keys_agree_and_empty_plaintext_round_trips() {
    let a = LocalCrypto::new("same");
    let b = LocalCrypto::new("same");
    let blob = a.encrypt(b"").unwrap();
    assert_eq!(b.decrypt(&blob).unwrap(), Vec::<u8>::new());
}

#[test]
fn crypto_error_messages() {
    assert_eq!(CryptoError::EncryptionFailed.to_string(), "Encryption failed");
    assert_eq!(CryptoError::DecryptionFailed.to_string(), "Decryption failed");
    assert_eq!(CryptoError::InvalidData.to_string(), "Invalid encrypted data: too short");
}
