use lazyssh::vault::crypto::{
    decrypt_password, derive_key, encrypt_password, generate_salt, password_from_opened, seal_with_nonce,
};

#[test]
fn test_encrypt_decrypt_roundtrip() {
    let master_password = "test_master_pass";
    let salt = [0u8; 16];
    let key = derive_key(master_password, &salt);

    let password = "my_secret_password";
    let encrypted = encrypt_password(password, &key).unwrap();
    let decrypted = decrypt_password(&encrypted, &key).unwrap();

    assert_eq!(decrypted, password);
}

#[test]
fn test_different_keys_fail() {
    let key1 = derive_key("password1", &[0u8; 16]);
    let key2 = derive_key("password2", &[0u8; 16]);

    let encrypted = encrypt_password("secret", &key1).unwrap();
    let result = decrypt_password(&encrypted, &key2);

    assert!(result.is_err());
}

#[test]
fn test_tampered_ciphertext_fails() {
    let key = derive_key("password", &[0u8; 16]);
    let encrypted = encrypt_password("secret", &key).unwrap();
    let mut tampered = encrypted.clone();
    tampered[16] ^= 0xff;
    let result = decrypt_password(&tampered, &key);
    assert!(result.is_err());
}

#[test]
fn test_generate_salt_length() {
    let salt = generate_salt().unwrap();
    assert_eq!(salt.len(), 16);
}

#[test]
fn test_generate_salt_is_random() {
    let salt1 = generate_salt().unwrap();
    let salt2 = generate_salt().unwrap();
    assert_ne!(salt1, salt2, "subsequent salts should differ");
}

#[test]
fn test_derive_key_deterministic() {
    let key1 = derive_key("mypass", &[1u8; 16]);
    let key2 = derive_key("mypass", &[1u8; 16]);
    assert_eq!(key1, key2);
}

#[test]
fn test_derive_key_different_salts() {
    let key1 = derive_key("mypass", &[1u8; 16]);
    let key2 = derive_key("mypass", &[2u8; 16]);
    assert_ne!(key1, key2, "different salts should produce different keys");
}

#[test]
fn test_encrypt_empty_string() {
    let key = derive_key("pass", &[0u8; 16]);
    let encrypted = encrypt_password("", &key).unwrap();
    assert!(encrypted.len() > 12, "nonce + tag should be present");

    let decrypted = decrypt_password(&encrypted, &key).unwrap();
    assert_eq!(decrypted, "");
}

#[test]
fn test_decrypt_too_short_fails() {
    let key = derive_key("pass", &[0u8; 16]);
    let result = decrypt_password(&[0u8; 3], &key);
    assert!(result.is_err(), "too-short ciphertext should fail");
}

#[test]
fn test_encrypt_produces_different_output_each_time() {
    let key = derive_key("pass", &[0u8; 16]);
    let ct1 = encrypt_password("hello", &key).unwrap();
    let ct2 = encrypt_password("hello", &key).unwrap();
    // Nonce randomness means outputs should differ
    assert_ne!(ct1, ct2);
}

#[test]
fn decrypt_error_texts() {
    let key = derive_key("pass", &[0u8; 16]);
    assert_eq!(decrypt_password(&[1u8; 11], &key), Err("Invalid encrypted data".to_string()));
    assert_eq!(password_from_opened(None), Err("Failed to decrypt (wrong key?): Unspecified".to_string()));
    assert_eq!(password_from_opened(Some(vec![0xff, 0xfe])), Err("Invalid UTF-8 in decrypted password".to_string()));
    assert_eq!(password_from_opened(Some("olá".as_bytes().to_vec())), Ok("olá".to_string()));
}

#[test]
fn encrypted_text_is_nonce_then_sealed_password() {
    let key = derive_key("pass", &[7u8; 16]);
    let e = encrypt_password("segredo", &key).unwrap();
    // 12 bytes of nonce, the 7 bytes of the password, 16 bytes of tag.
    assert_eq!(e.len(), 12 + 7 + 16);
    assert_ne!(&e[12..19], "segredo".as_bytes());
    let wrong = derive_key("other", &[7u8; 16]);
    assert_eq!(decrypt_password(&e, &wrong), Err("Failed to decrypt (wrong key?): Unspecified".to_string()));
    assert_eq!(decrypt_password(&e, &key), Ok("segredo".to_string()));
}

#[test]
fn derived_key_differs_from_password_and_salt() {
    let key = derive_key("abc", &[3u8; 16]);
    assert_eq!(key.len(), 32);
    assert_ne!(&key[..3], b"abc");
    assert_ne!(&key[..16], &[3u8; 16]);
}

#[test]
fn sealing_with_a_given_nonce() {
    let key = derive_key("pass", &[5u8; 16]);
    let nonce = [9u8; 12];
    let a = seal_with_nonce("abc", &key, nonce).unwrap();
    let b = seal_with_nonce("abc", &key, nonce).unwrap();
    assert_eq!(a, b);
    assert_eq!(&a[..12], &nonce);
    assert_eq!(a.len(), 12 + 3 + 16);
    assert_ne!(&a[12..15], b"abc");
    assert_eq!(decrypt_password(&a, &key), Ok("abc".to_string()));
}
