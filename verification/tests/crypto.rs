use yaud::crypto::{decrypt, encrypt};
use yaud::error::ApplicationError;

#[test]
fn test_encrypt_decrypt_round_trip() {
    let key = [7u8; 32];
    let blob = encrypt(&key, "attack at dawn");
    assert_eq!(decrypt(&key, blob.as_str()).unwrap(), "attack at dawn");
}

#[test]
fn test_encrypt_output_shape() {
    let key = [1u8; 32];
    let blob = encrypt(&key, "payload");
    // nonce and ciphertext stand base64-encoded around one colon; the
    // plaintext itself does not appear
    assert!(blob.contains(':'));
    assert_ne!(blob, "payload");
    assert!(!blob.contains("payload"));
    let parts: Vec<&str> = blob.splitn(2, ':').collect();
    assert_eq!(parts.len(), 2);
    assert!(!parts[0].is_empty());
    assert!(!parts[1].is_empty());
}

#[test]
fn test_encrypt_draws_fresh_nonces() {
    let key = [2u8; 32];
    let first = encrypt(&key, "same plaintext");
    let second = encrypt(&key, "same plaintext");
    // a fresh random nonce per call keeps equal plaintexts apart
    assert_ne!(first, second);
}

#[test]
fn test_decrypt_with_wrong_key_fails() {
    let key = [3u8; 32];
    let other = [4u8; 32];
    let blob = encrypt(&key, "secret seed");
    match decrypt(&other, blob.as_str()) {
        Err(ApplicationError::Unauthorized) => {}
        other => panic!("expected an unauthorized failure, got {:?}", other),
    }
}

#[test]
fn test_decrypt_rejects_malformed_blobs() {
    let key = [5u8; 32];
    assert!(decrypt(&key, "no colon at all").is_err());
    assert!(decrypt(&key, "###:###").is_err());
    assert!(decrypt(&key, "QUJD:QUJD").is_err());
    let blob = encrypt(&key, "payload");
    let mut tampered = blob.clone();
    tampered.push('A');
    assert!(decrypt(&key, tampered.as_str()).is_err());
}
