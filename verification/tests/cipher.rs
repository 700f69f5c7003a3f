use auth_core::cipher::{decrypt_field, encrypt_field};
use auth_core::errors::DecryptionError;
use base64::Engine;

const NOW: u64 = 1_700_000_000;

fn fresh_key() -> String {
    fernet::Fernet::generate_key()
}

#[test]
fn encrypt_then_decrypt_round_trips() {
    let key = fresh_key();
    for plain in [
        "hello world",
        "",
        "with:colon",
        "with-dash",
        "a:b-c:d",
        "uńïcødé ✓",
        "line\nbreak\tand tab",
    ] {
        let stored = encrypt_field(&key, plain, NOW).unwrap();
        let back = decrypt_field(&key, &stored, NOW).unwrap();
        assert_eq!(back, plain);
    }
}

#[test]
fn decrypt_works_at_later_clock_readings() {
    let key = fresh_key();
    let stored = encrypt_field(&key, "durable", NOW, ).unwrap();
    assert_eq!(decrypt_field(&key, &stored, NOW + 10_000_000).unwrap(), "durable");
}

#[test]
fn ciphertext_differs_from_plaintext() {
    let key = fresh_key();
    let stored = encrypt_field(&key, "secret-value", NOW).unwrap();
    assert_ne!(stored, "secret-value");
    // a fresh nonce goes into every token, so even equal plaintexts differ
    let again = encrypt_field(&key, "secret-value", NOW).unwrap();
    assert_ne!(stored, again);
}

#[test]
fn wrong_key_fails_decryption() {
    let key1 = fresh_key();
    let key2 = fresh_key();
    assert_ne!(key1, key2);
    let stored = encrypt_field(&key1, "for key one only", NOW).unwrap();
    let r = decrypt_field(&key2, &stored, NOW);
    assert!(matches!(r, Err(DecryptionError::Decryption)));
}

#[test]
fn invalid_key_encrypts_nothing() {
    assert!(encrypt_field("not a key", "value", NOW).is_none());
    assert!(encrypt_field("", "value", NOW).is_none());
}

#[test]
fn malformed_base64_is_an_encoding_error() {
    let key = fresh_key();
    let r = decrypt_field(&key, "###not-base64###", NOW);
    assert!(matches!(r, Err(DecryptionError::Encoding)));
}

#[test]
fn non_utf8_payload_is_a_utf8_error() {
    let key = fresh_key();
    let stored = base64::engine::general_purpose::STANDARD.encode([0xffu8, 0xfe, 0xfd]);
    let r = decrypt_field(&key, &stored, NOW);
    assert!(matches!(r, Err(DecryptionError::Utf8)));
}

#[test]
fn garbled_token_is_a_decryption_error() {
    let key = fresh_key();
    let stored = base64::engine::general_purpose::STANDARD.encode("not a fernet token".as_bytes());
    let r = decrypt_field(&key, &stored, NOW);
    assert!(matches!(r, Err(DecryptionError::Decryption)));
}
