use nanorp::crypto::{decrypt, encrypt, is_encrypted, CryptoError, KeySlot};
use nanorp::models::{NewProvider, ProviderType};
use nanorp::provider_store::{merge_provider, new_provider_fields, open_key, seal_key, UpdateProvider};

const TEST_KEY: [u8; 32] = [42; 32];

#[test]
fn round_trip() {
    let stored = encrypt("sk-super-secret", &TEST_KEY).unwrap();
    assert!(is_encrypted(&stored));
    assert!(!stored.contains("sk-super-secret"));
    assert_eq!(decrypt(&stored, &TEST_KEY).unwrap(), "sk-super-secret");
}

#[test]
fn same_plaintext_produces_different_ciphertexts() {
    let a = encrypt("secret", &TEST_KEY).unwrap();
    let b = encrypt("secret", &TEST_KEY).unwrap();
    assert_ne!(a, b, "nonces must be random");
}

#[test]
fn wrong_key_fails() {
    let stored = encrypt("secret", &TEST_KEY).unwrap();
    let other_key = [7u8; 32];
    assert!(decrypt(&stored, &other_key).is_err());
}

#[test]
fn tampered_ciphertext_fails() {
    let stored = encrypt("secret", &TEST_KEY).unwrap();
    let mut tampered = stored.into_bytes();
    let last = tampered.len() - 1;
    tampered[last] = if tampered[last] == b'A' { b'B' } else { b'A' };
    let tampered = String::from_utf8(tampered).unwrap();
    assert!(decrypt(&tampered, &TEST_KEY).is_err());
}

#[test]
fn non_encrypted_input_is_rejected() {
    assert!(decrypt("not-an-encrypted-value", &TEST_KEY).is_err());
}

#[test]
fn decrypt_reports_each_failure() {
    assert_eq!(decrypt("plain", &TEST_KEY), Err(CryptoError::NotEncrypted));
    assert_eq!(decrypt("enc:v1:***", &TEST_KEY), Err(CryptoError::InvalidEncoding));
    assert_eq!(decrypt("enc:v1:AAAA", &TEST_KEY), Err(CryptoError::TooShort));
    let stored = encrypt("secret", &TEST_KEY).unwrap();
    assert_eq!(decrypt(&stored, &[1; 32]), Err(CryptoError::DecryptionFailed));
    assert!(stored.starts_with("enc:v1:"));
    assert_eq!(encrypt("", &TEST_KEY).map(|s| decrypt(&s, &TEST_KEY)), Ok(Ok(String::new())));
}

#[test]
fn key_slot_is_set_once() {
    let mut slot = KeySlot::new();
    assert_eq!(slot.get(), None);
    assert!(slot.set_test_key([9; 32]));
    assert!(!slot.set_test_key([8; 32]));
    assert_eq!(slot.get(), Some([9; 32]));
    assert_eq!(slot.get_or_init([1; 32]), [9; 32]);
    let mut fresh = KeySlot::new();
    assert_eq!(fresh.get_or_init([1; 32]), [1; 32]);
    assert_eq!(fresh.get(), Some([1; 32]));
}

fn new_provider(name: &str, api_key: Option<&str>) -> NewProvider {
    NewProvider {
        name: name.to_string(),
        provider_type: ProviderType::OpenAiCompatible,
        api_url: "https://api.example.com/".to_string(),
        api_key: api_key.map(str::to_string),
        is_default: false,
    }
}

const PROVIDER_KEY: [u8; 32] = [9; 32];

#[test]
fn api_key_is_encrypted_at_rest_and_decrypted_on_read() {
    let created = new_provider_fields(&new_provider("OpenAI", Some("sk-secret-123")), &PROVIDER_KEY).unwrap();
    assert_eq!(created.api_url, "https://api.example.com");

    let stored = created.api_key.clone().unwrap();
    assert!(is_encrypted(&stored));
    assert!(!stored.contains("sk-secret-123"));

    assert_eq!(open_key(created.api_key, &PROVIDER_KEY).as_deref(), Some("sk-secret-123"));
}

fn update(name: Option<&str>, api_key: Option<Option<&str>>) -> UpdateProvider {
    UpdateProvider {
        id: 1,
        name: name.map(str::to_string),
        provider_type: None,
        api_url: None,
        api_key: api_key.map(|k| k.map(str::to_string)),
        is_default: None,
    }
}

#[test]
fn update_without_key_change_keeps_existing_key() {
    let created = new_provider_fields(&new_provider("P", Some("sk-original")), &PROVIDER_KEY).unwrap();
    let before = created.api_key.clone();
    let updated = merge_provider(created, &update(Some("Renamed"), None), &PROVIDER_KEY).unwrap();

    assert_eq!(updated.name, "Renamed");
    assert_eq!(updated.api_key, before);
    let stored = updated.api_key.clone().unwrap();
    assert!(is_encrypted(&stored));
    assert_eq!(decrypt(&stored, &PROVIDER_KEY).unwrap(), "sk-original");
}

#[test]
fn update_with_new_key_re_encrypts() {
    let created = new_provider_fields(&new_provider("P", Some("sk-old")), &PROVIDER_KEY).unwrap();
    let updated = merge_provider(created, &update(None, Some(Some("sk-new"))), &PROVIDER_KEY).unwrap();
    assert_eq!(open_key(updated.api_key.clone(), &PROVIDER_KEY).as_deref(), Some("sk-new"));
    let stored = updated.api_key.unwrap();
    assert_eq!(decrypt(&stored, &PROVIDER_KEY).unwrap(), "sk-new");
}

#[test]
fn empty_or_cleared_keys_are_not_stored() {
    assert_eq!(seal_key(Some(String::new()), &PROVIDER_KEY), Ok(None));
    assert_eq!(seal_key(None, &PROVIDER_KEY), Ok(None));
    let created = new_provider_fields(&new_provider("P", Some("sk")), &PROVIDER_KEY).unwrap();
    let cleared = merge_provider(created.clone(), &update(None, Some(None)), &PROVIDER_KEY).unwrap();
    assert_eq!(cleared.api_key, None);
    let emptied = merge_provider(created, &update(None, Some(Some(""))), &PROVIDER_KEY).unwrap();
    assert_eq!(emptied.api_key, None);
}

#[test]
fn unreadable_keys_read_as_missing() {
    assert_eq!(open_key(Some("plain".to_string()), &PROVIDER_KEY), None);
    let sealed = seal_key(Some("sk".to_string()), &PROVIDER_KEY).unwrap();
    assert_eq!(open_key(sealed, &[0; 32]), None);
    assert_eq!(open_key(None, &PROVIDER_KEY), None);
}
