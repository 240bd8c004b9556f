use inr::commands::init::set_up;
use inr::crypto::{
    create_canary, decrypt, derive_key, encrypt, encrypt_with_nonce, random_salt, unlock,
    verify_canary, NONCE_LEN, SALT_LEN,
};
use inr::error::VaultError;
use inr::secret::{SecretBytes, SecretText};

#[test]
fn canary_roundtrip_correct_password() {
    let salt = random_salt().unwrap();
    let key = derive_key("correct horse battery staple", &salt).unwrap();
    let (nonce, cipher) = create_canary(&key).unwrap();
    assert!(verify_canary(&key, &nonce, &cipher));
}

#[test]
fn canary_rejects_wrong_password() {
    let salt = random_salt().unwrap();
    let key = derive_key("correct horse battery staple", &salt).unwrap();
    let (nonce, cipher) = create_canary(&key).unwrap();

    let wrong_key = derive_key("incorrect horse", &salt).unwrap();
    assert!(!verify_canary(&wrong_key, &nonce, &cipher));
}

#[test]
fn encrypt_decrypt_roundtrip() {
    let salt = random_salt().unwrap();
    let key = derive_key("pw", &salt).unwrap();
    let (nonce, cipher) = encrypt(&key, b"top secret value").unwrap();
    let plain = decrypt(&key, &nonce, &cipher).unwrap();
    assert_eq!(plain.as_slice(), b"top secret value");
}

#[test]
fn decrypt_wrong_key_fails() {
    let salt = random_salt().unwrap();
    let key = derive_key("pw", &salt).unwrap();
    let (nonce, cipher) = encrypt(&key, b"top secret value").unwrap();

    let other_key = derive_key("other", &salt).unwrap();
    assert!(decrypt(&other_key, &nonce, &cipher).is_err());
}

#[test]
fn unlock_full_flow() {
    let salt = random_salt().unwrap();
    let key = derive_key("hunter2", &salt).unwrap();
    let (canary_nonce, canary_cipher) = create_canary(&key).unwrap();

    assert!(unlock("hunter2", &salt, &canary_nonce, &canary_cipher).is_ok());
    assert!(unlock("wrong", &salt, &canary_nonce, &canary_cipher).is_err());
}

#[test]
fn keys_depend_on_password_and_salt_alone() {
    let salt = [7u8; SALT_LEN];
    let nonce = [9u8; NONCE_LEN];
    let once = derive_key("pw", &salt).unwrap();
    let again = derive_key("pw", &salt).unwrap();
    let other_salt = derive_key("pw", &[8u8; SALT_LEN]).unwrap();
    let sealed = encrypt_with_nonce(&once, &nonce, b"x").unwrap();
    assert_eq!(sealed, encrypt_with_nonce(&again, &nonce, b"x").unwrap());
    assert_ne!(sealed, encrypt_with_nonce(&other_salt, &nonce, b"x").unwrap());
}

#[test]
fn ciphertext_differs_from_plaintext_and_carries_a_tag() {
    let key = derive_key("pw", &[1u8; SALT_LEN]).unwrap();
    let (nonce, cipher) = encrypt(&key, b"value").unwrap();
    assert_eq!(cipher.len(), 5 + 16);
    assert_ne!(&cipher[..5], b"value");
    assert_eq!(nonce.len(), NONCE_LEN);
}

#[test]
fn nonces_and_salts_are_not_reused() {
    let key = derive_key("pw", &[1u8; SALT_LEN]).unwrap();
    let (first, _) = encrypt(&key, b"v").unwrap();
    let (second, _) = encrypt(&key, b"v").unwrap();
    assert_ne!(first, second);
    assert_ne!(random_salt().unwrap(), random_salt().unwrap());
}

#[test]
fn decrypt_reports_what_is_wrong() {
    let key = derive_key("pw", &[1u8; SALT_LEN]).unwrap();
    let (nonce, cipher) = encrypt(&key, b"v").unwrap();
    assert_eq!(
        decrypt(&key, &nonce[..11], &cipher).err(),
        Some(VaultError::InvalidNonceLength)
    );
    assert_eq!(decrypt(&key, &nonce, &cipher[..3]).err(), Some(VaultError::DecryptionFailed));
    let mut tampered = cipher.clone();
    tampered[0] ^= 1;
    assert_eq!(decrypt(&key, &nonce, &tampered).err(), Some(VaultError::DecryptionFailed));
}

#[test]
fn unlock_reports_what_is_wrong() {
    let cfg = set_up("master password").unwrap();
    assert!(unlock("master password", &cfg.kdf_salt, &cfg.canary_nonce, &cfg.canary_cipher).is_ok());
    assert_eq!(
        unlock("other", &cfg.kdf_salt, &cfg.canary_nonce, &cfg.canary_cipher).err(),
        Some(VaultError::WrongPassword)
    );
    assert_eq!(
        unlock("master password", &cfg.kdf_salt[..15], &cfg.canary_nonce, &cfg.canary_cipher).err(),
        Some(VaultError::BadSaltLength)
    );
    assert_eq!(VaultError::BadSaltLength.message(), "stored salt has unexpected length");
    assert_eq!(VaultError::WrongPassword.message(), "wrong password");
}

#[test]
fn secrets_hand_out_what_they_hold() {
    let text = SecretText::new("sk".to_string());
    assert_eq!(text.clone().as_str(), "sk");
    assert_eq!(SecretBytes::new(vec![1, 2]).as_slice(), &[1, 2]);
}
