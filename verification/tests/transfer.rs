use inr::crypto::{derive_key, encrypt, random_salt, NONCE_LEN, SALT_LEN};
use inr::error::VaultError;
use inr::transfer::{decode, encode, frame, FORMAT_VERSION, HEADER_LEN};
use serde_json::Value;

fn text(value: &str) -> Value {
    Value::String(value.to_string())
}

fn object(fields: Vec<(&str, Value)>) -> Value {
    let mut map = serde_json::Map::new();
    for (name, value) in fields {
        map.insert(name.to_string(), value);
    }
    Value::Object(map)
}

fn sample_payload() -> Value {
    let command = object(vec![
        ("id", text("cmd1")),
        ("template", text("ssh %s:host")),
        ("description", text("connect")),
        ("created_at", text("2026-01-01T00:00:00Z")),
        ("updated_at", text("2026-01-01T00:00:00Z")),
        ("variable_defaults", object(vec![("host", text("prod-host"))])),
    ]);
    let env = object(vec![
        ("id", text("env1")),
        ("name", text("apikey")),
        ("kind", text("secret")),
        ("value", text("sk-super-secret")),
        ("description", text("api key")),
        ("created_at", text("2026-01-01T00:00:00Z")),
        ("updated_at", text("2026-01-01T00:00:00Z")),
    ]);
    object(vec![
        ("exported_at", text("2026-01-01T00:00:00Z")),
        ("commands", Value::Array(vec![command])),
        ("envs", Value::Array(vec![env])),
    ])
}

fn decoded_payload(bytes: &[u8], passphrase: &str) -> Value {
    let plain = decode(bytes, passphrase).unwrap();
    serde_json::from_slice(plain.as_slice()).unwrap()
}

#[test]
fn encode_decode_roundtrip() {
    let payload = sample_payload();
    let json = serde_json::to_vec(&payload).unwrap();
    let bytes = encode(&json, "correct horse battery staple").unwrap();
    let decoded = decoded_payload(&bytes, "correct horse battery staple");
    assert_eq!(decoded["commands"][0]["template"], payload["commands"][0]["template"]);
    assert_eq!(decoded["envs"][0]["value"], payload["envs"][0]["value"]);
}

#[test]
fn encode_decode_roundtrips_variable_defaults() {
    let json = serde_json::to_vec(&sample_payload()).unwrap();
    let bytes = encode(&json, "correct horse battery staple").unwrap();
    let decoded = decoded_payload(&bytes, "correct horse battery staple");
    assert_eq!(decoded["commands"][0]["variable_defaults"].get("host"), Some(&text("prod-host")));
}

#[test]
fn decode_rejects_wrong_passphrase() {
    let json = serde_json::to_vec(&sample_payload()).unwrap();
    let bytes = encode(&json, "correct passphrase").unwrap();
    let err = decode(&bytes, "wrong passphrase").err().unwrap();
    assert!(err.message().contains("wrong transfer passphrase"));
}

#[test]
fn decode_rejects_non_inr_file() {
    let bytes = vec![0u8; 64];
    let err = decode(&bytes, "whatever").err().unwrap();
    assert!(err.message().contains("not an inr transfer file"));
}

#[test]
fn decode_rejects_truncated_file() {
    let err = decode(b"short", "whatever").err().unwrap();
    assert!(err.message().contains("too short"));
}

#[test]
fn decode_rejects_another_version() {
    let mut bytes = encode(b"{}", "pw").unwrap();
    bytes[4] = 9;
    let err = decode(&bytes, "pw").err().unwrap();
    assert_eq!(err, VaultError::UnsupportedTransferVersion(9));
    assert_eq!(
        err.message(),
        "unsupported transfer file version 9 (this inr supports version 1)"
    );
}

#[test]
fn file_layout_is_magic_version_salt_nonce_ciphertext() {
    let salt = [2u8; SALT_LEN];
    let nonce = [3u8; NONCE_LEN];
    let bytes = frame(&salt, &nonce, &[4, 5]);
    assert_eq!(HEADER_LEN, 33);
    assert_eq!(FORMAT_VERSION, 1);
    assert_eq!(bytes.len(), 35);
    assert_eq!(&bytes[..4], b"INRX");
    assert_eq!(bytes[4], 1);
    assert_eq!(&bytes[5..21], &salt);
    assert_eq!(&bytes[21..33], &nonce);
    assert_eq!(&bytes[33..], &[4, 5]);
}

#[test]
fn framed_ciphertext_is_decoded() {
    let salt = random_salt().unwrap();
    let key = derive_key("pw", &salt).unwrap();
    let (nonce, ciphertext) = encrypt(&key, b"payload").unwrap();
    let bytes = frame(&salt, &nonce, &ciphertext);
    assert_eq!(decode(&bytes, "pw").unwrap().as_slice(), b"payload");
}

#[test]
fn encoded_file_hides_the_payload() {
    let bytes = encode(b"sk-super-secret", "pw").unwrap();
    assert!(!bytes.windows(15).any(|w| w == b"sk-super-secret"));
}

#[test]
fn a_cut_file_is_refused() {
    let bytes = encode(b"payload", "pw").unwrap();
    assert_eq!(bytes.len(), HEADER_LEN + 7 + 16);
    for n in 0..HEADER_LEN {
        assert_eq!(decode(&bytes[..n], "pw").err(), Some(VaultError::TransferTooShort));
    }
    for n in [HEADER_LEN, HEADER_LEN + 15, bytes.len() - 1] {
        assert_eq!(decode(&bytes[..n], "pw").err(), Some(VaultError::WrongTransferPassphrase));
    }
    assert_eq!(decode(&bytes, "pw").unwrap().as_slice(), b"payload");
}
