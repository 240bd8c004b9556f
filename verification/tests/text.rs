use inr::error::VaultError;
use inr::interactive::{new_password_fault, validate_number};
use inr::models::CmdVarKind;
use inr::name_map::NameMap;
use inr::number::{parses_as_float, parses_as_integer};
use inr::text::{decimal_of, lossy_text, signed_decimal_of, strict_text};

#[test]
fn floats_are_told_as_the_standard_library_tells_them() {
    let inputs = [
        "", "+", "-", ".", "1", "-1", "+1", "1.", ".5", "1.5", "-.5", "1e3", "1E3", "1e+3", "1e-3",
        "1e", "e3", ".e3", "1.e3", ".5e3", "1e3.5", "inf", "-inf", "+INF", "infinity", "Infinity",
        "nan", "NaN", "-nan", "infi", " 1", "1 ", "1_000", "0x10", "1.5.2", "--1", "+-1", "1f64",
        "\u{0661}", "1e999", "1e99999999999999999999999",
    ];
    for input in inputs {
        assert_eq!(parses_as_float(input), input.parse::<f64>().is_ok(), "{input:?}");
        assert_eq!(validate_number(input), input.parse::<f64>().is_ok(), "{input:?}");
    }
}

#[test]
fn integers_are_told_as_the_standard_library_tells_them() {
    let inputs = [
        "", "+", "-", "0", "-0", "+0", "1", "-1", "+1", "007", "1.0", "1e3", " 1", "1 ", "--1",
        "9223372036854775807", "9223372036854775808", "-9223372036854775808",
        "-9223372036854775809", "00000000000000000000000000000009", "99999999999999999999999999",
        "\u{0661}", "0x10",
    ];
    for input in inputs {
        assert_eq!(parses_as_integer(input), input.parse::<i64>().is_ok(), "{input:?}");
    }
}

#[test]
fn decimals_are_written_like_display() {
    for n in [0u64, 7, 10, 99, 100, 1234567890, u64::MAX] {
        assert_eq!(decimal_of(n), n.to_string());
    }
    for n in [0i64, 1, -1, -10, 42, i64::MAX, i64::MIN] {
        assert_eq!(signed_decimal_of(n), n.to_string());
    }
}

#[test]
fn short_passwords_are_refused() {
    assert_eq!(new_password_fault("1234567"), Some("Must be at least 8 characters."));
    assert_eq!(new_password_fault("12345678"), None);
    // Characters count, not bytes.
    assert_eq!(new_password_fault("\u{e9}\u{e9}\u{e9}\u{e9}"), Some("Must be at least 8 characters."));
}

#[test]
fn invalid_bytes_are_replaced_or_refused() {
    assert_eq!(lossy_text(b"caf\xc3\xa9"), "caf\u{e9}");
    assert_eq!(lossy_text(b"a\xffb"), "a\u{fffd}b");
    assert_eq!(strict_text(b"caf\xc3\xa9"), Some("caf\u{e9}".to_string()));
    assert_eq!(strict_text(b"a\xffb"), None);
}

#[test]
fn name_map_keeps_the_last_value() {
    let mut map = NameMap::new();
    assert!(map.is_empty());
    map.insert("host".to_string(), "a".to_string());
    map.insert("port".to_string(), "b".to_string());
    map.insert("host".to_string(), "c".to_string());
    assert_eq!(map.len(), 2);
    assert_eq!(map.get("host"), Some(&"c".to_string()));
    assert_eq!(map.get("port"), Some(&"b".to_string()));
    assert_eq!(map.get("user"), None);
    let copy = map.clone();
    assert_eq!(copy.pairs().len(), 2);
    assert_eq!(copy.get("host"), Some(&"c".to_string()));
}

#[test]
fn errors_read_well() {
    let name = "x".to_string();
    let cases = [
        (VaultError::UnknownCommandVariableKind(name.clone()), "unknown command variable kind: x"),
        (VaultError::UnknownEnvKind(name.clone()), "unknown env kind: x"),
        (
            VaultError::BracketedSecret(name.clone()),
            "secret variable 'x' cannot use bracket syntax [%s:x] - secrets are never inlined as literal text; use bare %s:x instead",
        ),
        (
            VaultError::ConflictingKinds {
                name: name.clone(),
                first: CmdVarKind::Text,
                second: CmdVarKind::Secret,
            },
            "variable 'x' used with conflicting kinds (text and secret)",
        ),
        (VaultError::VariableNotFound(name.clone()), "variable 'x' not found in template"),
        (VaultError::RngUnavailable, "OS RNG unavailable"),
        (VaultError::PasswordTooLong, "key derivation failed: password is too long"),
        (VaultError::EncryptionFailed, "encryption failed"),
        (VaultError::InvalidNonceLength, "invalid nonce length"),
        (VaultError::DecryptionFailed, "wrong password or corrupted data"),
        (VaultError::TransferTooShort, "not a valid inr transfer file (too short)"),
        (VaultError::NotATransferFile, "not an inr transfer file"),
        (VaultError::WrongTransferPassphrase, "wrong transfer passphrase or corrupted file"),
        (VaultError::SecretWithoutNonce(name.clone()), "secret env 'x' is missing its nonce"),
        (VaultError::SecretNotUtf8(name.clone()), "secret env 'x' is not valid UTF-8"),
        (
            VaultError::NotInitializedForImport,
            "inr is not initialized - run `inr i` first before importing secrets",
        ),
        (VaultError::NotInitialized, "inr is not initialized - run `inr i` first"),
        (VaultError::AlreadyInitialized(name.clone()), "inr is already initialized at x"),
        (VaultError::EmptyEnvName, "env name cannot be empty"),
        (
            VaultError::EnvExists { name: name.clone(), id: "id1".to_string() },
            "'x' already exists (id: id1)",
        ),
        (VaultError::ClipboardSecretWithoutNonce, "secret env is missing its nonce"),
        (VaultError::ClipboardSecretNotUtf8, "secret is not valid UTF-8"),
    ];
    for (error, report) in cases {
        assert_eq!(error.message(), report);
    }
}
