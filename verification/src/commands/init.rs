//! `inr i`: setting up the vault.

use vstd::prelude::*;

use crate::crypto::{create_canary, derive_key, random_salt};
#[allow(unused_imports)]
use crate::crypto::{aes_gcm_sealed, canary_plaintext, key_for, password_fits, unlocks};
use crate::db::Config;
use crate::error::VaultError;
use crate::text::copy_bytes;

verus! {

broadcast use vstd::array::group_array_axioms;

/// Sets up a vault for a master password: a fresh salt, and a canary under the
/// key for the password. The password then unlocks the vault.
pub fn set_up(password: &str) -> (r: Result<Config, VaultError>)
    ensures
        match r {
            Ok(cfg) => {
                &&& unlocks(password@, cfg.kdf_salt@, cfg.canary_nonce@, cfg.canary_cipher@)
                &&& cfg.canary_cipher@ == aes_gcm_sealed(
                    key_for(password@, cfg.kdf_salt@),
                    cfg.canary_nonce@,
                    canary_plaintext(),
                )
            },
            Err(VaultError::RngUnavailable) => true,
            Err(VaultError::PasswordTooLong) => !password_fits(password@),
            Err(_) => false,
        },
{
    let salt = match random_salt() {
        Ok(salt) => salt,
        Err(e) => {
            return Err(e);
        },
    };
    let key = match derive_key(password, &salt) {
        Ok(key) => key,
        Err(e) => {
            return Err(e);
        },
    };
    match create_canary(&key) {
        Ok((nonce, cipher)) => Ok(
            Config {
                kdf_salt: copy_bytes(salt.as_slice()),
                canary_nonce: copy_bytes(nonce.as_slice()),
                canary_cipher: cipher,
            },
        ),
        Err(e) => Err(e),
    }
}

} // verus!
