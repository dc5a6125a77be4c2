//! Sealing of stored data: a key stretched from the storage key and a
//! fresh salt, and AES-256-GCM under a fresh nonce. Files themselves are
//! read and written by the caller.
use vstd::prelude::*;
use crate::crypto::{
    aes_gcm_decrypt, aes_gcm_encrypt, AES_GCM_MAX_PLAINTEXT, aes_gcm_open_of, pbkdf2_sha256, pbkdf2_sha256_of,
    random_12_bytes, random_32_bytes,
};
use crate::error::{NozyError, NozyResult};

verus! {

/// Stretching rounds for file keys.
pub const FILE_KEY_ROUNDS: u32 = 10_000;

/// A sealed file: ciphertext, nonce, salt and format version.
#[derive(Debug, Clone)]
pub struct EncryptedFile {
    pub encrypted_data: Vec<u8>,
    pub nonce: Vec<u8>,
    pub salt: Vec<u8>,
    pub version: u32,
}

/// What opening a sealed file under `key` recovers: nothing where the
/// nonce is malformed or authentication fails.
pub open spec fn file_plaintext(
    encrypted_data: Seq<u8>,
    nonce: Seq<u8>,
    salt: Seq<u8>,
    key: Seq<u8>,
) -> Option<Seq<u8>> {
    if nonce.len() == 12 {
        aes_gcm_open_of(pbkdf2_sha256_of(key, salt, FILE_KEY_ROUNDS), nonce, encrypted_data)
    } else {
        None
    }
}

/// Stretching rounds for the storage key.
pub const STORAGE_KEY_ROUNDS: u32 = 100_000;

/// A storage key stretched from `password` with a fresh 32-byte salt.
pub fn derive_storage_key(password: &str) -> (r: Vec<u8>)
    ensures
        r@.len() == 32,
        exists|salt: Seq<u8>|
            salt.len() == 32 && r@ == #[trigger] pbkdf2_sha256_of(
                vstd::utf8::encode_utf8(password@),
                salt,
                STORAGE_KEY_ROUNDS,
            ),
{
    let salt = random_32_bytes();
    let key = pbkdf2_sha256(password.as_bytes(), salt.as_slice(), STORAGE_KEY_ROUNDS);
    assert(key@ == pbkdf2_sha256_of(vstd::utf8::encode_utf8(password@), salt@, STORAGE_KEY_ROUNDS));
    key
}

/// Seals `data` under `key` with a fresh salt and nonce. What is sealed
/// opens again to `data` under the same key.
pub fn encrypt_data(data: &[u8], key: &[u8]) -> (r: NozyResult<EncryptedFile>)
    ensures
        r is Ok <==> data@.len() <= AES_GCM_MAX_PLAINTEXT,
        r matches Ok(f) ==> f.version == 1 && f.salt@.len() == 32 && f.nonce@.len() == 12
            && file_plaintext(f.encrypted_data@, f.nonce@, f.salt@, key@) == Some(data@),
        r matches Err(e) ==> e is InvalidOperation,
{
    let salt = random_32_bytes();
    let nonce = random_12_bytes();
    let derived = pbkdf2_sha256(key, salt.as_slice(), FILE_KEY_ROUNDS);
    if data.len() as u64 > AES_GCM_MAX_PLAINTEXT {
        return Err(NozyError::InvalidOperation(String::from_str("File encryption failed")));
    }
    match aes_gcm_encrypt(derived.as_slice(), nonce.as_slice(), data) {
        Some(encrypted_data) => Ok(EncryptedFile { encrypted_data, nonce, salt, version: 1 }),
        None => Err(NozyError::InvalidOperation(String::from_str("File encryption failed"))),
    }
}

/// Opens a sealed file under `key`; fails where it does not authenticate.
pub fn decrypt_data(encrypted_file: &EncryptedFile, key: &[u8]) -> (r: NozyResult<Vec<u8>>)
    ensures
        r is Ok <==> file_plaintext(
            encrypted_file.encrypted_data@,
            encrypted_file.nonce@,
            encrypted_file.salt@,
            key@,
        ) is Some,
        r matches Ok(p) ==> Some(p@) == file_plaintext(
            encrypted_file.encrypted_data@,
            encrypted_file.nonce@,
            encrypted_file.salt@,
            key@,
        ),
        r matches Err(e) ==> e is InvalidOperation,
{
    if encrypted_file.nonce.len() != 12 {
        return Err(NozyError::InvalidOperation(String::from_str("Invalid nonce length")));
    }
    let derived = pbkdf2_sha256(key, encrypted_file.salt.as_slice(), FILE_KEY_ROUNDS);
    match aes_gcm_decrypt(
        derived.as_slice(),
        encrypted_file.nonce.as_slice(),
        encrypted_file.encrypted_data.as_slice(),
    ) {
        Some(p) => Ok(p),
        None => Err(NozyError::InvalidOperation(String::from_str("File decryption failed"))),
    }
}

} // verus!
