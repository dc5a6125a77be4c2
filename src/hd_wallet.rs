//! The wallet's seed record: the mnemonic phrase and its fingerprint, the
//! BIP-39 seed and BIP-32 master key drawn from it, the master key sealed
//! under a password, and the change address.
use vstd::prelude::*;
use vstd::utf8::encode_utf8;
use std::collections::HashMap;
use crate::crypto::{
    aes_gcm_decrypt, aes_gcm_encrypt, aes_gcm_open_of, AES_GCM_MAX_PLAINTEXT, append_bytes, bip32_master_key,
    bip32_master_of, bip32_path_valid,
    bip32_child_public_key, bip32_child_public_of, bip39_phrase_of, bip39_seed_of, derivation_path_parses, mnemonic_from_entropy, random_16_bytes, hex_encode, hex_of, mnemonic_seed, pbkdf2_sha256,
    pbkdf2_sha256_of, random_12_bytes, random_32_bytes, sha256_digest, sha256_of,
};
use crate::error::{NozyError, NozyResult};

verus! {

#[derive(Debug, Clone, Copy, PartialEq, Eq, Structural)]
pub enum AddressType {
    Orchard,
    Sapling,
    Unified,
}

/// A master key sealed under a password.
#[derive(Debug, Clone)]
pub struct EncryptedKey {
    pub encrypted_data: Vec<u8>,
    pub nonce: Vec<u8>,
    pub salt: Vec<u8>,
}

#[derive(Debug, Clone)]
pub struct DerivedAddress {
    pub path: String,
    pub address_type: AddressType,
    pub address: String,
}

#[derive(Debug, Clone)]
pub struct HDWallet {
    pub seed_phrase: Option<String>,
    /// Hex of the SHA-256 digest of the seed phrase.
    pub seed_hash: Option<String>,
    pub encrypted_master_key: Option<EncryptedKey>,
    pub derived_addresses: HashMap<String, DerivedAddress>,
    pub network: String,
}

/// The fingerprint kept of a seed phrase: hex of the SHA-256 digest of its
/// UTF-8 bytes.
pub open spec fn seed_fingerprint(phrase: Seq<char>) -> Seq<char> {
    hex_of(sha256_of(encode_utf8(phrase)))
}

/// The change address: "o" and hex of the first sixteen bytes of the
/// SHA-256 digest of the change derivation path.
pub open spec fn change_address() -> Seq<char> {
    "o"@ + hex_of(sha256_of(encode_utf8("m/44'/133'/0'/1/0"@)).subrange(0, 16))
}

/// The fingerprint of a seed phrase.
pub fn hash_seed(seed_phrase: &str) -> (r: String)
    ensures
        r@ == seed_fingerprint(seed_phrase@),
{
    hex_encode(sha256_digest(seed_phrase.as_bytes()).as_slice())
}

impl HDWallet {
    /// Whether `seed_phrase` is the phrase whose fingerprint the wallet
    /// keeps; false where it keeps none.
    pub fn verify_seed(&self, seed_phrase: &str) -> (r: bool)
        ensures
            r == (self.seed_hash matches Some(h) && h@ == seed_fingerprint(seed_phrase@)),
    {
        match &self.seed_hash {
            Some(stored) => {
                let input = hash_seed(seed_phrase);
                *stored == input
            },
            None => false,
        }
    }

    pub fn get_seed_phrase(&self) -> (r: Option<&String>)
        ensures
            r == match &self.seed_phrase {
                Some(p) => Some(p),
                None => None::<&String>,
            },
    {
        self.seed_phrase.as_ref()
    }

    pub fn get_seed_hash(&self) -> (r: Option<&String>)
        ensures
            r == match &self.seed_hash {
                Some(h) => Some(h),
                None => None::<&String>,
            },
    {
        self.seed_hash.as_ref()
    }

    pub fn get_derived_addresses(&self) -> (r: &HashMap<String, DerivedAddress>)
        ensures
            r == &self.derived_addresses,
    {
        &self.derived_addresses
    }

    /// The address that change is paid to.
    pub fn get_change_address(&self) -> (r: NozyResult<String>)
        ensures
            r matches Ok(a) && a@ == change_address(),
    {
        let path = "m/44'/133'/0'/1/0";
        let digest = sha256_digest(path.as_bytes());
        let mut head: Vec<u8> = Vec::new();
        let mut i: usize = 0;
        while i < 16
            invariant
                i <= 16,
                digest@.len() == 32,
                head@ == digest@.subrange(0, i as int),
            decreases 16 - i,
        {
            head.push(digest[i]);
            i = i + 1;
            assert(head@ =~= digest@.subrange(0, i as int));
        }
        let hex = hex_encode(head.as_slice());
        Ok(String::from_str("o").concat(hex.as_str()))
    }
}

/// The seed of a wallet: that of its mnemonic phrase, where it keeps a valid one.
pub open spec fn wallet_seed(w: &HDWallet) -> Option<Seq<u8>> {
    match w.seed_phrase {
        Some(p) => bip39_seed_of(p@),
        None => None,
    }
}

impl HDWallet {
    /// The BIP-39 seed of the wallet's mnemonic phrase. Fails where the
    /// wallet keeps no phrase or the phrase is not a valid mnemonic.
    pub fn get_seed_bytes(&self, password: &str) -> (r: NozyResult<Vec<u8>>)
        ensures
            r is Ok <==> wallet_seed(self) is Some,
            r matches Ok(s) ==> Some(s@) == wallet_seed(self) && s@.len() == 64,
            r matches Err(e) ==> e is InvalidOperation,
    {
        match &self.seed_phrase {
            None => Err(NozyError::InvalidOperation(String::from_str("No seed phrase found"))),
            Some(phrase) => match mnemonic_seed(phrase.as_str()) {
                Some(seed) => Ok(seed),
                None => Err(NozyError::InvalidOperation(String::from_str("invalid mnemonic"))),
            },
        }
    }

    /// The child key material for a derivation path: the SHA-256 digest of
    /// the seed followed by the path's text. Fails where the wallet has no
    /// valid seed or the path does not parse.
    pub fn derive_child_key(&self, derivation_path: &str, password: &str) -> (r: NozyResult<
        Vec<u8>,
    >)
        ensures
            r is Ok <==> wallet_seed(self) is Some && bip32_path_valid(derivation_path@),
            r matches Ok(k) ==> k@ == sha256_of(
                wallet_seed(self)->Some_0 + vstd::utf8::encode_utf8(derivation_path@),
            ),
    {
        let seed = match self.get_seed_bytes(password) {
            Ok(s) => s,
            Err(e) => {
                return Err(e);
            },
        };
        if !derivation_path_parses(derivation_path) {
            return Err(NozyError::InvalidOperation(String::from_str("Invalid derivation path")));
        }
        let mut msg = seed;
        append_bytes(&mut msg, derivation_path.as_bytes());
        Ok(sha256_digest(msg.as_slice()))
    }
}

/// Stretching rounds for the master-key password.
pub const MASTER_KEY_ROUNDS: u32 = 100_000;

/// The key that seals a master key: the password stretched with the salt.
pub open spec fn sealing_key(password: Seq<char>, salt: Seq<u8>) -> Seq<u8> {
    pbkdf2_sha256_of(encode_utf8(password), salt, MASTER_KEY_ROUNDS)
}

/// What opening a sealed master key with `password` recovers: nothing
/// where the nonce is malformed or authentication fails.
pub open spec fn opened_key(k: EncryptedKey, password: Seq<char>) -> Option<Seq<u8>> {
    if k.nonce@.len() == 12 {
        aes_gcm_open_of(sealing_key(password, k.salt@), k.nonce@, k.encrypted_data@)
    } else {
        None
    }
}

impl HDWallet {
    /// The 32-byte key that seals a master key under `password`.
    pub fn derive_encryption_key(password: &str, salt: &[u8]) -> (r: NozyResult<Vec<u8>>)
        ensures
            r matches Ok(k) && k@ == sealing_key(password@, salt@) && k@.len() == 32,
    {
        Ok(pbkdf2_sha256(password.as_bytes(), salt, MASTER_KEY_ROUNDS))
    }

    /// Seals key material under `password` with a fresh salt and nonce.
    /// What is sealed opens again to the same material with the same
    /// password.
    pub fn encrypt_key(key_data: &[u8], password: &str) -> (r: NozyResult<EncryptedKey>)
        ensures
            r is Ok <==> key_data@.len() <= AES_GCM_MAX_PLAINTEXT,
            r matches Ok(k) ==> k.salt@.len() == 32 && k.nonce@.len() == 12 && opened_key(
                k,
                password@,
            ) == Some(key_data@),
    {
        let salt = random_32_bytes();
        let nonce = random_12_bytes();
        let key = match Self::derive_encryption_key(password, salt.as_slice()) {
            Ok(k) => k,
            Err(e) => {
                return Err(e);
            },
        };
        if key_data.len() as u64 > AES_GCM_MAX_PLAINTEXT {
            return Err(NozyError::InvalidOperation(String::from_str("Encryption failed")));
        }
        match aes_gcm_encrypt(key.as_slice(), nonce.as_slice(), key_data) {
            Some(encrypted_data) => Ok(EncryptedKey { encrypted_data, nonce, salt }),
            None => Err(NozyError::InvalidOperation(String::from_str("Encryption failed"))),
        }
    }

    /// Opens a sealed master key with `password`; fails where it does not
    /// authenticate.
    pub fn decrypt_key(encrypted_key: &EncryptedKey, password: &str) -> (r: NozyResult<Vec<u8>>)
        ensures
            r is Ok <==> opened_key(*encrypted_key, password@) is Some,
            r matches Ok(p) ==> Some(p@) == opened_key(*encrypted_key, password@),
            r matches Err(e) ==> e is InvalidOperation,
    {
        if encrypted_key.nonce.len() != 12 {
            return Err(NozyError::InvalidOperation(String::from_str("Invalid nonce length")));
        }
        let key = match Self::derive_encryption_key(password, encrypted_key.salt.as_slice()) {
            Ok(k) => k,
            Err(e) => {
                return Err(e);
            },
        };
        match aes_gcm_decrypt(
            key.as_slice(),
            encrypted_key.nonce.as_slice(),
            encrypted_key.encrypted_data.as_slice(),
        ) {
            Some(p) => Ok(p),
            None => Err(NozyError::InvalidOperation(String::from_str("Decryption failed"))),
        }
    }

    /// A wallet restored from a mnemonic phrase: its BIP-32 master key is
    /// sealed under the password "default_password" and the phrase's fingerprint kept.
    /// Fails where the phrase is not a valid mnemonic, and where sealing
    /// fails.
    pub fn new_from_seed(seed_phrase: &str, network: &str) -> (r: NozyResult<HDWallet>)
        ensures
            r is Ok <==> (bip39_seed_of(seed_phrase@) matches Some(seed) && bip32_master_of(seed) is Some),
            r matches Ok(w) ==> {
                &&& w.seed_phrase matches Some(p) && p@ == seed_phrase@
                &&& w.seed_hash matches Some(h) && h@ == seed_fingerprint(seed_phrase@)
                &&& w.encrypted_master_key matches Some(k) && opened_key(k, "default_password"@)
                    == bip32_master_of(bip39_seed_of(seed_phrase@)->Some_0)
                &&& w.derived_addresses@.len() == 0
                &&& w.network@ == network@
            },
    {
        let seed = match mnemonic_seed(seed_phrase) {
            Some(s) => s,
            None => {
                return Err(NozyError::InvalidOperation(String::from_str("invalid mnemonic")));
            },
        };
        let master = match bip32_master_key(seed.as_slice()) {
            Some(k) => k,
            None => {
                return Err(NozyError::InvalidOperation(String::from_str("invalid master key")));
            },
        };
        let sealed = match Self::encrypt_key(master.as_slice(), "default_password") {
            Ok(k) => k,
            Err(e) => {
                return Err(e);
            },
        };
        Ok(
            HDWallet {
                seed_phrase: Some(String::from_str(seed_phrase)),
                seed_hash: Some(hash_seed(seed_phrase)),
                encrypted_master_key: Some(sealed),
                derived_addresses: HashMap::new(),
                network: String::from_str(network),
            },
        )
    }

    /// A fresh twelve-word mnemonic, from 128 bits of entropy.
    pub fn generate_seed() -> (r: NozyResult<String>)
        ensures
            r matches Ok(p) && exists|e: Seq<u8>|
                e.len() == 16 && #[trigger] bip39_phrase_of(e) == Some(p@),
    {
        let entropy = random_16_bytes();
        match mnemonic_from_entropy(entropy.as_slice()) {
            Some(p) => Ok(p),
            None => Err(NozyError::InvalidOperation(String::from_str("invalid entropy"))),
        }
    }

    /// The wallet's master key material, opened with `password`. Fails
    /// where the wallet keeps no sealed key or it does not open.
    pub fn master_key_bytes(&self, password: &str) -> (r: NozyResult<Vec<u8>>)
        ensures
            r is Ok <==> (self.encrypted_master_key matches Some(k) && opened_key(k, password@) is Some),
            r matches Ok(p) ==> Some(p@) == opened_key(self.encrypted_master_key->Some_0, password@),
            r matches Err(e) ==> e is InvalidOperation,
    {
        match &self.encrypted_master_key {
            Some(k) => Self::decrypt_key(k, password),
            None => Err(NozyError::InvalidOperation(String::from_str("No master key found"))),
        }
    }
}

/// The address kind hashed into a derived address, and its leading letter.
pub open spec fn address_kind(t: AddressType) -> (Seq<char>, Seq<char>) {
    match t {
        AddressType::Orchard => ("orchard"@, "o"@),
        AddressType::Sapling => ("sapling"@, "z"@),
        AddressType::Unified => ("unified"@, "u"@),
    }
}

/// The address of a public key: its leading letter, then hex of the first
/// sixteen bytes of the SHA-256 digest of the key followed by the kind.
pub open spec fn address_of_key(public_key: Seq<u8>, t: AddressType) -> Seq<char> {
    address_kind(t).1 + hex_of(
        sha256_of(public_key + encode_utf8(address_kind(t).0)).subrange(0, 16),
    )
}

impl HDWallet {
    /// The address of a public key, of the given type.
    pub fn generate_address_from_key(public_key: &[u8], address_type: AddressType) -> (r: String)
        ensures
            r@ == address_of_key(public_key@, address_type),
    {
        let (kind, prefix) = match address_type {
            AddressType::Orchard => ("orchard", "o"),
            AddressType::Sapling => ("sapling", "z"),
            AddressType::Unified => ("unified", "u"),
        };
        assert(kind@ == address_kind(address_type).0 && prefix@ == address_kind(address_type).1);
        let mut msg: Vec<u8> = Vec::new();
        append_bytes(&mut msg, public_key);
        append_bytes(&mut msg, kind.as_bytes());
        let digest = sha256_digest(msg.as_slice());
        let mut head: Vec<u8> = Vec::new();
        let mut i: usize = 0;
        while i < 16
            invariant
                i <= 16,
                digest@.len() == 32,
                head@ == digest@.subrange(0, i as int),
            decreases 16 - i,
        {
            head.push(digest[i]);
            i = i + 1;
            assert(head@ =~= digest@.subrange(0, i as int));
        }
        String::from_str(prefix).concat(hex_encode(head.as_slice()).as_str())
    }

    /// The address derived along `path` from the master key opened with the
    /// password "default_password". Fails where the key does not open or a
    /// derivation step is rejected.
    pub fn derive_fresh_address(&self, path: &str, address_type: AddressType) -> (r: NozyResult<
        DerivedAddress,
    >)
        ensures
            r is Ok <==> (self.encrypted_master_key matches Some(k) && opened_key(
                k,
                "default_password"@,
            ) matches Some(m) && bip32_child_public_of(m, path@) is Some),
            r matches Ok(a) ==> a.path@ == path@ && a.address_type == address_type && a.address@
                == address_of_key(
                bip32_child_public_of(
                    opened_key(self.encrypted_master_key->Some_0, "default_password"@)->Some_0,
                    path@,
                )->Some_0,
                address_type,
            ),
    {
        let material = match self.master_key_bytes("default_password") {
            Ok(m) => m,
            Err(e) => {
                return Err(e);
            },
        };
        let public_key = match bip32_child_public_key(material.as_slice(), path) {
            Some(k) => k,
            None => {
                return Err(NozyError::InvalidOperation(String::from_str("BIP32 derivation failed")));
            },
        };
        let address = Self::generate_address_from_key(public_key.as_slice(), address_type);
        Ok(DerivedAddress { path: String::from_str(path), address_type, address })
    }
}

impl Default for HDWallet {
    fn default() -> (r: Self)
        ensures
            r.seed_phrase is None,
            r.seed_hash is None,
            r.encrypted_master_key is None,
            r.derived_addresses@.len() == 0,
            r.network@ == "testnet"@,
    {
        HDWallet {
            seed_phrase: None,
            seed_hash: None,
            encrypted_master_key: None,
            derived_addresses: HashMap::new(),
            network: String::from_str("testnet"),
        }
    }
}

} // verus!
