use nozy::encrypted_storage::{decrypt_data, derive_storage_key, encrypt_data};
use nozy::hd_wallet::HDWallet;

#[test]
fn sealed_file_opens_with_the_same_key() {
    let key = vec![3u8; 32];
    let f = encrypt_data(b"wallet state", &key).unwrap();
    assert_eq!(f.version, 1);
    assert_eq!(f.salt.len(), 32);
    assert_eq!(f.nonce.len(), 12);
    assert_ne!(f.encrypted_data, b"wallet state".to_vec());
    assert_eq!(decrypt_data(&f, &key).unwrap(), b"wallet state".to_vec());
    assert!(decrypt_data(&f, &[4u8; 32]).is_err());
    let mut tampered = f.clone();
    tampered.encrypted_data[0] ^= 1;
    assert!(decrypt_data(&tampered, &key).is_err());
    let mut bad_nonce = f.clone();
    bad_nonce.nonce.pop();
    assert!(decrypt_data(&bad_nonce, &key).is_err());
}

#[test]
fn file_key_is_pbkdf2_of_storage_key() {
    let key = vec![9u8; 32];
    let f = encrypt_data(b"x", &key).unwrap();
    let mut derived = [0u8; 32];
    pbkdf2::pbkdf2::<hmac::Hmac<sha2::Sha256>>(&key, &f.salt, 10_000, &mut derived).unwrap();
    let cipher = <aes_gcm::Aes256Gcm as aes_gcm::KeyInit>::new(
        aes_gcm::Key::<aes_gcm::Aes256Gcm>::from_slice(&derived),
    );
    let plain = aes_gcm::aead::Aead::decrypt(
        &cipher,
        aes_gcm::Nonce::from_slice(&f.nonce),
        f.encrypted_data.as_slice(),
    )
    .unwrap();
    assert_eq!(plain, b"x".to_vec());
}

#[test]
fn master_key_opens_only_with_its_password() {
    let sealed = HDWallet::encrypt_key(&[5u8; 32], "pw").unwrap();
    assert_eq!(HDWallet::decrypt_key(&sealed, "pw").unwrap(), vec![5u8; 32]);
    assert!(HDWallet::decrypt_key(&sealed, "other").is_err());
    let mut w = HDWallet::default();
    assert!(w.master_key_bytes("pw").is_err());
    w.encrypted_master_key = Some(sealed);
    assert_eq!(w.master_key_bytes("pw").unwrap(), vec![5u8; 32]);
}

#[test]
fn storage_keys_are_salted() {
    let a = derive_storage_key("pw");
    let b = derive_storage_key("pw");
    assert_eq!(a.len(), 32);
    assert_ne!(a, b);
}

#[test]
fn restored_wallet_keeps_fingerprint_and_sealed_master_key() {
    let phrase =
        "abandon abandon abandon abandon abandon abandon abandon abandon abandon abandon abandon about";
    let w = HDWallet::new_from_seed(phrase, "testnet").unwrap();
    assert_eq!(w.seed_phrase.as_deref(), Some(phrase));
    assert!(w.verify_seed(phrase));
    assert_eq!(w.network, "testnet");
    let seed = bip39::Mnemonic::parse_normalized(phrase).unwrap().to_seed("");
    let master = bip32::XPrv::new(seed).unwrap().to_bytes().to_vec();
    assert_eq!(w.master_key_bytes("default_password").unwrap(), master);
    assert!(HDWallet::new_from_seed("abandon about", "testnet").is_err());
}

#[test]
fn generated_seeds_are_valid_twelve_word_mnemonics() {
    let a = HDWallet::generate_seed().unwrap();
    let b = HDWallet::generate_seed().unwrap();
    assert_eq!(a.split_whitespace().count(), 12);
    assert!(bip39::Mnemonic::parse_normalized(&a).is_ok());
    assert_ne!(a, b);
}

#[test]
fn fresh_addresses_follow_bip32_children() {
    let phrase =
        "abandon abandon abandon abandon abandon abandon abandon abandon abandon abandon abandon about";
    let w = HDWallet::new_from_seed(phrase, "testnet").unwrap();
    let a = w.derive_fresh_address("m/44'/133'/0'/0/0", nozy::hd_wallet::AddressType::Sapling).unwrap();
    let material = w.master_key_bytes("default_password").unwrap();
    let mut key = bip32::XPrv::new(&material).unwrap();
    let path: bip32::DerivationPath = "m/44'/133'/0'/0/0".parse().unwrap();
    for child in path.iter() {
        key = key.derive_child(child).unwrap();
    }
    let mut msg = key.public_key().to_bytes().to_vec();
    msg.extend_from_slice(b"sapling");
    let digest = <sha2::Sha256 as sha2::Digest>::digest(&msg);
    assert_eq!(a.address, format!("z{}", hex::encode(&digest[..16])));
    assert_eq!(a.path, "m/44'/133'/0'/0/0");
    assert!(w.derive_fresh_address("q/1", nozy::hd_wallet::AddressType::Orchard).is_err());
    assert!(HDWallet::default().derive_fresh_address("m/0", nozy::hd_wallet::AddressType::Orchard).is_err());
}
