use nozy::addresses::{AddressManager, NetworkType, ZcashAddressType, ZcashAddressWrapper};
use nozy::error::NozyError;
use nozy::hd_wallet::HDWallet;

const PHRASE: &str =
    "abandon abandon abandon abandon abandon abandon abandon abandon abandon abandon abandon about";

fn wallet() -> HDWallet {
    let mut w = HDWallet::default();
    w.seed_phrase = Some(PHRASE.to_string());
    w
}

fn expected(tag: &[u8], prefix: &str, counter: u32, network: &[u8]) -> String {
    let seed = bip39::Mnemonic::parse_normalized(PHRASE).unwrap().to_seed("");
    let mut msg = tag.to_vec();
    msg.extend_from_slice(&seed);
    msg.extend_from_slice(&counter.to_le_bytes());
    msg.extend_from_slice(network);
    let h = blake2b_simd::Params::new().hash_length(32).hash(&msg);
    format!("{}{}", prefix, hex::encode(&h.as_bytes()[..28]))
}

#[test]
fn issued_addresses_follow_seed_and_counter() {
    let mut m = AddressManager::new(wallet(), NetworkType::Testnet);
    let a = m.generate_orchard_address("pw").unwrap();
    let b = m.generate_orchard_address("pw").unwrap();
    let s = m.generate_sapling_address("pw").unwrap();
    let u = m.generate_unified_address("pw").unwrap();
    assert_eq!(a.address, expected(b"Orchard_Address", "u", 0, b"testnet"));
    assert_eq!(b.address, expected(b"Orchard_Address", "u", 1, b"testnet"));
    assert_eq!(s.address, expected(b"Sapling_Address", "z", 0, b"testnet"));
    assert_eq!(u.address, expected(b"Unified_Address", "u", 0, b"testnet"));
    assert_eq!(b.derivation_path, "m/44'/133'/0'/0/1");
    assert_eq!(m.get_address_count(&ZcashAddressType::Orchard), 2);
    assert_eq!(m.get_address_count(&ZcashAddressType::Sapling), 1);
    assert_eq!(m.get_all_addresses().len(), 4);
    assert_eq!(m.get_addresses_by_type(&ZcashAddressType::Orchard).len(), 2);
    assert_eq!(m.find_address(&s.address), Some(&s));
    assert!(m.validate_address(&a.address));
    assert_eq!(m.get_network(), NetworkType::Testnet);
}

#[test]
fn issuing_needs_a_valid_seed() {
    let mut m = AddressManager::new(HDWallet::default(), NetworkType::Mainnet);
    assert!(matches!(m.generate_orchard_address("pw"), Err(NozyError::InvalidOperation(_))));
    let mut w = HDWallet::default();
    w.seed_phrase = Some("not a mnemonic".to_string());
    let mut m = AddressManager::new(w, NetworkType::Mainnet);
    assert!(m.generate_sapling_address("pw").is_err());
    assert_eq!(m.get_address_count(&ZcashAddressType::Sapling), 0);
}

#[test]
fn import_checks_address_format() {
    let mut m = AddressManager::new(HDWallet::default(), NetworkType::Mainnet);
    let good = format!("z{}", "ab".repeat(30));
    let w = ZcashAddressWrapper::new(good.clone(), ZcashAddressType::Sapling, "m".to_string(), NetworkType::Mainnet);
    assert!(w.validate_address(&good));
    m.import_address(w).unwrap();
    assert!(m.find_address(&good).is_some());
    for bad in [
        format!("x{}", "ab".repeat(30)),
        format!("z{}", "ab".repeat(10)),
        format!("z{}", "ab".repeat(40)),
        format!("z{}g", "ab".repeat(30)),
        format!("u{}a", "ab".repeat(30)),
    ] {
        let w = ZcashAddressWrapper::new(bad.clone(), ZcashAddressType::Unified, "m".to_string(), NetworkType::Mainnet);
        assert!(matches!(m.import_address(w), Err(NozyError::InvalidOperation(_))));
    }
    assert!(m.validate_address(&format!("u{}", "AB".repeat(30))));
    assert_eq!(m.get_all_addresses().len(), 1);
}

#[test]
fn seed_bytes_and_child_keys() {
    let w = wallet();
    let seed = w.get_seed_bytes("pw").unwrap();
    assert_eq!(seed, bip39::Mnemonic::parse_normalized(PHRASE).unwrap().to_seed("").to_vec());
    let child = w.derive_child_key("m/44'/133'/0'/0/0", "pw").unwrap();
    let mut msg = seed.clone();
    msg.extend_from_slice(b"m/44'/133'/0'/0/0");
    assert_eq!(child, <sha2::Sha256 as sha2::Digest>::digest(&msg).to_vec());
    assert!(w.derive_child_key("q/1", "pw").is_err());
    assert!(HDWallet::default().get_seed_bytes("pw").is_err());
}

#[test]
fn network_names() {
    assert_eq!(NetworkType::Mainnet.as_str(), "mainnet");
    assert_eq!(NetworkType::Testnet.as_str(), "testnet");
}

#[test]
fn derivation_path_rules() {
    let w = wallet();
    assert!(w.derive_child_key("m", "pw").is_ok());
    assert!(w.derive_child_key("m/44h/133'/0/+7", "pw").is_ok());
    assert!(w.derive_child_key("m/2147483647'", "pw").is_ok());
    assert!(w.derive_child_key("m/2147483648", "pw").is_err());
    assert!(w.derive_child_key("m/", "pw").is_err());
    assert!(w.derive_child_key("m/x", "pw").is_err());
    assert!(w.derive_child_key("", "pw").is_err());
}
