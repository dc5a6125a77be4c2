use nozy::addresses::{NetworkType, ZcashAddressType, ZcashAddressWrapper};
use nozy::config::{NozyConfig, PrivacyLevel};
use nozy::hd_wallet::HDWallet;
use nozy::notes::{NoteManager, NoteType};
use nozy::privacy::PrivacyEngine;
use nozy::storage::WalletStorage;
use nozy::transactions::{TransactionBuilder, TransactionStatus};
use nozy::zebra_integration::{IndexerNote, SyncStatus, ZebraClient, ZebraConfig};

#[test]
fn storage_stores_replaces_and_removes() {
    let mut s = WalletStorage::new();
    s.store("a", &[1, 2]).unwrap();
    s.store("b", &[3]).unwrap();
    s.store("a", &[9]).unwrap();
    assert_eq!(s.retrieve("a").unwrap(), Some(vec![9]));
    assert!(s.contains("b"));
    let mut keys = s.get_all_keys();
    keys.sort();
    assert_eq!(keys, vec!["a".to_string(), "b".to_string()]);
    s.remove("a").unwrap();
    assert_eq!(s.retrieve("a").unwrap(), None);
    assert!(!s.contains("a"));
    assert_eq!(s.get_all_keys(), vec!["b".to_string()]);
}

#[test]
fn config_levels() {
    let c = NozyConfig::new(PrivacyLevel::Balanced);
    assert_eq!(c.network.network, "mainnet");
    assert!(!c.privacy.enable_orchard);
    assert!(!c.privacy.enable_sapling);
    let d = NozyConfig::default();
    assert!(d.privacy.enable_orchard && d.privacy.enable_sapling);
    assert!(PrivacyEngine::new(&d).is_ok());
}

#[test]
fn builder_collects_inputs_and_outputs() {
    let mut b = TransactionBuilder::new(PrivacyLevel::High);
    assert!(b.add_input(note()).is_err());
    assert!(b.set_fee(3).is_err());
    assert!(b.finalize().is_err());
    b.start_transaction(None).unwrap();
    let n = note();
    b.add_input(n.clone()).unwrap();
    let addr = ZcashAddressWrapper::new(
        "u1x".to_string(),
        ZcashAddressType::Unified,
        "m/0".to_string(),
        NetworkType::Testnet,
    );
    b.add_output(addr.clone(), 42, NoteType::Orchard).unwrap();
    b.set_fee(7).unwrap();
    let current = b.get_current_transaction().unwrap();
    assert!(current.txid.starts_with("tx_"));
    assert!(current.txid[3..].parse::<i64>().is_ok());
    assert_eq!(current.privacy_level, PrivacyLevel::High);
    let tx = b.finalize().unwrap();
    assert_eq!(tx.status, TransactionStatus::Ready);
    assert_eq!(tx.inputs[0].nullifier, format!("null_{}", n.id));
    assert_eq!(tx.inputs[0].witness, format!("witness_{}", n.id));
    assert_eq!(tx.outputs[0].address, addr);
    assert_eq!(tx.outputs[0].amount, 42);
    assert_eq!(tx.fee, 7);
    assert!(b.get_current_transaction().is_none());
}

fn note() -> nozy::ShieldedNote {
    let mut m = NoteManager::new(&NozyConfig::default()).unwrap();
    m.create_note(5, "u1".to_string(), None, NoteType::Orchard, 1, None).unwrap()
}

#[test]
fn zebra_client_requires_connection() {
    let mut c = ZebraClient::new(ZebraConfig::default());
    assert!(matches!(c.get_block_by_height(3), Err(nozy::NozyError::Network(_))));
    assert!(c.estimate_fees(10).is_err());
    assert!(c.record_connection(false).is_err());
    assert!(c.record_connection(true).unwrap());
    assert_eq!(c.get_block_by_height(123).unwrap(), Some("block_123".to_string()));
    assert_eq!(c.get_transaction("ab").unwrap(), Some("tx_ab".to_string()));
    assert_eq!(c.broadcast_transaction(&[1]).unwrap(), "broadcast_success");
    assert_eq!(c.estimate_fees(10).unwrap(), 1000);
    assert!(c.wait_for_confirmation("ab", 1).unwrap());
    assert_eq!(c.get_network_status().unwrap(), "Network operational");
    assert_eq!(c.get_mempool_info().unwrap(), "Mempool status: normal");
    let s = c.status_from_blocks(Some(10)).unwrap();
    assert_eq!(s.sync_status, SyncStatus::Synced);
    assert_eq!(s.network, "testnet");
    assert_eq!(c.status_from_blocks(Some(0)).unwrap().sync_status, SyncStatus::Syncing);
    assert_eq!(c.status_from_blocks(None).unwrap().sync_status, SyncStatus::Error);
}

#[test]
fn seed_fingerprint_checks_the_phrase() {
    let mut w = HDWallet::default();
    assert!(!w.verify_seed("abandon"));
    let digest = <sha2::Sha256 as sha2::Digest>::digest(b"abandon about");
    w.seed_hash = Some(hex::encode(digest));
    assert!(w.verify_seed("abandon about"));
    assert!(!w.verify_seed("abandon abut"));
    assert_eq!(nozy::hd_wallet::hash_seed("abandon about"), hex::encode(digest));
}

#[test]
fn indexer_entries_become_notes() {
    let c = ZebraClient::new(ZebraConfig::default());
    let entry = IndexerNote {
        pool: Some("orchard".to_string()),
        value: Some(77),
        commitment: Some("0a0B".to_string()),
        nullifier: Some("zz".to_string()),
        memo: Some("hi".to_string()),
        txid: Some("ff".to_string()),
        height: Some(4294967297),
        position: Some(3),
        merkle_path: Some(vec!["01".to_string(), "x".to_string(), "0203".to_string()]),
    };
    let n = c.parse_note_from_indexer(&entry).unwrap().unwrap();
    assert_eq!(n.note_type, NoteType::Orchard);
    assert_eq!(n.value, 77);
    assert_eq!(n.commitment, vec![10, 11]);
    assert_eq!(n.nullifier, None);
    assert_eq!(n.memo, Some(b"hi".to_vec()));
    assert_eq!(n.tx_hash, Some(vec![255]));
    assert_eq!(n.created_at_height, 1);
    assert_eq!(n.position, Some(3));
    assert_eq!(n.merkle_path, Some(vec![vec![1], vec![2, 3]]));
    assert_eq!(n.randomness, vec![0u8; 32]);
    let h = blake2b_simd::Params::new().hash_length(8).hash(&[10, 11]);
    assert_eq!(n.id, format!("note_{}", hex::encode(h.as_bytes())));

    let mut sapling = entry.clone();
    sapling.pool = Some("sapling".to_string());
    sapling.commitment = None;
    assert_eq!(c.parse_note_from_indexer(&sapling).unwrap().unwrap().note_type, NoteType::Sapling);
    let mut missing = entry;
    missing.value = None;
    assert!(matches!(c.parse_note_from_indexer(&missing), Err(nozy::NozyError::Network(_))));
}
