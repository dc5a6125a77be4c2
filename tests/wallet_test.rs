use nozy::config::{NozyConfig, PrivacyLevel, PrivacyMaskType};
use nozy::notes::{NoteManager, NoteType};
use nozy::wallet::NozyWallet;

fn note(value: u64, t: NoteType) -> nozy::ShieldedNote {
    let mut m = NoteManager::new(&NozyConfig::default()).unwrap();
    m.create_note(value, "u1".to_string(), None, t, 1, None).unwrap()
}

#[test]
fn wallet_tracks_notes_addresses_and_status() {
    let mut w = NozyWallet::new(NozyConfig::new(PrivacyLevel::High)).unwrap();
    assert!(!w.get_status().initialized);
    assert_eq!(w.get_privacy_level(), PrivacyLevel::High);
    assert!(w.initialize(false).is_err());
    w.initialize(true).unwrap();
    assert!(w.get_status().initialized);
    w.add_note(note(500, NoteType::Orchard)).unwrap();
    w.add_note(note(250, NoteType::Sapling)).unwrap();
    assert_eq!(w.get_balance(), 750);
    assert_eq!(w.get_balance_by_type(NoteType::Sapling), 250);
    assert_eq!(w.get_status().total_balance, 750);
    assert_eq!(w.get_status().note_count, 2);
    let a = w.create_address(PrivacyLevel::High).unwrap();
    assert!(a.address.starts_with('z'));
    assert_eq!(w.get_status().address_count, 1);
    assert_eq!(w.get_addresses().len(), 1);
    assert_eq!(w.get_notes().len(), 2);
    let audit = w.run_privacy_audit().unwrap();
    assert_eq!(audit.total_notes, 2);
    assert_eq!(audit.total_zec, 750);
    assert_eq!(audit.score, 80);
    assert_eq!(w.get_privacy_score(), 80);
    assert_eq!(w.analyze_privacy().unwrap().len(), 2);
    w.set_privacy_level(PrivacyLevel::Maximum).unwrap();
    assert_eq!(w.analyze_privacy().unwrap().len(), 1);
}

#[test]
fn wallet_transactions_and_masks() {
    let mut w = NozyWallet::new(NozyConfig::default()).unwrap();
    assert!(w.add_transaction_input(note(5, NoteType::Orchard)).is_err());
    w.start_transaction(None).unwrap();
    w.add_transaction_input(note(5, NoteType::Orchard)).unwrap();
    w.set_transaction_fee(2).unwrap();
    let tx = w.finalize_transaction().unwrap();
    assert_eq!(tx.fee, 2);
    assert!(w.broadcast_transaction(&tx).is_err());
    assert!(w.check_zebra_connection(true).unwrap());
    assert_eq!(w.broadcast_transaction(&tx).unwrap(), "broadcast_success");
    assert!(w.get_zebra_status(Some(3)).is_ok());

    w.create_privacy_mask("m1".to_string(), PrivacyMaskType::Noise).unwrap();
    w.create_privacy_mask("m1".to_string(), PrivacyMaskType::Random).unwrap();
    assert_eq!(w.get_privacy_masks().len(), 1);
    assert!(w.apply_privacy_mask("m1").is_ok());
    assert!(w.apply_privacy_mask("m2").is_err());
    w.delete_privacy_mask("m1").unwrap();
    assert!(w.delete_privacy_mask("m1").is_err());

    let s0 = w.generate_stealth_address(None).unwrap();
    let s1 = w.generate_stealth_address(Some("x".to_string())).unwrap();
    assert_eq!(s0.address, "stealth_0");
    assert_eq!(s1.address, "stealth_1");
    assert_eq!(w.get_stealth_addresses().len(), 2);
}

#[test]
fn wallet_seed_phrase_lifecycle() {
    let mut w = NozyWallet::new(NozyConfig::default()).unwrap();
    assert!(w.get_seed_phrase().is_none());
    assert!(w.recover_from_seed("anything").is_err());
    let phrase = w.generate_seed_phrase().unwrap();
    assert_eq!(w.get_seed_phrase(), Some(&phrase));
    assert!(w.verify_seed_phrase(&phrase));
    assert!(!w.verify_seed_phrase("abandon"));
    w.recover_from_seed(&phrase).unwrap();
    assert!(w.get_status().initialized);
}

#[test]
fn wallet_placeholder_reports() {
    let mut w = NozyWallet::new(NozyConfig::default()).unwrap();
    assert_eq!(w.consolidate_notes(true).unwrap(), 5);
    assert_eq!(w.consolidate_notes(false).unwrap(), 3);
    assert_eq!(w.get_block_height().unwrap(), 822400);
    let b = w.get_block_info("42").unwrap();
    assert_eq!((b.hash.as_str(), b.height), ("block_42", 42));
    assert_eq!(w.get_block_info("tip").unwrap().height, 0);
    assert_eq!(w.run_stress_test(3).unwrap(), vec!["stress_tx_0", "stress_tx_1", "stress_tx_2"]);
    assert!(w.simulate_transaction("x", 1).unwrap().starts_with("sim_tx_"));
    assert_eq!(w.get_balance_history("day").unwrap()[0].total_balance, 0);
    assert_eq!(w.get_internal_state().unwrap().mempool_size, 150);
    assert_eq!(w.get_transaction_patterns().unwrap().len(), 1);
}

#[test]
fn block_identifiers_parse_as_u32() {
    let w = NozyWallet::new(NozyConfig::default()).unwrap();
    assert_eq!(w.get_block_info("+42").unwrap().height, 42);
    assert_eq!(w.get_block_info("4294967295").unwrap().height, 4294967295);
    assert_eq!(w.get_block_info("4294967296").unwrap().height, 0);
    assert_eq!(w.get_block_info("-1").unwrap().height, 0);
    assert_eq!(w.get_block_info("+").unwrap().height, 0);
}
