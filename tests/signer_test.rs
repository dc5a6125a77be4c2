use nozy::config::NozyConfig;
use nozy::error::NozyError;
use nozy::hd_wallet::HDWallet;
use nozy::notes::{NoteManager, NoteSelectionStrategy, NoteType};
use nozy::transaction_signer::{SigningKeyEntry, SignedTransaction, TransactionSigner};

fn signer_with(values: &[(NoteType, u64)]) -> TransactionSigner {
    let mut m = NoteManager::new(&NozyConfig::default()).unwrap();
    for (t, v) in values {
        m.create_note(*v, "u1testaddress".to_string(), None, *t, 1, None).unwrap();
    }
    TransactionSigner::new(HDWallet::default(), m)
}

fn keys_for(signer: &TransactionSigner, tx: &SignedTransaction) -> Vec<SigningKeyEntry> {
    tx.inputs
        .iter()
        .enumerate()
        .map(|(i, input)| SigningKeyEntry {
            path: signer.get_derivation_path_for_note(&input.note).unwrap(),
            secret: vec![i as u8 + 7; 32],
        })
        .collect()
}

fn blake(data: &[u8]) -> Vec<u8> {
    blake2b_simd::Params::new().hash_length(32).hash(data).as_bytes().to_vec()
}

#[test]
fn build_pays_recipient_and_returns_change() {
    let signer = signer_with(&[(NoteType::Orchard, 700), (NoteType::Sapling, 500)]);
    let tx = signer
        .build_transaction_with_notes("recipient".to_string(), 600, 50, Some(b"hi".to_vec()), 99, None)
        .unwrap();
    assert_eq!(tx.inputs.len(), 1);
    assert_eq!(tx.inputs[0].note.value, 700);
    assert_eq!(tx.outputs.len(), 2);
    assert_eq!(tx.outputs[0].address, "recipient");
    assert_eq!(tx.outputs[0].value, 600);
    assert_eq!(tx.outputs[1].value, 50);
    let change = tx.change_output.clone().unwrap();
    assert_eq!(change.value, 50);
    let path = <sha2::Sha256 as sha2::Digest>::digest(b"m/44'/133'/0'/1/0");
    assert_eq!(change.address, format!("o{}", hex::encode(&path[..16])));
    assert_eq!(tx.fee, 50);
    assert_eq!(tx.version, 5);
    assert!(tx.signatures.is_empty());

    let mut msg = Vec::new();
    for input in &tx.inputs {
        msg.extend_from_slice(&input.note.commitment);
        msg.extend_from_slice(&input.position.to_le_bytes());
    }
    for output in &tx.outputs {
        msg.extend_from_slice(output.address.as_bytes());
        msg.extend_from_slice(&output.value.to_le_bytes());
        if let Some(m) = &output.memo {
            msg.extend_from_slice(m);
        }
    }
    msg.extend_from_slice(&50u64.to_le_bytes());
    msg.extend_from_slice(&99u64.to_le_bytes());
    assert_eq!(tx.tx_hash, blake(&msg));
}

#[test]
fn exact_payment_has_no_change() {
    let signer = signer_with(&[(NoteType::Orchard, 650)]);
    let tx = signer.build_transaction_with_notes("r".to_string(), 600, 50, None, 1, None).unwrap();
    assert_eq!(tx.outputs.len(), 1);
    assert!(tx.change_output.is_none());
}

#[test]
fn build_reports_shortfall_including_fee() {
    let signer = signer_with(&[(NoteType::Orchard, 100)]);
    match signer.build_transaction_with_notes("r".to_string(), 90, 20, None, 1, None) {
        Err(NozyError::InsufficientFunds { required, available }) => {
            assert_eq!(required, 110);
            assert_eq!(available, 100);
        },
        _ => panic!("expected insufficient funds"),
    }
    assert!(matches!(
        signer.build_transaction_with_notes("r".to_string(), u64::MAX, 1, None, 1, None),
        Err(NozyError::InvalidOperation(_))
    ));
}

#[test]
fn sign_then_verify_round_trip() {
    let signer = signer_with(&[(NoteType::Orchard, 300), (NoteType::Sapling, 400)]);
    let tx = signer
        .build_transaction_with_notes(
            "r".to_string(),
            650,
            10,
            None,
            5,
            Some(NoteSelectionStrategy::Balanced),
        )
        .unwrap();
    assert_eq!(tx.inputs.len(), 2);
    let keys = keys_for(&signer, &tx);
    let signed = signer.sign_with_keys(tx, &keys).unwrap();
    assert_eq!(signed.signatures.len(), 2);
    assert!(signer.verify_transaction(&signed).unwrap());

    let key = ed25519_dalek::SigningKey::from_bytes(&[7u8; 32]);
    assert_eq!(signed.signatures[0].public_key, key.verifying_key().to_bytes().to_vec());
    let sig = <ed25519_dalek::SigningKey as ed25519_dalek::Signer<ed25519_dalek::Signature>>::sign(
        &key,
        &signed.tx_hash,
    );
    assert_eq!(signed.signatures[0].signature, sig.to_bytes().to_vec());
}

#[test]
fn flipping_a_signature_or_key_byte_fails_verification() {
    let signer = signer_with(&[(NoteType::Orchard, 300), (NoteType::Sapling, 400)]);
    let tx = signer.build_transaction_with_notes("r".to_string(), 650, 10, None, 5, None).unwrap();
    let keys = keys_for(&signer, &tx);
    let signed = signer.sign_with_keys(tx, &keys).unwrap();
    for s in 0..signed.signatures.len() {
        for b in [0usize, 17, 31, 32, 63] {
            let mut bad = signed.clone();
            bad.signatures[s].signature[b] ^= 1;
            assert!(!signer.verify_transaction(&bad).unwrap());
        }
        for b in [0usize, 5, 31] {
            let mut bad = signed.clone();
            bad.signatures[s].public_key[b] ^= 1;
            assert!(!signer.verify_transaction(&bad).unwrap());
        }
    }
    let mut missing = signed.clone();
    missing.signatures.pop();
    assert!(!signer.verify_transaction(&missing).unwrap());
}

#[test]
fn signing_without_a_key_fails() {
    let signer = signer_with(&[(NoteType::Orchard, 300)]);
    let tx = signer.build_transaction_with_notes("r".to_string(), 100, 10, None, 5, None).unwrap();
    match signer.sign_with_keys(tx, &Vec::new()) {
        Err(NozyError::KeyUnavailable(path)) => assert_eq!(path, "m/44'/133'/0'/0/0"),
        _ => panic!("expected a missing key"),
    }
}

#[test]
fn derivation_paths_follow_family_and_position() {
    let mut m = NoteManager::new(&NozyConfig::default()).unwrap();
    m.create_note(1, "a".to_string(), None, NoteType::Orchard, 1, None).unwrap();
    let s = m.create_note(1, "a".to_string(), None, NoteType::Sapling, 1, None).unwrap();
    let signer = TransactionSigner::new(HDWallet::default(), m);
    assert_eq!(signer.get_derivation_path_for_note(&s).unwrap(), "m/44'/133'/0'/1/1");
}

#[test]
fn fee_estimate_counts_inputs() {
    let signer = signer_with(&[(NoteType::Orchard, 30), (NoteType::Orchard, 30), (NoteType::Orchard, 30)]);
    assert_eq!(signer.estimate_fee_with_notes(50, None).unwrap(), 3000);
    assert_eq!(signer.estimate_fee_with_notes(0, None).unwrap(), 2000);
    assert!(matches!(
        signer.estimate_fee_with_notes(100, None),
        Err(NozyError::InsufficientFunds { required: 100, available: 90 })
    ));
}

#[test]
fn marking_inputs_spent_updates_the_ledger() {
    let mut signer = signer_with(&[(NoteType::Orchard, 300), (NoteType::Sapling, 400)]);
    let tx = signer.build_transaction_with_notes("r".to_string(), 200, 10, None, 5, None).unwrap();
    signer.mark_notes_spent(&tx, 12).unwrap();
    let spent = signer.get_note_manager().get_note(&tx.inputs[0].note.id).unwrap();
    assert_eq!(spent.spent_at_height, Some(12));
    assert_eq!(signer.get_note_manager().get_total_balance(), 400);
}

#[test]
fn size_estimate_counts_every_part() {
    let signer = signer_with(&[(NoteType::Orchard, 300), (NoteType::Sapling, 400)]);
    let tx = signer
        .build_transaction_with_notes(
            "r".to_string(),
            650,
            10,
            None,
            5,
            Some(NoteSelectionStrategy::Balanced),
        )
        .unwrap();
    assert_eq!(tx.inputs[0].merkle_path.len(), 0);
    assert_eq!(tx.inputs[1].merkle_path.len(), 1);
    assert_eq!(signer.estimate_transaction_size(&tx).unwrap(), 100 + 40 + 72 + 9 + 41);
    let keys = keys_for(&signer, &tx);
    let signed = signer.sign_with_keys(tx, &keys).unwrap();
    assert_eq!(signer.estimate_transaction_size(&signed).unwrap(), 262 + 192);
}

const PHRASE: &str =
    "abandon abandon abandon abandon abandon abandon abandon abandon abandon abandon abandon about";

fn wallet_signer(values: &[(NoteType, u64)]) -> TransactionSigner {
    let mut m = NoteManager::new(&NozyConfig::default()).unwrap();
    for (t, v) in values {
        m.create_note(*v, "u1testaddress".to_string(), None, *t, 1, None).unwrap();
    }
    TransactionSigner::new(HDWallet::new_from_seed(PHRASE, "testnet").unwrap(), m)
}

#[test]
fn test_signature_verification() {
    let hd_wallet = HDWallet::new_from_seed(PHRASE, "testnet").unwrap();
    let note_manager = NoteManager::new(&NozyConfig::default()).unwrap();
    let mut signer = TransactionSigner::new(hd_wallet, note_manager);

    let secret = signer.derive_signing_key("m/44'/133'/0'/0/0", "default_password").unwrap();
    let signing_key = ed25519_dalek::SigningKey::from_bytes(&secret.clone().try_into().unwrap());

    let tx_hash = b"test transaction hash";

    let _input = nozy::transaction_signer::ShieldedInput {
        note: nozy::notes::ShieldedNote {
            id: "test_note_id".to_string(),
            commitment: vec![1, 2, 3, 4],
            value: 100000000,
            randomness: vec![5, 6, 7, 8],
            merkle_path: Some(vec![vec![9, 10, 11, 12]]),
            position: Some(0),
            note_type: NoteType::Orchard,
            nullifier: None,
            recipient_address: String::new(),
            memo: None,
            created_at_height: 0,
            spent_at_height: None,
            tx_hash: None,
        },
        merkle_path: vec![vec![9, 10, 11, 12]],
        position: 0,
    };

    let signature =
        <ed25519_dalek::SigningKey as ed25519_dalek::Signer<ed25519_dalek::Signature>>::sign(
            &signing_key,
            tx_hash,
        );
    let is_valid = <ed25519_dalek::VerifyingKey as ed25519_dalek::Verifier<
        ed25519_dalek::Signature,
    >>::verify(&signing_key.verifying_key(), tx_hash, &signature)
    .is_ok();

    assert!(is_valid);
}

#[test]
fn restored_wallet_keys_follow_bip32() {
    let mut signer = wallet_signer(&[]);
    let seed = bip39::Mnemonic::parse_normalized(PHRASE).unwrap().to_seed("");
    let master = bip32::XPrv::new(seed).unwrap().to_bytes();
    let expected = bip32::XPrv::new(master).unwrap().to_bytes().to_vec();
    assert_eq!(signer.derive_signing_key("m/44'/133'/0'/0/3", "default_password").unwrap(), expected);
    assert_eq!(signer.derive_signing_key("m/44'/133'/0'/0/3", "wrong").unwrap(), expected);
    assert!(signer.derive_signing_key("m/44'/133'/0'/0/4", "wrong").is_err());
}

#[test]
fn password_signing_round_trip() {
    let mut signer = wallet_signer(&[(NoteType::Orchard, 300), (NoteType::Sapling, 400)]);
    let tx = signer.build_transaction_with_notes("r".to_string(), 650, 10, None, 5, None).unwrap();
    let signed = signer.sign_transaction_with_notes(tx.clone(), "default_password").unwrap();
    assert_eq!(signed.signatures.len(), tx.inputs.len());
    assert!(signer.verify_transaction(&signed).unwrap());
    let mut fresh = wallet_signer(&[(NoteType::Orchard, 300), (NoteType::Sapling, 400)]);
    let tx2 = fresh.build_transaction_with_notes("r".to_string(), 650, 10, None, 5, None).unwrap();
    assert!(matches!(
        fresh.sign_transaction_with_notes(tx2, "wrong"),
        Err(NozyError::KeyUnavailable(_))
    ));
}

#[test]
fn ledger_changes_through_the_signer() {
    let mut signer = signer_with(&[(NoteType::Orchard, 300)]);
    signer
        .get_note_manager_mut()
        .create_note(200, "u1testaddress".to_string(), None, NoteType::Sapling, 2, None)
        .unwrap();
    assert_eq!(signer.get_note_manager().get_total_balance(), 500);
    assert_eq!(signer.get_note_manager().get_commitment_tree_size(), 2);
}
