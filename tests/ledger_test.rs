use nozy::config::NozyConfig;
use nozy::error::NozyError;
use nozy::notes::{NoteManager, NoteSelectionStrategy, NoteType, ShieldedNote};

fn manager() -> NoteManager {
    NoteManager::new(&NozyConfig::default()).unwrap()
}

fn blake(data: &[u8]) -> Vec<u8> {
    blake2b_simd::Params::new().hash_length(32).hash(data).as_bytes().to_vec()
}

fn pair(a: &[u8], b: &[u8]) -> Vec<u8> {
    let mut m = a.to_vec();
    m.extend_from_slice(b);
    blake(&m)
}

fn add(m: &mut NoteManager, t: NoteType, value: u64, height: u32) -> ShieldedNote {
    m.create_note(value, "u1testaddress".to_string(), None, t, height, None).unwrap()
}

#[test]
fn empty_tree_root_is_hashed_zero_digest() {
    let m = manager();
    let expected = blake(&[0u8; 32]);
    assert_eq!(m.get_commitment_tree_root(), expected);
    assert_ne!(m.get_commitment_tree_root(), vec![0u8; 32]);
    assert_eq!(m.get_commitment_tree_size(), 0);
}

#[test]
fn single_leaf_root_is_the_leaf() {
    let mut m = manager();
    let n = add(&mut m, NoteType::Orchard, 5, 1);
    assert_eq!(m.get_commitment_tree_root(), n.commitment);
    assert_eq!(n.position, Some(0));
    assert_eq!(n.merkle_path, Some(Vec::new()));
}

#[test]
fn three_leaf_root_and_paths_follow_duplicate_rule() {
    let mut m = manager();
    let a = add(&mut m, NoteType::Orchard, 1, 1);
    let b = add(&mut m, NoteType::Orchard, 2, 1);
    let c = add(&mut m, NoteType::Sapling, 3, 1);
    let ab = pair(&a.commitment, &b.commitment);
    let cc = pair(&c.commitment, &c.commitment);
    assert_eq!(m.get_commitment_tree_root(), pair(&ab, &cc));
    assert_eq!(m.get_commitment_tree_size(), 3);
    assert_eq!(m.calculate_merkle_path(0).unwrap(), vec![b.commitment.clone(), cc.clone()]);
    assert_eq!(m.calculate_merkle_path(2).unwrap(), vec![c.commitment.clone(), ab.clone()]);
    assert!(m.calculate_merkle_path(3).is_err());
}

#[test]
fn recorded_paths_and_positions_survive_later_insertions() {
    let mut m = manager();
    let a = add(&mut m, NoteType::Orchard, 1, 1);
    let b = add(&mut m, NoteType::Orchard, 2, 1);
    assert_eq!(b.position, Some(1));
    assert_eq!(b.merkle_path, Some(vec![a.commitment.clone()]));
    add(&mut m, NoteType::Sapling, 3, 1);
    add(&mut m, NoteType::Sapling, 4, 1);
    let a2 = m.get_note(&a.id).unwrap();
    let b2 = m.get_note(&b.id).unwrap();
    assert_eq!(a2.position, Some(0));
    assert_eq!(a2.merkle_path, Some(Vec::new()));
    assert_eq!(b2.position, Some(1));
    assert_eq!(b2.merkle_path, Some(vec![a.commitment.clone()]));
}

#[test]
fn commitment_and_id_are_the_stated_digests() {
    let mut m = manager();
    let n = m
        .create_note(250, "z1addr".to_string(), Some(b"memo".to_vec()), NoteType::Sapling, 7, None)
        .unwrap();
    let mut msg = b"sapling".to_vec();
    msg.extend_from_slice(&250u64.to_le_bytes());
    msg.extend_from_slice(b"z1addr");
    msg.extend_from_slice(&n.randomness);
    assert_eq!(n.commitment, blake(&msg));
    let mut idm = n.commitment.clone();
    idm.extend_from_slice(b"z1addr");
    let digest = <sha2::Sha256 as sha2::Digest>::digest(&idm);
    assert_eq!(n.id, hex::encode(&digest[..8]));
    assert_eq!(n.id.len(), 16);
    assert_eq!(n.randomness.len(), 32);
    assert_eq!(n.memo, Some(b"memo".to_vec()));
    assert_eq!(n.created_at_height, 7);
    assert!(n.nullifier.is_none());
}

#[test]
fn fresh_notes_get_fresh_randomness() {
    let mut m = manager();
    let a = add(&mut m, NoteType::Orchard, 1, 1);
    let b = add(&mut m, NoteType::Orchard, 1, 1);
    assert_ne!(a.randomness, b.randomness);
    assert_ne!(a.id, b.id);
}

#[test]
fn marking_spent_twice_gives_the_same_nullifier() {
    let mut m = manager();
    let n = add(&mut m, NoteType::Orchard, 10, 1);
    m.mark_note_spent(&n.id, 5).unwrap();
    let first = m.get_note(&n.id).unwrap().nullifier.clone();
    m.mark_note_spent(&n.id, 5).unwrap();
    let second = m.get_note(&n.id).unwrap().nullifier.clone();
    assert!(first.is_some());
    assert_eq!(first, second);
    let mut msg = n.commitment.clone();
    msg.extend_from_slice(&n.randomness);
    msg.extend_from_slice(b"orchard_nullifier");
    assert_eq!(first, Some(blake(&msg)));
    let stored = m.get_note(&n.id).unwrap();
    assert_eq!(stored.spent_at_height, Some(5));
    assert_eq!(stored.nullifier.is_some(), stored.spent_at_height.is_some());
    assert_eq!(m.get_total_balance(), 0);
}

#[test]
fn marking_an_unknown_note_changes_nothing() {
    let mut m = manager();
    let n = add(&mut m, NoteType::Orchard, 10, 1);
    assert!(m.mark_note_spent("no-such-note", 5).is_ok());
    assert_eq!(m.get_total_balance(), 10);
    assert!(m.get_note(&n.id).unwrap().nullifier.is_none());
    assert!(m.get_note("no-such-note").is_none());
}

#[test]
fn add_note_rejects_inconsistent_spend_state() {
    let mut m = manager();
    let mut n = add(&mut m, NoteType::Orchard, 10, 1);
    n.id = "other".to_string();
    n.nullifier = Some(vec![1, 2, 3]);
    assert!(matches!(m.add_note(n), Err(NozyError::InvalidOperation(_))));
    assert_eq!(m.get_unspent_notes().len(), 1);
}

#[test]
fn value_based_selection_takes_largest_first() {
    let mut m = manager();
    add(&mut m, NoteType::Orchard, 100, 1);
    add(&mut m, NoteType::Orchard, 300, 1);
    add(&mut m, NoteType::Orchard, 250, 1);
    let sel = m.select_notes_for_spending(400, Some(NoteSelectionStrategy::ValueBased)).unwrap();
    let values: Vec<u64> = sel.iter().map(|n| n.value).collect();
    assert_eq!(values, vec![300, 250]);
}

#[test]
fn selection_fails_with_insufficient_funds() {
    let strategies = [
        NoteSelectionStrategy::PrivacyFirst,
        NoteSelectionStrategy::EfficiencyFirst,
        NoteSelectionStrategy::Balanced,
        NoteSelectionStrategy::ValueBased,
        NoteSelectionStrategy::AgeBased,
    ];
    let mut m = manager();
    add(&mut m, NoteType::Orchard, 100, 1);
    for st in strategies {
        match m.select_notes_for_spending(150, Some(st)) {
            Err(NozyError::InsufficientFunds { required, available }) => {
                assert_eq!(required, 150);
                assert_eq!(available, 100);
            },
            _ => panic!("expected insufficient funds"),
        }
    }
}

#[test]
fn every_strategy_covers_the_amount() {
    let strategies = [
        NoteSelectionStrategy::PrivacyFirst,
        NoteSelectionStrategy::EfficiencyFirst,
        NoteSelectionStrategy::Balanced,
        NoteSelectionStrategy::ValueBased,
        NoteSelectionStrategy::AgeBased,
    ];
    let mut m = manager();
    add(&mut m, NoteType::Sapling, 40, 30);
    add(&mut m, NoteType::Orchard, 70, 20);
    add(&mut m, NoteType::Sapling, 10, 10);
    add(&mut m, NoteType::Orchard, 25, 40);
    for st in strategies {
        let sel = m.select_notes_for_spending(90, Some(st)).unwrap();
        let total: u64 = sel.iter().map(|n| n.value).sum();
        assert!(total >= 90);
    }
    let pf: Vec<u64> = m
        .select_notes_for_spending(90, Some(NoteSelectionStrategy::PrivacyFirst))
        .unwrap()
        .iter()
        .map(|n| n.value)
        .collect();
    assert_eq!(pf, vec![70, 25]);
    let ef: Vec<u64> = m
        .select_notes_for_spending(90, Some(NoteSelectionStrategy::EfficiencyFirst))
        .unwrap()
        .iter()
        .map(|n| n.value)
        .collect();
    assert_eq!(ef, vec![40, 10, 70]);
    let age: Vec<u64> = m
        .select_notes_for_spending(90, Some(NoteSelectionStrategy::AgeBased))
        .unwrap()
        .iter()
        .map(|n| n.value)
        .collect();
    assert_eq!(age, vec![10, 70, 40]);
    let bal: Vec<u64> = m
        .select_notes_for_spending(90, Some(NoteSelectionStrategy::Balanced))
        .unwrap()
        .iter()
        .map(|n| n.value)
        .collect();
    assert_eq!(bal, vec![40, 70]);
    let default: Vec<u64> =
        m.select_notes_for_spending(90, None).unwrap().iter().map(|n| n.value).collect();
    assert_eq!(default, pf);
}

#[test]
fn selecting_zero_takes_nothing() {
    let m = manager();
    assert_eq!(m.select_notes_for_spending(0, None).unwrap().len(), 0);
}

#[test]
fn consolidation_merges_small_notes() {
    let mut m = manager();
    add(&mut m, NoteType::Sapling, 3000, 1);
    add(&mut m, NoteType::Orchard, 1000, 1);
    add(&mut m, NoteType::Orchard, 50000, 1);
    let merged = m.consolidate_notes().unwrap();
    assert_eq!(merged.len(), 1);
    assert_eq!(merged[0].value, 4000);
    assert_eq!(merged[0].note_type, NoteType::Orchard);
    assert_eq!(m.get_total_balance(), 54000);
    assert_eq!(m.get_unspent_notes().len(), 2);
    assert_eq!(m.get_commitment_tree_size(), 4);
}

#[test]
fn consolidation_needs_two_small_notes() {
    let mut m = manager();
    add(&mut m, NoteType::Orchard, 1000, 1);
    add(&mut m, NoteType::Orchard, 50000, 1);
    assert!(m.consolidate_notes().unwrap().is_empty());
    assert_eq!(m.get_unspent_notes().len(), 2);
}

#[test]
fn consolidation_is_off_below_maximum_privacy() {
    let mut m = NoteManager::new(&NozyConfig::new(nozy::PrivacyLevel::High)).unwrap();
    add(&mut m, NoteType::Orchard, 1000, 1);
    add(&mut m, NoteType::Orchard, 2000, 1);
    assert!(m.consolidate_notes().unwrap().is_empty());
}

#[test]
fn every_path_recomputes_the_root() {
    let mut m = manager();
    let mut notes = Vec::new();
    for v in 1..=5u64 {
        notes.push(add(&mut m, NoteType::Orchard, v, 1));
    }
    let root = m.get_commitment_tree_root();
    for (i, n) in notes.iter().enumerate() {
        let path = m.calculate_merkle_path(i as u64).unwrap();
        let mut node = n.commitment.clone();
        let mut pos = i;
        for sibling in &path {
            node = if pos % 2 == 0 { pair(&node, sibling) } else { pair(sibling, &node) };
            pos /= 2;
        }
        assert_eq!(node, root);
    }
}

#[test]
fn snapshot_round_trip_keeps_state() {
    let mut m = manager();
    let a = add(&mut m, NoteType::Orchard, 10, 1);
    add(&mut m, NoteType::Sapling, 20, 2);
    m.mark_note_spent(&a.id, 3).unwrap();
    let snap = m.snapshot();
    assert_eq!(snap.notes.len(), 2);
    assert_eq!(snap.leaves.len(), 2);
    let restored = NoteManager::from_snapshot(snap.clone()).unwrap();
    assert_eq!(restored.get_commitment_tree_root(), m.get_commitment_tree_root());
    assert_eq!(restored.get_total_balance(), 20);
    assert_eq!(restored.get_note(&a.id).unwrap().spent_at_height, Some(3));

    let mut dup = snap.clone();
    dup.notes[1].id = dup.notes[0].id.clone();
    assert!(NoteManager::from_snapshot(dup).is_err());
    let mut bad = snap.clone();
    bad.notes[1].spent_at_height = Some(9);
    assert!(NoteManager::from_snapshot(bad).is_err());
    let mut big = snap.clone();
    big.notes[0].value = u64::MAX;
    assert!(NoteManager::from_snapshot(big).is_err());
    let mut zero = snap;
    zero.config.max_consolidation_notes = 0;
    assert!(NoteManager::from_snapshot(zero).is_err());
}
