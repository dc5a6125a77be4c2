use nozy::config::NozyConfig;
use nozy::notes::{NoteManager, NoteSelectionStrategy, NoteType, ShieldedNote};

fn manager() -> NoteManager {
    NoteManager::new(&NozyConfig::default()).unwrap()
}

fn note(
    m: &mut NoteManager,
    note_type: NoteType,
    value: u64,
    address: &str,
    memo: Option<Vec<u8>>,
    height: u32,
) -> ShieldedNote {
    m.create_note(value, address.to_string(), memo, note_type, height, None).unwrap()
}

#[test]
fn test_hello() {
    assert_eq!(nozy::hello_nozy(), "Hello from Nozy wallet!");
}

#[test]
fn test_note_creation() {
    let mut manager = manager();
    let note = note(
        &mut manager,
        NoteType::Orchard,
        100000000,
        "u1testaddress",
        Some(b"Test memo".to_vec()),
        1000,
    );
    manager.add_note(note.clone()).unwrap();
    let retrieved = manager.get_note(&note.id);
    assert!(retrieved.is_some());
    assert_eq!(retrieved.unwrap().value, 100000000);
}

#[test]
fn test_balance_calculation() {
    let mut manager = manager();
    let a = note(&mut manager, NoteType::Orchard, 100000000, "u1testaddress", None, 1000);
    manager.add_note(a).unwrap();
    let b = note(&mut manager, NoteType::Sapling, 200000000, "z1testaddress", None, 1000);
    manager.add_note(b).unwrap();

    let total_balance = manager.get_total_balance();
    let orchard_balance = manager.get_balance_by_type(NoteType::Orchard);
    let sapling_balance = manager.get_balance_by_type(NoteType::Sapling);

    assert_eq!(total_balance, 300000000);
    assert_eq!(orchard_balance, 100000000);
    assert_eq!(sapling_balance, 200000000);
}

#[test]
fn test_note_selection() {
    let mut manager = manager();
    note(&mut manager, NoteType::Orchard, 50000000, "u1testaddress", None, 1000);
    note(&mut manager, NoteType::Orchard, 30000000, "u1testaddress", None, 1000);
    note(&mut manager, NoteType::Sapling, 150000000, "z1testaddress", None, 1000);

    let selected = manager
        .select_notes_for_spending(100000000, Some(NoteSelectionStrategy::PrivacyFirst))
        .unwrap();
    let total_selected: u64 = selected.iter().map(|n| n.value).sum();

    assert!(total_selected >= 100000000);
    assert!(selected.len() >= 2);
}

#[test]
fn test_mixed_note_types() {
    let mut manager = manager();
    note(&mut manager, NoteType::Orchard, 100000000, "u1testaddress", None, 1000);
    note(&mut manager, NoteType::Sapling, 50000000, "z1testaddress", None, 1000);

    let orchard_notes = manager.get_unspent_notes_by_type(NoteType::Orchard);
    let sapling_notes = manager.get_unspent_notes_by_type(NoteType::Sapling);

    assert_eq!(orchard_notes.len(), 1);
    assert_eq!(sapling_notes.len(), 1);
    assert_eq!(orchard_notes[0].value, 100000000);
    assert_eq!(sapling_notes[0].value, 50000000);
}

#[test]
fn test_note_statistics() {
    let mut manager = manager();
    note(&mut manager, NoteType::Orchard, 100000000, "u1testaddress", None, 1000);
    note(&mut manager, NoteType::Sapling, 50000000, "z1testaddress", None, 1000);

    let total_balance = manager.get_total_balance();
    let total_notes = manager.get_unspent_notes().len();
    let orchard_balance = manager.get_balance_by_type(NoteType::Orchard);
    let orchard_count = manager.get_unspent_notes_by_type(NoteType::Orchard).len();
    let sapling_balance = manager.get_balance_by_type(NoteType::Sapling);
    let sapling_count = manager.get_unspent_notes_by_type(NoteType::Sapling).len();

    assert_eq!(total_balance, 150000000);
    assert_eq!(total_notes, 2);
    assert_eq!(orchard_balance, 100000000);
    assert_eq!(orchard_count, 1);
    assert_eq!(sapling_balance, 50000000);
    assert_eq!(sapling_count, 1);
}
