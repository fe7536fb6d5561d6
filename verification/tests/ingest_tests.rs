use raid_core::apply;
use raid_core::classify;
use raid_core::DecodeOutcome;
use raid_core::Encounter;
use raid_core::ItemEntry;
use raid_core::ItemTable;
use raid_core::apply_sequenced;
use raid_core::OverrideStore;
use raid_core::SlotSequencer;
use raid_core::TableKind;
use raid_core::ENCOUNTER_TABLE_BYTES;
use raid_core::FIXED_ITEM_TABLE_BYTES;
use raid_core::LOTTERY_ITEM_TABLE_BYTES;

fn enc(species: u16) -> Encounter {
    Encounter { species, tier: 5, params: 7 }
}

fn entry(item: u64, meta: u8) -> ItemEntry {
    ItemEntry { item, meta: vec![meta] }
}

fn table(ids: &[u64]) -> ItemTable {
    let entries: Vec<ItemEntry> = ids.iter().map(|&i| entry(i, i as u8)).collect();
    ItemTable::from_entries(entries).unwrap()
}

#[test]
fn classify_routes_each_exact_length() {
    assert_eq!(classify(30000), Some(TableKind::Encounters));
    assert_eq!(classify(27456), Some(TableKind::FixedItems));
    assert_eq!(classify(53464), Some(TableKind::LotteryItems));
    assert_eq!(ENCOUNTER_TABLE_BYTES, 30000);
    assert_eq!(FIXED_ITEM_TABLE_BYTES, 27456);
    assert_eq!(LOTTERY_ITEM_TABLE_BYTES, 53464);
}

#[test]
fn classify_rejects_every_other_length() {
    assert_eq!(classify(0), None);
    assert_eq!(classify(29999), None);
    assert_eq!(classify(30001), None);
    assert_eq!(classify(27455), None);
    assert_eq!(classify(53465), None);
    assert_eq!(classify(usize::MAX), None);
}

#[test]
fn classify_is_pure() {
    for len in [0usize, 30000, 27456, 53464, 12345] {
        assert_eq!(classify(len), classify(len));
    }
}

#[test]
fn from_entries_is_pure_and_keeps_order() {
    let mk = || vec![entry(9, 1), entry(3, 2), entry(5, 3)];
    let a = ItemTable::from_entries(mk()).unwrap();
    let b = ItemTable::from_entries(mk()).unwrap();
    assert_eq!(a, b);
    assert_eq!(a.entries(), &mk());
}

#[test]
fn from_entries_rejects_duplicate_keys() {
    assert!(ItemTable::from_entries(vec![entry(3, 1), entry(3, 2)]).is_none());
}

#[test]
fn item_table_get() {
    let t = table(&[10, 20, 30]);
    assert_eq!(t.get(20), Some(&vec![20u8]));
    assert_eq!(t.get(40), None);
    assert_eq!(t.len(), 3);
}

#[test]
fn well_formed_encounter_buffer_fills_only_its_slot() {
    // a well-formed 30000-byte buffer decodes to an encounter table,
    // which lands in the encounter slot and nowhere else
    let mut store = OverrideStore::new();
    assert_eq!(classify(30000), Some(TableKind::Encounters));
    let decoded = vec![enc(1), enc(2)];
    apply(&mut store, DecodeOutcome::EncounterTable(decoded.clone()));
    assert_eq!(store.event_encounters(), &decoded);
    assert_eq!(store.fixed_event_items().len(), 0);
    assert_eq!(store.lottery_event_items().len(), 0);
}

#[test]
fn unmatched_length_changes_no_slot() {
    let mut store = OverrideStore::new();
    apply(&mut store, DecodeOutcome::EncounterTable(vec![enc(1)]));
    apply(&mut store, DecodeOutcome::FixedItemTable(table(&[10])));
    // a 30001-byte buffer matches no kind; nothing is decoded, nothing moves
    assert_eq!(classify(30001), None);
    apply(&mut store, DecodeOutcome::NoMatch);
    assert_eq!(store.event_encounters(), &vec![enc(1)]);
    assert_eq!(store.fixed_event_items(), &table(&[10]));
    assert_eq!(store.lottery_event_items().len(), 0);
}

#[test]
fn replace_wins_on_one_slot() {
    let mut store = OverrideStore::new();
    let a = vec![enc(1), enc(2)];
    let b = vec![enc(3)];
    store.replace_event_encounters(a);
    store.replace_event_encounters(b.clone());
    assert_eq!(store.event_encounters(), &b);
}

#[test]
fn replace_leaves_other_slots_alone() {
    let mut store = OverrideStore::new();
    store.replace_fixed_event_items(table(&[1, 2]));
    store.replace_lottery_event_items(table(&[5]));
    store.replace_event_encounters(vec![enc(9)]);
    assert_eq!(store.fixed_event_items(), &table(&[1, 2]));
    assert_eq!(store.lottery_event_items(), &table(&[5]));
}

#[test]
fn overlapping_fetches_last_completion_wins() {
    // two fetches for the same slot: the second-issued completes first,
    // then the first-issued lands; the slot ends at the first-issued payload
    let mut store = OverrideStore::new();
    let first_issued = vec![enc(1)];
    let second_issued = vec![enc(2)];
    apply(&mut store, DecodeOutcome::EncounterTable(second_issued));
    apply(&mut store, DecodeOutcome::EncounterTable(first_issued.clone()));
    assert_eq!(store.event_encounters(), &first_issued);
}

#[test]
fn sequenced_completions_keep_newest_payload() {
    let mut store = OverrideStore::new();
    let mut seq = SlotSequencer::new();
    let first_issued = seq.issue();
    let second_issued = seq.issue();
    // the later-issued fetch completes first; the earlier one is stale
    apply_sequenced(
        &mut store,
        &mut seq,
        second_issued,
        DecodeOutcome::EncounterTable(vec![enc(2)]),
    );
    apply_sequenced(
        &mut store,
        &mut seq,
        first_issued,
        DecodeOutcome::EncounterTable(vec![enc(1)]),
    );
    assert_eq!(store.event_encounters(), &vec![enc(2)]);
}

#[test]
fn sequenced_in_order_completions_apply_both() {
    let mut store = OverrideStore::new();
    let mut seq = SlotSequencer::new();
    let t1 = seq.issue();
    let t2 = seq.issue();
    apply_sequenced(&mut store, &mut seq, t1, DecodeOutcome::EncounterTable(vec![enc(1)]));
    assert_eq!(store.event_encounters(), &vec![enc(1)]);
    apply_sequenced(&mut store, &mut seq, t2, DecodeOutcome::EncounterTable(vec![enc(2)]));
    assert_eq!(store.event_encounters(), &vec![enc(2)]);
}
