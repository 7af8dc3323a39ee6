use account_state::errors::AccountError;
use account_state::storage::{
    storage_item_0, storage_item_1, storage_item_2, storage_map_2, AccountStorage,
    AccountStorageBuilder, SlotItem, StorageMap, StorageSlot,
};
use account_state::word::{Word, FIELD_MODULUS};

fn mc_word(a: u64, b: u64, c: u64, d: u64) -> miden_crypto::Word {
    miden_crypto::Word::new([
        miden_crypto::Felt::new(a),
        miden_crypto::Felt::new(b),
        miden_crypto::Felt::new(c),
        miden_crypto::Felt::new(d),
    ])
}

fn as_ints(w: miden_crypto::Word) -> [u64; 4] {
    w.into()
}

#[test]
fn storage_root_independent_of_insertion_order() {
    let s1 = AccountStorageBuilder::new()
        .add_item(storage_item_0())
        .add_item(storage_item_1())
        .build()
        .unwrap();
    let s2 = AccountStorageBuilder::new()
        .add_item(storage_item_1())
        .add_item(storage_item_0())
        .build()
        .unwrap();
    assert_eq!(s1.root(), s2.root());
}

#[test]
fn storage_root_changes_with_slot_value() {
    let s1 = AccountStorageBuilder::new().add_item(storage_item_0()).build().unwrap();
    let s2 = AccountStorageBuilder::new().add_item(storage_item_1()).build().unwrap();
    assert_ne!(s1.root(), s2.root());
}

#[test]
fn duplicate_index_fails_construction() {
    let a = storage_item_0();
    let b = SlotItem {
        index: a.index,
        slot: StorageSlot::new_value(Word::new(9, 9, 9, 9)),
    };
    let r = AccountStorage::new(vec![a, b], vec![]);
    assert_eq!(r.err(), Some(AccountError::DuplicateStorageSlot));
}

#[test]
fn builder_is_reusable_and_extendable() {
    let builder = AccountStorageBuilder::new().add_items(vec![storage_item_0(), storage_item_1()]);
    let first = builder.build().unwrap();
    let second = builder.build().unwrap();
    assert_eq!(first.root(), second.root());
    let extended = builder.add_item(storage_item_2()).build().unwrap();
    assert_eq!(extended.slots.len(), 3);
    assert_ne!(first.root(), extended.root());
}

#[test]
fn storage_root_matches_reference_tree() {
    let storage = AccountStorageBuilder::new()
        .add_item(storage_item_0())
        .add_item(storage_item_1())
        .build()
        .unwrap();
    let tree = miden_crypto::merkle::smt::SimpleSmt::<8>::with_leaves(vec![
        (20u64, mc_word(1, 2, 3, 4)),
        (30u64, mc_word(5, 6, 7, 8)),
    ])
    .unwrap();
    let expected = as_ints(tree.root());
    let got = storage.root();
    assert_eq!([got.e0, got.e1, got.e2, got.e3], expected);
}

#[test]
fn storage_map_root_matches_reference_tree() {
    let map = storage_map_2();
    let tree = miden_crypto::merkle::smt::Smt::with_entries(vec![
        (mc_word(101, 102, 103, 104), mc_word(1, 2, 3, 4)),
        (mc_word(105, 106, 107, 108), mc_word(5, 6, 7, 8)),
    ])
    .unwrap();
    let expected = as_ints(tree.root());
    let got = map.root();
    assert_eq!([got.e0, got.e1, got.e2, got.e3], expected);
}

#[test]
fn empty_map_root_matches_reference_tree() {
    let map = StorageMap::new();
    let expected = as_ints(miden_crypto::merkle::smt::Smt::new().root());
    let got = map.root();
    assert_eq!([got.e0, got.e1, got.e2, got.e3], expected);
}

#[test]
fn map_with_duplicate_key_fails() {
    let k = Word::new(1, 2, 3, 4);
    let r = StorageMap::with_entries(vec![(k, Word::new(5, 5, 5, 5)), (k, Word::new(6, 6, 6, 6))]);
    assert_eq!(r.err(), Some(AccountError::DuplicateMapKey));
}

#[test]
fn map_with_non_canonical_element_fails() {
    let bad = Word::new(FIELD_MODULUS, 0, 0, 0);
    let r = StorageMap::with_entries(vec![(bad, Word::new(1, 1, 1, 1))]);
    assert_eq!(r.err(), Some(AccountError::MalformedMapEntry));
}

#[test]
fn slot_at_finds_only_occupied_indices() {
    let storage = AccountStorageBuilder::new()
        .add_item(storage_item_0())
        .add_item(storage_item_1())
        .build()
        .unwrap();
    let s0 = storage.slot_at(20).unwrap();
    assert_eq!(s0.value, Word::new(1, 2, 3, 4));
    assert!(storage.slot_at(21).is_none());
}

#[test]
fn more_than_256_slots_fail_construction() {
    let mut items: Vec<SlotItem> = Vec::new();
    for i in 0..257u32 {
        items.push(SlotItem {
            index: (i % 256) as u8,
            slot: StorageSlot::new_value(Word::new(i as u64, 0, 0, 0)),
        });
    }
    let r = AccountStorage::new(items, vec![]);
    assert_eq!(r.err(), Some(AccountError::TooManyStorageSlots));
}

#[test]
fn too_many_map_entries_fail() {
    let mut entries: Vec<(Word, Word)> = Vec::new();
    for i in 0..1024u64 {
        entries.push((Word::new(i, 0, 0, 0), Word::new(1, 1, 1, 1)));
    }
    let r = StorageMap::with_entries(entries);
    assert_eq!(r.err(), Some(AccountError::TooManyMapEntries));
}

#[test]
fn builder_fails_on_colliding_indices() {
    let duplicate = SlotItem {
        index: storage_item_0().index,
        slot: StorageSlot::new_value(Word::new(9, 9, 9, 9)),
    };
    let r = AccountStorageBuilder::new()
        .add_item(storage_item_0())
        .add_item(duplicate)
        .build();
    assert_eq!(r.err(), Some(AccountError::DuplicateStorageSlot));
}
