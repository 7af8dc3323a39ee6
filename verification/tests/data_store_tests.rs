use account_state::account::{build_account, build_assets};
use account_state::account_id::{AccountId, ACCOUNT_ID_FUNGIBLE_FAUCET_ON_CHAIN};
use account_state::data_store::{DataStore, MockDataStore, NoteRecord};
use account_state::errors::DataStoreError;
use account_state::word::{Felt, Word};

fn sample_store() -> (MockDataStore, AccountId) {
    let (asset_0, asset_1) = build_assets();
    let account = build_account(vec![asset_0, asset_1], Felt::new(1), vec![Word::new(1, 0, 0, 0)]);
    let account_id = account.id;
    let notes = vec![
        NoteRecord {
            id: Word::new(100, 0, 0, 0),
            recorded_at: 5,
            consumed_at: None,
        },
        NoteRecord {
            id: Word::new(200, 0, 0, 0),
            recorded_at: 6,
            consumed_at: Some(8),
        },
        NoteRecord {
            id: Word::new(300, 0, 0, 0),
            recorded_at: 15,
            consumed_at: None,
        },
    ];
    (MockDataStore::new(vec![account], vec![7, 9, 10], notes), account_id)
}

#[test]
fn unknown_account_fails_with_account_not_found() {
    let (store, _) = sample_store();
    let missing = AccountId::try_from_u64(ACCOUNT_ID_FUNGIBLE_FAUCET_ON_CHAIN).unwrap();
    let r = store.transaction_inputs(&missing, 10, &vec![]);
    assert_eq!(r.err(), Some(DataStoreError::AccountNotFound));
}

#[test]
fn unknown_block_fails_with_block_not_found() {
    let (store, id) = sample_store();
    let r = store.transaction_inputs(&id, 11, &vec![]);
    assert_eq!(r.err(), Some(DataStoreError::BlockNotFound));
}

#[test]
fn unknown_note_fails_with_note_not_found() {
    let (store, id) = sample_store();
    let r = store.transaction_inputs(&id, 10, &vec![Word::new(999, 0, 0, 0)]);
    assert_eq!(r.err(), Some(DataStoreError::NoteNotFound));
}

#[test]
fn consumed_note_fails_with_note_already_consumed() {
    let (store, id) = sample_store();
    let r = store.transaction_inputs(
        &id,
        10,
        &vec![Word::new(100, 0, 0, 0), Word::new(200, 0, 0, 0)],
    );
    assert_eq!(r.err(), Some(DataStoreError::NoteAlreadyConsumed));
}

#[test]
fn note_consumed_after_block_ref_is_still_spendable() {
    let (store, id) = sample_store();
    // as of block 7 the second note is recorded (at 6) but consumed only at 8
    let r = store.transaction_inputs(&id, 7, &vec![Word::new(200, 0, 0, 0)]);
    assert!(r.is_ok());
}

#[test]
fn note_recorded_after_block_ref_fails_as_inconsistent() {
    let (store, id) = sample_store();
    let r = store.transaction_inputs(&id, 10, &vec![Word::new(300, 0, 0, 0)]);
    assert_eq!(r.err(), Some(DataStoreError::InvalidTransactionInputs));
}

#[test]
fn consistent_request_returns_full_bundle() {
    let (store, id) = sample_store();
    let t = store.transaction_inputs(&id, 10, &vec![Word::new(100, 0, 0, 0)]).unwrap();
    assert_eq!(t.account.id.value, id.value);
    assert_eq!(t.account.nonce, Felt::new(1));
    assert_eq!(t.block_ref, 10);
    assert_eq!(t.input_notes.len(), 1);
    assert_eq!(t.input_notes[0].id, Word::new(100, 0, 0, 0));
}

#[test]
fn boundary_trait_serves_the_same_answers() {
    let (store, id) = sample_store();
    let t = DataStore::get_transaction_inputs(&store, &id, 10, &vec![]).unwrap();
    assert_eq!(t.account.id.value, id.value);
    let missing = AccountId::try_from_u64(ACCOUNT_ID_FUNGIBLE_FAUCET_ON_CHAIN).unwrap();
    assert_eq!(
        DataStore::get_account_code(&store, &missing).err(),
        Some(DataStoreError::AccountNotFound)
    );
}

#[test]
fn account_code_lookup_returns_stored_code() {
    let (store, id) = sample_store();
    let code = store.account_code(&id).unwrap();
    assert_eq!(code.root, Word::new(3001, 3002, 3003, 3004));
}
