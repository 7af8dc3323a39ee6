use account_state::account::{build_account, build_assets, Asset, FungibleAsset};
use account_state::account_id::{AccountId, ACCOUNT_ID_FUNGIBLE_FAUCET_ON_CHAIN};
use account_state::delta::{
    build_account_delta, AccountDelta, AccountStorageDelta, AccountVaultDelta,
};
use account_state::errors::AccountError;
use account_state::word::{Felt, Word};

#[test]
fn non_empty_vault_delta_without_nonce_fails_construction() {
    let (asset_0, _) = build_assets();
    let vault_delta = AccountVaultDelta {
        added_assets: vec![asset_0],
        removed_assets: vec![],
    };
    let r = AccountDelta::new(AccountStorageDelta::new_empty(), vault_delta, None);
    assert_eq!(r.err(), Some(AccountError::DeltaNonceMissing));
}

#[test]
fn empty_delta_without_nonce_is_accepted() {
    let r = AccountDelta::new(
        AccountStorageDelta::new_empty(),
        AccountVaultDelta::new_empty(),
        None,
    );
    assert!(r.is_ok());
}

#[test]
fn non_empty_storage_delta_with_nonce_is_accepted() {
    let storage_delta = AccountStorageDelta {
        cleared_items: vec![0],
        updated_items: vec![],
    };
    let r = AccountDelta::new(storage_delta, AccountVaultDelta::new_empty(), Some(Felt::new(2)));
    assert!(r.is_ok());
}

#[test]
fn applying_delta_updates_slots_vault_and_nonce() {
    let (asset_0, asset_1) = build_assets();
    let account = build_account(
        vec![asset_0, asset_1],
        Felt::new(1),
        vec![Word::new(1, 0, 0, 0), Word::new(2, 0, 0, 0)],
    );
    let faucet = AccountId::try_from_u64(ACCOUNT_ID_FUNGIBLE_FAUCET_ON_CHAIN).unwrap();
    let removed = Asset::Fungible(FungibleAsset::new(faucet, 123).unwrap());
    let added = Asset::NonFungible(Word::new(40, 41, 42, 43));
    let storage_delta = AccountStorageDelta {
        cleared_items: vec![0],
        updated_items: vec![(5, Word::new(9, 9, 9, 9))],
    };
    let delta = build_account_delta(vec![added], vec![removed], Felt::new(2), storage_delta);

    let next = account.apply_delta(&delta).unwrap();
    assert_eq!(next.nonce, Felt::new(2));
    assert!(next.storage.slot_at(0).is_none());
    assert_eq!(next.storage.slot_at(1).unwrap().value, Word::new(2, 0, 0, 0));
    assert_eq!(next.storage.slot_at(5).unwrap().value, Word::new(9, 9, 9, 9));
    assert_eq!(next.vault.fungible_total(), 345);
    assert_eq!(next.vault.assets.len(), 2);
    // the prior account value is untouched
    assert_eq!(account.nonce, Felt::new(1));
    assert_eq!(account.vault.assets.len(), 2);
}

#[test]
fn applying_delta_with_stale_nonce_fails() {
    let (asset_0, _) = build_assets();
    let account = build_account(vec![asset_0], Felt::new(5), vec![]);
    let delta = build_account_delta(
        vec![Asset::NonFungible(Word::new(1, 1, 1, 1))],
        vec![],
        Felt::new(5),
        AccountStorageDelta::new_empty(),
    );
    assert_eq!(
        account.apply_delta(&delta).err(),
        Some(AccountError::DeltaNonceNotIncreasing)
    );
}

#[test]
fn applying_delta_removing_absent_asset_fails() {
    let account = build_account(vec![], Felt::new(1), vec![]);
    let delta = build_account_delta(
        vec![],
        vec![Asset::NonFungible(Word::new(1, 1, 1, 1))],
        Felt::new(2),
        AccountStorageDelta::new_empty(),
    );
    assert_eq!(
        account.apply_delta(&delta).err(),
        Some(AccountError::InvalidVaultUpdate)
    );
}

#[test]
fn applying_delta_adding_held_asset_fails() {
    let (asset_0, _) = build_assets();
    let account = build_account(vec![asset_0], Felt::new(1), vec![]);
    let delta = build_account_delta(
        vec![asset_0],
        vec![],
        Felt::new(2),
        AccountStorageDelta::new_empty(),
    );
    assert_eq!(
        account.apply_delta(&delta).err(),
        Some(AccountError::InvalidVaultUpdate)
    );
}
