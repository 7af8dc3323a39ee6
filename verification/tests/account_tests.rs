use account_state::account::{
    build_account, build_assets, generate_account_seed, make_account_code, mock_fungible_faucet,
    mock_non_fungible_faucet, non_fungible_asset_word, AccountSeedType, Asset, FungibleAsset,
    FUNGIBLE_FAUCET_INITIAL_BALANCE,
};
use account_state::account_id::{
    AccountId, AccountStorageType, AccountType, ACCOUNT_ID_FUNGIBLE_FAUCET_ON_CHAIN,
    ACCOUNT_ID_NON_FUNGIBLE_FAUCET_ON_CHAIN, ACCOUNT_ID_REGULAR_ACCOUNT_IMMUTABLE_CODE_ON_CHAIN,
};
use account_state::errors::AccountError;
use account_state::storage::{StorageMap, FAUCET_STORAGE_DATA_SLOT};
use account_state::word::{Felt, Word, FIELD_MODULUS};

#[test]
fn fungible_faucet_reserved_slot_empty_mode() {
    let account = mock_fungible_faucet(
        ACCOUNT_ID_FUNGIBLE_FAUCET_ON_CHAIN,
        Felt::zero(),
        true,
        make_account_code(),
    );
    let slot = account.storage.slot_at(FAUCET_STORAGE_DATA_SLOT).unwrap();
    assert_eq!(slot.value, Word::new(0, 0, 0, 0));
}

#[test]
fn fungible_faucet_reserved_slot_funded_mode() {
    let account = mock_fungible_faucet(
        ACCOUNT_ID_FUNGIBLE_FAUCET_ON_CHAIN,
        Felt::zero(),
        false,
        make_account_code(),
    );
    let slot = account.storage.slot_at(FAUCET_STORAGE_DATA_SLOT).unwrap();
    assert_eq!(slot.value, Word::new(0, 0, 0, FUNGIBLE_FAUCET_INITIAL_BALANCE));
    assert_ne!(FUNGIBLE_FAUCET_INITIAL_BALANCE, 0);
}

#[test]
fn non_fungible_faucet_reserved_slot_empty_mode() {
    let account = mock_non_fungible_faucet(
        ACCOUNT_ID_NON_FUNGIBLE_FAUCET_ON_CHAIN,
        Felt::zero(),
        true,
        make_account_code(),
    );
    let slot = account.storage.slot_at(FAUCET_STORAGE_DATA_SLOT).unwrap();
    assert_eq!(slot.value, StorageMap::new().root());
}

#[test]
fn non_fungible_faucet_reserved_slot_minted_mode() {
    let account = mock_non_fungible_faucet(
        ACCOUNT_ID_NON_FUNGIBLE_FAUCET_ON_CHAIN,
        Felt::zero(),
        false,
        make_account_code(),
    );
    let slot = account.storage.slot_at(FAUCET_STORAGE_DATA_SLOT).unwrap();
    let item = non_fungible_asset_word(ACCOUNT_ID_NON_FUNGIBLE_FAUCET_ON_CHAIN);
    let one_entry = StorageMap::with_entries(vec![(item, item)]).unwrap();
    assert_eq!(slot.value, one_entry.root());
    assert_ne!(slot.value, StorageMap::new().root());
}

#[test]
fn generated_seed_reconstructs_declared_types() {
    let code = make_account_code();
    let (id, seed) =
        generate_account_seed(AccountSeedType::FungibleFaucetValidInitialBalance, &code).unwrap();
    assert_eq!(id.account_type(), AccountType::FungibleFaucet);
    assert_eq!(id.storage_type(), AccountStorageType::OnChain);

    // reconstruction from the found seed agrees with the ground identity
    let account = mock_fungible_faucet(
        account_state::account_id::ACCOUNT_ID_REGULAR_ACCOUNT_UPDATABLE_CODE_ON_CHAIN,
        Felt::zero(),
        true,
        code,
    );
    let rebuilt = AccountId::new(seed, code.root(), account.storage.root()).unwrap();
    assert_eq!(rebuilt.value, id.value);
}

#[test]
fn seed_generation_is_deterministic() {
    let code = make_account_code();
    let first =
        generate_account_seed(AccountSeedType::RegularAccountUpdatableCodeOnChain, &code).unwrap();
    let second =
        generate_account_seed(AccountSeedType::RegularAccountUpdatableCodeOnChain, &code).unwrap();
    assert_eq!(first.0.value, second.0.value);
    assert_eq!(first.1, second.1);
}

#[test]
fn derived_identity_matches_reference_hash() {
    let code = make_account_code();
    let storage_root = Word::new(11, 12, 13, 14);
    let seed = Word::new(7, 0, 0, 0);
    let id = AccountId::new(seed, code.root(), storage_root).unwrap();

    let input: Vec<miden_crypto::Felt> = [
        7u64, 0, 0, 0, 3001, 3002, 3003, 3004, 11, 12, 13, 14,
    ]
    .iter()
    .map(|x| miden_crypto::Felt::new(*x))
    .collect();
    let digest: [u64; 4] = miden_crypto::hash::rpo::Rpo256::hash_elements(&input).into();
    assert_eq!(id.value, digest[0]);
}

#[test]
fn account_id_rejects_non_canonical_value() {
    assert_eq!(
        AccountId::try_from_u64(FIELD_MODULUS).err(),
        Some(AccountError::InvalidAccountId)
    );
    assert!(AccountId::try_from_u64(FIELD_MODULUS - 1).is_ok());
}

#[test]
fn fungible_asset_rejects_bad_issuer_or_amount() {
    let faucet = AccountId::try_from_u64(ACCOUNT_ID_FUNGIBLE_FAUCET_ON_CHAIN).unwrap();
    let regular = AccountId::try_from_u64(ACCOUNT_ID_REGULAR_ACCOUNT_IMMUTABLE_CODE_ON_CHAIN)
        .unwrap();
    assert!(FungibleAsset::new(faucet, 123).is_ok());
    assert_eq!(
        FungibleAsset::new(regular, 123).err(),
        Some(AccountError::InvalidFungibleAsset)
    );
    assert_eq!(
        FungibleAsset::new(faucet, u64::MAX).err(),
        Some(AccountError::InvalidFungibleAsset)
    );
}

#[test]
fn built_account_sums_assets_and_commits_three_slots() {
    let (asset_0, asset_1) = build_assets();
    let items = vec![
        Word::new(1, 0, 0, 0),
        Word::new(2, 0, 0, 0),
        Word::new(3, 0, 0, 0),
    ];
    let account = build_account(vec![asset_0, asset_1], Felt::new(1), items.clone());
    assert_eq!(account.vault.fungible_total(), 123 + 345);
    assert_eq!(account.nonce, Felt::new(1));
    assert_eq!(account.storage.slots.len(), 3);
    for (i, w) in items.iter().enumerate() {
        let slot = account.storage.slot_at(i as u8).unwrap();
        assert_eq!(slot.value, *w);
    }
    assert!(account.storage.slot_at(3).is_none());

    // the root is the commitment over exactly those three indexed slots
    let again = build_account(vec![asset_0, asset_1], Felt::new(1), items);
    assert_eq!(account.storage.root(), again.storage.root());
    let fewer = build_account(
        vec![asset_0, asset_1],
        Felt::new(1),
        vec![Word::new(1, 0, 0, 0), Word::new(2, 0, 0, 0)],
    );
    assert_ne!(account.storage.root(), fewer.storage.root());
}

#[test]
fn build_assets_names_two_distinct_faucets() {
    let (asset_0, asset_1) = build_assets();
    match (asset_0, asset_1) {
        (Asset::Fungible(a), Asset::Fungible(b)) => {
            assert_eq!(a.amount, 123);
            assert_eq!(b.amount, 345);
            assert_ne!(a.faucet_id.value, b.faucet_id.value);
        },
        _ => panic!("expected fungible assets"),
    }
}

#[test]
fn prepared_assets_render_decimal_words() {
    let (asset_0, asset_1) = build_assets();
    let rendered = account_state::account::prepare_assets(&vec![asset_0, asset_1]);
    assert_eq!(rendered.len(), 2);
    assert_eq!(
        rendered[0],
        format!("123.0.0.{}", ACCOUNT_ID_FUNGIBLE_FAUCET_ON_CHAIN)
    );
    assert_eq!(
        rendered[1],
        format!(
            "345.0.0.{}",
            account_state::account_id::ACCOUNT_ID_FUNGIBLE_FAUCET_ON_CHAIN_2
        )
    );
}

#[test]
fn prepared_word_renders_zero_elements() {
    let w = Word::new(0, 10, 7, 1000000);
    assert_eq!(account_state::account::prepare_word(&w), "0.10.7.1000000");
}

#[test]
fn vault_rejects_two_assets_from_one_faucet() {
    let faucet = AccountId::try_from_u64(ACCOUNT_ID_FUNGIBLE_FAUCET_ON_CHAIN).unwrap();
    let a = Asset::Fungible(FungibleAsset::new(faucet, 1).unwrap());
    let b = Asset::Fungible(FungibleAsset::new(faucet, 2).unwrap());
    let r = account_state::account::AssetVault::new(&vec![a, b]);
    assert_eq!(r.err(), Some(AccountError::DuplicateAsset));
}
