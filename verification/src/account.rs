//! Accounts: code, asset vault, storage and nonce, plus the fixture
//! builders used to construct mock accounts and derive their identities.

use vstd::prelude::*;

use crate::account_id::{
    account_type_of, candidate_of, derived_id_of, get_account_seed_single, id_valid,
    seed_satisfies, storage_type_of, AccountId, AccountStorageType, AccountType, MAX_SEED_ATTEMPTS, ACCOUNT_ID_FUNGIBLE_FAUCET_ON_CHAIN,
    ACCOUNT_ID_FUNGIBLE_FAUCET_ON_CHAIN_2, ACCOUNT_ID_NON_FUNGIBLE_FAUCET_ON_CHAIN,
    ACCOUNT_ID_REGULAR_ACCOUNT_IMMUTABLE_CODE_ON_CHAIN,
    ACCOUNT_ID_REGULAR_ACCOUNT_UPDATABLE_CODE_OFF_CHAIN,
    ACCOUNT_ID_REGULAR_ACCOUNT_UPDATABLE_CODE_ON_CHAIN,
};
use crate::commit::{entries_map_of, rpo_hash, rpo_hash_of, smt_root_of};
use crate::errors::AccountError;
use crate::storage::{
    storage_commitment, storage_item_0, storage_item_1, storage_item_2, storage_map_2,
    storage_map_2_entries, AccountStorage, SlotItem, StorageMap, StorageSlot, StorageSlotType,
    FAUCET_STORAGE_DATA_SLOT,
};
use crate::word::{word_from_seq, Felt, Word, FIELD_MODULUS};

verus! {

/// The issuance balance a fungible faucet fixture starts with when its
/// reserved slot is not deliberately left empty.
pub const FUNGIBLE_FAUCET_INITIAL_BALANCE: u64 = 50000;

/// The largest amount a fungible asset may carry.
pub const FUNGIBLE_ASSET_MAX_AMOUNT: u64 = 0x7FFF_FFFF_FFFF_FFFF;

/// Content-addressed account code, identified by its commitment root and
/// shareable read-only across accounts with identical code.
#[derive(Clone, Copy, PartialEq, Eq, Structural, Debug)]
pub struct AccountCode {
    pub root: Word,
}

impl AccountCode {
    pub fn new(root: Word) -> (r: AccountCode)
        ensures
            r.root == root,
    {
        AccountCode { root }
    }

    /// The code's commitment root.
    pub fn root(&self) -> (r: Word)
        ensures
            r == self.root,
    {
        self.root
    }
}

/// The fixed code module fixture accounts share.
pub fn make_account_code() -> (r: AccountCode)
    ensures
        r.root == (Word { e0: 3001u64, e1: 3002u64, e2: 3003u64, e3: 3004u64 }),
{
    AccountCode { root: Word::new(3001, 3002, 3003, 3004) }
}

/// An amount of a fungible asset, tied to the faucet that issued it.
#[derive(Clone, Copy, PartialEq, Eq, Structural, Debug)]
pub struct FungibleAsset {
    pub faucet_id: AccountId,
    pub amount: u64,
}

impl FungibleAsset {
    /// The issuer is a valid fungible-faucet identity and the amount is
    /// representable.
    pub open spec fn wf(self) -> bool {
        &&& self.faucet_id.wf()
        &&& account_type_of(self.faucet_id.value) == AccountType::FungibleFaucet
        &&& self.amount <= FUNGIBLE_ASSET_MAX_AMOUNT
    }

    /// Accepts an issuer and amount if the issuer is a fungible faucet and
    /// the amount is representable.
    pub fn new(faucet_id: AccountId, amount: u64) -> (r: Result<FungibleAsset, AccountError>)
        ensures
            r is Ok <==> (FungibleAsset { faucet_id, amount }).wf(),
            r matches Ok(a) ==> a == (FungibleAsset { faucet_id, amount }),
            r is Err ==> r == Err::<FungibleAsset, AccountError>(AccountError::InvalidFungibleAsset),
    {
        if faucet_id.value < FIELD_MODULUS
            && crate::account_id::extract_account_type(faucet_id.value)
                == AccountType::FungibleFaucet && amount <= FUNGIBLE_ASSET_MAX_AMOUNT {
            Ok(FungibleAsset { faucet_id, amount })
        } else {
            Err(AccountError::InvalidFungibleAsset)
        }
    }
}

/// One asset held by a vault: a fungible amount or a non-fungible item's
/// commitment word.
#[derive(Clone, Copy, PartialEq, Eq, Structural, Debug)]
pub enum Asset {
    Fungible(FungibleAsset),
    NonFungible(Word),
}

/// A fungible asset is well-formed as above; a non-fungible word carries no
/// further constraint here.
pub open spec fn asset_wf(a: Asset) -> bool {
    match a {
        Asset::Fungible(f) => f.wf(),
        Asset::NonFungible(_) => true,
    }
}

/// Two assets stand for the same holding: fungible ones from the same
/// faucet, or the same non-fungible item.
pub open spec fn same_asset_key(a: Asset, b: Asset) -> bool {
    match (a, b) {
        (Asset::Fungible(x), Asset::Fungible(y)) => x.faucet_id == y.faucet_id,
        (Asset::NonFungible(x), Asset::NonFungible(y)) => x == y,
        _ => false,
    }
}

/// No two entries stand for the same holding.
pub open spec fn distinct_assets(s: Seq<Asset>) -> bool {
    forall|i: int, j: int| 0 <= i < j < s.len() ==> !same_asset_key(s[i], s[j])
}

/// The total fungible amount a sequence of assets carries.
pub open spec fn fungible_sum(s: Seq<Asset>) -> int
    decreases s.len(),
{
    if s.len() == 0 {
        0
    } else {
        fungible_sum(s.drop_last()) + (match s.last() {
            Asset::Fungible(f) => f.amount as int,
            Asset::NonFungible(_) => 0,
        })
    }
}

/// A prefix never carries more than the whole sequence.
pub proof fn lemma_fungible_sum_take_le(s: Seq<Asset>, k: int)
    requires
        0 <= k <= s.len(),
    ensures
        0 <= fungible_sum(s.take(k)) <= fungible_sum(s),
    decreases s.len() - k,
{
    if k == s.len() {
        assert(s.take(k) =~= s);
        lemma_fungible_sum_nonneg(s);
    } else {
        lemma_fungible_sum_take_le(s, k + 1);
        assert(s.take(k + 1).drop_last() =~= s.take(k));
        assert(s.take(k + 1).last() == s[k]);
        lemma_fungible_sum_nonneg(s.take(k));
    }
}

/// The total is never negative.
pub proof fn lemma_fungible_sum_nonneg(s: Seq<Asset>)
    ensures
        fungible_sum(s) >= 0,
    decreases s.len(),
{
    if s.len() > 0 {
        lemma_fungible_sum_nonneg(s.drop_last());
    }
}

/// An account's asset holdings, one entry per distinct asset.
#[derive(Clone, Debug)]
pub struct AssetVault {
    pub assets: Vec<Asset>,
}

impl AssetVault {
    pub open spec fn wf(self) -> bool {
        &&& distinct_assets(self.assets@)
        &&& forall|i: int| 0 <= i < self.assets@.len() ==> asset_wf(#[trigger] self.assets@[i])
    }

    /// Accepts a collection in which every asset is well-formed and no two
    /// entries stand for the same holding.
    pub fn new(assets: &Vec<Asset>) -> (r: Result<AssetVault, AccountError>)
        ensures
            r is Ok <==> distinct_assets(assets@) && (forall|i: int|
                0 <= i < assets@.len() ==> asset_wf(#[trigger] assets@[i])),
            r matches Ok(v) ==> v.assets@ == assets@ && v.wf(),
    {
        let n = assets.len();
        let mut i: usize = 0;
        while i < n
            invariant
                n == assets@.len(),
                i <= n,
                forall|a: int| 0 <= a < i ==> asset_wf(#[trigger] assets@[a]),
            decreases n - i,
        {
            let ok = match assets[i] {
                Asset::Fungible(f) => {
                    f.faucet_id.value < FIELD_MODULUS
                        && crate::account_id::extract_account_type(f.faucet_id.value)
                            == AccountType::FungibleFaucet && f.amount
                        <= FUNGIBLE_ASSET_MAX_AMOUNT
                },
                Asset::NonFungible(_) => true,
            };
            if !ok {
                proof {
                    assert(!asset_wf(assets@[i as int]));
                }
                return Err(AccountError::InvalidFungibleAsset);
            }
            i += 1;
        }
        let mut a: usize = 0;
        while a < n
            invariant
                n == assets@.len(),
                a <= n,
                forall|x: int, y: int| 0 <= x < y < n && x < a
                    ==> !same_asset_key(assets@[x], assets@[y]),
            decreases n - a,
        {
            let mut b: usize = a + 1;
            while b < n
                invariant
                    n == assets@.len(),
                    a < b <= n,
                    forall|y: int| a < y < b ==> !same_asset_key(assets@[a as int], assets@[y]),
                decreases n - b,
            {
                let dup = match (assets[a], assets[b]) {
                    (Asset::Fungible(x), Asset::Fungible(y)) => x.faucet_id == y.faucet_id,
                    (Asset::NonFungible(x), Asset::NonFungible(y)) => x == y,
                    _ => false,
                };
                if dup {
                    proof {
                        assert(!distinct_assets(assets@)) by {
                            if distinct_assets(assets@) {
                                assert(!same_asset_key(assets@[a as int], assets@[b as int]));
                            }
                        }
                    }
                    return Err(AccountError::DuplicateAsset);
                }
                b += 1;
            }
            a += 1;
        }
        let mut held: Vec<Asset> = Vec::new();
        let mut k: usize = 0;
        while k < n
            invariant
                n == assets@.len(),
                k <= n,
                held@ == assets@.take(k as int),
            decreases n - k,
        {
            held.push(assets[k]);
            proof {
                assert(assets@.take(k + 1) =~= assets@.take(k as int).push(assets@[k as int]));
            }
            k += 1;
        }
        proof {
            assert(assets@.take(n as int) =~= assets@);
        }
        Ok(AssetVault { assets: held })
    }

    /// The total fungible amount held, across all issuing faucets.
    pub fn fungible_total(&self) -> (r: u64)
        requires
            fungible_sum(self.assets@) <= u64::MAX,
        ensures
            r == fungible_sum(self.assets@),
    {
        let n = self.assets.len();
        let mut total: u64 = 0;
        let mut i: usize = 0;
        while i < n
            invariant
                n == self.assets@.len(),
                i <= n,
                fungible_sum(self.assets@) <= u64::MAX,
                total == fungible_sum(self.assets@.take(i as int)),
            decreases n - i,
        {
            proof {
                lemma_fungible_sum_take_le(self.assets@, i + 1);
                assert(self.assets@.take(i + 1).drop_last() =~= self.assets@.take(i as int));
                assert(self.assets@.take(i + 1).last() == self.assets@[i as int]);
            }
            match self.assets[i] {
                Asset::Fungible(f) => {
                    total = total + f.amount;
                },
                Asset::NonFungible(_) => {},
            }
            i += 1;
        }
        proof {
            assert(self.assets@.take(n as int) =~= self.assets@);
        }
        total
    }
}

impl Default for AssetVault {
    /// An empty vault.
    fn default() -> (r: AssetVault)
        ensures
            r.assets@.len() == 0,
            r.wf(),
    {
        AssetVault { assets: Vec::new() }
    }
}

/// An account: identity, asset vault, slot storage, content-addressed code,
/// and nonce. Owns storage and vault by value; state transitions produce new
/// values rather than mutating in place.
#[derive(Clone, Debug)]
pub struct Account {
    pub id: AccountId,
    pub vault: AssetVault,
    pub storage: AccountStorage,
    pub code: AccountCode,
    pub nonce: Felt,
}

impl Account {
    pub open spec fn wf(self) -> bool {
        &&& self.id.wf()
        &&& self.vault.wf()
        &&& self.storage.wf()
        &&& self.nonce.wf()
    }

    /// Assembles an account from its parts.
    pub fn from_parts(
        id: AccountId,
        vault: AssetVault,
        storage: AccountStorage,
        code: AccountCode,
        nonce: Felt,
    ) -> (r: Account)
        ensures
            r == (Account { id, vault, storage, code, nonce }),
    {
        Account { id, vault, storage, code, nonce }
    }
}

/// The commitment word standing for the single minted item of the
/// non-fungible faucet fixture.
pub fn non_fungible_asset_word(faucet_id: u64) -> (r: Word)
    ensures
        r@ == rpo_hash_of(seq![faucet_id, 1u64, 2u64, 3u64]),
        r.wf(),
{
    let mut input: Vec<u64> = Vec::new();
    input.push(faucet_id);
    input.push(1);
    input.push(2);
    input.push(3);
    proof {
        assert(input@ =~= seq![faucet_id, 1u64, 2u64, 3u64]);
    }
    rpo_hash(&input)
}

/// The single reserved slot a fungible faucet fixture holds.
pub open spec fn fungible_faucet_slots(empty_reserved_slot: bool) -> Seq<SlotItem> {
    seq![
        (SlotItem {
            index: FAUCET_STORAGE_DATA_SLOT,
            slot: (StorageSlot {
                slot_type: StorageSlotType::Value { value_arity: 0u8 },
                value: (Word {
                    e0: 0u64,
                    e1: 0u64,
                    e2: 0u64,
                    e3: (if empty_reserved_slot {
                        0u64
                    } else {
                        FUNGIBLE_FAUCET_INITIAL_BALANCE
                    }),
                }),
            }),
        }),
    ]
}

/// The minted-item map a non-fungible faucet fixture commits: empty, or
/// exactly the one fixture item.
pub open spec fn non_fungible_faucet_map(empty_reserved_slot: bool) -> Map<Seq<u64>, Seq<u64>> {
    if empty_reserved_slot {
        Map::empty()
    } else {
        Map::empty().insert(
            rpo_hash_of(seq![ACCOUNT_ID_NON_FUNGIBLE_FAUCET_ON_CHAIN, 1u64, 2u64, 3u64]),
            rpo_hash_of(seq![ACCOUNT_ID_NON_FUNGIBLE_FAUCET_ON_CHAIN, 1u64, 2u64, 3u64]),
        )
    }
}

/// The single reserved slot a non-fungible faucet fixture holds.
pub open spec fn non_fungible_faucet_slots(empty_reserved_slot: bool) -> Seq<SlotItem> {
    seq![
        (SlotItem {
            index: FAUCET_STORAGE_DATA_SLOT,
            slot: (StorageSlot {
                slot_type: StorageSlotType::MapRoot,
                value: word_from_seq(smt_root_of(non_fungible_faucet_map(empty_reserved_slot))),
            }),
        }),
    ]
}

/// The three fixture slots a regular mock account holds.
pub open spec fn mock_account_slots() -> Seq<SlotItem> {
    seq![
        (SlotItem {
            index: 20u8,
            slot: (StorageSlot {
                slot_type: StorageSlotType::Value { value_arity: 0u8 },
                value: (Word { e0: 1u64, e1: 2u64, e2: 3u64, e3: 4u64 }),
            }),
        }),
        (SlotItem {
            index: 30u8,
            slot: (StorageSlot {
                slot_type: StorageSlotType::Value { value_arity: 0u8 },
                value: (Word { e0: 5u64, e1: 6u64, e2: 7u64, e3: 8u64 }),
            }),
        }),
        (SlotItem {
            index: 40u8,
            slot: (StorageSlot {
                slot_type: StorageSlotType::MapRoot,
                value: word_from_seq(smt_root_of(entries_map_of(storage_map_2_entries()))),
            }),
        }),
    ]
}

/// A fungible faucet account whose reserved slot holds the issuance word
/// `[0, 0, 0, balance]`. With `empty_reserved_slot` the balance is
/// deliberately zero, a state downstream validation must reject; otherwise
/// it is the configured initial balance.
pub fn mock_fungible_faucet(
    account_id: u64,
    nonce: Felt,
    empty_reserved_slot: bool,
    code: AccountCode,
) -> (r: Account)
    requires
        id_valid(account_id),
    ensures
        r.id.value == account_id,
        r.nonce == nonce,
        r.code == code,
        r.vault.assets@.len() == 0,
        r.storage.wf(),
        r.storage.slots@ == fungible_faucet_slots(empty_reserved_slot),
        r.storage.maps@.len() == 0,
{
    let initial_balance: u64 = if empty_reserved_slot {
        0
    } else {
        FUNGIBLE_FAUCET_INITIAL_BALANCE
    };
    let mut slots: Vec<SlotItem> = Vec::new();
    slots.push(SlotItem {
        index: FAUCET_STORAGE_DATA_SLOT,
        slot: StorageSlot::new_value(Word::new(0, 0, 0, initial_balance)),
    });
    proof {
        assert(slots@ =~= fungible_faucet_slots(empty_reserved_slot));
    }
    let storage = AccountStorage::new(slots, Vec::new()).unwrap();
    let id = AccountId::try_from_u64(account_id).unwrap();
    Account::from_parts(id, AssetVault::default(), storage, code, nonce)
}

/// A non-fungible faucet account whose reserved slot holds the root of the
/// faucet's minted-item map. With `empty_reserved_slot` the map is empty, a
/// state downstream validation must reject; otherwise it holds exactly one
/// minted item.
pub fn mock_non_fungible_faucet(
    account_id: u64,
    nonce: Felt,
    empty_reserved_slot: bool,
    code: AccountCode,
) -> (r: Account)
    requires
        id_valid(account_id),
    ensures
        r.id.value == account_id,
        r.nonce == nonce,
        r.code == code,
        r.vault.assets@.len() == 0,
        r.storage.wf(),
        r.storage.slots@ == non_fungible_faucet_slots(empty_reserved_slot),
        r.storage.maps@.len() == 0,
{
    let mut entries: Vec<(Word, Word)> = Vec::new();
    if !empty_reserved_slot {
        let item = non_fungible_asset_word(ACCOUNT_ID_NON_FUNGIBLE_FAUCET_ON_CHAIN);
        entries.push((item, item));
    }
    let nft_tree = StorageMap::with_entries(entries).unwrap();
    let root = nft_tree.root();
    proof {
        if !empty_reserved_slot {
            let e = nft_tree.entries@;
            assert(e.len() == 1);
            assert(e.drop_last().len() == 0);
            assert(entries_map_of(e.drop_last()) == Map::<Seq<u64>, Seq<u64>>::empty());
            assert(e.last() == e[0]);
            assert(entries_map_of(e) == Map::<Seq<u64>, Seq<u64>>::empty().insert(
                e[0].0@,
                e[0].1@,
            ));
        }
        assert(entries_map_of(nft_tree.entries@) == non_fungible_faucet_map(empty_reserved_slot));
        assert(root@ == smt_root_of(non_fungible_faucet_map(empty_reserved_slot)));
        assert(root == word_from_seq(smt_root_of(non_fungible_faucet_map(empty_reserved_slot))))
            by {
            let sr = smt_root_of(non_fungible_faucet_map(empty_reserved_slot));
            assert(root@[0] == sr[0] && root@[1] == sr[1] && root@[2] == sr[2]
                && root@[3] == sr[3]);
        }
    }
    let mut slots: Vec<SlotItem> = Vec::new();
    slots.push(SlotItem {
        index: FAUCET_STORAGE_DATA_SLOT,
        slot: StorageSlot::new_map(root),
    });
    proof {
        assert(slots@ =~= non_fungible_faucet_slots(empty_reserved_slot));
    }
    let storage = AccountStorage::new(slots, Vec::new()).unwrap();
    let id = AccountId::try_from_u64(account_id).unwrap();
    Account::from_parts(id, AssetVault::default(), storage, code, nonce)
}

/// A regular account fixture holding the three fixture storage slots and an
/// empty vault.
pub fn mock_account(account_id: u64, nonce: Felt, code: AccountCode) -> (r: Account)
    requires
        id_valid(account_id),
    ensures
        r.id.value == account_id,
        r.nonce == nonce,
        r.code == code,
        r.vault.assets@.len() == 0,
        r.storage.wf(),
        r.storage.slots@ == mock_account_slots(),
        r.storage.maps@.len() == 1,
        r.storage.maps@[0].entries@ == storage_map_2_entries(),
        r.storage.maps@[0].root@ == smt_root_of(entries_map_of(storage_map_2_entries())),
{
    let mut slots: Vec<SlotItem> = Vec::new();
    slots.push(storage_item_0());
    slots.push(storage_item_1());
    let item_2 = storage_item_2();
    slots.push(item_2);
    proof {
        assert(item_2.slot.value
            == word_from_seq(smt_root_of(entries_map_of(storage_map_2_entries())))) by {
            let sr = smt_root_of(entries_map_of(storage_map_2_entries()));
            assert(item_2.slot.value@[0] == sr[0] && item_2.slot.value@[1] == sr[1]
                && item_2.slot.value@[2] == sr[2] && item_2.slot.value@[3] == sr[3]);
        }
        assert(slots@ =~= mock_account_slots());
    }
    let mut maps: Vec<StorageMap> = Vec::new();
    maps.push(storage_map_2());
    let storage = AccountStorage::new(slots, maps).unwrap();
    let id = AccountId::try_from_u64(account_id).unwrap();
    Account::from_parts(id, AssetVault::default(), storage, code, nonce)
}

/// Which mock construction path a seed-generation request targets. A
/// test-harness concept, not a production interface.
pub enum AccountSeedType {
    FungibleFaucetInvalidInitialBalance,
    FungibleFaucetValidInitialBalance,
    NonFungibleFaucetInvalidReservedSlot,
    NonFungibleFaucetValidReservedSlot,
    RegularAccountUpdatableCodeOnChain,
    RegularAccountUpdatableCodeOffChain,
}

/// The account type each seed-generation path declares while grinding.
pub open spec fn seed_type_account_type(t: AccountSeedType) -> AccountType {
    match t {
        AccountSeedType::FungibleFaucetInvalidInitialBalance => AccountType::FungibleFaucet,
        AccountSeedType::FungibleFaucetValidInitialBalance => AccountType::FungibleFaucet,
        AccountSeedType::NonFungibleFaucetInvalidReservedSlot => AccountType::NonFungibleFaucet,
        AccountSeedType::NonFungibleFaucetValidReservedSlot => AccountType::NonFungibleFaucet,
        AccountSeedType::RegularAccountUpdatableCodeOnChain
            => AccountType::RegularAccountUpdatableCode,
        AccountSeedType::RegularAccountUpdatableCodeOffChain
            => AccountType::RegularAccountUpdatableCode,
    }
}

/// The storage commitment of the mock account each seed-generation path
/// builds.
pub open spec fn seed_type_storage_root(t: AccountSeedType) -> Seq<u64> {
    match t {
        AccountSeedType::FungibleFaucetInvalidInitialBalance => storage_commitment(
            fungible_faucet_slots(false),
        ),
        AccountSeedType::FungibleFaucetValidInitialBalance => storage_commitment(
            fungible_faucet_slots(true),
        ),
        AccountSeedType::NonFungibleFaucetInvalidReservedSlot => storage_commitment(
            non_fungible_faucet_slots(false),
        ),
        AccountSeedType::NonFungibleFaucetValidReservedSlot => storage_commitment(
            non_fungible_faucet_slots(true),
        ),
        AccountSeedType::RegularAccountUpdatableCodeOnChain => storage_commitment(
            mock_account_slots(),
        ),
        AccountSeedType::RegularAccountUpdatableCodeOffChain => storage_commitment(
            mock_account_slots(),
        ),
    }
}

/// Builds the mock account the requested path describes, grinds a seed for
/// its code and storage roots with the declared types, and reconstructs the
/// identity from that seed. Success occurs exactly when the bounded search
/// from the all-zero initial seed finds a satisfying candidate for the
/// path's code and storage roots; the returned seed is then the first such
/// candidate and the identity is the one its derivation grounds, so two
/// callers with the same path and code obtain the same pair. Otherwise the
/// search is exhausted, derivation fails, and no identity is produced.
pub fn generate_account_seed(account_seed_type: AccountSeedType, code: &AccountCode) -> (r: Result<
    (AccountId, Word),
    AccountError,
>)
    ensures
        ({
            let init = (Word { e0: 0u64, e1: 0u64, e2: 0u64, e3: 0u64 });
            let cr = code.root@;
            let sr = seed_type_storage_root(account_seed_type);
            let at = seed_type_account_type(account_seed_type);
            &&& (r is Ok <==> exists|t: u64|
                t < MAX_SEED_ATTEMPTS && seed_satisfies(
                    (#[trigger] candidate_of(init, t))@,
                    cr,
                    sr,
                    at,
                    AccountStorageType::OnChain,
                ))
            &&& (r matches Ok((id, seed)) ==> {
                &&& seed_satisfies(seed@, cr, sr, at, AccountStorageType::OnChain)
                &&& id.value == derived_id_of(seed@, cr, sr)
                &&& id.wf()
                &&& account_type_of(id.value) == at
                &&& storage_type_of(id.value) == AccountStorageType::OnChain
                &&& exists|t: u64|
                    t < MAX_SEED_ATTEMPTS && seed == candidate_of(init, t) && (forall|u: u64|
                        u < t ==> !seed_satisfies(
                            (#[trigger] candidate_of(init, u))@,
                            cr,
                            sr,
                            at,
                            AccountStorageType::OnChain,
                        ))
            })
            &&& (r is Err ==> r == Err::<(AccountId, Word), AccountError>(
                AccountError::SeedGrindExhausted,
            ))
        }),
{
    let account_type = match account_seed_type {
        AccountSeedType::FungibleFaucetInvalidInitialBalance => AccountType::FungibleFaucet,
        AccountSeedType::FungibleFaucetValidInitialBalance => AccountType::FungibleFaucet,
        AccountSeedType::NonFungibleFaucetInvalidReservedSlot => AccountType::NonFungibleFaucet,
        AccountSeedType::NonFungibleFaucetValidReservedSlot => AccountType::NonFungibleFaucet,
        AccountSeedType::RegularAccountUpdatableCodeOnChain
            => AccountType::RegularAccountUpdatableCode,
        AccountSeedType::RegularAccountUpdatableCodeOffChain
            => AccountType::RegularAccountUpdatableCode,
    };
    let account = match account_seed_type {
        AccountSeedType::FungibleFaucetInvalidInitialBalance => mock_fungible_faucet(
            ACCOUNT_ID_REGULAR_ACCOUNT_UPDATABLE_CODE_ON_CHAIN,
            Felt::zero(),
            false,
            *code,
        ),
        AccountSeedType::FungibleFaucetValidInitialBalance => mock_fungible_faucet(
            ACCOUNT_ID_REGULAR_ACCOUNT_UPDATABLE_CODE_ON_CHAIN,
            Felt::zero(),
            true,
            *code,
        ),
        AccountSeedType::NonFungibleFaucetInvalidReservedSlot => mock_non_fungible_faucet(
            ACCOUNT_ID_REGULAR_ACCOUNT_UPDATABLE_CODE_ON_CHAIN,
            Felt::zero(),
            false,
            *code,
        ),
        AccountSeedType::NonFungibleFaucetValidReservedSlot => mock_non_fungible_faucet(
            ACCOUNT_ID_REGULAR_ACCOUNT_UPDATABLE_CODE_ON_CHAIN,
            Felt::zero(),
            true,
            *code,
        ),
        AccountSeedType::RegularAccountUpdatableCodeOnChain => mock_account(
            ACCOUNT_ID_REGULAR_ACCOUNT_UPDATABLE_CODE_OFF_CHAIN,
            Felt::one(),
            *code,
        ),
        AccountSeedType::RegularAccountUpdatableCodeOffChain => mock_account(
            ACCOUNT_ID_REGULAR_ACCOUNT_UPDATABLE_CODE_OFF_CHAIN,
            Felt::one(),
            *code,
        ),
    };
    let code_root = code.root();
    let storage_root = account.storage.root();
    proof {
        match account_seed_type {
            AccountSeedType::FungibleFaucetInvalidInitialBalance => {
                assert(account.storage.slots@ == fungible_faucet_slots(false));
            },
            AccountSeedType::FungibleFaucetValidInitialBalance => {
                assert(account.storage.slots@ == fungible_faucet_slots(true));
            },
            AccountSeedType::NonFungibleFaucetInvalidReservedSlot => {
                assert(account.storage.slots@ == non_fungible_faucet_slots(false));
            },
            AccountSeedType::NonFungibleFaucetValidReservedSlot => {
                assert(account.storage.slots@ == non_fungible_faucet_slots(true));
            },
            AccountSeedType::RegularAccountUpdatableCodeOnChain => {
                assert(account.storage.slots@ == mock_account_slots());
            },
            AccountSeedType::RegularAccountUpdatableCodeOffChain => {
                assert(account.storage.slots@ == mock_account_slots());
            },
        }
        assert(storage_root@ == seed_type_storage_root(account_seed_type));
        assert(account_type == seed_type_account_type(account_seed_type));
    }
    let seed = match get_account_seed_single(
        Word::zeros(),
        account_type,
        AccountStorageType::OnChain,
        code_root,
        storage_root,
    ) {
        Ok(seed) => seed,
        Err(e) => {
            return Err(e);
        },
    };
    proof {
        assert(id_valid(derived_id_of(seed@, code_root@, storage_root@)));
    }
    let account_id = AccountId::new(seed, code_root, storage_root).unwrap();
    Ok((account_id, seed))
}

/// A regular account assembled from the given assets, nonce, and value
/// words placed at consecutive slot indices starting at 0.
pub fn build_account(assets: Vec<Asset>, nonce: Felt, storage_items: Vec<Word>) -> (r: Account)
    requires
        distinct_assets(assets@),
        forall|i: int| 0 <= i < assets@.len() ==> asset_wf(#[trigger] assets@[i]),
        storage_items@.len() <= 256,
    ensures
        r.id.value == ACCOUNT_ID_REGULAR_ACCOUNT_IMMUTABLE_CODE_ON_CHAIN,
        r.nonce == nonce,
        r.vault.assets@ == assets@,
        r.vault.wf(),
        r.storage.wf(),
        r.storage.maps@.len() == 0,
        r.storage.slots@.len() == storage_items@.len(),
        forall|j: int| 0 <= j < storage_items@.len() ==> (#[trigger] r.storage.slots@[j]) == (
        SlotItem {
            index: j as u8,
            slot: (StorageSlot {
                slot_type: StorageSlotType::Value { value_arity: 0u8 },
                value: storage_items@[j],
            }),
        }),
{
    let id = AccountId::try_from_u64(ACCOUNT_ID_REGULAR_ACCOUNT_IMMUTABLE_CODE_ON_CHAIN).unwrap();
    let code = make_account_code();
    let vault = AssetVault::new(&assets).unwrap();
    let n = storage_items.len();
    let mut slot_items: Vec<SlotItem> = Vec::new();
    let mut i: usize = 0;
    while i < n
        invariant
            n == storage_items@.len() <= 256,
            i <= n,
            slot_items@.len() == i,
            forall|j: int| 0 <= j < i ==> (#[trigger] slot_items@[j]) == (SlotItem {
                index: j as u8,
                slot: (StorageSlot {
                    slot_type: StorageSlotType::Value { value_arity: 0u8 },
                    value: storage_items@[j],
                }),
            }),
        decreases n - i,
    {
        slot_items.push(SlotItem {
            index: i as u8,
            slot: StorageSlot::new_value(storage_items[i]),
        });
        i += 1;
    }
    proof {
        assert(crate::storage::unique_indices(slot_items@)) by {
            assert forall|x: int, y: int| 0 <= x < y < slot_items@.len()
                implies slot_items@[x].index != slot_items@[y].index by {
                assert(slot_items@[x].index == x as u8);
                assert(slot_items@[y].index == y as u8);
            }
        }
    }
    let storage = AccountStorage::new(slot_items, Vec::new()).unwrap();
    Account::from_parts(id, vault, storage, code, nonce)
}

/// Two fungible assets, 123 and 345 units, issued by two distinct fixture
/// faucets.
pub fn build_assets() -> (r: (Asset, Asset))
    ensures
        r.0 == Asset::Fungible(FungibleAsset {
            faucet_id: (AccountId { value: ACCOUNT_ID_FUNGIBLE_FAUCET_ON_CHAIN }),
            amount: 123u64,
        }),
        r.1 == Asset::Fungible(FungibleAsset {
            faucet_id: (AccountId { value: ACCOUNT_ID_FUNGIBLE_FAUCET_ON_CHAIN_2 }),
            amount: 345u64,
        }),
{
    proof {
        lemma_fixture_faucet_ids();
    }
    let faucet_id_0 = AccountId::try_from_u64(ACCOUNT_ID_FUNGIBLE_FAUCET_ON_CHAIN).unwrap();
    let asset_0 = Asset::Fungible(FungibleAsset::new(faucet_id_0, 123).unwrap());
    let faucet_id_1 = AccountId::try_from_u64(ACCOUNT_ID_FUNGIBLE_FAUCET_ON_CHAIN_2).unwrap();
    let asset_1 = Asset::Fungible(FungibleAsset::new(faucet_id_1, 345).unwrap());
    (asset_0, asset_1)
}

/// The decimal digits of a number, as ASCII bytes, most significant first.
pub open spec fn dec_digits_of(n: nat) -> Seq<u8>
    decreases n,
{
    if n < 10 {
        seq![(n + 48) as u8]
    } else {
        dec_digits_of(n / 10).push(((n % 10) + 48) as u8)
    }
}

/// Decimal digits are ASCII.
pub proof fn lemma_dec_digits_ascii(n: nat)
    ensures
        forall|i: int| 0 <= i < dec_digits_of(n).len()
            ==> 48 <= #[trigger] dec_digits_of(n)[i] < 58,
    decreases n,
{
    if n >= 10 {
        lemma_dec_digits_ascii(n / 10);
        assert forall|i: int| 0 <= i < dec_digits_of(n).len()
            implies 48 <= #[trigger] dec_digits_of(n)[i] < 58 by {
            if i < dec_digits_of(n).len() - 1 {
                assert(dec_digits_of(n)[i] == dec_digits_of(n / 10)[i]);
            } else {
                assert(n % 10 < 10);
            }
        }
    }
}

/// Appends a number's decimal digits.
fn push_dec_digits(n: u64, out: &mut Vec<u8>)
    ensures
        final(out)@ == old(out)@ + dec_digits_of(n as nat),
    decreases n,
{
    if n < 10 {
        out.push(n as u8 + 48);
        proof {
            assert(final(out)@ =~= old(out)@ + dec_digits_of(n as nat));
        }
    } else {
        push_dec_digits(n / 10, out);
        out.push((n % 10) as u8 + 48);
        proof {
            assert(final(out)@ =~= old(out)@ + dec_digits_of(n as nat));
        }
    }
}

/// The rendering of a word: its four elements in decimal, separated by
/// dots.
pub open spec fn word_text_bytes(w: Word) -> Seq<u8> {
    dec_digits_of(w.e0 as nat) + seq![46u8] + dec_digits_of(w.e1 as nat) + seq![46u8]
        + dec_digits_of(w.e2 as nat) + seq![46u8] + dec_digits_of(w.e3 as nat)
}

/// The same rendering as characters.
pub open spec fn word_text(w: Word) -> Seq<char> {
    word_text_bytes(w).map_values(|b: u8| b as char)
}

/// Relies on `String::from_utf8` of alloc: bytes below 128 are valid UTF-8
/// and decode to the characters with the same values.
#[verifier::external_body]
fn ascii_to_string(bytes: Vec<u8>) -> (r: String)
    requires
        forall|i: int| 0 <= i < bytes@.len() ==> bytes@[i] < 128,
    ensures
        r@ == bytes@.map_values(|b: u8| b as char),
{
    String::from_utf8(bytes).unwrap()
}

/// Renders a word as its four elements in decimal, separated by dots.
pub fn prepare_word(w: &Word) -> (r: String)
    ensures
        r@ == word_text(*w),
{
    let mut bytes: Vec<u8> = Vec::new();
    push_dec_digits(w.e0, &mut bytes);
    bytes.push(46);
    push_dec_digits(w.e1, &mut bytes);
    bytes.push(46);
    push_dec_digits(w.e2, &mut bytes);
    bytes.push(46);
    push_dec_digits(w.e3, &mut bytes);
    proof {
        assert(bytes@ =~= word_text_bytes(*w));
        lemma_dec_digits_ascii(w.e0 as nat);
        lemma_dec_digits_ascii(w.e1 as nat);
        lemma_dec_digits_ascii(w.e2 as nat);
        lemma_dec_digits_ascii(w.e3 as nat);
        assert forall|i: int| 0 <= i < bytes@.len() implies bytes@[i] < 128 by {
            assert(bytes@ == word_text_bytes(*w));
        }
    }
    ascii_to_string(bytes)
}

/// The word standing for an asset: a fungible amount with its issuer, or
/// the non-fungible item's commitment itself.
pub open spec fn asset_word_of(a: Asset) -> Word {
    match a {
        Asset::Fungible(f) => Word { e0: f.amount, e1: 0u64, e2: 0u64, e3: f.faucet_id.value },
        Asset::NonFungible(w) => w,
    }
}

/// Encodes an asset as a word.
pub fn word_from_asset(a: Asset) -> (r: Word)
    ensures
        r == asset_word_of(a),
{
    match a {
        Asset::Fungible(f) => Word::new(f.amount, 0, 0, f.faucet_id.value),
        Asset::NonFungible(w) => w,
    }
}

/// Renders each of a note's assets as a dot-separated decimal word.
pub fn prepare_assets(note_assets: &Vec<Asset>) -> (r: Vec<String>)
    ensures
        r@.len() == note_assets@.len(),
        forall|i: int| 0 <= i < note_assets@.len() ==> (#[trigger] r@[i])@ == word_text(
            asset_word_of(note_assets@[i]),
        ),
{
    let mut assets: Vec<String> = Vec::new();
    let n = note_assets.len();
    let mut i: usize = 0;
    while i < n
        invariant
            n == note_assets@.len(),
            i <= n,
            assets@.len() == i,
            forall|j: int| 0 <= j < i ==> (#[trigger] assets@[j])@ == word_text(
                asset_word_of(note_assets@[j]),
            ),
        decreases n - i,
    {
        let asset_word = word_from_asset(note_assets[i]);
        let asset_str = prepare_word(&asset_word);
        assets.push(asset_str);
        i += 1;
    }
    assets
}

/// The fixture faucet identity constants decode to the types their names
/// declare.
pub proof fn lemma_fixture_faucet_ids()
    ensures
        account_type_of(ACCOUNT_ID_FUNGIBLE_FAUCET_ON_CHAIN) == AccountType::FungibleFaucet,
        account_type_of(ACCOUNT_ID_FUNGIBLE_FAUCET_ON_CHAIN_2) == AccountType::FungibleFaucet,
        account_type_of(ACCOUNT_ID_NON_FUNGIBLE_FAUCET_ON_CHAIN)
            == AccountType::NonFungibleFaucet,
{
    assert((0xA00000000000003Fu64 >> 62) & 3 == 2) by (bit_vector);
    assert((0xA00000000000004Fu64 >> 62) & 3 == 2) by (bit_vector);
    assert((0xE00000000000005Fu64 >> 62) & 3 == 3) by (bit_vector);
}

} // verus!
