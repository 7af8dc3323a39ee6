//! State-transition descriptors: storage changes, vault changes and a nonce
//! update, applied atomically to an account.

use vstd::prelude::*;

use crate::account::{asset_wf, same_asset_key, Account, Asset, AssetVault,
    FUNGIBLE_ASSET_MAX_AMOUNT};
use crate::account_id::AccountType;
use crate::errors::AccountError;
use crate::storage::{
    lemma_slot_map_dom, lemma_slot_map_pairs, slot_map_of, unique_indices, AccountStorage,
    SlotItem, StorageSlot, StorageSlotType,
};
use crate::word::{Felt, Word, FIELD_MODULUS};

verus! {

/// Slot-level changes: indices whose slots are cleared back to the zero
/// word, and indices receiving a new inline value.
#[derive(Clone, Debug)]
pub struct AccountStorageDelta {
    pub cleared_items: Vec<u8>,
    pub updated_items: Vec<(u8, Word)>,
}

impl AccountStorageDelta {
    pub open spec fn is_empty(self) -> bool {
        self.cleared_items@.len() == 0 && self.updated_items@.len() == 0
    }

    /// A delta that changes no slot.
    pub fn new_empty() -> (r: AccountStorageDelta)
        ensures
            r.cleared_items@.len() == 0,
            r.updated_items@.len() == 0,
            r.is_empty(),
    {
        AccountStorageDelta { cleared_items: Vec::new(), updated_items: Vec::new() }
    }
}

/// Vault-level changes: assets added to and removed from the holdings.
#[derive(Clone, Debug)]
pub struct AccountVaultDelta {
    pub added_assets: Vec<Asset>,
    pub removed_assets: Vec<Asset>,
}

impl AccountVaultDelta {
    pub open spec fn is_empty(self) -> bool {
        self.added_assets@.len() == 0 && self.removed_assets@.len() == 0
    }

    /// A delta that changes no holding.
    pub fn new_empty() -> (r: AccountVaultDelta)
        ensures
            r.added_assets@.len() == 0,
            r.removed_assets@.len() == 0,
            r.is_empty(),
    {
        AccountVaultDelta { added_assets: Vec::new(), removed_assets: Vec::new() }
    }
}

/// One state transition: storage changes, vault changes, and an optional
/// nonce update.
#[derive(Clone, Debug)]
pub struct AccountDelta {
    pub storage_delta: AccountStorageDelta,
    pub vault_delta: AccountVaultDelta,
    pub nonce: Option<Felt>,
}

impl AccountDelta {
    pub open spec fn is_empty(self) -> bool {
        self.storage_delta.is_empty() && self.vault_delta.is_empty()
    }

    /// Validates the presence invariant: a non-empty change requires a
    /// nonce. Whether the nonce strictly increases is enforced at
    /// application time, not here.
    pub fn new(
        storage_delta: AccountStorageDelta,
        vault_delta: AccountVaultDelta,
        nonce: Option<Felt>,
    ) -> (r: Result<AccountDelta, AccountError>)
        ensures
            r is Ok <==> (storage_delta.is_empty() && vault_delta.is_empty()) || nonce is Some,
            r matches Ok(d) ==> {
                &&& d.storage_delta.cleared_items@ == storage_delta.cleared_items@
                &&& d.storage_delta.updated_items@ == storage_delta.updated_items@
                &&& d.vault_delta.added_assets@ == vault_delta.added_assets@
                &&& d.vault_delta.removed_assets@ == vault_delta.removed_assets@
                &&& d.nonce == nonce
            },
            r is Err ==> r == Err::<AccountDelta, AccountError>(AccountError::DeltaNonceMissing),
    {
        let changed = storage_delta.cleared_items.len() > 0 || storage_delta.updated_items.len()
            > 0 || vault_delta.added_assets.len() > 0 || vault_delta.removed_assets.len() > 0;
        if changed && nonce.is_none() {
            return Err(AccountError::DeltaNonceMissing);
        }
        Ok(AccountDelta { storage_delta, vault_delta, nonce })
    }
}

/// A delta assembled from the given vault changes and nonce; the nonce is
/// always present, so construction cannot fail.
pub fn build_account_delta(
    added_assets: Vec<Asset>,
    removed_assets: Vec<Asset>,
    nonce: Felt,
    storage_delta: AccountStorageDelta,
) -> (r: AccountDelta)
    ensures
        r.storage_delta.cleared_items@ == storage_delta.cleared_items@,
        r.storage_delta.updated_items@ == storage_delta.updated_items@,
        r.vault_delta.added_assets@ == added_assets@,
        r.vault_delta.removed_assets@ == removed_assets@,
        r.nonce == Some(nonce),
{
    let vault_delta = AccountVaultDelta { added_assets, removed_assets };
    AccountDelta::new(storage_delta, vault_delta, Some(nonce)).unwrap()
}

/// The value the updated-items list assigns to an index, later entries
/// overriding earlier ones.
pub open spec fn updated_lookup(updated: Seq<(u8, Word)>, k: u8) -> Option<Word>
    decreases updated.len(),
{
    if updated.len() == 0 {
        None
    } else if updated.last().0 == k {
        Some(updated.last().1)
    } else {
        updated_lookup(updated.drop_last(), k)
    }
}

/// The slot an index holds after a storage delta: an updated index holds the
/// new inline value, a cleared (and not updated) index holds nothing, and
/// every other index keeps its old slot.
pub open spec fn final_slot_at(
    m: Map<u8, StorageSlot>,
    cleared: Seq<u8>,
    updated: Seq<(u8, Word)>,
    k: u8,
) -> Option<StorageSlot> {
    match updated_lookup(updated, k) {
        Some(w) => Some(
            StorageSlot { slot_type: StorageSlotType::Value { value_arity: 0u8 }, value: w },
        ),
        None => {
            if cleared.contains(k) {
                None
            } else if m.contains_key(k) {
                Some(m[k])
            } else {
                None
            }
        },
    }
}

/// The slot an index holds in an index-to-slot relation, if any.
pub open spec fn map_opt(m: Map<u8, StorageSlot>, k: u8) -> Option<StorageSlot> {
    if m.contains_key(k) {
        Some(m[k])
    } else {
        None
    }
}

/// Whether one asset may join the holdings: it must be well-formed and no
/// held entry may stand for the same asset.
pub open spec fn add_one(s: Seq<Asset>, a: Asset) -> Option<Seq<Asset>> {
    if asset_wf(a) && (forall|i: int| 0 <= i < s.len() ==> !same_asset_key(#[trigger] s[i], a)) {
        Some(s.push(a))
    } else {
        None
    }
}

/// Adds each asset in order; one refusal rejects the whole addition.
pub open spec fn add_all(s: Seq<Asset>, added: Seq<Asset>) -> Option<Seq<Asset>>
    decreases added.len(),
{
    if added.len() == 0 {
        Some(s)
    } else {
        match add_one(s, added.first()) {
            None => None,
            Some(s2) => add_all(s2, added.drop_first()),
        }
    }
}

/// Keeps every entry other than the named asset.
pub open spec fn keep_pred(a: Asset) -> spec_fn(Asset) -> bool {
    |x: Asset| x != a
}

/// Whether one asset may leave the holdings: an equal entry must be held;
/// every equal entry is dropped.
pub open spec fn remove_one(s: Seq<Asset>, a: Asset) -> Option<Seq<Asset>> {
    if s.contains(a) {
        Some(s.filter(keep_pred(a)))
    } else {
        None
    }
}

/// Removes each asset in order; one refusal rejects the whole removal.
pub open spec fn remove_all(s: Seq<Asset>, removed: Seq<Asset>) -> Option<Seq<Asset>>
    decreases removed.len(),
{
    if removed.len() == 0 {
        Some(s)
    } else {
        match remove_one(s, removed.first()) {
            None => None,
            Some(s2) => remove_all(s2, removed.drop_first()),
        }
    }
}

/// The holdings after a vault delta: additions first, then removals.
pub open spec fn apply_vault_delta(s: Seq<Asset>, added: Seq<Asset>, removed: Seq<Asset>)
    -> Option<Seq<Asset>> {
    match add_all(s, added) {
        None => None,
        Some(s2) => remove_all(s2, removed),
    }
}

/// Whether a delta's nonce update is acceptable against a current nonce: a
/// non-empty change needs a nonce, and a given nonce must strictly
/// increase the current one.
pub open spec fn nonce_ok(delta: AccountDelta, current: Felt) -> bool {
    match delta.nonce {
        None => delta.is_empty(),
        Some(n) => n.value > current.value,
    }
}

impl Account {
    /// Applies a delta atomically: slot changes, vault changes and the
    /// nonce update commit together, or the whole application is rejected
    /// and no new state is produced. A changed map slot updates only the
    /// referenced root; map contents stay with the map's owner.
    pub fn apply_delta(&self, delta: &AccountDelta) -> (r: Result<Account, AccountError>)
        requires
            self.storage.wf(),
        ensures
            r is Ok <==> nonce_ok(*delta, self.nonce) && apply_vault_delta(
                self.vault.assets@,
                delta.vault_delta.added_assets@,
                delta.vault_delta.removed_assets@,
            ) is Some,
            r matches Ok(a2) ==> {
                &&& a2.id == self.id
                &&& a2.code == self.code
                &&& a2.nonce == (match delta.nonce {
                    None => self.nonce,
                    Some(n) => n,
                })
                &&& Some(a2.vault.assets@) == apply_vault_delta(
                    self.vault.assets@,
                    delta.vault_delta.added_assets@,
                    delta.vault_delta.removed_assets@,
                )
                &&& a2.storage.wf()
                &&& a2.storage.maps@.len() == self.storage.maps@.len()
                &&& forall|i: int| 0 <= i < self.storage.maps@.len()
                    ==> (#[trigger] a2.storage.maps@[i]).entries@
                        == self.storage.maps@[i].entries@ && a2.storage.maps@[i].root
                        == self.storage.maps@[i].root
                &&& forall|k: u8|
                    #[trigger] map_opt(slot_map_of(a2.storage.slots@), k) == final_slot_at(
                        slot_map_of(self.storage.slots@),
                        delta.storage_delta.cleared_items@,
                        delta.storage_delta.updated_items@,
                        k,
                    )
            },
            !nonce_ok(*delta, self.nonce) && delta.nonce is None ==> r == Err::<
                Account,
                AccountError,
            >(AccountError::DeltaNonceMissing),
            !nonce_ok(*delta, self.nonce) && delta.nonce is Some ==> r == Err::<
                Account,
                AccountError,
            >(AccountError::DeltaNonceNotIncreasing),
            nonce_ok(*delta, self.nonce) && apply_vault_delta(
                self.vault.assets@,
                delta.vault_delta.added_assets@,
                delta.vault_delta.removed_assets@,
            ) is None ==> r == Err::<Account, AccountError>(AccountError::InvalidVaultUpdate),
    {
        let new_nonce = match delta.nonce {
            None => {
                let changed = delta.storage_delta.cleared_items.len() > 0
                    || delta.storage_delta.updated_items.len() > 0
                    || delta.vault_delta.added_assets.len() > 0
                    || delta.vault_delta.removed_assets.len() > 0;
                if changed {
                    return Err(AccountError::DeltaNonceMissing);
                }
                self.nonce
            },
            Some(n) => {
                if n.value <= self.nonce.value {
                    return Err(AccountError::DeltaNonceNotIncreasing);
                }
                n
            },
        };
        let added = vault_add_all(&self.vault.assets, &delta.vault_delta.added_assets);
        let with_added = match added {
            Some(v) => v,
            None => {
                return Err(AccountError::InvalidVaultUpdate);
            },
        };
        let new_assets = match vault_remove_all(&with_added, &delta.vault_delta.removed_assets) {
            Some(v) => v,
            None => {
                return Err(AccountError::InvalidVaultUpdate);
            },
        };
        let new_slots = apply_storage(
            &self.storage,
            &delta.storage_delta.cleared_items,
            &delta.storage_delta.updated_items,
        );
        let kept_maps = crate::storage::clone_storage_maps(&self.storage.maps);
        let storage = AccountStorage::new(new_slots, kept_maps).unwrap();
        Ok(Account {
            id: self.id,
            vault: AssetVault { assets: new_assets },
            storage,
            code: self.code,
            nonce: new_nonce,
        })
    }
}

/// An item list matches the delta outcome at one index.
pub open spec fn matches_final(
    items: Seq<SlotItem>,
    m: Map<u8, StorageSlot>,
    cleared: Seq<u8>,
    updated: Seq<(u8, Word)>,
    k: u8,
) -> bool {
    match final_slot_at(m, cleared, updated, k) {
        Some(s) => items.contains(SlotItem { index: k, slot: s }),
        None => forall|j: int| 0 <= j < items.len() ==> (#[trigger] items[j]).index != k,
    }
}

/// Walks every index in order and emits the slot the delta leaves there.
fn apply_storage(storage: &AccountStorage, cleared: &Vec<u8>, updated: &Vec<(u8, Word)>) -> (r:
    Vec<SlotItem>)
    requires
        storage.wf(),
    ensures
        unique_indices(r@),
        r@.len() <= 256,
        forall|k: u8|
            #[trigger] map_opt(slot_map_of(r@), k) == final_slot_at(
                slot_map_of(storage.slots@),
                cleared@,
                updated@,
                k,
            ),
{
    let ghost m = slot_map_of(storage.slots@);
    let mut items: Vec<SlotItem> = Vec::new();
    let mut idx: usize = 0;
    while idx < 256
        invariant
            storage.wf(),
            m == slot_map_of(storage.slots@),
            idx <= 256,
            items@.len() <= idx as int,
            forall|a: int, b: int| 0 <= a < b < items@.len()
                ==> (#[trigger] items@[a]).index < (#[trigger] items@[b]).index,
            forall|j: int| 0 <= j < items@.len() ==> ((#[trigger] items@[j]).index as int)
                < (idx as int),
            forall|k2: int| 0 <= k2 < idx as int ==> #[trigger] matches_final(
                items@,
                m,
                cleared@,
                updated@,
                k2 as u8,
            ),
        decreases 256 - idx,
    {
        let k = idx as u8;
        let ghost before = items@;
        let decision: Option<StorageSlot> = match lookup_updated(updated, k) {
            Some(w) => Some(StorageSlot::new_value(w)),
            None => {
                if contains_index(cleared, k) {
                    None
                } else {
                    storage.slot_at(k)
                }
            },
        };
        proof {
            assert(decision == final_slot_at(m, cleared@, updated@, k));
        }
        match decision {
            Some(s) => {
                items.push(SlotItem { index: k, slot: s });
            },
            None => {},
        }
        proof {
            assert forall|k2: int| 0 <= k2 < idx as int + 1 implies #[trigger] matches_final(
                items@,
                m,
                cleared@,
                updated@,
                k2 as u8,
            ) by {
                if k2 < idx as int {
                    assert(matches_final(before, m, cleared@, updated@, k2 as u8));
                    match final_slot_at(m, cleared@, updated@, k2 as u8) {
                        Some(s) => {
                            let it = (SlotItem { index: k2 as u8, slot: s });
                            let j = choose|j: int| 0 <= j < before.len() && before[j] == it;
                            assert(items@[j] == it);
                        },
                        None => {},
                    }
                } else {
                    match final_slot_at(m, cleared@, updated@, k) {
                        Some(s) => {
                            assert(items@[items@.len() - 1] == (SlotItem { index: k, slot: s }));
                        },
                        None => {},
                    }
                }
            }
        }
        idx += 1;
    }
    proof {
        assert(unique_indices(items@)) by {
            assert forall|a: int, b: int| 0 <= a < b < items@.len()
                implies items@[a].index != items@[b].index by {
                assert(((items@[a]).index as int) < ((items@[b]).index as int));
            }
        }
        lemma_slot_map_pairs(items@);
        lemma_slot_map_dom(items@);
        assert forall|k: u8|
            #[trigger] map_opt(slot_map_of(items@), k) == final_slot_at(
                m,
                cleared@,
                updated@,
                k,
            ) by {
            let k2: int = k as int;
            assert(0 <= k2 < 256);
            assert(matches_final(items@, m, cleared@, updated@, k2 as u8));
            assert(k2 as u8 == k);
            match final_slot_at(m, cleared@, updated@, k) {
                Some(s) => {
                    let it = (SlotItem { index: k, slot: s });
                    assert(items@.contains(it));
                    assert(slot_map_of(items@).contains_pair(it.index, it.slot));
                },
                None => {
                    assert(!slot_map_of(items@).contains_key(k)) by {
                        if slot_map_of(items@).contains_key(k) {
                            let j = choose|j: int|
                                0 <= j < items@.len() && items@[j].index == k;
                        }
                    }
                },
            }
        }
    }
    items
}

/// The inline value the updated-items list finally assigns to an index.
fn lookup_updated(updated: &Vec<(u8, Word)>, k: u8) -> (r: Option<Word>)
    ensures
        r == updated_lookup(updated@, k),
{
    let n = updated.len();
    let mut r: Option<Word> = None;
    let mut i: usize = 0;
    while i < n
        invariant
            n == updated@.len(),
            i <= n,
            r == updated_lookup(updated@.take(i as int), k),
        decreases n - i,
    {
        proof {
            assert(updated@.take(i + 1).drop_last() =~= updated@.take(i as int));
            assert(updated@.take(i + 1).last() == updated@[i as int]);
        }
        if updated[i].0 == k {
            r = Some(updated[i].1);
        }
        i += 1;
    }
    proof {
        assert(updated@.take(n as int) =~= updated@);
    }
    r
}

/// Whether the cleared-items list names an index.
fn contains_index(cleared: &Vec<u8>, k: u8) -> (r: bool)
    ensures
        r == cleared@.contains(k),
{
    let n = cleared.len();
    let mut i: usize = 0;
    while i < n
        invariant
            n == cleared@.len(),
            i <= n,
            forall|j: int| 0 <= j < i ==> cleared@[j] != k,
        decreases n - i,
    {
        if cleared[i] == k {
            proof {
                assert(cleared@.contains(k));
            }
            return true;
        }
        i += 1;
    }
    false
}

/// Adds each asset in order, refusing a malformed asset or one whose
/// holding already exists.
fn vault_add_all(assets: &Vec<Asset>, added: &Vec<Asset>) -> (r: Option<Vec<Asset>>)
    ensures
        r is Some <==> add_all(assets@, added@) is Some,
        r matches Some(v) ==> Some(v@) == add_all(assets@, added@),
{
    let mut cur = clone_asset_vec(assets);
    proof {
        assert(added@.skip(0) =~= added@);
    }
    let n = added.len();
    let mut i: usize = 0;
    while i < n
        invariant
            n == added@.len(),
            i <= n,
            add_all(assets@, added@) == add_all(cur@, added@.skip(i as int)),
        decreases n - i,
    {
        proof {
            assert(added@.skip(i as int).first() == added@[i as int]);
            assert(added@.skip(i as int).drop_first() =~= added@.skip(i + 1));
        }
        let a = added[i];
        let wf_ok = match a {
            Asset::Fungible(f) => {
                f.faucet_id.value < FIELD_MODULUS
                    && crate::account_id::extract_account_type(f.faucet_id.value)
                        == AccountType::FungibleFaucet && f.amount <= FUNGIBLE_ASSET_MAX_AMOUNT
            },
            Asset::NonFungible(_) => true,
        };
        if !wf_ok {
            proof {
                assert(!asset_wf(a));
                assert(add_one(cur@, a) is None);
            }
            return None;
        }
        let m = cur.len();
        let mut j: usize = 0;
        while j < m
            invariant
                m == cur@.len(),
                j <= m,
                i < n == added@.len(),
                a == added@[i as int],
                add_all(assets@, added@) == add_all(cur@, added@.skip(i as int)),
                forall|x: int| 0 <= x < j ==> !same_asset_key(#[trigger] cur@[x], a),
            decreases m - j,
        {
            let clash = match (cur[j], a) {
                (Asset::Fungible(x), Asset::Fungible(y)) => x.faucet_id == y.faucet_id,
                (Asset::NonFungible(x), Asset::NonFungible(y)) => x == y,
                _ => false,
            };
            if clash {
                proof {
                    assert(same_asset_key(cur@[j as int], a));
                    assert(add_one(cur@, a) is None);
                    assert(added@.skip(i as int).first() == added@[i as int]);
                }
                return None;
            }
            j += 1;
        }
        proof {
            assert(add_one(cur@, a) == Some(cur@.push(a)));
        }
        cur.push(a);
        i += 1;
    }
    proof {
        assert(added@.skip(n as int) =~= Seq::<Asset>::empty());
    }
    Some(cur)
}

/// Removes each asset in order, refusing one that is not held.
fn vault_remove_all(assets: &Vec<Asset>, removed: &Vec<Asset>) -> (r: Option<Vec<Asset>>)
    ensures
        r is Some <==> remove_all(assets@, removed@) is Some,
        r matches Some(v) ==> Some(v@) == remove_all(assets@, removed@),
{
    let mut cur = clone_asset_vec(assets);
    proof {
        assert(removed@.skip(0) =~= removed@);
    }
    let n = removed.len();
    let mut i: usize = 0;
    while i < n
        invariant
            n == removed@.len(),
            i <= n,
            remove_all(assets@, removed@) == remove_all(cur@, removed@.skip(i as int)),
        decreases n - i,
    {
        proof {
            assert(removed@.skip(i as int).first() == removed@[i as int]);
            assert(removed@.skip(i as int).drop_first() =~= removed@.skip(i + 1));
        }
        let a = removed[i];
        let mut found = false;
        let m = cur.len();
        let mut j: usize = 0;
        while j < m
            invariant
                m == cur@.len(),
                j <= m,
                i < n == removed@.len(),
                a == removed@[i as int],
                remove_all(assets@, removed@) == remove_all(cur@, removed@.skip(i as int)),
                found == exists|x: int| 0 <= x < j && cur@[x] == a,
            decreases m - j,
        {
            if cur[j] == a {
                proof {
                    assert(cur@[j as int] == a);
                }
                found = true;
            }
            j += 1;
        }
        if !found {
            proof {
                assert(!cur@.contains(a));
                assert(remove_one(cur@, a) is None);
                assert(removed@.skip(i as int).first() == removed@[i as int]);
            }
            return None;
        }
        proof {
            assert(cur@.contains(a));
        }
        let mut kept: Vec<Asset> = Vec::new();
        let mut j2: usize = 0;
        while j2 < m
            invariant
                m == cur@.len(),
                j2 <= m,
                kept@ == cur@.take(j2 as int).filter(keep_pred(a)),
            decreases m - j2,
        {
            proof {
                reveal(Seq::filter);
                assert(cur@.take(j2 + 1).drop_last() =~= cur@.take(j2 as int));
                assert(cur@.take(j2 + 1).last() == cur@[j2 as int]);
            }
            if cur[j2] != a {
                kept.push(cur[j2]);
            }
            j2 += 1;
        }
        proof {
            assert(cur@.take(m as int) =~= cur@);
            assert(remove_one(cur@, a) == Some(cur@.filter(keep_pred(a))));
        }
        cur = kept;
        i += 1;
    }
    proof {
        assert(removed@.skip(n as int) =~= Seq::<Asset>::empty());
    }
    Some(cur)
}

/// Copies an asset vector element by element.
pub(crate) fn clone_asset_vec(v: &Vec<Asset>) -> (r: Vec<Asset>)
    ensures
        r@ == v@,
{
    let mut r: Vec<Asset> = Vec::new();
    let n = v.len();
    let mut i: usize = 0;
    while i < n
        invariant
            n == v@.len(),
            i <= n,
            r@ == v@.take(i as int),
        decreases n - i,
    {
        r.push(v[i]);
        proof {
            assert(v@.take(i + 1) =~= v@.take(i as int).push(v@[i as int]));
        }
        i += 1;
    }
    proof {
        assert(v@.take(n as int) =~= v@);
    }
    r
}

} // verus!
