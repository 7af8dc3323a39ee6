//! The data-access boundary: the interface a transaction executor uses to
//! fetch the account, chain and note state needed to run one transaction,
//! and an in-memory provider of it.
//!
//! Each call is self-contained; no state is shared between calls at this
//! interface level. Every failure is terminal for the call that raised it;
//! only `Internal` may be transient and worth a retry by the caller.

use vstd::prelude::*;

use crate::account::{Account, AccountCode};
use crate::account_id::AccountId;
use crate::errors::DataStoreError;
use crate::storage::AccountStorage;
use crate::word::Word;

verus! {

/// A note's identity: the commitment word that names it.
pub type NoteId = Word;

/// What the store knows of one note: when it entered the chain and, if
/// consumed, when.
#[derive(Clone, Copy, PartialEq, Eq, Structural, Debug)]
pub struct NoteRecord {
    pub id: NoteId,
    pub recorded_at: u32,
    pub consumed_at: Option<u32>,
}

/// The consistent bundle an executor needs for one transaction: the
/// account's state, the reference block, and the resolved input notes.
#[derive(Clone, Debug)]
pub struct TransactionInputs {
    pub account: Account,
    pub block_ref: u32,
    pub input_notes: Vec<NoteRecord>,
}

/// The first record carrying the given note identity, if any.
pub open spec fn note_lookup(notes: Seq<NoteRecord>, id: NoteId) -> Option<NoteRecord>
    decreases notes.len(),
{
    if notes.len() == 0 {
        None
    } else if notes.first().id == id {
        Some(notes.first())
    } else {
        note_lookup(notes.drop_first(), id)
    }
}

/// The note was consumed at or before the reference block.
pub open spec fn consumed_as_of(n: NoteRecord, block_ref: u32) -> bool {
    n.consumed_at matches Some(c) && c <= block_ref
}

/// Why a known note cannot serve as an input as of the reference block, if
/// it cannot.
pub open spec fn note_issue(n: NoteRecord, block_ref: u32) -> Option<DataStoreError> {
    if consumed_as_of(n, block_ref) {
        Some(DataStoreError::NoteAlreadyConsumed)
    } else if n.recorded_at > block_ref {
        Some(DataStoreError::InvalidTransactionInputs)
    } else {
        None
    }
}

/// The failure the first offending requested note causes, if any, walking
/// the request in order.
pub open spec fn first_note_issue(
    notes: Seq<NoteRecord>,
    block_ref: u32,
    ids: Seq<NoteId>,
) -> Option<DataStoreError>
    decreases ids.len(),
{
    if ids.len() == 0 {
        None
    } else {
        match note_lookup(notes, ids.first()) {
            None => Some(DataStoreError::NoteNotFound),
            Some(n) => match note_issue(n, block_ref) {
                Some(e) => Some(e),
                None => first_note_issue(notes, block_ref, ids.drop_first()),
            },
        }
    }
}

/// Some stored account carries the identity.
pub open spec fn has_account(accounts: Seq<Account>, id: u64) -> bool {
    exists|i: int| 0 <= i < accounts.len() && accounts[i].id.value == id
}

/// The failure a request must raise, if any: an unknown account first, then
/// an unknown block, then the first offending note.
pub open spec fn request_issue(
    accounts: Seq<Account>,
    blocks: Seq<u32>,
    notes: Seq<NoteRecord>,
    account_id: u64,
    block_ref: u32,
    ids: Seq<NoteId>,
) -> Option<DataStoreError> {
    if !has_account(accounts, account_id) {
        Some(DataStoreError::AccountNotFound)
    } else if !blocks.contains(block_ref) {
        Some(DataStoreError::BlockNotFound)
    } else {
        first_note_issue(notes, block_ref, ids)
    }
}

/// Two accounts hold the same state, compared value by value.
pub open spec fn account_like(a: Account, b: Account) -> bool {
    &&& a.id == b.id
    &&& a.nonce == b.nonce
    &&& a.code == b.code
    &&& a.vault.assets@ == b.vault.assets@
    &&& storage_like(a.storage, b.storage)
}

/// Two storage values hold the same slots, maps and commitment.
pub open spec fn storage_like(a: AccountStorage, b: AccountStorage) -> bool {
    &&& a.slots@ == b.slots@
    &&& a.commitment == b.commitment
    &&& a.maps@.len() == b.maps@.len()
    &&& forall|i: int| 0 <= i < a.maps@.len() ==> (#[trigger] a.maps@[i]).entries@
        == b.maps@[i].entries@ && a.maps@[i].root == b.maps@[i].root
}

/// A returned bundle is correct for the request: the stored account's
/// state, the requested block, and each requested note's record in request
/// order.
pub open spec fn payload_correct(
    accounts: Seq<Account>,
    notes: Seq<NoteRecord>,
    account_id: u64,
    block_ref: u32,
    ids: Seq<NoteId>,
    t: TransactionInputs,
) -> bool {
    &&& exists|i: int|
        0 <= i < accounts.len() && (#[trigger] accounts[i]).id.value == account_id
            && account_like(t.account, accounts[i])
    &&& t.block_ref == block_ref
    &&& t.input_notes@.len() == ids.len()
    &&& forall|i: int| 0 <= i < ids.len() ==> Some(#[trigger] t.input_notes@[i]) == note_lookup(
        notes,
        ids[i],
    )
}

/// A note already consumed as of the reference block is rejected with the
/// consumed-note error: whenever the account and the block are known and
/// every requested note is recorded in the store at or before the reference
/// block, a request naming a consumed note fails with exactly
/// `NoteAlreadyConsumed`. Retrying identical inputs cannot succeed: the
/// resolution is a function of the store's contents. Requests holding an
/// unknown or not-yet-recorded note are left out: there the earlier defect
/// decides, under the first-defect order the provider contracts fix.
pub proof fn lemma_consumed_note_rejected(
    accounts: Seq<Account>,
    blocks: Seq<u32>,
    notes: Seq<NoteRecord>,
    account_id: u64,
    block_ref: u32,
    ids: Seq<NoteId>,
)
    requires
        has_account(accounts, account_id),
        blocks.contains(block_ref),
        forall|i: int| 0 <= i < ids.len() ==> (#[trigger] note_lookup(notes, ids[i])) is Some,
        forall|i: int| 0 <= i < ids.len()
            ==> (#[trigger] note_lookup(notes, ids[i]))->0.recorded_at <= block_ref,
        exists|i: int| 0 <= i < ids.len() && consumed_as_of(
            (#[trigger] note_lookup(notes, ids[i]))->0,
            block_ref,
        ),
    ensures
        request_issue(accounts, blocks, notes, account_id, block_ref, ids) == Some(
            DataStoreError::NoteAlreadyConsumed,
        ),
{
    lemma_first_issue_consumed(notes, block_ref, ids);
}

/// The inductive core of the consumed-note law, over the note walk alone.
proof fn lemma_first_issue_consumed(notes: Seq<NoteRecord>, block_ref: u32, ids: Seq<NoteId>)
    requires
        forall|i: int| 0 <= i < ids.len() ==> (#[trigger] note_lookup(notes, ids[i])) is Some,
        forall|i: int| 0 <= i < ids.len()
            ==> (#[trigger] note_lookup(notes, ids[i]))->0.recorded_at <= block_ref,
        exists|i: int| 0 <= i < ids.len() && consumed_as_of(
            (#[trigger] note_lookup(notes, ids[i]))->0,
            block_ref,
        ),
    ensures
        first_note_issue(notes, block_ref, ids) == Some(DataStoreError::NoteAlreadyConsumed),
    decreases ids.len(),
{
    let w = choose|i: int|
        0 <= i < ids.len() && consumed_as_of((#[trigger] note_lookup(notes, ids[i]))->0, block_ref);
    assert(ids.len() > 0);
    assert(ids.first() == ids[0]);
    let n0 = note_lookup(notes, ids[0])->0;
    if consumed_as_of(n0, block_ref) {
        assert(note_issue(n0, block_ref) == Some(DataStoreError::NoteAlreadyConsumed));
    } else {
        assert(note_issue(n0, block_ref) is None);
        let tail = ids.drop_first();
        assert(w != 0);
        assert forall|i: int| 0 <= i < tail.len()
            implies (#[trigger] note_lookup(notes, tail[i])) is Some && note_lookup(
            notes,
            tail[i],
        )->0.recorded_at <= block_ref by {
            assert(tail[i] == ids[i + 1]);
            assert(note_lookup(notes, ids[i + 1]) is Some);
        }
        assert(tail[w - 1] == ids[w]);
        assert(exists|i: int| 0 <= i < tail.len() && consumed_as_of(
            (#[trigger] note_lookup(notes, tail[i]))->0,
            block_ref,
        )) by {
            assert(consumed_as_of(note_lookup(notes, tail[w - 1])->0, block_ref));
        }
        lemma_first_issue_consumed(notes, block_ref, tail);
    }
}

/// The interface the executor consumes; implemented by a state provider
/// that may serve each call from disk, network or memory. A provider may
/// fail any call with `Internal`; apart from that, it must return exactly
/// what the store's contents dictate.
pub trait DataStore {
    /// The accounts this provider knows.
    spec fn store_accounts(&self) -> Seq<Account>;

    /// The committed blocks this provider knows.
    spec fn store_blocks(&self) -> Seq<u32>;

    /// The notes this provider knows.
    spec fn store_notes(&self) -> Seq<NoteRecord>;

    /// Returns account, chain and input-note data required to execute a
    /// transaction against the identified account consuming the given
    /// notes. `block_ref` must name a committed block by which all the
    /// requested notes are recorded; the latest available block is
    /// recommended.
    fn get_transaction_inputs(
        &self,
        account_id: &AccountId,
        block_ref: u32,
        notes: &Vec<NoteId>,
    ) -> (r: Result<TransactionInputs, DataStoreError>)
        ensures
            match r {
                Ok(t) => request_issue(
                    self.store_accounts(),
                    self.store_blocks(),
                    self.store_notes(),
                    account_id.value,
                    block_ref,
                    notes@,
                ) is None && payload_correct(
                    self.store_accounts(),
                    self.store_notes(),
                    account_id.value,
                    block_ref,
                    notes@,
                    t,
                ),
                Err(e) => e == DataStoreError::Internal || Some(e) == request_issue(
                    self.store_accounts(),
                    self.store_blocks(),
                    self.store_notes(),
                    account_id.value,
                    block_ref,
                    notes@,
                ),
            },
    ;

    /// Returns the code module associated with the identified account.
    fn get_account_code(&self, account_id: &AccountId) -> (r: Result<AccountCode, DataStoreError>)
        ensures
            match r {
                Ok(c) => has_account(self.store_accounts(), account_id.value) && exists|i: int|
                    0 <= i < self.store_accounts().len()
                        && (#[trigger] self.store_accounts()[i]).id.value == account_id.value
                        && c == self.store_accounts()[i].code,
                Err(e) => e == DataStoreError::Internal || (e == DataStoreError::AccountNotFound
                    && !has_account(self.store_accounts(), account_id.value)),
            },
    ;
}

/// An in-memory provider: explicit account, block and note tables, served
/// without faults.
#[derive(Clone, Debug)]
pub struct MockDataStore {
    pub accounts: Vec<Account>,
    pub blocks: Vec<u32>,
    pub notes: Vec<NoteRecord>,
}

impl MockDataStore {
    pub fn new(accounts: Vec<Account>, blocks: Vec<u32>, notes: Vec<NoteRecord>) -> (r:
        MockDataStore)
        ensures
            r.accounts@ == accounts@,
            r.blocks@ == blocks@,
            r.notes@ == notes@,
    {
        MockDataStore { accounts, blocks, notes }
    }

    /// The exact in-memory resolution: fails with precisely the error the
    /// request's first defect dictates, and succeeds with the stored state
    /// otherwise.
    pub fn transaction_inputs(
        &self,
        account_id: &AccountId,
        block_ref: u32,
        notes: &Vec<NoteId>,
    ) -> (r: Result<TransactionInputs, DataStoreError>)
        ensures
            r is Ok <==> request_issue(
                self.accounts@,
                self.blocks@,
                self.notes@,
                account_id.value,
                block_ref,
                notes@,
            ) is None,
            r matches Err(e) ==> Some(e) == request_issue(
                self.accounts@,
                self.blocks@,
                self.notes@,
                account_id.value,
                block_ref,
                notes@,
            ),
            r matches Ok(t) ==> payload_correct(
                self.accounts@,
                self.notes@,
                account_id.value,
                block_ref,
                notes@,
                t,
            ),
    {
        let account = match self.find_account(account_id.value) {
            Some(a) => a,
            None => {
                return Err(DataStoreError::AccountNotFound);
            },
        };
        if !self.has_block(block_ref) {
            return Err(DataStoreError::BlockNotFound);
        }
        let n = notes.len();
        let mut resolved: Vec<NoteRecord> = Vec::new();
        proof {
            assert(notes@.skip(0) =~= notes@);
        }
        let mut i: usize = 0;
        while i < n
            invariant
                n == notes@.len(),
                i <= n,
                resolved@.len() == i,
                has_account(self.accounts@, account_id.value),
                self.blocks@.contains(block_ref),
                forall|j: int| 0 <= j < i ==> Some(#[trigger] resolved@[j]) == note_lookup(
                    self.notes@,
                    notes@[j],
                ),
                first_note_issue(self.notes@, block_ref, notes@) == first_note_issue(
                    self.notes@,
                    block_ref,
                    notes@.skip(i as int),
                ),
            decreases n - i,
        {
            proof {
                assert(notes@.skip(i as int).first() == notes@[i as int]);
                assert(notes@.skip(i as int).drop_first() =~= notes@.skip(i + 1));
            }
            let record = match self.find_note(notes[i]) {
                Some(rec) => rec,
                None => {
                    proof {
                        assert(first_note_issue(self.notes@, block_ref, notes@.skip(i as int))
                            == Some(DataStoreError::NoteNotFound));
                    }
                    return Err(DataStoreError::NoteNotFound);
                },
            };
            match record.consumed_at {
                Some(c) => {
                    if c <= block_ref {
                        proof {
                            assert(note_issue(record, block_ref)
                                == Some(DataStoreError::NoteAlreadyConsumed));
                            assert(first_note_issue(self.notes@, block_ref, notes@.skip(i as int))
                                == Some(DataStoreError::NoteAlreadyConsumed));
                        }
                        return Err(DataStoreError::NoteAlreadyConsumed);
                    }
                },
                None => {},
            }
            if record.recorded_at > block_ref {
                proof {
                    assert(note_issue(record, block_ref)
                        == Some(DataStoreError::InvalidTransactionInputs));
                    assert(first_note_issue(self.notes@, block_ref, notes@.skip(i as int))
                        == Some(DataStoreError::InvalidTransactionInputs));
                }
                return Err(DataStoreError::InvalidTransactionInputs);
            }
            proof {
                assert(note_issue(record, block_ref) is None);
            }
            resolved.push(record);
            i += 1;
        }
        proof {
            assert(notes@.skip(n as int) =~= Seq::<NoteId>::empty());
        }
        Ok(TransactionInputs { account, block_ref, input_notes: resolved })
    }

    /// The exact in-memory code lookup.
    pub fn account_code(&self, account_id: &AccountId) -> (r: Result<AccountCode, DataStoreError>)
        ensures
            r is Ok <==> has_account(self.accounts@, account_id.value),
            r matches Ok(c) ==> exists|i: int|
                0 <= i < self.accounts@.len() && (#[trigger] self.accounts@[i]).id.value
                    == account_id.value && c == self.accounts@[i].code,
            r is Err ==> r == Err::<AccountCode, DataStoreError>(DataStoreError::AccountNotFound),
    {
        let n = self.accounts.len();
        let mut i: usize = 0;
        while i < n
            invariant
                n == self.accounts@.len(),
                i <= n,
                forall|j: int| 0 <= j < i ==> (#[trigger] self.accounts@[j]).id.value
                    != account_id.value,
            decreases n - i,
        {
            if self.accounts[i].id.value == account_id.value {
                return Ok(self.accounts[i].code);
            }
            i += 1;
        }
        Err(DataStoreError::AccountNotFound)
    }

    /// Copies out the first stored account carrying the identity.
    fn find_account(&self, id: u64) -> (r: Option<Account>)
        ensures
            r is Some <==> has_account(self.accounts@, id),
            r matches Some(a) ==> exists|i: int|
                0 <= i < self.accounts@.len() && (#[trigger] self.accounts@[i]).id.value == id
                    && account_like(a, self.accounts@[i]),
    {
        let n = self.accounts.len();
        let mut i: usize = 0;
        while i < n
            invariant
                n == self.accounts@.len(),
                i <= n,
                forall|j: int| 0 <= j < i ==> (#[trigger] self.accounts@[j]).id.value != id,
            decreases n - i,
        {
            if self.accounts[i].id.value == id {
                let a = clone_account(&self.accounts[i]);
                return Some(a);
            }
            i += 1;
        }
        None
    }

    /// Whether the store knows the block.
    fn has_block(&self, block_ref: u32) -> (r: bool)
        ensures
            r == self.blocks@.contains(block_ref),
    {
        let n = self.blocks.len();
        let mut i: usize = 0;
        while i < n
            invariant
                n == self.blocks@.len(),
                i <= n,
                forall|j: int| 0 <= j < i ==> self.blocks@[j] != block_ref,
            decreases n - i,
        {
            if self.blocks[i] == block_ref {
                proof {
                    assert(self.blocks@.contains(block_ref));
                }
                return true;
            }
            i += 1;
        }
        false
    }

    /// The first stored record of a note identity.
    fn find_note(&self, id: NoteId) -> (r: Option<NoteRecord>)
        ensures
            r == note_lookup(self.notes@, id),
    {
        let n = self.notes.len();
        proof {
            assert(self.notes@.skip(0) =~= self.notes@);
        }
        let mut i: usize = 0;
        while i < n
            invariant
                n == self.notes@.len(),
                i <= n,
                note_lookup(self.notes@, id) == note_lookup(self.notes@.skip(i as int), id),
            decreases n - i,
        {
            proof {
                assert(self.notes@.skip(i as int).first() == self.notes@[i as int]);
                assert(self.notes@.skip(i as int).drop_first() =~= self.notes@.skip(i + 1));
            }
            if self.notes[i].id == id {
                return Some(self.notes[i]);
            }
            i += 1;
        }
        proof {
            assert(self.notes@.skip(n as int) =~= Seq::<NoteRecord>::empty());
        }
        None
    }
}

impl DataStore for MockDataStore {
    open spec fn store_accounts(&self) -> Seq<Account> {
        self.accounts@
    }

    open spec fn store_blocks(&self) -> Seq<u32> {
        self.blocks@
    }

    open spec fn store_notes(&self) -> Seq<NoteRecord> {
        self.notes@
    }

    fn get_transaction_inputs(
        &self,
        account_id: &AccountId,
        block_ref: u32,
        notes: &Vec<NoteId>,
    ) -> (r: Result<TransactionInputs, DataStoreError>) {
        self.transaction_inputs(account_id, block_ref, notes)
    }

    fn get_account_code(&self, account_id: &AccountId) -> (r: Result<
        AccountCode,
        DataStoreError,
    >) {
        self.account_code(account_id)
    }
}

/// Copies an account value by value.
fn clone_account(a: &Account) -> (r: Account)
    ensures
        account_like(r, *a),
{
    let assets = crate::delta::clone_asset_vec(&a.vault.assets);
    let slots = crate::storage::clone_slot_items(&a.storage.slots);
    let maps = crate::storage::clone_storage_maps(&a.storage.maps);
    Account {
        id: a.id,
        vault: crate::account::AssetVault { assets },
        storage: AccountStorage { slots, maps, commitment: a.storage.commitment },
        code: a.code,
        nonce: a.nonce,
    }
}

} // verus!
