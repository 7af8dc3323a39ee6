//! Type-tagged account identities and their derivation by seed grinding.
//!
//! An identity is the first element of a one-way digest of
//! `(seed, code_root, storage_root)`. Its two highest bits encode the account
//! type and the next bit the storage type, so decoding an identity recovers
//! the types declared at derivation. Grinding searches seed candidates,
//! deterministically and bounded, until the derived digest encodes exactly
//! the declared types; reconstruction from a found seed must agree with the
//! value produced during grinding.

use vstd::prelude::*;

use crate::commit::{rpo_hash, rpo_hash_of};
use crate::errors::AccountError;
use crate::word::{Word, FIELD_MODULUS};

verus! {

/// How many seed candidates the bounded search may try.
pub const MAX_SEED_ATTEMPTS: u64 = 1024;

/// The kind of account an identity is tagged with.
#[derive(Clone, Copy, PartialEq, Eq, Structural, Debug)]
pub enum AccountType {
    RegularAccountImmutableCode,
    RegularAccountUpdatableCode,
    FungibleFaucet,
    NonFungibleFaucet,
}

/// Whether the account's state is tracked on or off the chain.
#[derive(Clone, Copy, PartialEq, Eq, Structural, Debug)]
pub enum AccountStorageType {
    OnChain,
    OffChain,
}

/// The account type encoded in an identity's two highest bits.
pub open spec fn account_type_of(id: u64) -> AccountType {
    let bits = (id >> 62) & 3;
    if bits == 0 {
        AccountType::RegularAccountImmutableCode
    } else if bits == 1 {
        AccountType::RegularAccountUpdatableCode
    } else if bits == 2 {
        AccountType::FungibleFaucet
    } else {
        AccountType::NonFungibleFaucet
    }
}

/// The storage type encoded in an identity's next-highest bit.
pub open spec fn storage_type_of(id: u64) -> AccountStorageType {
    if (id >> 61) & 1 == 1 {
        AccountStorageType::OnChain
    } else {
        AccountStorageType::OffChain
    }
}

/// An identity value must be a canonical field element.
pub open spec fn id_valid(id: u64) -> bool {
    id < FIELD_MODULUS
}

/// The derivation input: seed elements, then code root, then storage root.
pub open spec fn grind_input(seed: Seq<u64>, code_root: Seq<u64>, storage_root: Seq<u64>) -> Seq<
    u64,
> {
    seed + code_root + storage_root
}

/// The identity value the one-way derivation assigns to a seed and two
/// commitment roots.
pub open spec fn derived_id_of(seed: Seq<u64>, code_root: Seq<u64>, storage_root: Seq<u64>) -> u64 {
    rpo_hash_of(grind_input(seed, code_root, storage_root))[0]
}

/// What grinding searches for: a seed whose derived identity is valid and
/// encodes exactly the declared account and storage types.
pub open spec fn seed_satisfies(
    seed: Seq<u64>,
    code_root: Seq<u64>,
    storage_root: Seq<u64>,
    account_type: AccountType,
    storage_type: AccountStorageType,
) -> bool {
    let id = derived_id_of(seed, code_root, storage_root);
    id_valid(id) && account_type_of(id) == account_type && storage_type_of(id) == storage_type
}

/// The candidate the search tries at step `t`.
pub open spec fn candidate_of(init_seed: Word, t: u64) -> Word {
    Word { e0: init_seed.e0 ^ t, e1: init_seed.e1, e2: init_seed.e2, e3: init_seed.e3 }
}

/// A type-tagged identifier, derived once at account creation and immutable
/// thereafter.
#[derive(Clone, Copy, PartialEq, Eq, Structural, Debug)]
pub struct AccountId {
    pub value: u64,
}

impl AccountId {
    pub open spec fn wf(self) -> bool {
        id_valid(self.value)
    }

    /// Accepts a raw identity value if it is canonical.
    pub fn try_from_u64(value: u64) -> (r: Result<AccountId, AccountError>)
        ensures
            r is Ok <==> id_valid(value),
            r matches Ok(id) ==> id.value == value,
            r is Err ==> r == Err::<AccountId, AccountError>(AccountError::InvalidAccountId),
    {
        if value < FIELD_MODULUS {
            Ok(AccountId { value })
        } else {
            Err(AccountError::InvalidAccountId)
        }
    }

    /// The account type decoded from this identity's fixed bit positions.
    pub fn account_type(&self) -> (r: AccountType)
        ensures
            r == account_type_of(self.value),
    {
        extract_account_type(self.value)
    }

    /// The storage type decoded from this identity's fixed bit positions.
    pub fn storage_type(&self) -> (r: AccountStorageType)
        ensures
            r == storage_type_of(self.value),
    {
        extract_storage_type(self.value)
    }

    /// Reconstructs and validates the identity from a previously found seed
    /// and the commitment roots used at derivation. Agrees with the value
    /// produced during grinding for the same inputs; fails if the derived
    /// value is not a valid identity.
    pub fn new(seed: Word, code_root: Word, storage_root: Word) -> (r: Result<
        AccountId,
        AccountError,
    >)
        ensures
            r is Ok <==> id_valid(derived_id_of(seed@, code_root@, storage_root@)),
            r matches Ok(id) ==> id.value == derived_id_of(seed@, code_root@, storage_root@),
            r is Err ==> r == Err::<AccountId, AccountError>(AccountError::InvalidAccountId),
    {
        let digest = derive_digest(&seed, &code_root, &storage_root);
        if digest.e0 < FIELD_MODULUS {
            Ok(AccountId { value: digest.e0 })
        } else {
            Err(AccountError::InvalidAccountId)
        }
    }
}

/// Decodes the account type bits of a raw identity value.
pub fn extract_account_type(id: u64) -> (r: AccountType)
    ensures
        r == account_type_of(id),
{
    let bits = (id >> 62) & 3;
    if bits == 0 {
        AccountType::RegularAccountImmutableCode
    } else if bits == 1 {
        AccountType::RegularAccountUpdatableCode
    } else if bits == 2 {
        AccountType::FungibleFaucet
    } else {
        AccountType::NonFungibleFaucet
    }
}

/// Decodes the storage type bit of a raw identity value.
pub fn extract_storage_type(id: u64) -> (r: AccountStorageType)
    ensures
        r == storage_type_of(id),
{
    if (id >> 61) & 1 == 1 {
        AccountStorageType::OnChain
    } else {
        AccountStorageType::OffChain
    }
}

/// Applies the one-way derivation to a seed and the two roots.
fn derive_digest(seed: &Word, code_root: &Word, storage_root: &Word) -> (r: Word)
    ensures
        r@ == rpo_hash_of(grind_input(seed@, code_root@, storage_root@)),
        r.wf(),
{
    let mut input: Vec<u64> = Vec::new();
    input.push(seed.e0);
    input.push(seed.e1);
    input.push(seed.e2);
    input.push(seed.e3);
    input.push(code_root.e0);
    input.push(code_root.e1);
    input.push(code_root.e2);
    input.push(code_root.e3);
    input.push(storage_root.e0);
    input.push(storage_root.e1);
    input.push(storage_root.e2);
    input.push(storage_root.e3);
    proof {
        assert(input@ =~= grind_input(seed@, code_root@, storage_root@));
    }
    rpo_hash(&input)
}

/// Deterministically searches for a seed whose derived digest encodes
/// exactly the declared account and storage types. Bounded: after
/// `MAX_SEED_ATTEMPTS` candidates the search fails and no seed is produced.
/// On success the returned seed is the first satisfying candidate, so two
/// callers grinding for the same inputs obtain the same seed.
pub fn get_account_seed_single(
    init_seed: Word,
    account_type: AccountType,
    storage_type: AccountStorageType,
    code_root: Word,
    storage_root: Word,
) -> (r: Result<Word, AccountError>)
    ensures
        r matches Ok(s) ==> exists|t: u64|
            t < MAX_SEED_ATTEMPTS && s == candidate_of(init_seed, t) && seed_satisfies(
                s@,
                code_root@,
                storage_root@,
                account_type,
                storage_type,
            ) && forall|u: u64|
                u < t ==> !seed_satisfies(
                    (#[trigger] candidate_of(init_seed, u))@,
                    code_root@,
                    storage_root@,
                    account_type,
                    storage_type,
                ),
        r is Err ==> forall|t: u64|
            t < MAX_SEED_ATTEMPTS ==> !seed_satisfies(
                (#[trigger] candidate_of(init_seed, t))@,
                code_root@,
                storage_root@,
                account_type,
                storage_type,
            ),
        r is Err ==> r == Err::<Word, AccountError>(AccountError::SeedGrindExhausted),
{
    let mut t: u64 = 0;
    while t < MAX_SEED_ATTEMPTS
        invariant
            t <= MAX_SEED_ATTEMPTS,
            forall|u: u64|
                u < t ==> !seed_satisfies(
                    (#[trigger] candidate_of(init_seed, u))@,
                    code_root@,
                    storage_root@,
                    account_type,
                    storage_type,
                ),
        decreases MAX_SEED_ATTEMPTS - t,
    {
        let candidate = Word::new(init_seed.e0 ^ t, init_seed.e1, init_seed.e2, init_seed.e3);
        proof {
            assert(candidate == candidate_of(init_seed, t));
        }
        let digest = derive_digest(&candidate, &code_root, &storage_root);
        let id = digest.e0;
        proof {
            assert(digest@[0] == id);
            assert(derived_id_of(candidate@, code_root@, storage_root@) == id);
        }
        if id < FIELD_MODULUS && extract_account_type(id) == account_type
            && extract_storage_type(id) == storage_type {
            proof {
                assert(seed_satisfies(
                    candidate@,
                    code_root@,
                    storage_root@,
                    account_type,
                    storage_type,
                ));
            }
            return Ok(candidate);
        }
        proof {
            assert(!seed_satisfies(
                candidate_of(init_seed, t)@,
                code_root@,
                storage_root@,
                account_type,
                storage_type,
            ));
        }
        t += 1;
    }
    Err(AccountError::SeedGrindExhausted)
}

/// For every input on which grinding succeeds, the returned seed
/// reconstructs to a valid identity that decodes to exactly the account and
/// storage types declared during grinding.
pub proof fn lemma_seed_round_trip(
    seed: Seq<u64>,
    code_root: Seq<u64>,
    storage_root: Seq<u64>,
    account_type: AccountType,
    storage_type: AccountStorageType,
)
    requires
        seed_satisfies(seed, code_root, storage_root, account_type, storage_type),
    ensures
        id_valid(derived_id_of(seed, code_root, storage_root)),
        account_type_of(derived_id_of(seed, code_root, storage_root)) == account_type,
        storage_type_of(derived_id_of(seed, code_root, storage_root)) == storage_type,
{
}

/// Well-known identity values used across fixtures, passed into builders as
/// explicit test data. Each value's high bits encode the type its name
/// declares, and each is a canonical field element.
pub const ACCOUNT_ID_FUNGIBLE_FAUCET_ON_CHAIN: u64 = 0xA00000000000003F;

pub const ACCOUNT_ID_FUNGIBLE_FAUCET_ON_CHAIN_2: u64 = 0xA00000000000004F;

pub const ACCOUNT_ID_NON_FUNGIBLE_FAUCET_ON_CHAIN: u64 = 0xE00000000000005F;

pub const ACCOUNT_ID_REGULAR_ACCOUNT_IMMUTABLE_CODE_ON_CHAIN: u64 = 0x200000000000002F;

pub const ACCOUNT_ID_REGULAR_ACCOUNT_UPDATABLE_CODE_ON_CHAIN: u64 = 0x600000000000001F;

pub const ACCOUNT_ID_REGULAR_ACCOUNT_UPDATABLE_CODE_OFF_CHAIN: u64 = 0x400000000000006F;

} // verus!
