//! Discrete, named failures of construction and of the data-access boundary.

use vstd::prelude::*;

verus! {

/// Failures raised while building storage, accounts, identities or deltas.
///
/// Construction is all-or-nothing: when one of these is returned, no
/// partially-constructed value is observable.
#[derive(Clone, Copy, PartialEq, Eq, Structural, Debug)]
pub enum AccountError {
    /// Two storage slot entries share an index.
    DuplicateStorageSlot,
    /// More entries than the 256-slot ceiling allows.
    TooManyStorageSlots,
    /// A storage map entry holds a non-canonical field element.
    MalformedMapEntry,
    /// Two storage map entries share a key.
    DuplicateMapKey,
    /// More map entries than one committed map supports.
    TooManyMapEntries,
    /// The bounded seed search ended without a satisfying seed.
    SeedGrindExhausted,
    /// A derived or supplied identity value is not a canonical field element.
    InvalidAccountId,
    /// A fungible asset names a faucet whose identity is not of faucet type,
    /// or carries an amount above the representable maximum.
    InvalidFungibleAsset,
    /// Two vault entries stand for the same asset.
    DuplicateAsset,
    /// A non-empty delta carries no nonce update.
    DeltaNonceMissing,
    /// A delta's nonce does not strictly increase the account's nonce.
    DeltaNonceNotIncreasing,
    /// A vault delta cannot be applied to the account's holdings.
    InvalidVaultUpdate,
}

/// Failures of the data-access boundary, terminal for the call that raised
/// them.
#[derive(Clone, Copy, PartialEq, Eq, Structural, Debug)]
pub enum DataStoreError {
    /// The requested account is unknown to the store.
    AccountNotFound,
    /// The requested block is unknown to the store.
    BlockNotFound,
    /// A requested note is unknown to the store.
    NoteNotFound,
    /// A requested note was already consumed as of the reference block.
    NoteAlreadyConsumed,
    /// The combination of requested inputs is inconsistent, e.g. a note not
    /// yet recorded as of the reference block.
    InvalidTransactionInputs,
    /// A provider-side fault; possibly transient, retriable by the caller.
    Internal,
}

} // verus!
