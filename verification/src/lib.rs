//! Account state commitment model for a transaction-executing system.
//!
//! An account's persistent state (code, storage, asset holdings, nonce) is
//! represented as plain values, committed to via cryptographic roots supplied
//! by an external commitment primitive, bound to a type-tagged identity by a
//! deterministic seed search, and exposed to a transaction executor through a
//! narrow data-access boundary.

pub mod account;
pub mod account_id;
pub mod commit;
pub mod data_store;
pub mod delta;
pub mod errors;
pub mod storage;
pub mod word;
