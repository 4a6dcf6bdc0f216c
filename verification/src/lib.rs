//! Counters kept in a Soroban contract's storage, with their behaviour proved.
//!
//! `ledger` is the mathematical picture of what a contract has stored and
//! published. `host` holds every call into the Soroban SDK, each with the
//! contract that the rest of the crate relies on. The contracts themselves
//! are in `hello`, `increment` and `custom_types`; `laws` follows them
//! through runs of calls.

pub mod custom_types;
pub mod hello;
pub mod host;
pub mod increment;
pub mod laws;
pub mod ledger;

pub use custom_types::{IncrementContractCustomTypes, State};
pub use hello::Contract;
pub use increment::{AuthorizationFailure, DataKey, Error, IncrementContract, MAX, SUMMABLE};
