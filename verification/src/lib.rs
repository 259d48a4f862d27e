//! Execution core of a deterministic smart-contract virtual machine.
//!
//! Given a contract call and a backing store, the core resolves the entry
//! point in the class of the contract, names the engine that runs it, and
//! turns what the engine reports into a result: return data, events, messages,
//! nested calls and the resources used. The engines themselves, one that
//! interprets and one that runs compiled code, stay outside: a call is
//! entered here, run there, and completed here, and everything that running
//! code does to the state goes through the syscall bridge.
//!
//! - [`felt`], [`types`], [`hash`], [`abi_utils`]: field elements, the
//!   identifiers made of them, and the hashes that derive selectors, storage
//!   keys and addresses.
//! - [`collections`]: the map and the layered map that the state is kept in.
//! - [`state`]: the staged state cache over a read-only backing store. Writes
//!   are layered, one layer per open call, so that a failed call takes its
//!   writes with it.
//! - [`execution`]: classes and their entry points, call descriptors and
//!   results, the execution context, the dispatcher and the syscall bridge.
//! - [`test_utils`]: an in-memory backing store and the set-up of a
//!   liquidity-pool scenario.

pub mod abi_utils;
pub mod collections;
pub mod execution;
pub mod felt;
pub mod hash;
pub mod state;
pub mod test_utils;
pub mod types;
