//! The staged state cache and the backing store it reads from.

pub mod cached_state;
pub mod errors;
pub mod state_api;
