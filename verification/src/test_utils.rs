//! Helpers for driving the execution core: an in-memory backing store and the
//! set-up of one liquidity-pool scenario.

pub mod dict_state_reader;
pub mod yas_test_utils;
