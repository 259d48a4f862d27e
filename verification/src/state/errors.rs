//! Errors of the state cache.

use vstd::prelude::*;
use crate::types::ClassHash;

verus! {

/// What can go wrong in the state cache. These are fatal to the transaction.
#[derive(Clone, Copy, Debug, PartialEq, Eq, Structural)]
pub enum StateError {
    /// A class was asked for under a hash that nothing was declared under.
    ClassNotDeclared(ClassHash),
    /// A class was declared under a hash that already names a class.
    ClassAlreadyDeclared(ClassHash),
    /// A value left its range: an address or a key the range below 2^251, a
    /// nonce the field.
    OutOfRange,
    /// A nonce was to be set below the value that it has.
    NonceDecrease,
}

} // verus!
