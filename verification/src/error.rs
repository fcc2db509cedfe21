//! Errors raised by the store and its concurrency wrapper.

use vstd::prelude::*;

use crate::tuple::Tuple;

verus! {

/// A store-level failure.
///
/// Absence of a matching tuple on a read or take is a normal outcome
/// (`None`), never an error.
#[derive(Debug)]
pub enum Error {
    /// A prior panic while holding exclusive access poisoned the shared
    /// store; every later operation on any handle fails with this error and
    /// there is no recovery.
    MutexPoisonError,
    /// A write was handed a tuple that is not fully concrete.  Defensive:
    /// unreachable through this crate's construction path, where tuples only
    /// ever hold concrete values.
    NonConcreteTuple(Tuple),
}

} // verus!
