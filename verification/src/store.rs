//! The store capability: size, write, non-destructive read, and
//! match-and-remove (take).
//!
//! The trait promises only what every implementation can honour — in
//! particular that a tuple handed back by `read` or `take` matches the
//! pattern it was asked for.  Concrete implementations strengthen these
//! contracts: [`crate::vec_store::VecStore`] pins every result down
//! exactly, while [`crate::mutex_store::MutexStore`] shares one store among
//! many handles and can promise no more than the trait does.

use vstd::prelude::*;

use crate::error::Error;
use crate::query_tuple::{query_matches, QueryTuple};
use crate::tuple::Tuple;

verus! {

/// A tuple store: an ordered container of tuples that are appended by
/// `write` and retrieved by structural pattern match.
pub trait Store: Default + Sized {
    /// The number of live tuples in the store.
    fn size(&self) -> (r: Result<usize, Error>);

    /// Appends a tuple to the store.
    fn write(&mut self, tuple: &Tuple) -> (r: Result<(), Error>);

    /// Returns a copy of the first tuple matching the pattern, without
    /// removing it.
    fn read(&self, query_tuple: &QueryTuple) -> (r: Result<Option<Tuple>, Error>)
        ensures
            (r matches Ok(Some(t)) ==> query_matches(query_tuple@, t@)),
    ;

    /// Removes and returns the first tuple matching the pattern.
    fn take(&mut self, query_tuple: &QueryTuple) -> (r: Result<Option<Tuple>, Error>)
        ensures
            (r matches Ok(Some(t)) ==> query_matches(query_tuple@, t@)),
    ;
}

} // verus!
