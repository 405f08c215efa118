//! What the record store answers, as plain values, and the clock that
//! stamps new records.

use vstd::prelude::*;

verus! {

/// The answer to a lookup of one record.
pub enum Lookup<T> {
    /// The record was found.
    Found(T),
    /// No record matched.
    Missing,
    /// The store failed to answer.
    Failed,
}

/// The store failed to carry out a request.
#[derive(Clone, Copy, Debug, PartialEq, Eq)]
pub struct StoreError;

/// `chrono::Utc::now().timestamp()`: the current time in whole seconds since
/// the Unix epoch. It depends on the clock, so nothing is promised of it.
/// Like chrono's `Utc::now`, it panics when the system clock reads a time
/// before the epoch; that is a state of the machine, not of an argument.
#[verifier::external_body]
pub(crate) fn current_timestamp() -> i64 {
    chrono::Utc::now().timestamp()
}

} // verus!
