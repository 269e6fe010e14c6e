//! Low-level failures wrapped for the domain errors.
use vstd::prelude::*;

verus! {

/// A low-level conversion failure, with its description.
#[derive(Debug, PartialEq, Eq)]
pub enum Error {
    /// An integer conversion overflowed.
    IntConversion(String),
    /// A system time conversion failed.
    TimerError(String),
    /// Any other internal condition.
    Message(String),
}

} // verus!
