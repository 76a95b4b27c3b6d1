//! The library's error type.
use vstd::prelude::*;

verus! {

/// Errors reported by the library.
#[derive(Debug)]
pub enum Error {
    /// The input is not a valid PDF structure (or CMS blob).
    InvalidPdf(String),
    /// An operation was used in a way the library does not allow.
    InvalidOperation(String),
}

} // verus!
