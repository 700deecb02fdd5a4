//! Errors of the core as a whole.

use vstd::prelude::*;

verus! {

/// The ways in which the core refuses a value.
#[derive(Debug, Clone, Copy, PartialEq, Eq, Structural)]
pub enum Error {
    /// The value is not a valid address.
    InvalidAddress,
}

impl Error {
    /// The error in words.
    pub fn to_string(&self) -> (r: String)
        ensures
            r@ == "value is not a valid address"@,
    {
        match self {
            Error::InvalidAddress => "value is not a valid address".to_owned(),
        }
    }
}

} // verus!
