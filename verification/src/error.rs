//! The ways in which an operation of the registry fails.

use vstd::prelude::*;

verus! {

/// Why an operation was refused. A refused operation changes nothing.
#[derive(Clone, Copy, Debug, PartialEq, Eq, Structural)]
pub enum Error {
    /// The request carries no signed principal.
    Unauthenticated,
    /// A principal's collection is full, or would grow beyond the maximum.
    CapacityExceeded,
    /// No record has the identifier that was named.
    NotFound,
    /// The caller does not own the record that was named.
    NotOwner,
}

impl Error {
    /// A short description of the failure.
    pub fn message(&self) -> (text: &'static str)
        ensures
            text@ == (match *self {
                Error::Unauthenticated => "The request is not signed"@,
                Error::CapacityExceeded => "The owner cannot hold more kitties"@,
                Error::NotFound => "This kitty does not exist"@,
                Error::NotOwner => "You do not own this kitty"@,
            }),
    {
        match self {
            Error::Unauthenticated => "The request is not signed",
            Error::CapacityExceeded => "The owner cannot hold more kitties",
            Error::NotFound => "This kitty does not exist",
            Error::NotOwner => "You do not own this kitty",
        }
    }
}

} // verus!
