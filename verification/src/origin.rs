//! Where a request comes from.

use crate::error::Error;
use crate::kitty::PrincipalId;
use vstd::prelude::*;

verus! {

/// The origin of a request, as the authenticating layer hands it over.
#[derive(Clone, Copy, Debug, PartialEq, Eq, Structural)]
pub enum Origin {
    /// The system itself.
    Root,
    /// A principal who signed the request.
    Signed(PrincipalId),
    /// Nobody who could be held to account.
    Unsigned,
}

impl Origin {
    /// The principal who signed, if any did.
    pub open spec fn signer(self) -> Option<PrincipalId> {
        match self {
            Origin::Signed(who) => Some(who),
            _ => None,
        }
    }
}

/// The principal behind a signed request; every other origin is refused.
pub fn ensure_signed(origin: Origin) -> (who: Result<PrincipalId, Error>)
    ensures
        who == (match origin.signer() {
            Some(p) => Ok::<PrincipalId, Error>(p),
            None => Err::<PrincipalId, Error>(Error::Unauthenticated),
        }),
{
    match origin {
        Origin::Signed(who) => Ok(who),
        _ => Err(Error::Unauthenticated),
    }
}

} // verus!
