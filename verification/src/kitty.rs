//! Records and the plain values they are made of.

use crate::gender::Gender;
use vstd::prelude::*;

verus! {

/// The identifier of a record.
pub type Id = u32;

/// The identifier of an authenticated principal.
pub type PrincipalId = u64;

/// An amount of the currency in which prices are given.
pub type Balance = u128;

/// One minted record.
#[derive(Debug, PartialEq, Eq)]
pub struct Kitties {
    pub id: Id,
    pub dna: Vec<u8>,
    pub owner: PrincipalId,
    pub price: Balance,
    pub gender: Gender,
    pub create_date: u64,
}

/// What a record is, with its payload as a sequence of bytes.
pub struct KittyView {
    pub id: Id,
    pub dna: Seq<u8>,
    pub owner: PrincipalId,
    pub price: Balance,
    pub gender: Gender,
    pub create_date: u64,
}

impl View for Kitties {
    type V = KittyView;

    open spec fn view(&self) -> KittyView {
        KittyView {
            id: self.id,
            dna: self.dna@,
            owner: self.owner,
            price: self.price,
            gender: self.gender,
            create_date: self.create_date,
        }
    }
}

impl KittyView {
    /// The same record in the hands of `new_owner`.
    pub open spec fn owned_by(self, new_owner: PrincipalId) -> KittyView {
        KittyView { owner: new_owner, ..self }
    }
}

impl Clone for Kitties {
    fn clone(&self) -> (copy: Kitties)
        ensures
            copy@ == self@,
    {
        Kitties {
            id: self.id,
            dna: self.dna.clone(),
            owner: self.owner,
            price: self.price,
            gender: self.gender,
            create_date: self.create_date,
        }
    }
}

} // verus!
