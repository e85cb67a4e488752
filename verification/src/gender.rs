//! The attribute that every record carries from the moment it is minted.

use vstd::prelude::*;

verus! {

/// The derived attribute of a record.
#[derive(Clone, Copy, Debug, PartialEq, Eq, Structural)]
pub enum Gender {
    Male,
    Female,
}

impl Default for Gender {
    fn default() -> (g: Gender)
        ensures
            g == Gender::Male,
    {
        Gender::Male
    }
}

/// The gender that a payload of `len` bytes stands for: `Female` for an odd
/// length, `Male` for an even one, the empty payload included.
pub open spec fn gender_of_len(len: nat) -> Gender {
    if len % 2 == 1 {
        Gender::Female
    } else {
        Gender::Male
    }
}

/// The gender of a payload, which depends on nothing but its length.
pub open spec fn gender_of(dna: Seq<u8>) -> Gender {
    gender_of_len(dna.len())
}

/// Derives the gender of a payload.
pub fn gen_gender(dna: &[u8]) -> (g: Gender)
    ensures
        g == gender_of(dna@),
{
    if dna.len() % 2 == 1 {
        Gender::Female
    } else {
        Gender::Male
    }
}

/// The gender of a payload is fixed by the parity of its length: two
/// payloads whose lengths agree modulo 2 have the same gender, whatever
/// their bytes.
pub proof fn lemma_gender_by_parity(a: Seq<u8>, b: Seq<u8>)
    requires
        a.len() % 2 == b.len() % 2,
    ensures
        gender_of(a) == gender_of(b),
        gender_of(a) == gender_of_len(a.len() % 2),
{
}

} // verus!
