//! What the registry tells its observers.

use crate::kitty::Balance;
use vstd::prelude::*;

verus! {

/// A signal that the registry leaves for its observers.
#[derive(Debug, PartialEq, Eq)]
pub enum Event {
    /// A record was minted, with this payload and at this price.
    KittyStore(Vec<u8>, Balance),
}

/// What a signal says, with the payload as a sequence of bytes.
pub enum EventView {
    KittyStore(Seq<u8>, Balance),
}

impl View for Event {
    type V = EventView;

    open spec fn view(&self) -> EventView {
        match *self {
            Event::KittyStore(dna, price) => EventView::KittyStore(dna@, price),
        }
    }
}

impl Clone for Event {
    fn clone(&self) -> (copy: Event)
        ensures
            copy@ == self@,
    {
        match self {
            Event::KittyStore(dna, price) => Event::KittyStore(dna.clone(), *price),
        }
    }
}

} // verus!
