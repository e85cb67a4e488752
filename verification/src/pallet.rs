//! The registry itself: the stores, the counter, and the two operations
//! that change them.

use crate::allocator::IdAllocator;
use crate::error::Error;
use crate::event::{Event, EventView};
use crate::gender::gen_gender;
use crate::kitty::{Balance, Id, Kitties, KittyView, PrincipalId};
use crate::model::{
    lemma_create_inv, lemma_delivered_inv, lemma_empty_inv, lemma_transfer_inv, RegistryState,
};
use crate::origin::{ensure_signed, Origin};
use crate::store::{remove_id, OwnershipIndex, RecordStore};
use vstd::prelude::*;

verus! {

/// What a registry is set up with.
#[derive(Clone, Copy, Debug, PartialEq, Eq)]
pub struct Config {
    /// The most records that one principal may own at a time.
    pub max_addend: u32,
}

/// A registry of records and of who owns them.
#[derive(Debug, PartialEq, Eq)]
pub struct Pallet {
    config: Config,
    kitty_number: IdAllocator,
    kitty: RecordStore,
    kitty_owner: OwnershipIndex,
    events: Vec<Event>,
}

/// The records of `list`, each by its view.
pub open spec fn views_of(list: Seq<Kitties>) -> Seq<KittyView> {
    list.map_values(|kitty: Kitties| kitty@)
}

/// What the caller of a creation is told, with the record by its view.
pub open spec fn told_of(told: Result<Kitties, Error>) -> Result<KittyView, Error> {
    match told {
        Ok(kitty) => Ok(kitty@),
        Err(e) => Err(e),
    }
}

/// The signals of `list`, each by its view.
pub open spec fn signals_of(list: Seq<Event>) -> Seq<EventView> {
    list.map_values(|event: Event| event@)
}

impl View for Pallet {
    type V = RegistryState;

    closed spec fn view(&self) -> RegistryState {
        RegistryState {
            max_owned: self.config.max_addend,
            last_id: self.kitty_number.last_issued(),
            records: self.kitty@,
            owned: self.kitty_owner@,
            events: signals_of(self.events@),
        }
    }
}

impl Clone for Pallet {
    fn clone(&self) -> (copy: Pallet)
        ensures
            copy@ == self@,
    {
        let copy = Pallet {
            config: self.config,
            kitty_number: self.kitty_number.clone(),
            kitty: self.kitty.clone(),
            kitty_owner: self.kitty_owner.clone(),
            events: self.events.clone(),
        };
        assert(signals_of(copy.events@) =~= signals_of(self.events@));
        copy
    }
}

impl Pallet {
    /// Whether the registry is in a state that it can reach from an empty
    /// one: every operation needs this and keeps it.
    pub open spec fn wf(&self) -> bool {
        self@.inv()
    }

    /// An empty registry.
    pub fn new(config: Config) -> (pallet: Pallet)
        ensures
            pallet@ == RegistryState::empty(config.max_addend),
            pallet.wf(),
    {
        let pallet = Pallet {
            config,
            kitty_number: IdAllocator::new(),
            kitty: RecordStore::new(),
            kitty_owner: OwnershipIndex::new(),
            events: Vec::new(),
        };
        proof {
            assert(signals_of(pallet.events@) =~= Seq::<EventView>::empty());
            lemma_empty_inv(config.max_addend);
        }
        pallet
    }

    /// Mints a record for the principal who signed `origin`, with the
    /// payload `dna`, at `price`, at the time `now` (seconds since the
    /// epoch), and leaves a signal of the creation for the observers. The
    /// record returned is the record stored.
    ///
    /// Refused, with nothing changed: an origin that is not signed
    /// (`Unauthenticated`), and a caller whose collection is full
    /// (`CapacityExceeded`).
    ///
    /// A creation that is due needs an identifier: the counter must not
    /// have issued the last one.
    pub fn create_kitty(&mut self, origin: Origin, dna: Vec<u8>, price: Balance, now: u64) -> (told:
        Result<Kitties, Error>)
        requires
            old(self).wf(),
            old(self)@.can_create(origin),
        ensures
            final(self).wf(),
            (final(self)@, told_of(told)) == old(self)@.create(origin, dna@, price, now),
            told is Err ==> final(self)@ == old(self)@,
            told matches Ok(kitty) ==> final(self)@.record(kitty.id) == Some(kitty@),
    {
        let caller = match ensure_signed(origin) {
            Ok(who) => who,
            Err(e) => {
                return Err(e);
            },
        };
        if self.kitty_owner.count(caller) >= self.config.max_addend as usize {
            return Err(Error::CapacityExceeded);
        }
        let id = self.kitty_number.next();
        let gender = gen_gender(dna.as_slice());
        let event = Event::KittyStore(dna.clone(), price);
        let kitty = Kitties { id, dna, owner: caller, price, gender, create_date: now };
        let copy = kitty.clone();
        self.kitty.put(id, kitty);
        let mut list = self.kitty_owner.get(caller);
        list.push(id);
        self.kitty_owner.put(caller, list);
        self.events.push(event);
        proof {
            let before = old(self)@;
            assert(signals_of(self.events@) =~= before.events.push(event@));
            assert(self@ == before.with_minted(copy@));
            lemma_create_inv(before, origin, copy@.dna, price, now);
        }
        Ok(copy)
    }

    /// Hands the record `kitty_id` from the principal who signed `origin`
    /// to `new_owner`, as the newest of the new owner's records.
    ///
    /// Refused, with nothing changed, for the first of these that holds: the
    /// origin is not signed (`Unauthenticated`); there is no such record
    /// (`NotFound`); the caller does not own it (`NotOwner`); the new
    /// owner's collection is full (`CapacityExceeded`). The record leaves
    /// the caller's collection before room is looked for, so a transfer to
    /// oneself succeeds and makes the record the newest of one's own.
    pub fn change_owner(&mut self, origin: Origin, kitty_id: Id, new_owner: PrincipalId) -> (told:
        Result<(), Error>)
        requires
            old(self).wf(),
        ensures
            final(self).wf(),
            (final(self)@, told) == old(self)@.transfer(origin, kitty_id, new_owner),
            told is Err ==> final(self)@ == old(self)@,
    {
        let caller = match ensure_signed(origin) {
            Ok(who) => who,
            Err(e) => {
                return Err(e);
            },
        };
        let mut kitty = match self.kitty.get(kitty_id) {
            Some(kitty) => kitty,
            None => {
                return Err(Error::NotFound);
            },
        };
        if kitty.owner != caller {
            return Err(Error::NotOwner);
        }
        let rest = remove_id(&self.kitty_owner.get(caller), kitty_id);
        let held = if new_owner == caller {
            rest.len()
        } else {
            self.kitty_owner.count(new_owner)
        };
        proof {
            let before = old(self)@;
            assert(before.released(caller, kitty_id).owned_by(new_owner).len() == held);
        }
        if held >= self.config.max_addend as usize {
            return Err(Error::CapacityExceeded);
        }
        kitty.owner = new_owner;
        self.kitty_owner.put(caller, rest);
        self.kitty.put(kitty_id, kitty);
        let mut list = self.kitty_owner.get(new_owner);
        list.push(kitty_id);
        self.kitty_owner.put(new_owner, list);
        proof {
            let before = old(self)@;
            assert(self@ == before.released(caller, kitty_id).received(new_owner, kitty_id));
            lemma_transfer_inv(before, origin, kitty_id, new_owner);
        }
        Ok(())
    }

    /// The most records that one principal may own at a time.
    pub fn max_owned(&self) -> (max: u32)
        ensures
            max == self@.max_owned,
    {
        self.config.max_addend
    }

    /// The identifier issued last; 0 before the first.
    pub fn kitty_number(&self) -> (id: Id)
        ensures
            id == self@.last_id,
    {
        self.kitty_number.last()
    }

    /// A copy of the record `id`, if there is one.
    pub fn get_record(&self, id: Id) -> (found: Option<Kitties>)
        ensures
            match found {
                Some(kitty) => self@.record(id) == Some(kitty@),
                None => self@.record(id) is None,
            },
    {
        self.kitty.get(id)
    }

    /// Copies of the records that `who` owns, oldest first; none for a
    /// principal the registry has never seen.
    pub fn get_owned(&self, who: PrincipalId) -> (list: Vec<Kitties>)
        requires
            self.wf(),
        ensures
            views_of(list@) == self@.owned_records(who),
            list@.len() == self@.owned_by(who).len(),
            forall|i: int|
                0 <= i < list@.len() ==> (#[trigger] list@[i])@ == self@.records[self@.owned_by(
                    who,
                )[i]],
    {
        let ids = self.kitty_owner.get(who);
        let mut list: Vec<Kitties> = Vec::new();
        let mut i: usize = 0;
        while i < ids.len()
            invariant
                self.wf(),
                ids@ == self@.owned_by(who),
                i <= ids.len(),
                list@.len() == i,
                forall|j: int| 0 <= j < i ==> (#[trigger] list@[j])@ == self@.records[ids@[j]],
            decreases ids.len() - i,
        {
            assert(self@.owned_by(who).contains(ids@[i as int]));
            match self.kitty.get(ids[i]) {
                Some(kitty) => {
                    list.push(kitty);
                },
                None => {},
            }
            i = i + 1;
        }
        assert(views_of(list@) =~= self@.owned_records(who));
        list
    }

    /// Copies of the signals that wait for the observers, oldest first.
    pub fn events(&self) -> (list: Vec<Event>)
        ensures
            signals_of(list@) == self@.events,
            list@.len() == self@.events.len(),
    {
        let list = self.events.clone();
        assert(signals_of(list@) =~= signals_of(self.events@));
        list
    }

    /// Hands the waiting signals over, oldest first, and leaves none behind.
    /// Nothing else changes.
    pub fn take_events(&mut self) -> (list: Vec<Event>)
        ensures
            signals_of(list@) == old(self)@.events,
            list@.len() == old(self)@.events.len(),
            final(self)@ == old(self)@.delivered(),
            old(self).wf() ==> final(self).wf(),
    {
        let mut list: Vec<Event> = Vec::new();
        std::mem::swap(&mut self.events, &mut list);
        proof {
            assert(signals_of(self.events@) =~= Seq::<EventView>::empty());
            if old(self).wf() {
                lemma_delivered_inv(old(self)@);
            }
        }
        list
    }
}

} // verus!
