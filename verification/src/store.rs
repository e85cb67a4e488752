//! The two keyed stores of the registry: the records by identifier, and
//! for each principal the identifiers of the records owned.
//!
//! Neither store enforces anything: what keeps the two consistent is the
//! registry that writes to them.

use crate::kitty::{Id, Kitties, KittyView, PrincipalId};
use crate::model::without;
use std::collections::HashMap;
use vstd::prelude::*;

verus! {

broadcast use vstd::std_specs::hash::group_hash_axioms;

/// The records, each under its identifier.
#[derive(Debug, PartialEq, Eq)]
pub struct RecordStore {
    records: HashMap<Id, Kitties>,
}

impl View for RecordStore {
    type V = Map<Id, KittyView>;

    closed spec fn view(&self) -> Map<Id, KittyView> {
        self.records@.map_values(|kitty: Kitties| kitty@)
    }
}

impl Clone for RecordStore {
    fn clone(&self) -> (copy: RecordStore)
        ensures
            copy@ == self@,
    {
        RecordStore { records: self.records.clone() }
    }
}

impl RecordStore {
    /// A store without records.
    pub fn new() -> (store: RecordStore)
        ensures
            store@ == Map::<Id, KittyView>::empty(),
    {
        let store = RecordStore { records: HashMap::new() };
        assert(store@ =~= Map::<Id, KittyView>::empty());
        store
    }

    /// A copy of the record stored under `id`.
    pub fn get(&self, id: Id) -> (found: Option<Kitties>)
        ensures
            found is Some == self@.contains_key(id),
            found matches Some(kitty) ==> kitty@ == self@[id],
    {
        match self.records.get(&id) {
            Some(kitty) => Some(kitty.clone()),
            None => None,
        }
    }

    /// Stores `kitty` under `id`, in place of what was there.
    pub fn put(&mut self, id: Id, kitty: Kitties)
        ensures
            final(self)@ == old(self)@.insert(id, kitty@),
    {
        self.records.insert(id, kitty);
        assert(self@ =~= old(self)@.insert(id, kitty@));
    }
}

/// For each principal, the identifiers of the records owned, in the order
/// in which they arrived.
#[derive(Debug, PartialEq, Eq)]
pub struct OwnershipIndex {
    owned: HashMap<PrincipalId, Vec<Id>>,
}

impl View for OwnershipIndex {
    type V = Map<PrincipalId, Seq<Id>>;

    closed spec fn view(&self) -> Map<PrincipalId, Seq<Id>> {
        self.owned@.map_values(|list: Vec<Id>| list@)
    }
}

impl Clone for OwnershipIndex {
    fn clone(&self) -> (copy: OwnershipIndex)
        ensures
            copy@ == self@,
    {
        OwnershipIndex { owned: self.owned.clone() }
    }
}

impl OwnershipIndex {
    /// The collection kept for `who`; empty where none is kept.
    pub open spec fn collection(&self, who: PrincipalId) -> Seq<Id> {
        if self@.contains_key(who) {
            self@[who]
        } else {
            Seq::empty()
        }
    }

    /// An index without collections.
    pub fn new() -> (index: OwnershipIndex)
        ensures
            index@ == Map::<PrincipalId, Seq<Id>>::empty(),
    {
        let index = OwnershipIndex { owned: HashMap::new() };
        assert(index@ =~= Map::<PrincipalId, Seq<Id>>::empty());
        index
    }

    /// How many identifiers are kept for `who`.
    pub fn count(&self, who: PrincipalId) -> (n: usize)
        ensures
            n == self.collection(who).len(),
    {
        match self.owned.get(&who) {
            Some(list) => list.len(),
            None => 0,
        }
    }

    /// A copy of the collection kept for `who`; empty where none is kept.
    pub fn get(&self, who: PrincipalId) -> (list: Vec<Id>)
        ensures
            list@ == self.collection(who),
    {
        match self.owned.get(&who) {
            Some(list) => list.clone(),
            None => Vec::new(),
        }
    }

    /// Keeps `list` for `who`, in place of the collection kept before.
    pub fn put(&mut self, who: PrincipalId, list: Vec<Id>)
        ensures
            final(self)@ == old(self)@.insert(who, list@),
    {
        self.owned.insert(who, list);
        assert(self@ =~= old(self)@.insert(who, list@));
    }
}

/// A copy of `list` from which `id` is gone; what remains keeps its order.
pub fn remove_id(list: &Vec<Id>, id: Id) -> (rest: Vec<Id>)
    ensures
        rest@ == without(list@, id),
{
    let mut rest: Vec<Id> = Vec::new();
    let mut i: usize = 0;
    proof {
        reveal(Seq::filter);
        assert(list@.take(0) =~= Seq::<Id>::empty());
    }
    while i < list.len()
        invariant
            i <= list.len(),
            rest@ == without(list@.take(i as int), id),
        decreases list.len() - i,
    {
        proof {
            reveal(Seq::filter);
            assert(list@.take(i + 1).drop_last() =~= list@.take(i as int));
        }
        if list[i] != id {
            rest.push(list[i]);
        }
        i = i + 1;
    }
    assert(list@.take(i as int) =~= list@);
    rest
}

} // verus!
