//! The registry as a mathematical object: its state, what creation and
//! transfer make of it, and the invariant that every reachable state
//! satisfies.

use crate::error::Error;
use crate::event::EventView;
use crate::gender::gender_of;
use crate::kitty::{Balance, Id, KittyView, PrincipalId};
use crate::origin::Origin;
use vstd::prelude::*;

verus! {

/// A collection of identifiers with `id` taken out and the order of the
/// others kept.
pub open spec fn without(list: Seq<Id>, id: Id) -> Seq<Id> {
    list.filter(|x: Id| x != id)
}

/// The whole state of a registry.
pub struct RegistryState {
    /// The most records that one principal may own at a time.
    pub max_owned: u32,
    /// The identifier issued last; 0 before the first.
    pub last_id: Id,
    /// Every record, by its identifier.
    pub records: Map<Id, KittyView>,
    /// For each principal who ever owned a record, the identifiers of the
    /// records owned now, in the order in which they arrived.
    pub owned: Map<PrincipalId, Seq<Id>>,
    /// The signals left for the observers, oldest first.
    pub events: Seq<EventView>,
}

impl RegistryState {
    /// The registry in which nothing has happened yet.
    pub open spec fn empty(max_owned: u32) -> RegistryState {
        RegistryState {
            max_owned,
            last_id: 0,
            records: Map::empty(),
            owned: Map::empty(),
            events: Seq::empty(),
        }
    }

    /// The identifiers that `who` owns, oldest first; empty for a principal
    /// the registry has never seen.
    pub open spec fn owned_by(self, who: PrincipalId) -> Seq<Id> {
        if self.owned.contains_key(who) {
            self.owned[who]
        } else {
            Seq::empty()
        }
    }

    /// The record with the identifier `id`, if there is one.
    pub open spec fn record(self, id: Id) -> Option<KittyView> {
        if self.records.contains_key(id) {
            Some(self.records[id])
        } else {
            None
        }
    }

    /// The records that `who` owns, oldest first.
    pub open spec fn owned_records(self, who: PrincipalId) -> Seq<KittyView> {
        self.owned_by(who).map_values(|id: Id| self.records[id])
    }

    /// Whether `who` may take one more record.
    pub open spec fn has_room(self, who: PrincipalId) -> bool {
        self.owned_by(who).len() < self.max_owned
    }

    /// What holds of every state that the registry can reach:
    ///
    /// - the identifiers in use are exactly those from 1 up to the counter,
    ///   so that the next one is new;
    /// - a record is stored under its own identifier, with the gender that
    ///   its payload gives;
    /// - no collection holds an identifier twice;
    /// - no collection holds more than the maximum;
    /// - a collection holds an identifier exactly when the record of that
    ///   identifier exists and names the collection's principal as owner, so
    ///   that every record is in one collection and in one only.
    pub open spec fn inv(self) -> bool {
        &&& forall|id: Id| #[trigger]
            self.records.contains_key(id) <==> 1 <= id <= self.last_id
        &&& forall|id: Id| #[trigger]
            self.records.contains_key(id) ==> {
                &&& self.records[id].id == id
                &&& self.records[id].gender == gender_of(self.records[id].dna)
            }
        &&& forall|who: PrincipalId| #[trigger] self.owned_by(who).no_duplicates()
        &&& forall|who: PrincipalId| #[trigger] self.owned_by(who).len() <= self.max_owned
        &&& forall|who: PrincipalId, id: Id| #[trigger]
            self.owned_by(who).contains(id) <==> self.records.contains_key(id)
                && self.records[id].owner == who
    }

    /// The state in which the observers have been handed every signal.
    pub open spec fn delivered(self) -> RegistryState {
        RegistryState { events: Seq::empty(), ..self }
    }

    /// The record that `caller` would mint next.
    pub open spec fn minted(
        self,
        caller: PrincipalId,
        dna: Seq<u8>,
        price: Balance,
        now: u64,
    ) -> KittyView {
        KittyView {
            id: (self.last_id + 1) as Id,
            dna,
            owner: caller,
            price,
            gender: gender_of(dna),
            create_date: now,
        }
    }

    /// The state in which `kitty` has been stored, handed to its owner and
    /// announced.
    pub open spec fn with_minted(self, kitty: KittyView) -> RegistryState {
        RegistryState {
            last_id: kitty.id,
            records: self.records.insert(kitty.id, kitty),
            owned: self.owned.insert(kitty.owner, self.owned_by(kitty.owner).push(kitty.id)),
            events: self.events.push(EventView::KittyStore(kitty.dna, kitty.price)),
            ..self
        }
    }

    /// Whether the counter allows the creation that `origin` asks for. It
    /// does unless the creation is due and every identifier has been issued.
    pub open spec fn can_create(self, origin: Origin) -> bool {
        match origin.signer() {
            Some(caller) => self.has_room(caller) ==> self.last_id < Id::MAX,
            None => true,
        }
    }

    /// Creation: the state that follows, and what the caller is told.
    pub open spec fn create(self, origin: Origin, dna: Seq<u8>, price: Balance, now: u64) -> (
        RegistryState,
        Result<KittyView, Error>,
    ) {
        match origin.signer() {
            None => (self, Err(Error::Unauthenticated)),
            Some(caller) => if !self.has_room(caller) {
                (self, Err(Error::CapacityExceeded))
            } else {
                let kitty = self.minted(caller, dna, price, now);
                (self.with_minted(kitty), Ok(kitty))
            },
        }
    }

    /// The state in which `who` has let go of `id`. The record itself is
    /// untouched.
    pub open spec fn released(self, who: PrincipalId, id: Id) -> RegistryState {
        RegistryState { owned: self.owned.insert(who, without(self.owned_by(who), id)), ..self }
    }

    /// The state in which `who` has received `id` as the newest of their
    /// records, and the record names `who` as its owner.
    pub open spec fn received(self, who: PrincipalId, id: Id) -> RegistryState {
        RegistryState {
            records: self.records.insert(id, self.records[id].owned_by(who)),
            owned: self.owned.insert(who, self.owned_by(who).push(id)),
            ..self
        }
    }

    /// Transfer: the state that follows, and what the caller is told.
    ///
    /// The record leaves the caller's collection before room is looked for
    /// in the new owner's, so a principal may always transfer a record to
    /// themselves: it then becomes the newest of their records.
    pub open spec fn transfer(self, origin: Origin, id: Id, new_owner: PrincipalId) -> (
        RegistryState,
        Result<(), Error>,
    ) {
        match origin.signer() {
            None => (self, Err(Error::Unauthenticated)),
            Some(caller) => if !self.records.contains_key(id) {
                (self, Err(Error::NotFound))
            } else if self.records[id].owner != caller {
                (self, Err(Error::NotOwner))
            } else if !self.released(caller, id).has_room(new_owner) {
                (self, Err(Error::CapacityExceeded))
            } else {
                (self.released(caller, id).received(new_owner, id), Ok(()))
            },
        }
    }
}

/// Taking `id` out of a collection leaves exactly the other identifiers,
/// none of them twice where none was twice before, and shortens the
/// collection where `id` was in it.
pub proof fn lemma_without(list: Seq<Id>, id: Id)
    ensures
        forall|x: Id| #[trigger] without(list, id).contains(x) <==> list.contains(x) && x != id,
        list.no_duplicates() ==> without(list, id).no_duplicates(),
        without(list, id).len() <= list.len(),
        list.contains(id) ==> without(list, id).len() < list.len(),
        !list.contains(id) ==> without(list, id) == list,
    decreases list.len(),
{
    reveal(Seq::filter);
    let keep = |x: Id| x != id;
    let out = without(list, id);
    if list.len() == 0 {
        assert(out =~= list);
    } else {
        let front = list.drop_last();
        let last = list.last();
        let sub = without(front, id);
        lemma_without(front, id);
        assert(list =~= front.push(last));
        assert forall|x: Id| list.contains(x) <==> front.contains(x) || x == last by {
            if list.contains(x) {
                let i = choose|i: int| 0 <= i < list.len() && list[i] == x;
                if i < front.len() {
                    assert(front[i] == x);
                }
            }
            if front.contains(x) {
                let i = choose|i: int| 0 <= i < front.len() && front[i] == x;
                assert(list[i] == x);
            }
            if x == last {
                assert(list[list.len() - 1] == x);
            }
        }
        if keep(last) {
            assert(out == sub.push(last));
            assert forall|x: Id| #[trigger] out.contains(x) <==> list.contains(x) && x != id by {
                if out.contains(x) {
                    let i = choose|i: int| 0 <= i < out.len() && out[i] == x;
                    if i < sub.len() {
                        assert(sub[i] == x);
                        assert(sub.contains(x));
                    }
                }
                if list.contains(x) && x != id {
                    if x == last {
                        assert(out[out.len() - 1] == x);
                    } else {
                        assert(sub.contains(x));
                        let i = choose|i: int| 0 <= i < sub.len() && sub[i] == x;
                        assert(out[i] == x);
                    }
                }
            }
            if list.no_duplicates() {
                assert(front.no_duplicates());
                assert(!front.contains(last)) by {
                    if front.contains(last) {
                        let i = choose|i: int| 0 <= i < front.len() && front[i] == last;
                        assert(list[i] == list[list.len() - 1]);
                    }
                }
                assert(!sub.contains(last));
                assert forall|i: int, j: int|
                    0 <= i < out.len() && 0 <= j < out.len() && i != j implies out[i] != out[j] by {
                    if i < sub.len() && j < sub.len() {
                        assert(sub[i] != sub[j]);
                    } else if i < sub.len() {
                        assert(sub.contains(sub[i]));
                    } else {
                        assert(sub.contains(sub[j]));
                    }
                }
            }
            if !list.contains(id) {
                assert(out =~= list);
            }
        } else {
            assert(out == sub);
            if list.no_duplicates() {
                assert(front.no_duplicates());
            }
        }
    }
}

/// Nothing is wrong with a registry in which nothing has happened.
pub proof fn lemma_empty_inv(max_owned: u32)
    ensures
        RegistryState::empty(max_owned).inv(),
{
    let s = RegistryState::empty(max_owned);
    assert forall|who: PrincipalId| #[trigger] s.owned_by(who).len() == 0 by {}
}

/// Handing the signals over keeps the invariant.
pub proof fn lemma_delivered_inv(s: RegistryState)
    requires
        s.inv(),
    ensures
        s.delivered().inv(),
{
    let t = s.delivered();
    assert forall|who: PrincipalId| #[trigger] t.owned_by(who) == s.owned_by(who) by {}
    assert forall|who: PrincipalId| #[trigger] t.owned_by(who).no_duplicates() by {
        assert(s.owned_by(who).no_duplicates());
    }
    assert forall|who: PrincipalId| #[trigger] t.owned_by(who).len() <= t.max_owned by {
        assert(s.owned_by(who).len() <= s.max_owned);
    }
    assert forall|who: PrincipalId, id: Id| #[trigger]
        t.owned_by(who).contains(id) <==> t.records.contains_key(id) && t.records[id].owner
            == who by {
        assert(s.owned_by(who).contains(id) <==> s.records.contains_key(id) && s.records[id].owner
            == who);
    }
}

/// Creation keeps the invariant, whether it succeeds or is refused.
pub proof fn lemma_create_inv(
    s: RegistryState,
    origin: Origin,
    dna: Seq<u8>,
    price: Balance,
    now: u64,
)
    requires
        s.inv(),
        s.can_create(origin),
    ensures
        s.create(origin, dna, price, now).0.inv(),
{
    let (t, told) = s.create(origin, dna, price, now);
    if told is Ok {
        let caller = origin.signer().unwrap();
        let kitty = s.minted(caller, dna, price, now);
        let before = s.owned_by(caller);
        let after = before.push(kitty.id);
        assert(!s.records.contains_key(kitty.id));
        assert(!before.contains(kitty.id));
        assert forall|who: PrincipalId| #[trigger] t.owned_by(who).no_duplicates() by {
            if who == caller {
                assert(t.owned_by(who) == after);
                assert(before.no_duplicates());
                lemma_push_fresh(before, kitty.id);
            } else {
                assert(t.owned_by(who) == s.owned_by(who));
            }
        }
        assert forall|who: PrincipalId| #[trigger] t.owned_by(who).len() <= t.max_owned by {
            if who != caller {
                assert(t.owned_by(who) == s.owned_by(who));
            }
        }
        assert forall|who: PrincipalId, id: Id| #[trigger]
            t.owned_by(who).contains(id) <==> t.records.contains_key(id) && t.records[id].owner
                == who by {
            lemma_push_contains(s.owned_by(who), kitty.id, id);
            if who == caller {
                assert(t.owned_by(who) == after);
                assert(s.owned_by(who).contains(id) <==> s.records.contains_key(id)
                    && s.records[id].owner == who);
            } else {
                assert(t.owned_by(who) == s.owned_by(who));
                assert(s.owned_by(who).contains(id) <==> s.records.contains_key(id)
                    && s.records[id].owner == who);
            }
        }
    }
}

/// A collection to which `id` was added holds `id` and what it held before.
pub proof fn lemma_push_contains(list: Seq<Id>, id: Id, x: Id)
    ensures
        list.push(id).contains(x) <==> list.contains(x) || x == id,
{
    let longer = list.push(id);
    if longer.contains(x) {
        let i = choose|i: int| 0 <= i < longer.len() && longer[i] == x;
        if i < list.len() {
            assert(list[i] == x);
        }
    }
    if list.contains(x) {
        let i = choose|i: int| 0 <= i < list.len() && list[i] == x;
        assert(longer[i] == x);
    }
    if x == id {
        assert(longer[longer.len() - 1] == x);
    }
}

/// A collection without repetition has none after an identifier that it
/// did not hold was added.
pub proof fn lemma_push_fresh(list: Seq<Id>, id: Id)
    requires
        list.no_duplicates(),
        !list.contains(id),
    ensures
        list.push(id).no_duplicates(),
{
    let longer = list.push(id);
    assert forall|i: int, j: int|
        0 <= i < longer.len() && 0 <= j < longer.len() && i != j implies longer[i]
        != longer[j] by {
        if i < list.len() && j < list.len() {
            assert(list[i] != list[j]);
        } else if i < list.len() {
            assert(list.contains(list[i]));
        } else {
            assert(list.contains(list[j]));
        }
    }
}

/// Transfer keeps the invariant, whether it succeeds or is refused.
pub proof fn lemma_transfer_inv(s: RegistryState, origin: Origin, id: Id, new_owner: PrincipalId)
    requires
        s.inv(),
    ensures
        s.transfer(origin, id, new_owner).0.inv(),
{
    let (t, told) = s.transfer(origin, id, new_owner);
    if told is Ok {
        let caller = origin.signer().unwrap();
        let mid = s.released(caller, id);
        lemma_without(s.owned_by(caller), id);
        assert(mid.owned_by(caller) == without(s.owned_by(caller), id));
        assert(s.owned_by(caller).contains(id));
        assert forall|who: PrincipalId| who != caller implies #[trigger] mid.owned_by(who)
            == s.owned_by(who) by {}
        assert forall|who: PrincipalId| who != new_owner implies #[trigger] t.owned_by(who)
            == mid.owned_by(who) by {}
        let held = mid.owned_by(new_owner);
        let after = held.push(id);
        assert(t.owned_by(new_owner) == after);
        assert(!held.contains(id)) by {
            if new_owner != caller {
                assert(s.owned_by(new_owner).contains(id) <==> s.records.contains_key(id)
                    && s.records[id].owner == new_owner);
            }
        }
        assert forall|who: PrincipalId| #[trigger] t.owned_by(who).no_duplicates() by {
            assert(s.owned_by(who).no_duplicates());
            if who == new_owner {
                assert(held.no_duplicates());
                lemma_push_fresh(held, id);
            }
        }
        assert forall|who: PrincipalId| #[trigger] t.owned_by(who).len() <= t.max_owned by {
            assert(s.owned_by(who).len() <= s.max_owned);
        }
        assert forall|who: PrincipalId, x: Id| #[trigger]
            t.owned_by(who).contains(x) <==> t.records.contains_key(x) && t.records[x].owner
                == who by {
            assert(s.owned_by(who).contains(x) <==> s.records.contains_key(x)
                && s.records[x].owner == who);
            lemma_push_contains(held, id, x);
            if who == caller {
                assert(mid.owned_by(who).contains(x) <==> s.owned_by(who).contains(x) && x != id);
            }
        }
    }
}

} // verus!
