//! Histories: what holds of a registry after any sequence of calls.

use crate::error::Error;
use crate::event::EventView;
use crate::kitty::{Balance, Id, KittyView, PrincipalId};
use crate::model::{
    lemma_create_inv, lemma_delivered_inv, lemma_empty_inv, lemma_transfer_inv, lemma_without,
    without, RegistryState,
};
use crate::origin::Origin;
use vstd::prelude::*;

verus! {

/// One call of an operation that changes the registry.
pub enum Call {
    Create { origin: Origin, dna: Seq<u8>, price: Balance, now: u64 },
    Transfer { origin: Origin, kitty_id: Id, new_owner: PrincipalId },
    TakeEvents,
}

/// What the caller of a call is told.
pub enum Reply {
    Created(KittyView),
    Transferred,
    Events(Seq<EventView>),
    Refused(Error),
}

/// Whether `call` may be made in the state `s`: the one thing that may
/// stand in its way is a counter that has issued every identifier.
pub open spec fn permitted(s: RegistryState, call: Call) -> bool {
    match call {
        Call::Create { origin, .. } => s.can_create(origin),
        Call::Transfer { .. } => true,
        Call::TakeEvents => true,
    }
}

/// The state that follows `call`.
pub open spec fn step(s: RegistryState, call: Call) -> RegistryState {
    match call {
        Call::Create { origin, dna, price, now } => s.create(origin, dna, price, now).0,
        Call::Transfer { origin, kitty_id, new_owner } => s.transfer(origin, kitty_id, new_owner).0,
        Call::TakeEvents => s.delivered(),
    }
}

/// What the caller of `call` is told.
pub open spec fn reply(s: RegistryState, call: Call) -> Reply {
    match call {
        Call::Create { origin, dna, price, now } => match s.create(origin, dna, price, now).1 {
            Ok(kitty) => Reply::Created(kitty),
            Err(e) => Reply::Refused(e),
        },
        Call::Transfer { origin, kitty_id, new_owner } => match s.transfer(
            origin,
            kitty_id,
            new_owner,
        ).1 {
            Ok(_) => Reply::Transferred,
            Err(e) => Reply::Refused(e),
        },
        Call::TakeEvents => Reply::Events(s.events),
    }
}

/// The state after the first `n` of `calls`, made in order from `s`.
pub open spec fn state_after(s: RegistryState, calls: Seq<Call>, n: nat) -> RegistryState
    decreases n,
{
    if n == 0 {
        s
    } else {
        step(state_after(s, calls, (n - 1) as nat), calls[n - 1])
    }
}

/// The state after all of `calls`, made in order from `s`.
pub open spec fn run(s: RegistryState, calls: Seq<Call>) -> RegistryState {
    state_after(s, calls, calls.len())
}

/// What the caller of the call at position `i` is told.
pub open spec fn reply_at(s: RegistryState, calls: Seq<Call>, i: int) -> Reply {
    reply(state_after(s, calls, i as nat), calls[i])
}

/// Whether each of `calls` may be made in the state that it meets.
pub open spec fn feasible(s: RegistryState, calls: Seq<Call>) -> bool {
    forall|i: int|
        0 <= i < calls.len() ==> permitted(#[trigger] state_after(s, calls, i as nat), calls[i])
}

/// A call that is refused changes nothing.
pub proof fn lemma_refused_changes_nothing(s: RegistryState, call: Call)
    ensures
        reply(s, call) is Refused ==> step(s, call) == s,
{
}

/// A call keeps the invariant.
pub proof fn lemma_step_inv(s: RegistryState, call: Call)
    requires
        s.inv(),
        permitted(s, call),
    ensures
        step(s, call).inv(),
{
    match call {
        Call::Create { origin, dna, price, now } => {
            lemma_create_inv(s, origin, dna, price, now);
        },
        Call::Transfer { origin, kitty_id, new_owner } => {
            lemma_transfer_inv(s, origin, kitty_id, new_owner);
        },
        Call::TakeEvents => {
            lemma_delivered_inv(s);
        },
    }
}

/// The invariant holds all along a history that begins where it holds.
pub proof fn lemma_history_inv(s: RegistryState, calls: Seq<Call>, n: nat)
    requires
        s.inv(),
        feasible(s, calls),
        n <= calls.len(),
    ensures
        state_after(s, calls, n).inv(),
    decreases n,
{
    if n > 0 {
        let m = (n - 1) as nat;
        lemma_history_inv(s, calls, m);
        assert(permitted(state_after(s, calls, m), calls[m as int]));
        lemma_step_inv(state_after(s, calls, m), calls[m as int]);
    }
}

/// The counter never goes back, and the maximum never changes.
pub proof fn lemma_counter_monotone(s: RegistryState, calls: Seq<Call>, m: nat, n: nat)
    requires
        feasible(s, calls),
        m <= n <= calls.len(),
    ensures
        state_after(s, calls, m).last_id <= state_after(s, calls, n).last_id,
        state_after(s, calls, n).max_owned == s.max_owned,
    decreases n,
{
    if n > 0 {
        let k = (n - 1) as nat;
        assert(permitted(state_after(s, calls, k), calls[k as int]));
        if m < n {
            lemma_counter_monotone(s, calls, m, k);
        } else {
            lemma_counter_monotone(s, calls, k, k);
        }
    }
}

/// Of two creations in one history, the later one returns the greater
/// identifier: the identifiers that a history returns are pairwise distinct
/// and strictly increasing in the order of the calls. Each of them is also
/// greater than the counter stood before its call.
pub proof fn lemma_identifiers_increase(s: RegistryState, calls: Seq<Call>, i: int, j: int)
    requires
        feasible(s, calls),
        0 <= i < j < calls.len(),
        reply_at(s, calls, i) is Created,
        reply_at(s, calls, j) is Created,
    ensures
        reply_at(s, calls, i)->Created_0.id < reply_at(s, calls, j)->Created_0.id,
        state_after(s, calls, i as nat).last_id < reply_at(s, calls, i)->Created_0.id,
{
    let before_i = state_after(s, calls, i as nat);
    let after_i = state_after(s, calls, (i + 1) as nat);
    let before_j = state_after(s, calls, j as nat);
    assert(permitted(before_i, calls[i]));
    assert(permitted(before_j, calls[j]));
    assert(after_i == step(before_i, calls[i]));
    lemma_counter_monotone(s, calls, (i + 1) as nat, j as nat);
}

/// Where the invariant holds, a stored record stands exactly once among the
/// records of its owner, and not among those of any other principal.
pub proof fn lemma_index_consistent(s: RegistryState, id: Id, who: PrincipalId)
    requires
        s.inv(),
        s.records.contains_key(id),
    ensures
        s.records[id].owner == who ==> exists|i: int|
            {
                &&& 0 <= i < s.owned_records(who).len()
                &&& #[trigger] s.owned_records(who)[i] == s.records[id]
                &&& forall|j: int|
                    0 <= j < s.owned_records(who).len() && (#[trigger] s.owned_records(who)[j]).id
                        == id ==> j == i
            },
        s.records[id].owner != who ==> forall|j: int|
            0 <= j < s.owned_records(who).len() ==> (#[trigger] s.owned_records(who)[j]).id != id,
{
    let ids = s.owned_by(who);
    let list = s.owned_records(who);
    assert(ids.no_duplicates());
    assert(ids.contains(id) <==> s.records.contains_key(id) && s.records[id].owner == who);
    assert forall|j: int| 0 <= j < list.len() implies (#[trigger] list[j]).id == ids[j] by {
        assert(ids.contains(ids[j]));
        assert(s.records.contains_key(ids[j]));
    }
    if s.records[id].owner == who {
        let i = choose|i: int| 0 <= i < ids.len() && ids[i] == id;
        assert(list[i] == s.records[id]);
        assert forall|j: int| 0 <= j < list.len() && (#[trigger] list[j]).id == id implies j
            == i by {
            assert(ids[j] == id);
        }
    } else {
        assert forall|j: int| 0 <= j < list.len() implies (#[trigger] list[j]).id != id by {
            assert(ids.contains(ids[j]));
        }
    }
}

/// After any sequence of calls in a registry that began empty, the
/// invariant holds: a stored record stands exactly once among the records
/// of its owner and not among those of any other principal, no principal
/// owns more than the maximum, and no record has an identifier beyond the
/// counter.
pub proof fn lemma_history_consistent(
    max_owned: u32,
    calls: Seq<Call>,
    id: Id,
    who: PrincipalId,
)
    requires
        feasible(RegistryState::empty(max_owned), calls),
        run(RegistryState::empty(max_owned), calls).records.contains_key(id),
    ensures
        ({
            let s = run(RegistryState::empty(max_owned), calls);
            &&& s.inv()
            &&& s.owned_records(who).len() <= max_owned
            &&& 1 <= id <= s.last_id
            &&& s.records[id].owner == who ==> exists|i: int|
                {
                    &&& 0 <= i < s.owned_records(who).len()
                    &&& #[trigger] s.owned_records(who)[i] == s.records[id]
                    &&& forall|j: int|
                        0 <= j < s.owned_records(who).len() && (#[trigger] s.owned_records(
                            who,
                        )[j]).id == id ==> j == i
                }
            &&& s.records[id].owner != who ==> forall|j: int|
                0 <= j < s.owned_records(who).len() ==> (#[trigger] s.owned_records(who)[j]).id
                    != id
        }),
{
    let start = RegistryState::empty(max_owned);
    let s = run(start, calls);
    lemma_empty_inv(max_owned);
    lemma_history_inv(start, calls, calls.len());
    lemma_counter_monotone(start, calls, 0, calls.len());
    assert(s.owned_by(who).len() <= s.max_owned);
    lemma_index_consistent(s, id, who);
}

/// A creation is refused as `CapacityExceeded` exactly when the caller's
/// collection is full, and a transfer exactly when the caller hands a
/// record of their own to another principal whose collection is full. The
/// refused call changes nothing.
pub proof fn lemma_capacity(s: RegistryState, call: Call)
    requires
        s.inv(),
    ensures
        match call {
            Call::Create { origin, .. } => reply(s, call) == Reply::Refused(Error::CapacityExceeded)
                <==> (origin.signer() matches Some(caller) && s.owned_by(caller).len()
                >= s.max_owned),
            Call::Transfer { origin, kitty_id, new_owner } => reply(s, call) == Reply::Refused(
                Error::CapacityExceeded,
            ) <==> (origin.signer() matches Some(caller) && s.records.contains_key(kitty_id)
                && s.records[kitty_id].owner == caller && new_owner != caller
                && s.owned_by(new_owner).len() >= s.max_owned),
            Call::TakeEvents => true,
        },
        reply(s, call) == Reply::Refused(Error::CapacityExceeded) ==> step(s, call) == s,
{
    match call {
        Call::Create { .. } => {},
        Call::TakeEvents => {},
        Call::Transfer { origin, kitty_id, new_owner } => {
            if let Some(caller) = origin.signer() {
                if s.records.contains_key(kitty_id) && s.records[kitty_id].owner == caller {
                    let mid = s.released(caller, kitty_id);
                    lemma_without(s.owned_by(caller), kitty_id);
                    assert(s.owned_by(caller).contains(kitty_id));
                    assert(s.owned_by(caller).len() <= s.max_owned);
                    if new_owner != caller {
                        assert(mid.owned_by(new_owner) == s.owned_by(new_owner));
                    } else {
                        assert(mid.owned_by(new_owner) == without(s.owned_by(caller), kitty_id));
                    }
                }
            }
        },
    }
}

/// A call takes no record away and changes nothing of a stored record but
/// its owner, and the owner only where the call is the transfer of that
/// record and succeeds.
pub proof fn lemma_records_last(s: RegistryState, call: Call, id: Id)
    requires
        s.inv(),
        permitted(s, call),
        s.records.contains_key(id),
    ensures
        step(s, call).records.contains_key(id),
        step(s, call).records[id] == s.records[id].owned_by(step(s, call).records[id].owner),
        step(s, call).records[id].owner != s.records[id].owner ==> reply(s, call) is Transferred
            && (call matches Call::Transfer { kitty_id, new_owner, .. } && kitty_id == id
            && step(s, call).records[id].owner == new_owner),
{
}

/// A transfer that is asked for by a principal who does not own the record
/// is refused as `NotOwner` and changes nothing.
pub proof fn lemma_ownership_gate(
    s: RegistryState,
    caller: PrincipalId,
    kitty_id: Id,
    new_owner: PrincipalId,
)
    requires
        s.records.contains_key(kitty_id),
        s.records[kitty_id].owner != caller,
    ensures
        s.transfer(Origin::Signed(caller), kitty_id, new_owner) == (
            s,
            Err::<(), Error>(Error::NotOwner),
        ),
{
}

} // verus!
