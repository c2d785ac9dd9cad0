//! What holds of the registry over whole histories of calls, and of single
//! calls whatever the state they meet.

use crate::dna::gender_of;
use crate::registry::Registry;
use crate::types::{AccountId, Balance, Dna, Error, Event, Moment};
use vstd::prelude::*;

verus! {

/// One request to the registry, with everything that decides its outcome.
pub enum Call {
    /// `who` asks for a new kitty at `price`, while the unpredictability
    /// source gives `seed` and the clock shows `now`.
    CreateKitty { who: AccountId, price: Balance, seed: Seq<u8>, now: Moment },
    /// `who` asks for a new kitty at `price` under the identifier `dna`, while
    /// the clock shows `now`.
    StoreKitty { who: AccountId, price: Balance, dna: Dna, now: Moment },
    /// `who` asks that the kitty under `dna` be handed to `new_owner`.
    TransferOwnership { who: AccountId, dna: Dna, new_owner: AccountId },
    /// The quota is to be `value`.
    SetLimitKitty { value: u32 },
}

impl Registry {
    /// What `call` returns when it meets this registry.
    pub open spec fn outcome(self, call: Call) -> Result<Event, Error> {
        match call {
            Call::CreateKitty { who, price, seed, now } => self.create_kitty_result(
                who,
                price,
                seed,
            ),
            Call::StoreKitty { who, price, dna, now } => self.store_kitty_result(who, price, dna),
            Call::TransferOwnership { who, dna, new_owner } => self.transfer_ownership_result(
                who,
                dna,
                new_owner,
            ),
            Call::SetLimitKitty { value } => Ok(Event::SetLimitKittySuccess),
        }
    }

    /// The registry that `call` leaves behind.
    pub open spec fn apply(self, call: Call) -> Registry {
        match call {
            Call::CreateKitty { who, price, seed, now } => self.create_kitty(who, price, seed, now),
            Call::StoreKitty { who, price, dna, now } => self.store_kitty(who, price, dna, now),
            Call::TransferOwnership { who, dna, new_owner } => self.transfer_ownership(
                who,
                dna,
                new_owner,
            ),
            Call::SetLimitKitty { value } => self.set_limit_kitty(value),
        }
    }

    /// The registry after `calls` were served one after the other.
    pub open spec fn after(self, calls: Seq<Call>) -> Registry
        decreases calls.len(),
    {
        if calls.len() == 0 {
            self
        } else {
            self.after(calls.drop_last()).apply(calls.last())
        }
    }

    /// What the call at place `at` of `calls` returned.
    pub open spec fn outcome_at(self, calls: Seq<Call>, at: int) -> Result<Event, Error> {
        self.after(calls.take(at)).outcome(calls[at])
    }

    /// Every record of `self` is still filed in `later`, unchanged but for its
    /// holder, and neither counter stands lower there.
    pub open spec fn carried_into(self, later: Registry) -> bool {
        &&& self.nonce <= later.nonce
        &&& self.number_of_kitties <= later.number_of_kitties
        &&& forall|dna: Dna| #[trigger]
            self.kitties.dom().contains(dna) ==> {
                &&& later.kitties.dom().contains(dna)
                &&& later.kitties[dna].dna == self.kitties[dna].dna
                &&& later.kitties[dna].price == self.kitties[dna].price
                &&& later.kitties[dna].gender == self.kitties[dna].gender
                &&& later.kitties[dna].created_date == self.kitties[dna].created_date
            }
    }
}

/// Serving the first `at + 1` calls is serving the first `at` and then the
/// call at `at`.
pub proof fn lemma_after_step(start: Registry, calls: Seq<Call>, at: int)
    requires
        0 <= at < calls.len(),
    ensures
        start.after(calls.take(at + 1)) == start.after(calls.take(at)).apply(calls[at]),
{
    assert(calls.take(at + 1).drop_last() =~= calls.take(at));
    assert(calls.take(at + 1).last() == calls[at]);
}

/// No call deletes a record, changes anything of a record but its holder, or
/// lowers a counter.
pub proof fn law_call_keeps_records(registry: Registry, call: Call)
    ensures
        registry.carried_into(registry.apply(call)),
{
}

/// No history of calls deletes a record, changes anything of a record but its
/// holder, or lowers a counter: identifiers are never reused, and the
/// generation counter only grows.
pub proof fn law_history_keeps_records(start: Registry, calls: Seq<Call>, from: int, to: int)
    requires
        0 <= from <= to <= calls.len(),
    ensures
        start.after(calls.take(from)).carried_into(start.after(calls.take(to))),
    decreases to - from,
{
    if from < to {
        law_history_keeps_records(start, calls, from, to - 1);
        lemma_after_step(start, calls, to - 1);
        law_call_keeps_records(start.after(calls.take(to - 1)), calls[to - 1]);
    }
}

/// Uniqueness: two creations that succeed in one history return different
/// identifiers.
pub proof fn law_created_identifiers_distinct(
    start: Registry,
    calls: Seq<Call>,
    first: int,
    second: int,
)
    requires
        0 <= first < second < calls.len(),
        start.outcome_at(calls, first) matches Ok(Event::KittyStored(..)),
        start.outcome_at(calls, second) matches Ok(Event::KittyStored(..)),
    ensures
        start.outcome_at(calls, first)->Ok_0->KittyStored_0 != start.outcome_at(
            calls,
            second,
        )->Ok_0->KittyStored_0,
{
    let earlier = start.outcome_at(calls, first)->Ok_0->KittyStored_0;
    let before = start.after(calls.take(first));
    lemma_after_step(start, calls, first);
    assert(start.after(calls.take(first + 1)).kitties.dom().contains(earlier));
    law_history_keeps_records(start, calls, first + 1, second);
    assert(start.after(calls.take(second)).kitties.dom().contains(earlier));
}

/// Quota enforcement: while an account holds as many kitties as the quota
/// allows, or more, a creation for it fails with `OverKittyLimit` and changes
/// nothing, whatever the seed.
pub proof fn law_quota_enforced(
    registry: Registry,
    who: AccountId,
    price: Balance,
    seed: Seq<u8>,
    now: Moment,
)
    requires
        registry.owned_by(who).len() >= registry.quota(),
    ensures
        registry.create_kitty_result(who, price, seed) == Err::<Event, Error>(
            Error::OverKittyLimit,
        ),
        registry.create_kitty(who, price, seed, now) == registry,
{
}

/// The quota binds at creation: a creation that is accepted leaves its
/// requester with no more kitties than the quota then in force allows, and
/// with one more than before.
pub proof fn law_accepted_creation_within_quota(
    registry: Registry,
    who: AccountId,
    price: Balance,
    seed: Seq<u8>,
    now: Moment,
)
    requires
        registry.create_kitty_result(who, price, seed) is Ok,
    ensures
        registry.create_kitty(who, price, seed, now).owned_by(who).len() == registry.owned_by(
            who,
        ).len() + 1,
        registry.create_kitty(who, price, seed, now).owned_by(who).len() <= registry.quota(),
        registry.create_kitty(who, price, seed, now).nonce == registry.nonce + 1,
        registry.create_kitty(who, price, seed, now).number_of_kitties
            == registry.number_of_kitties + 1,
{
}

/// The registry at bootstrap is well-formed.
pub proof fn law_empty_is_well_formed()
    ensures
        Registry::empty().wf(),
{
    let empty = Registry::empty();
    assert forall|who: AccountId| #[trigger] empty.owned_by(who) == Seq::<Dna>::empty() by {}
}

/// A call leaves a well-formed registry well-formed.
pub proof fn law_call_keeps_well_formed(registry: Registry, call: Call)
    requires
        registry.wf(),
    ensures
        registry.apply(call).wf(),
{
    match call {
        Call::CreateKitty { who, price, seed, now } => {
            registry.lemma_store_kitty_wf(who, price, registry.next_dna(who, seed), now);
        },
        Call::StoreKitty { who, price, dna, now } => {
            registry.lemma_store_kitty_wf(who, price, dna, now);
        },
        Call::TransferOwnership { who, dna, new_owner } => {
            registry.lemma_transfer_ownership_wf(who, dna, new_owner);
        },
        Call::SetLimitKitty { value } => {
            registry.lemma_set_limit_kitty_wf(value);
        },
    }
}

/// Index agreement over histories: after any sequence of calls a registry that
/// was well-formed is well-formed.
pub proof fn law_history_keeps_well_formed(start: Registry, calls: Seq<Call>)
    requires
        start.wf(),
    ensures
        start.after(calls).wf(),
    decreases calls.len(),
{
    if calls.len() > 0 {
        law_history_keeps_well_formed(start, calls.drop_last());
        law_call_keeps_well_formed(start.after(calls.drop_last()), calls.last());
    }
}

/// Index agreement, spelled out: in a well-formed registry the identifier of a
/// record stands in the list of the record's holder, once, and in the list of
/// no other account.
pub proof fn law_index_agreement(registry: Registry, dna: Dna, who: AccountId)
    requires
        registry.wf(),
        registry.kitties.dom().contains(dna),
    ensures
        registry.owned_by(who).contains(dna) <==> who == registry.kitties[dna].account,
        registry.owned_by(who).no_duplicates(),
{
    assert(registry.filed(dna));
    if registry.owned_by(who).contains(dna) {
        assert(registry.held(who, dna));
    }
}

/// Transfer correctness: where `who` holds the kitty under `dna`, its transfer
/// to `new_owner` succeeds; afterwards the record names `new_owner`, whose
/// list holds the identifier, and the list of `who` holds it no more, unless
/// `who` transferred to itself.
pub proof fn law_transfer_moves_kitty(
    registry: Registry,
    who: AccountId,
    dna: Dna,
    new_owner: AccountId,
)
    requires
        registry.wf(),
        registry.held(who, dna),
    ensures
        registry.transfer_ownership_result(who, dna, new_owner) == Ok::<Event, Error>(
            Event::TransferKittySuccess(dna, new_owner),
        ),
        registry.transfer_ownership(who, dna, new_owner).kitties[dna].account == new_owner,
        registry.transfer_ownership(who, dna, new_owner).owned_by(new_owner).contains(dna),
        who != new_owner ==> !registry.transfer_ownership(who, dna, new_owner).owned_by(
            who,
        ).contains(dna),
{
    let next = registry.transfer_ownership(who, dna, new_owner);
    registry.lemma_transfer_ownership_wf(who, dna, new_owner);
    assert(next.kitties.dom().contains(dna));
    assert(next.filed(dna));
    if who != new_owner && next.owned_by(who).contains(dna) {
        assert(next.held(who, dna));
    }
}

/// Non-owner rejection: a transfer requested by an account that does not hold
/// the kitty fails with `NotOwner` and changes nothing.
pub proof fn law_non_owner_rejected(
    registry: Registry,
    who: AccountId,
    dna: Dna,
    new_owner: AccountId,
)
    requires
        registry.kitties.dom().contains(dna),
        registry.kitties[dna].account != who,
    ensures
        registry.transfer_ownership_result(who, dna, new_owner) == Err::<Event, Error>(
            Error::NotOwner,
        ),
        registry.transfer_ownership(who, dna, new_owner) == registry,
{
}

/// A transfer that succeeded cannot be repeated: the same request then fails
/// with `NotOwner`, unless the account transferred to itself.
pub proof fn law_transfer_not_repeatable(
    registry: Registry,
    who: AccountId,
    dna: Dna,
    new_owner: AccountId,
)
    requires
        registry.held(who, dna),
        who != new_owner,
    ensures
        registry.transfer_ownership(who, dna, new_owner).transfer_ownership_result(
            who,
            dna,
            new_owner,
        ) == Err::<Event, Error>(Error::NotOwner),
{
}

/// Attribute determinism: the classifier is a function of the identifier, so
/// the same identifier always gives the same classifier.
pub proof fn law_gender_determined(first: Dna, second: Dna)
    requires
        first == second,
    ensures
        gender_of(first) == gender_of(second),
{
}

} // verus!
