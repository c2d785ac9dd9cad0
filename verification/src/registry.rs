//! The registry as a mathematical value: what it holds, when it is
//! well-formed, and what each operation makes of it.

use crate::dna::{dna_of, gender_of};
use crate::limit::limit_of;
use crate::types::{AccountId, Balance, Dna, Error, Event, Kitty, Moment};
use vstd::prelude::*;

verus! {

/// The record that a creation files under `dna`.
pub open spec fn new_kitty(dna: Dna, price: Balance, account: AccountId, now: Moment) -> Kitty {
    Kitty { dna, price, gender: gender_of(dna), account, created_date: now }
}

/// `list` with the entry `dna` taken out and the order of the others kept.
pub open spec fn without(list: Seq<Dna>, dna: Dna) -> Seq<Dna> {
    if list.contains(dna) {
        list.remove(list.index_of(dna))
    } else {
        list
    }
}

/// Appending an entry adds that entry to the members and nothing else.
pub proof fn lemma_push_contains<T>(list: Seq<T>, entry: T, other: T)
    ensures
        list.push(entry).contains(other) <==> list.contains(other) || other == entry,
{
    if list.contains(other) {
        let i = list.index_of(other);
        assert(list.push(entry)[i] == other);
    }
    if other == entry {
        assert(list.push(entry)[list.len() as int] == other);
    }
}

/// Appending an entry that was not there keeps the entries pairwise distinct.
pub proof fn lemma_push_no_duplicates<T>(list: Seq<T>, entry: T)
    requires
        list.no_duplicates(),
        !list.contains(entry),
    ensures
        list.push(entry).no_duplicates(),
{
    let longer = list.push(entry);
    assert forall|i: int, j: int| 0 <= i < longer.len() && 0 <= j < longer.len() && i != j implies longer[i]
        != longer[j] by {
        if i < list.len() {
            assert(list.contains(list[i]));
        }
        if j < list.len() {
            assert(list.contains(list[j]));
        }
    }
}

/// Taking an entry out of a list of pairwise distinct entries removes that
/// entry, keeps every other and keeps them distinct.
pub proof fn lemma_without(list: Seq<Dna>, dna: Dna)
    requires
        list.no_duplicates(),
    ensures
        without(list, dna).no_duplicates(),
        !without(list, dna).contains(dna),
        forall|other: Dna|
            other != dna ==> (#[trigger] without(list, dna).contains(other) <==> list.contains(other)),
        list.contains(dna) ==> without(list, dna).len() + 1 == list.len(),
{
    let rest = without(list, dna);
    if list.contains(dna) {
        let at = list.index_of(dna);
        assert forall|i: int| 0 <= i < rest.len() implies #[trigger] rest[i] == list[if i < at {
            i
        } else {
            i + 1
        }] by {}
        assert forall|i: int, j: int| 0 <= i < rest.len() && 0 <= j < rest.len() && i != j implies rest[i]
            != rest[j] by {}
        assert forall|other: Dna| other != dna implies (#[trigger] rest.contains(other)
            <==> list.contains(other)) by {
            if list.contains(other) {
                let i = list.index_of(other);
                if i < at {
                    assert(rest[i] == other);
                } else {
                    assert(rest[i - 1] == other);
                }
            }
            if rest.contains(other) {
                let i = rest.index_of(other);
                assert(list[if i < at {
                    i
                } else {
                    i + 1
                }] == other);
            }
        }
        if rest.contains(dna) {
            let i = rest.index_of(dna);
            assert(list[if i < at {
                i
            } else {
                i + 1
            }] == dna);
        }
    }
}

/// What the registry holds: the records by identifier, the identifiers by
/// holder, the two counters and the quota setting.
#[verifier::ext_equal]
pub struct Registry {
    /// The records, each filed under its identifier.
    pub kitties: Map<Dna, Kitty>,
    /// For each account that ever held a kitty, the identifiers it holds now,
    /// in the order in which it came by them.
    pub owner_to_kitties: Map<AccountId, Seq<Dna>>,
    /// The running total of creations.
    pub number_of_kitties: u32,
    /// The generation counter.
    pub nonce: u64,
    /// The quota, where one was set.
    pub limit: Option<u32>,
}

impl Registry {
    /// The registry at bootstrap: no record, both counters at zero, no quota
    /// set.
    pub open spec fn empty() -> Registry {
        Registry {
            kitties: Map::empty(),
            owner_to_kitties: Map::empty(),
            number_of_kitties: 0,
            nonce: 0,
            limit: None,
        }
    }

    /// The identifiers that `who` holds; none for an account without an entry.
    pub open spec fn owned_by(self, who: AccountId) -> Seq<Dna> {
        if self.owner_to_kitties.dom().contains(who) {
            self.owner_to_kitties[who]
        } else {
            Seq::empty()
        }
    }

    /// The quota in force.
    pub open spec fn quota(self) -> u32 {
        limit_of(self.limit)
    }

    /// The record under `dna` carries that identifier and its classifier, and
    /// its holder's list names it.
    pub open spec fn filed(self, dna: Dna) -> bool {
        &&& self.kitties[dna].dna == dna
        &&& self.kitties[dna].gender == gender_of(dna)
        &&& self.owned_by(self.kitties[dna].account).contains(dna)
    }

    /// A record is filed under `dna`, and `who` is its holder.
    pub open spec fn held(self, who: AccountId, dna: Dna) -> bool {
        self.kitties.dom().contains(dna) && self.kitties[dna].account == who
    }

    /// The two indexes agree: every record is named in the list of its holder,
    /// every list names only records of that holder and names none twice, and
    /// the running total counts the records.
    pub open spec fn wf(self) -> bool {
        &&& self.kitties.dom().finite()
        &&& self.kitties.dom().len() == self.number_of_kitties
        &&& forall|dna: Dna| #[trigger] self.kitties.dom().contains(dna) ==> self.filed(dna)
        &&& forall|who: AccountId| (#[trigger] self.owned_by(who)).no_duplicates()
        &&& forall|who: AccountId, dna: Dna| #[trigger]
            self.owned_by(who).contains(dna) ==> self.held(who, dna)
    }

    /// Why a creation by `who` under `dna` is rejected, if it is: the quota is
    /// looked at first, then the counters, then the identifier.
    pub open spec fn store_kitty_error(self, who: AccountId, dna: Dna) -> Option<Error> {
        if self.owned_by(who).len() + 1 > self.quota() {
            Some(Error::OverKittyLimit)
        } else if self.nonce == u64::MAX || self.number_of_kitties == u32::MAX {
            Some(Error::StorageOverflow)
        } else if self.kitties.dom().contains(dna) {
            Some(Error::DuplicateDna)
        } else {
            None
        }
    }

    /// What a creation by `who` under `dna` returns.
    pub open spec fn store_kitty_result(self, who: AccountId, price: Balance, dna: Dna) -> Result<
        Event,
        Error,
    > {
        match self.store_kitty_error(who, dna) {
            Some(error) => Err(error),
            None => Ok(Event::KittyStored(dna, price)),
        }
    }

    /// The registry after a creation by `who` under `dna`: unchanged where the
    /// creation is rejected; else with the new record filed, its identifier
    /// appended to the list of `who`, and both counters one higher.
    pub open spec fn store_kitty(
        self,
        who: AccountId,
        price: Balance,
        dna: Dna,
        now: Moment,
    ) -> Registry {
        if self.store_kitty_error(who, dna) is Some {
            self
        } else {
            Registry {
                kitties: self.kitties.insert(dna, new_kitty(dna, price, who, now)),
                owner_to_kitties: self.owner_to_kitties.insert(who, self.owned_by(who).push(dna)),
                number_of_kitties: (self.number_of_kitties + 1) as u32,
                nonce: (self.nonce + 1) as u64,
                limit: self.limit,
            }
        }
    }

    /// The identifier that a creation by `who` gets from `seed` while the
    /// generation counter stands where it does.
    pub open spec fn next_dna(self, who: AccountId, seed: Seq<u8>) -> Dna {
        dna_of(seed, who, self.nonce)
    }

    /// What a creation by `who` from `seed` returns.
    pub open spec fn create_kitty_result(
        self,
        who: AccountId,
        price: Balance,
        seed: Seq<u8>,
    ) -> Result<Event, Error> {
        self.store_kitty_result(who, price, self.next_dna(who, seed))
    }

    /// The registry after a creation by `who` from `seed`.
    pub open spec fn create_kitty(
        self,
        who: AccountId,
        price: Balance,
        seed: Seq<u8>,
        now: Moment,
    ) -> Registry {
        self.store_kitty(who, price, self.next_dna(who, seed), now)
    }

    /// Why a transfer of `dna` that `who` requests is rejected, if it is.
    pub open spec fn transfer_ownership_error(self, who: AccountId, dna: Dna) -> Option<Error> {
        if !self.kitties.dom().contains(dna) {
            Some(Error::KittyNotFound)
        } else if self.kitties[dna].account != who {
            Some(Error::NotOwner)
        } else {
            None
        }
    }

    /// What a transfer of `dna` to `new_owner` returns when `who` requests it.
    pub open spec fn transfer_ownership_result(
        self,
        who: AccountId,
        dna: Dna,
        new_owner: AccountId,
    ) -> Result<Event, Error> {
        match self.transfer_ownership_error(who, dna) {
            Some(error) => Err(error),
            None => Ok(Event::TransferKittySuccess(dna, new_owner)),
        }
    }

    /// The registry with `dna` taken out of the list of `who`.
    pub open spec fn released(self, who: AccountId, dna: Dna) -> Registry {
        Registry {
            owner_to_kitties: self.owner_to_kitties.insert(who, without(self.owned_by(who), dna)),
            ..self
        }
    }

    /// The registry with `dna` appended to the list of `who`.
    pub open spec fn received(self, who: AccountId, dna: Dna) -> Registry {
        Registry {
            owner_to_kitties: self.owner_to_kitties.insert(who, self.owned_by(who).push(dna)),
            ..self
        }
    }

    /// The registry after a transfer of `dna` to `new_owner` that `who`
    /// requests: unchanged where the transfer is rejected; else the record
    /// names `new_owner`, the identifier has left the list of `who` and stands
    /// at the end of the list of `new_owner`. The quota plays no part.
    pub open spec fn transfer_ownership(
        self,
        who: AccountId,
        dna: Dna,
        new_owner: AccountId,
    ) -> Registry {
        if self.transfer_ownership_error(who, dna) is Some {
            self
        } else {
            Registry {
                kitties: self.kitties.insert(
                    dna,
                    Kitty { account: new_owner, ..self.kitties[dna] },
                ),
                ..self.released(who, dna).received(new_owner, dna)
            }
        }
    }

    /// The registry after the quota was set to `value`: nothing else changes,
    /// and no holding is taken away.
    pub open spec fn set_limit_kitty(self, value: u32) -> Registry {
        Registry { limit: Some(value), ..self }
    }

    /// In a well-formed registry an identifier under which nothing is filed
    /// stands in no list.
    pub proof fn lemma_unfiled_is_unlisted(self, dna: Dna)
        requires
            self.wf(),
            !self.kitties.dom().contains(dna),
        ensures
            forall|who: AccountId| !(#[trigger] self.owned_by(who)).contains(dna),
    {
        assert forall|who: AccountId| !(#[trigger] self.owned_by(who)).contains(dna) by {
            if self.owned_by(who).contains(dna) {
                assert(self.held(who, dna));
            }
        }
    }

    /// A creation keeps the registry well-formed, whether it is accepted or
    /// rejected.
    pub proof fn lemma_store_kitty_wf(
        self,
        who: AccountId,
        price: Balance,
        dna: Dna,
        now: Moment,
    )
        requires
            self.wf(),
        ensures
            self.store_kitty(who, price, dna, now).wf(),
    {
        let next = self.store_kitty(who, price, dna, now);
        if self.store_kitty_error(who, dna) is None {
            let list = self.owned_by(who);
            self.lemma_unfiled_is_unlisted(dna);
            assert(!list.contains(dna));
            lemma_push_no_duplicates(list, dna);
            assert forall|w: AccountId| #[trigger]
                next.owned_by(w) == (if w == who {
                    list.push(dna)
                } else {
                    self.owned_by(w)
                }) by {}
            assert forall|w: AccountId, d: Dna| #[trigger]
                next.owned_by(w).contains(d) <==> self.owned_by(w).contains(d) || (w == who && d
                    == dna) by {
                lemma_push_contains(list, dna, d);
            }
            assert forall|d: Dna| #[trigger] next.kitties.dom().contains(d) implies next.filed(
                d,
            ) by {
                if d != dna {
                    assert(self.filed(d));
                    assert(next.owned_by(self.kitties[d].account).contains(d));
                } else {
                    assert(next.owned_by(who).contains(dna));
                }
            }
            assert forall|w: AccountId| (#[trigger] next.owned_by(w)).no_duplicates() by {
                assert(self.owned_by(w).no_duplicates());
            }
            assert forall|w: AccountId, d: Dna| #[trigger]
                next.owned_by(w).contains(d) implies next.held(w, d) by {
                if self.owned_by(w).contains(d) {
                    assert(self.held(w, d));
                }
            }
        }
    }

    /// A transfer keeps the registry well-formed, whether it is accepted or
    /// rejected, and also where an account transfers to itself.
    pub proof fn lemma_transfer_ownership_wf(self, who: AccountId, dna: Dna, new_owner: AccountId)
        requires
            self.wf(),
        ensures
            self.transfer_ownership(who, dna, new_owner).wf(),
    {
        let next = self.transfer_ownership(who, dna, new_owner);
        if self.transfer_ownership_error(who, dna) is None {
            let middle = self.released(who, dna);
            assert(self.filed(dna));
            lemma_without(self.owned_by(who), dna);
            assert forall|w: AccountId| #[trigger]
                middle.owned_by(w) == (if w == who {
                    without(self.owned_by(who), dna)
                } else {
                    self.owned_by(w)
                }) by {}
            assert forall|w: AccountId| !(#[trigger] middle.owned_by(w)).contains(dna) by {
                if w != who && self.owned_by(w).contains(dna) {
                    assert(self.held(w, dna));
                }
            }
            let list = middle.owned_by(new_owner);
            assert(self.owned_by(new_owner).no_duplicates());
            lemma_push_no_duplicates(list, dna);
            assert forall|w: AccountId| #[trigger]
                next.owned_by(w) == (if w == new_owner {
                    list.push(dna)
                } else {
                    middle.owned_by(w)
                }) by {}
            assert forall|w: AccountId, d: Dna| #[trigger]
                next.owned_by(w).contains(d) <==> (if d == dna {
                    w == new_owner
                } else {
                    self.owned_by(w).contains(d)
                }) by {
                lemma_push_contains(list, dna, d);
                assert(!middle.owned_by(w).contains(dna));
            }
            assert(next.kitties.dom() =~= self.kitties.dom());
            assert forall|d: Dna| #[trigger] next.kitties.dom().contains(d) implies next.filed(
                d,
            ) by {
                assert(self.filed(d));
                if d != dna {
                    assert(next.owned_by(self.kitties[d].account).contains(d));
                } else {
                    assert(next.owned_by(new_owner).contains(dna));
                }
            }
            assert forall|w: AccountId| (#[trigger] next.owned_by(w)).no_duplicates() by {
                assert(self.owned_by(w).no_duplicates());
            }
            assert forall|w: AccountId, d: Dna| #[trigger]
                next.owned_by(w).contains(d) implies next.held(w, d) by {
                if d != dna {
                    assert(self.held(w, d));
                }
            }
        }
    }

    /// Setting the quota keeps the registry well-formed.
    pub proof fn lemma_set_limit_kitty_wf(self, value: u32)
        requires
            self.wf(),
        ensures
            self.set_limit_kitty(value).wf(),
    {
        let next = self.set_limit_kitty(value);
        assert forall|w: AccountId| #[trigger] next.owned_by(w) == self.owned_by(w) by {}
        assert forall|d: Dna| #[trigger] next.kitties.dom().contains(d) implies next.filed(d) by {
            assert(self.filed(d));
        }
        assert forall|w: AccountId| (#[trigger] next.owned_by(w)).no_duplicates() by {
            assert(self.owned_by(w).no_duplicates());
        }
        assert forall|w: AccountId, d: Dna| #[trigger]
            next.owned_by(w).contains(d) implies next.held(w, d) by {
            assert(self.held(w, d));
        }
    }
}

} // verus!
