//! The registry itself: the state it owns and the operations on it.

use crate::dna::{gen_gender, generate, position_of, MAX_SEED_LEN};
use crate::index::{
    distinct_keys, has_key, lemma_by_key_at, lemma_by_key_push, lemma_by_key_update, place_of,
};
use crate::limit::KittyLimit;
use crate::registry::{lemma_push_contains, lemma_push_no_duplicates, without, Registry};
use crate::snapshot::{account_key, by_dna, dna_key, find_record, OwnerList, Snapshot};
use crate::types::{AccountId, Balance, Dna, Error, Event, Kitty, Moment};
use std::collections::HashMap;
use vstd::prelude::*;

verus! {

/// The lists by their holders.
spec fn by_owner(lists: Map<AccountId, Vec<Dna>>) -> Map<AccountId, Seq<Dna>> {
    lists.map_values(|list: Vec<Dna>| list@)
}

/// Takes `dna` out of `list` and keeps the order of the other entries.
fn remove_dna(list: &mut Vec<Dna>, dna: &Dna)
    requires
        old(list)@.no_duplicates(),
    ensures
        final(list)@ == without(old(list)@, *dna),
{
    match position_of(list, dna) {
        Some(at) => {
            assert(list@.contains(*dna));
            assert(list@.index_of(*dna) == at);
            list.remove(at);
        },
        None => {},
    }
}

/// A copy of `list`.
fn copy_list(list: &Vec<Dna>) -> (copy: Vec<Dna>)
    ensures
        copy@ == list@,
{
    let mut copy: Vec<Dna> = Vec::new();
    let mut i: usize = 0;
    while i < list.len()
        invariant
            i <= list@.len(),
            copy@ == list@.subrange(0, i as int),
        decreases list@.len() - i,
    {
        copy.push(list[i]);
        i += 1;
    }
    assert(copy@ =~= list@);
    copy
}

/// The registry: the records, the lists of the holders, the two counters and
/// the quota policy. Nothing outside this type changes them.
pub struct Pallet {
    kitties: Vec<Kitty>,
    owners: Vec<AccountId>,
    owner_to_kitties: HashMap<AccountId, Vec<Dna>>,
    number_of_kitties: u32,
    nonce: u64,
    kitty_limit: KittyLimit,
}

impl View for Pallet {
    type V = Registry;

    closed spec fn view(&self) -> Registry {
        Registry {
            kitties: by_dna(self.kitties@),
            owner_to_kitties: by_owner(self.owner_to_kitties@),
            number_of_kitties: self.number_of_kitties,
            nonce: self.nonce,
            limit: self.kitty_limit@,
        }
    }
}

impl Pallet {
    /// The accounts in `owners` are those that have a list, each named once.
    spec fn owners_inv(&self) -> bool {
        &&& self.owners@.no_duplicates()
        &&& forall|who: AccountId|
            #![trigger self.owners@.contains(who)]
            #![trigger self.owner_to_kitties@.dom().contains(who)]
            self.owners@.contains(who) <==> self.owner_to_kitties@.dom().contains(who)
    }

    /// The stored records carry pairwise distinct identifiers, and the holders
    /// are kept in step with their lists.
    pub closed spec fn inv(&self) -> bool {
        distinct_keys(self.kitties@, dna_key()) && self.owners_inv()
    }

    /// The registry is valid: its representation is sound and the value it
    /// stands for is well-formed.
    pub open spec fn wf(&self) -> bool {
        self.inv() && self@.wf()
    }

    /// The registry at bootstrap.
    pub fn new() -> (pallet: Pallet)
        ensures
            pallet.wf(),
            pallet@ == Registry::empty(),
    {
        let pallet = Pallet {
            kitties: Vec::new(),
            owners: Vec::new(),
            owner_to_kitties: HashMap::new(),
            number_of_kitties: 0,
            nonce: 0,
            kitty_limit: KittyLimit::new(),
        };
        assert(pallet@.kitties =~= Map::empty());
        assert(pallet@.owner_to_kitties =~= Map::empty());
        assert(pallet@ =~= Registry::empty());
        pallet
    }

    /// How many kitties `who` holds.
    fn count_of(&self, who: AccountId) -> (count: usize)
        ensures
            count == self@.owned_by(who).len(),
    {
        match self.owner_to_kitties.get(&who) {
            Some(list) => list.len(),
            None => 0,
        }
    }

    /// Takes the list of `who` out of the index, or begins one.
    fn take_list(&mut self, who: AccountId) -> (list: Vec<Dna>)
        requires
            old(self).owners_inv(),
        ensures
            list@ == old(self)@.owned_by(who),
            final(self).owners@.no_duplicates(),
            forall|other: AccountId|
                final(self).owners@.contains(other) <==> other == who || old(
                    self,
                ).owner_to_kitties@.dom().contains(other),
            final(self).owner_to_kitties@ == old(self).owner_to_kitties@.remove(who),
            final(self).kitties == old(self).kitties,
            final(self).number_of_kitties == old(self).number_of_kitties,
            final(self).nonce == old(self).nonce,
            final(self).kitty_limit == old(self).kitty_limit,
    {
        match self.owner_to_kitties.remove(&who) {
            Some(list) => list,
            None => {
                proof {
                    lemma_push_no_duplicates(self.owners@, who);
                    assert forall|other: AccountId|
                        self.owners@.push(who).contains(other) <==> other == who
                            || self.owners@.contains(other) by {
                        lemma_push_contains(self.owners@, who, other);
                    }
                }
                self.owners.push(who);
                Vec::new()
            },
        }
    }

    /// Appends `dna` to the list of `who`, which is begun if there was none.
    fn receive(&mut self, who: AccountId, dna: Dna)
        requires
            old(self).owners_inv(),
        ensures
            final(self).owners_inv(),
            final(self)@ == old(self)@.received(who, dna),
            final(self).kitties == old(self).kitties,
    {
        let mut list = self.take_list(who);
        list.push(dna);
        self.owner_to_kitties.insert(who, list);
        assert(final(self)@.owner_to_kitties =~= old(self)@.received(who, dna).owner_to_kitties);
    }

    /// Takes `dna` out of the list of `who`.
    fn release(&mut self, who: AccountId, dna: &Dna)
        requires
            old(self).owners_inv(),
            old(self)@.owned_by(who).no_duplicates(),
        ensures
            final(self).owners_inv(),
            final(self)@ == old(self)@.released(who, *dna),
            final(self).kitties == old(self).kitties,
    {
        let mut list = self.take_list(who);
        remove_dna(&mut list, dna);
        self.owner_to_kitties.insert(who, list);
        assert(final(self)@.owner_to_kitties =~= old(self)@.released(who, *dna).owner_to_kitties);
    }

    /// The record filed under `dna`, if there is one.
    pub fn kitties(&self, dna: &Dna) -> (kitty: Option<Kitty>)
        requires
            self.wf(),
        ensures
            kitty == (if self@.kitties.dom().contains(*dna) {
                Some(self@.kitties[*dna])
            } else {
                None
            }),
    {
        match find_record(&self.kitties, dna) {
            Some(at) => {
                proof {
                    lemma_by_key_at(self.kitties@, dna_key(), at as int);
                }
                Some(self.kitties[at])
            },
            None => None,
        }
    }

    /// The identifiers that `who` holds, in the order in which it came by
    /// them; nothing for an account that never held a kitty.
    pub fn owner_to_kitties(&self, who: AccountId) -> (list: Option<Vec<Dna>>)
        ensures
            match list {
                Some(list) => self@.owner_to_kitties.dom().contains(who) && list@
                    == self@.owner_to_kitties[who],
                None => !self@.owner_to_kitties.dom().contains(who),
            },
    {
        match self.owner_to_kitties.get(&who) {
            Some(held) => {
                let list = copy_list(held);
                Some(list)
            },
            None => None,
        }
    }

    /// The running total of creations.
    pub fn number_of_kitties(&self) -> (total: u32)
        ensures
            total == self@.number_of_kitties,
    {
        self.number_of_kitties
    }

    /// The value of the generation counter.
    pub fn get_nonce(&self) -> (nonce: u64)
        ensures
            nonce == self@.nonce,
    {
        self.nonce
    }

    /// The quota in force.
    pub fn kitty_limit(&self) -> (quota: u32)
        ensures
            quota == self@.quota(),
    {
        self.kitty_limit.get()
    }

    /// Generates the identifier for the next creation by `sender`.
    pub fn random_hash(&self, seed: &[u8], sender: AccountId) -> (dna: Dna)
        requires
            seed@.len() <= MAX_SEED_LEN,
        ensures
            dna == self@.next_dna(sender, seed@),
    {
        generate(seed, sender, self.nonce)
    }

    /// Moves the generation counter on by one. At the end of its range the
    /// counter stays where it is and the call fails.
    fn increment_nonce(&mut self) -> (result: Result<(), Error>)
        ensures
            old(self)@.nonce < u64::MAX ==> result is Ok && final(self)@ == (Registry {
                nonce: (old(self)@.nonce + 1) as u64,
                ..old(self)@
            }),
            old(self)@.nonce == u64::MAX ==> result == Err::<(), Error>(Error::StorageOverflow)
                && final(self)@ == old(self)@,
            final(self).kitties == old(self).kitties,
            final(self).owners == old(self).owners,
            final(self).owner_to_kitties == old(self).owner_to_kitties,
    {
        match self.nonce.checked_add(1) {
            Some(next) => {
                self.nonce = next;
                Ok(())
            },
            None => Err(Error::StorageOverflow),
        }
    }

    /// Files a new kitty of `who` under `dna`. The quota is checked first, then
    /// the counters, then that nothing is filed under `dna` yet; a creation
    /// that fails any of these changes nothing.
    pub fn store_kitty(&mut self, who: AccountId, price: Balance, dna: Dna, now: Moment) -> (result:
        Result<Event, Error>)
        requires
            old(self).wf(),
        ensures
            final(self).wf(),
            result == old(self)@.store_kitty_result(who, price, dna),
            final(self)@ == old(self)@.store_kitty(who, price, dna, now),
            result is Err ==> final(self)@ == old(self)@,
    {
        if self.count_of(who) >= self.kitty_limit.get() as usize {
            return Err(Error::OverKittyLimit);
        }
        if self.nonce == u64::MAX || self.number_of_kitties == u32::MAX {
            return Err(Error::StorageOverflow);
        }
        if find_record(&self.kitties, &dna).is_some() {
            return Err(Error::DuplicateDna);
        }
        let kitty = Kitty { dna, price, gender: gen_gender(&dna), account: who, created_date: now };
        proof {
            lemma_by_key_push(self.kitties@, dna_key(), kitty);
            old(self)@.lemma_store_kitty_wf(who, price, dna, now);
        }
        self.kitties.push(kitty);
        self.number_of_kitties = self.number_of_kitties + 1;
        self.receive(who, dna);
        let _ = self.increment_nonce();
        assert(final(self)@ =~= old(self)@.store_kitty(who, price, dna, now));
        Ok(Event::KittyStored(dna, price))
    }

    /// Creates a kitty for `who`: generates its identifier from `seed` and the
    /// generation counter, and files it as `store_kitty` does.
    pub fn create_kitty(&mut self, who: AccountId, price: Balance, seed: &[u8], now: Moment) -> (result:
        Result<Event, Error>)
        requires
            old(self).wf(),
            seed@.len() <= MAX_SEED_LEN,
        ensures
            final(self).wf(),
            result == old(self)@.create_kitty_result(who, price, seed@),
            final(self)@ == old(self)@.create_kitty(who, price, seed@, now),
            result is Err ==> final(self)@ == old(self)@,
    {
        let dna = self.random_hash(seed, who);
        self.store_kitty(who, price, dna, now)
    }

    /// Hands the kitty under `dna` from `who` to `new_owner`. It fails, and
    /// changes nothing, where no such kitty is filed or `who` does not hold it.
    /// The quota is not consulted.
    pub fn transfer_ownership(&mut self, who: AccountId, dna: Dna, new_owner: AccountId) -> (result:
        Result<Event, Error>)
        requires
            old(self).wf(),
        ensures
            final(self).wf(),
            result == old(self)@.transfer_ownership_result(who, dna, new_owner),
            final(self)@ == old(self)@.transfer_ownership(who, dna, new_owner),
            result is Err ==> final(self)@ == old(self)@,
    {
        let at = match find_record(&self.kitties, &dna) {
            Some(at) => at,
            None => {
                return Err(Error::KittyNotFound);
            },
        };
        proof {
            lemma_by_key_at(self.kitties@, dna_key(), at as int);
        }
        let mut kitty = self.kitties[at];
        if kitty.account != who {
            return Err(Error::NotOwner);
        }
        kitty.account = new_owner;
        proof {
            lemma_by_key_update(self.kitties@, dna_key(), at as int, kitty);
            old(self)@.lemma_transfer_ownership_wf(who, dna, new_owner);
        }
        self.kitties[at] = kitty;
        self.release(who, &dna);
        self.receive(new_owner, dna);
        assert(final(self)@ =~= old(self)@.transfer_ownership(who, dna, new_owner));
        Ok(Event::TransferKittySuccess(dna, new_owner))
    }

    /// Sets the quota to `value`. Any value is taken, and no holding is
    /// touched.
    pub fn set_limit_kitty(&mut self, value: u32) -> (result: Result<Event, Error>)
        requires
            old(self).wf(),
        ensures
            final(self).wf(),
            result == Ok::<Event, Error>(Event::SetLimitKittySuccess),
            final(self)@ == old(self)@.set_limit_kitty(value),
    {
        proof {
            old(self)@.lemma_set_limit_kitty_wf(value);
        }
        self.kitty_limit.set(value);
        Ok(Event::SetLimitKittySuccess)
    }

    /// Lays the registry out for storage: the records in the order of their
    /// creation, the lists in the order in which the holders first appeared.
    pub fn snapshot(&self) -> (snapshot: Snapshot)
        requires
            self.wf(),
        ensures
            snapshot.valid(),
            snapshot@ == self@,
    {
        let mut kitties: Vec<Kitty> = Vec::new();
        let mut i: usize = 0;
        while i < self.kitties.len()
            invariant
                i <= self.kitties@.len(),
                kitties@ == self.kitties@.subrange(0, i as int),
            decreases self.kitties@.len() - i,
        {
            kitties.push(self.kitties[i]);
            i += 1;
        }
        assert(kitties@ =~= self.kitties@);
        let mut lists: Vec<OwnerList> = Vec::new();
        let mut e: usize = 0;
        while e < self.owners.len()
            invariant
                self.owners_inv(),
                e <= self.owners@.len(),
                lists@.len() == e,
                forall|j: int|
                    0 <= j < e ==> (#[trigger] lists@[j]).account == self.owners@[j]
                        && lists@[j].kitties@ == self.owner_to_kitties@[self.owners@[j]]@,
            decreases self.owners@.len() - e,
        {
            let who = self.owners[e];
            assert(self.owners@.contains(who));
            let list = match self.owner_to_kitties.get(&who) {
                Some(held) => copy_list(held),
                None => Vec::new(),
            };
            lists.push(OwnerList { account: who, kitties: list });
            e += 1;
        }
        let snapshot = Snapshot {
            kitties,
            owner_to_kitties: lists,
            number_of_kitties: self.number_of_kitties,
            nonce: self.nonce,
            limit: self.kitty_limit.setting(),
        };
        proof {
            let stored = snapshot.owner_to_kitties@;
            assert forall|a: int, b: int| 0 <= a < b < stored.len() implies account_key()(
                #[trigger] stored[a],
            ) != account_key()(#[trigger] stored[b]) by {
                assert(self.owners@[a] != self.owners@[b]);
            }
            assert forall|who: AccountId|
                has_key(stored, account_key(), who) <==> self.owner_to_kitties@.dom().contains(
                    who,
                ) by {
                if has_key(stored, account_key(), who) {
                    let j = place_of(stored, account_key(), who);
                    assert(self.owners@[j] == who);
                    assert(self.owners@.contains(who));
                }
                if self.owner_to_kitties@.dom().contains(who) {
                    assert(self.owners@.contains(who));
                    let j = self.owners@.index_of(who);
                    assert(account_key()(stored[j]) == who);
                }
            }
            assert forall|who: AccountId|
                has_key(stored, account_key(), who) implies snapshot@.owner_to_kitties[who]
                == self@.owner_to_kitties[who] by {
                let j = place_of(stored, account_key(), who);
                assert(stored[j].account == self.owners@[j]);
            }
            assert(snapshot@.owner_to_kitties =~= self@.owner_to_kitties);
            assert(snapshot@ =~= self@);
        }
        snapshot
    }

    /// Takes up a registry that was laid out for storage. A snapshot that does
    /// not stand for a well-formed registry is turned down.
    pub fn restore(snapshot: Snapshot) -> (pallet: Option<Pallet>)
        ensures
            pallet is Some <==> snapshot.valid(),
            pallet matches Some(restored) ==> restored.wf() && restored@ == snapshot@,
    {
        if !snapshot.is_valid() {
            return None;
        }
        let ghost stored = snapshot.owner_to_kitties@;
        let mut owners: Vec<AccountId> = Vec::new();
        let mut owner_to_kitties: HashMap<AccountId, Vec<Dna>> = HashMap::new();
        let mut e: usize = 0;
        while e < snapshot.owner_to_kitties.len()
            invariant
                stored == snapshot.owner_to_kitties@,
                distinct_keys(stored, account_key()),
                e <= stored.len(),
                owners@.len() == e,
                forall|j: int| 0 <= j < e ==> owners@[j] == (#[trigger] stored[j]).account,
                forall|who: AccountId| #[trigger]
                    owner_to_kitties@.dom().contains(who) ==> exists|j: int|
                        0 <= j < e && (#[trigger] stored[j]).account == who,
                forall|j: int|
                    0 <= j < e ==> owner_to_kitties@.dom().contains((#[trigger] stored[j]).account)
                        && owner_to_kitties@[stored[j].account]@ == stored[j].kitties@,
            decreases stored.len() - e,
        {
            let who = snapshot.owner_to_kitties[e].account;
            let list = copy_list(&snapshot.owner_to_kitties[e].kitties);
            proof {
                assert forall|j: int| 0 <= j < e implies (#[trigger] stored[j]).account != who by {
                    assert(account_key()(stored[j]) != account_key()(stored[e as int]));
                }
            }
            owners.push(who);
            owner_to_kitties.insert(who, list);
            e += 1;
        }
        let pallet = Pallet {
            kitties: snapshot.kitties,
            owners,
            owner_to_kitties,
            number_of_kitties: snapshot.number_of_kitties,
            nonce: snapshot.nonce,
            kitty_limit: KittyLimit::restore(snapshot.limit),
        };
        proof {
            assert forall|a: int, b: int|
                0 <= a < pallet.owners@.len() && 0 <= b < pallet.owners@.len() && a != b implies pallet.owners@[a]
                != pallet.owners@[b] by {
                if a < b {
                    assert(account_key()(stored[a]) != account_key()(stored[b]));
                } else {
                    assert(account_key()(stored[b]) != account_key()(stored[a]));
                }
            }
            assert forall|who: AccountId|
                #![trigger pallet.owners@.contains(who)]
                #![trigger pallet.owner_to_kitties@.dom().contains(who)]
                pallet.owners@.contains(who) <==> pallet.owner_to_kitties@.dom().contains(who) by {
                if pallet.owners@.contains(who) {
                    let j = pallet.owners@.index_of(who);
                    assert(stored[j].account == who);
                }
                if pallet.owner_to_kitties@.dom().contains(who) {
                    let j = choose|j: int| 0 <= j < stored.len() && (#[trigger] stored[j]).account == who;
                    assert(pallet.owners@[j] == who);
                }
            }
            assert forall|who: AccountId|
                has_key(stored, account_key(), who) <==> pallet.owner_to_kitties@.dom().contains(
                    who,
                ) by {
                if has_key(stored, account_key(), who) {
                    let j = place_of(stored, account_key(), who);
                    assert(stored[j].account == who);
                }
                if pallet.owner_to_kitties@.dom().contains(who) {
                    let j = choose|j: int| 0 <= j < stored.len() && (#[trigger] stored[j]).account == who;
                    assert(account_key()(stored[j]) == who);
                }
            }
            assert forall|who: AccountId|
                has_key(stored, account_key(), who) implies snapshot@.owner_to_kitties[who]
                == pallet@.owner_to_kitties[who] by {
                let j = place_of(stored, account_key(), who);
                assert(stored[j].account == who);
            }
            assert(pallet@.owner_to_kitties =~= snapshot@.owner_to_kitties);
            assert(pallet@ =~= snapshot@);
        }
        Some(pallet)
    }
}

} // verus!
