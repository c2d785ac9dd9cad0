//! The registry laid out for a key-value store: the records and the lists as
//! plain sequences, and the conditions under which such a layout stands for a
//! well-formed registry.

use crate::dna::{dna_eq, gen_gender, gender_of, position_of};
use crate::index::{by_key, distinct_keys, has_key, lemma_by_key_at, lemma_by_key_len, place_of};
use crate::registry::Registry;
use crate::types::{AccountId, Dna, Kitty};
use vstd::prelude::*;

verus! {

/// The list of one holder, as it is stored.
#[derive(Debug, PartialEq, Eq)]
pub struct OwnerList {
    /// The holder.
    pub account: AccountId,
    /// The identifiers that the holder holds, in the order in which it came by
    /// them.
    pub kitties: Vec<Dna>,
}

/// Everything the registry persists: the records, the lists of the holders,
/// the two counters and the quota setting.
#[derive(Debug, PartialEq, Eq)]
pub struct Snapshot {
    /// The records, in the order of their creation.
    pub kitties: Vec<Kitty>,
    /// The lists, in the order in which the holders first appeared.
    pub owner_to_kitties: Vec<OwnerList>,
    /// The running total of creations.
    pub number_of_kitties: u32,
    /// The generation counter.
    pub nonce: u64,
    /// The quota, where one was set.
    pub limit: Option<u32>,
}

/// The identifier of a record: the key under which it is filed.
pub open spec fn dna_key() -> spec_fn(Kitty) -> Dna {
    |kitty: Kitty| kitty.dna
}

/// The holder of a list: the key under which it is filed.
pub open spec fn account_key() -> spec_fn(OwnerList) -> AccountId {
    |list: OwnerList| list.account
}

/// The records by their identifiers.
pub open spec fn by_dna(records: Seq<Kitty>) -> Map<Dna, Kitty> {
    by_key(records, dna_key())
}

/// The lists by their holders.
pub open spec fn by_account(lists: Seq<OwnerList>) -> Map<AccountId, Seq<Dna>> {
    by_key(lists, account_key()).map_values(|list: OwnerList| list.kitties@)
}

/// Each of `records` carries the classifier of its identifier.
pub open spec fn genders_derived(records: Seq<Kitty>) -> bool {
    forall|i: int| 0 <= i < records.len() ==> (#[trigger] records[i]).gender == gender_of(records[i].dna)
}

/// No list of `lists` names an identifier twice.
pub open spec fn lists_distinct(lists: Seq<OwnerList>) -> bool {
    forall|e: int| 0 <= e < lists.len() ==> (#[trigger] lists[e]).kitties@.no_duplicates()
}

/// Among `records` is one under `dna` whose holder is `who`.
pub open spec fn record_held(records: Seq<Kitty>, who: AccountId, dna: Dna) -> bool {
    exists|r: int|
        0 <= r < records.len() && (#[trigger] records[r]).dna == dna && records[r].account == who
}

/// Every entry of every list of `lists` names a record of that list's holder.
pub open spec fn lists_held(lists: Seq<OwnerList>, records: Seq<Kitty>) -> bool {
    forall|e: int, k: int|
        0 <= e < lists.len() && 0 <= k < lists[e].kitties@.len() ==> record_held(
            records,
            lists[e].account,
            #[trigger] lists[e].kitties@[k],
        )
}

/// Among `lists` is one of `who` that names `dna`.
pub open spec fn listed(lists: Seq<OwnerList>, who: AccountId, dna: Dna) -> bool {
    exists|e: int|
        0 <= e < lists.len() && (#[trigger] lists[e]).account == who && lists[e].kitties@.contains(
            dna,
        )
}

/// Every one of `records` is named in a list of its holder.
pub open spec fn records_listed(records: Seq<Kitty>, lists: Seq<OwnerList>) -> bool {
    forall|i: int|
        0 <= i < records.len() ==> listed(lists, (#[trigger] records[i]).account, records[i].dna)
}

impl View for Snapshot {
    type V = Registry;

    open spec fn view(&self) -> Registry {
        Registry {
            kitties: by_dna(self.kitties@),
            owner_to_kitties: by_account(self.owner_to_kitties@),
            number_of_kitties: self.number_of_kitties,
            nonce: self.nonce,
            limit: self.limit,
        }
    }
}

impl Snapshot {
    /// The snapshot stands for a registry: no two records share an identifier,
    /// no two lists share a holder, and the registry they make is well-formed.
    pub open spec fn valid(&self) -> bool {
        &&& distinct_keys(self.kitties@, dna_key())
        &&& distinct_keys(self.owner_to_kitties@, account_key())
        &&& self@.wf()
    }

    /// The conditions on the stored sequences that make a snapshot valid, each
    /// one a test of its own.
    pub open spec fn sound(&self) -> bool {
        &&& self.number_of_kitties == self.kitties@.len()
        &&& distinct_keys(self.kitties@, dna_key())
        &&& genders_derived(self.kitties@)
        &&& distinct_keys(self.owner_to_kitties@, account_key())
        &&& lists_distinct(self.owner_to_kitties@)
        &&& lists_held(self.owner_to_kitties@, self.kitties@)
        &&& records_listed(self.kitties@, self.owner_to_kitties@)
    }

    /// Among distinct lists, the one at `at` is what its holder holds.
    pub proof fn lemma_list_at(&self, at: int)
        requires
            distinct_keys(self.owner_to_kitties@, account_key()),
            0 <= at < self.owner_to_kitties@.len(),
        ensures
            self@.owner_to_kitties.dom().contains(self.owner_to_kitties@[at].account),
            self@.owned_by(self.owner_to_kitties@[at].account) == self.owner_to_kitties@[at].kitties@,
    {
        lemma_by_key_at(self.owner_to_kitties@, account_key(), at);
    }

    /// What an account holds is the list filed for it, or nothing.
    pub proof fn lemma_owned_by(&self, who: AccountId)
        ensures
            has_key(self.owner_to_kitties@, account_key(), who) ==> {
                let at = place_of(self.owner_to_kitties@, account_key(), who);
                &&& 0 <= at < self.owner_to_kitties@.len()
                &&& self.owner_to_kitties@[at].account == who
                &&& self@.owned_by(who) == self.owner_to_kitties@[at].kitties@
            },
            !has_key(self.owner_to_kitties@, account_key(), who) ==> self@.owned_by(who)
                == Seq::<Dna>::empty(),
    {
    }

    /// A snapshot is valid exactly where it is sound.
    pub proof fn lemma_valid_is_sound(&self)
        ensures
            self.valid() <==> self.sound(),
    {
        let records = self.kitties@;
        let lists = self.owner_to_kitties@;
        let registry = self@;
        if distinct_keys(records, dna_key()) && distinct_keys(lists, account_key()) {
            lemma_by_key_len(records, dna_key());
            if self.sound() {
                assert forall|dna: Dna| #[trigger]
                    registry.kitties.dom().contains(dna) implies registry.filed(dna) by {
                    let i = place_of(records, dna_key(), dna);
                    assert(records[i].dna == dna);
                    assert(listed(lists, records[i].account, records[i].dna));
                    let e = choose|e: int|
                        0 <= e < lists.len() && (#[trigger] lists[e]).account == records[i].account
                            && lists[e].kitties@.contains(dna);
                    self.lemma_list_at(e);
                }
                assert forall|who: AccountId| (#[trigger] registry.owned_by(who)).no_duplicates() by {
                    self.lemma_owned_by(who);
                }
                assert forall|who: AccountId, dna: Dna| #[trigger]
                    registry.owned_by(who).contains(dna) implies registry.held(who, dna) by {
                    self.lemma_owned_by(who);
                    let e = place_of(lists, account_key(), who);
                    let k = registry.owned_by(who).index_of(dna);
                    assert(record_held(records, lists[e].account, lists[e].kitties@[k]));
                    let r = choose|r: int|
                        0 <= r < records.len() && (#[trigger] records[r]).dna == dna
                            && records[r].account == who;
                    lemma_by_key_at(records, dna_key(), r);
                }
                assert(registry.wf());
            }
            if registry.wf() {
                assert forall|i: int| 0 <= i < records.len() implies (#[trigger] records[i]).gender
                    == gender_of(records[i].dna) by {
                    lemma_by_key_at(records, dna_key(), i);
                    assert(registry.filed(records[i].dna));
                }
                assert forall|e: int| 0 <= e < lists.len() implies (#[trigger] lists[e]).kitties@.no_duplicates() by {
                    self.lemma_list_at(e);
                }
                assert forall|e: int, k: int|
                    0 <= e < lists.len() && 0 <= k < lists[e].kitties@.len() implies record_held(
                    records,
                    lists[e].account,
                    #[trigger] lists[e].kitties@[k],
                ) by {
                    let who = lists[e].account;
                    let dna = lists[e].kitties@[k];
                    self.lemma_list_at(e);
                    assert(registry.owned_by(who).contains(dna));
                    assert(registry.held(who, dna));
                    let r = place_of(records, dna_key(), dna);
                    assert(records[r].dna == dna);
                }
                assert forall|i: int| 0 <= i < records.len() implies listed(
                    lists,
                    (#[trigger] records[i]).account,
                    records[i].dna,
                ) by {
                    let who = records[i].account;
                    let dna = records[i].dna;
                    lemma_by_key_at(records, dna_key(), i);
                    assert(registry.filed(dna));
                    assert(registry.owned_by(who).contains(dna));
                    self.lemma_owned_by(who);
                    let e = place_of(lists, account_key(), who);
                    assert(lists[e].account == who && lists[e].kitties@.contains(dna));
                }
                assert(self.sound());
            }
        }
    }
}

/// Where in `records` the record under `dna` stands, if one does: the first
/// place.
pub fn find_record(records: &Vec<Kitty>, dna: &Dna) -> (at: Option<usize>)
    ensures
        match at {
            Some(i) => i < records@.len() && records@[i as int].dna == *dna,
            None => !has_key(records@, dna_key(), *dna),
        },
{
    let mut i: usize = 0;
    while i < records.len()
        invariant
            i <= records@.len(),
            forall|j: int| 0 <= j < i ==> (#[trigger] records@[j]).dna != *dna,
        decreases records@.len() - i,
    {
        if dna_eq(&records[i].dna, dna) {
            return Some(i);
        }
        i += 1;
    }
    None
}

/// Where in `lists` the list of `who` stands, if one does: the first place.
pub fn find_list(lists: &Vec<OwnerList>, who: AccountId) -> (at: Option<usize>)
    ensures
        match at {
            Some(e) => e < lists@.len() && lists@[e as int].account == who,
            None => !has_key(lists@, account_key(), who),
        },
{
    let mut e: usize = 0;
    while e < lists.len()
        invariant
            e <= lists@.len(),
            forall|j: int| 0 <= j < e ==> (#[trigger] lists@[j]).account != who,
        decreases lists@.len() - e,
    {
        if lists[e].account == who {
            return Some(e);
        }
        e += 1;
    }
    None
}

/// Whether no two of `records` share an identifier.
fn records_are_distinct(records: &Vec<Kitty>) -> (ok: bool)
    ensures
        ok == distinct_keys(records@, dna_key()),
{
    let mut i: usize = 0;
    while i < records.len()
        invariant
            i <= records@.len(),
            forall|a: int, b: int|
                0 <= a < b < i ==> (#[trigger] records@[a]).dna != (#[trigger] records@[b]).dna,
        decreases records@.len() - i,
    {
        let mut j: usize = 0;
        while j < i
            invariant
                j <= i < records@.len(),
                forall|a: int| 0 <= a < j ==> (#[trigger] records@[a]).dna != records@[i as int].dna,
            decreases i - j,
        {
            if dna_eq(&records[j].dna, &records[i].dna) {
                assert(dna_key()(records@[j as int]) == dna_key()(records@[i as int]));
                return false;
            }
            j += 1;
        }
        i += 1;
    }
    true
}

/// Whether each of `records` carries the classifier of its identifier.
fn genders_are_derived(records: &Vec<Kitty>) -> (ok: bool)
    ensures
        ok == genders_derived(records@),
{
    let mut i: usize = 0;
    while i < records.len()
        invariant
            i <= records@.len(),
            forall|a: int| 0 <= a < i ==> (#[trigger] records@[a]).gender == gender_of(records@[a].dna),
        decreases records@.len() - i,
    {
        if records[i].gender != gen_gender(&records[i].dna) {
            return false;
        }
        i += 1;
    }
    true
}

/// Whether no two of `lists` share a holder.
fn accounts_are_distinct(lists: &Vec<OwnerList>) -> (ok: bool)
    ensures
        ok == distinct_keys(lists@, account_key()),
{
    let mut e: usize = 0;
    while e < lists.len()
        invariant
            e <= lists@.len(),
            forall|a: int, b: int|
                0 <= a < b < e ==> (#[trigger] lists@[a]).account != (#[trigger] lists@[b]).account,
        decreases lists@.len() - e,
    {
        let mut j: usize = 0;
        while j < e
            invariant
                j <= e < lists@.len(),
                forall|a: int| 0 <= a < j ==> (#[trigger] lists@[a]).account != lists@[e as int].account,
            decreases e - j,
        {
            if lists[j].account == lists[e].account {
                assert(account_key()(lists@[j as int]) == account_key()(lists@[e as int]));
                return false;
            }
            j += 1;
        }
        e += 1;
    }
    true
}

/// Whether `list` names no identifier twice.
fn list_is_distinct(list: &Vec<Dna>) -> (ok: bool)
    ensures
        ok == list@.no_duplicates(),
{
    let mut i: usize = 0;
    while i < list.len()
        invariant
            i <= list@.len(),
            forall|a: int, b: int| 0 <= a < b < i ==> list@[a] != list@[b],
        decreases list@.len() - i,
    {
        let mut j: usize = 0;
        while j < i
            invariant
                j <= i < list@.len(),
                forall|a: int| 0 <= a < j ==> list@[a] != list@[i as int],
            decreases i - j,
        {
            if dna_eq(&list[j], &list[i]) {
                return false;
            }
            j += 1;
        }
        i += 1;
    }
    assert forall|a: int, b: int| 0 <= a < list@.len() && 0 <= b < list@.len() && a != b implies list@[a]
        != list@[b] by {
        if a < b {
            assert(list@[a] != list@[b]);
        } else {
            assert(list@[b] != list@[a]);
        }
    }
    true
}

/// Whether no list of `lists` names an identifier twice.
fn lists_are_distinct(lists: &Vec<OwnerList>) -> (ok: bool)
    ensures
        ok == lists_distinct(lists@),
{
    let mut e: usize = 0;
    while e < lists.len()
        invariant
            e <= lists@.len(),
            forall|a: int| 0 <= a < e ==> (#[trigger] lists@[a]).kitties@.no_duplicates(),
        decreases lists@.len() - e,
    {
        if !list_is_distinct(&lists[e].kitties) {
            return false;
        }
        e += 1;
    }
    true
}

/// Whether every entry of every list names a record of that list's holder.
fn lists_are_held(lists: &Vec<OwnerList>, records: &Vec<Kitty>) -> (ok: bool)
    requires
        distinct_keys(records@, dna_key()),
    ensures
        ok == lists_held(lists@, records@),
{
    let mut e: usize = 0;
    while e < lists.len()
        invariant
            distinct_keys(records@, dna_key()),
            e <= lists@.len(),
            forall|a: int, k: int|
                0 <= a < e && 0 <= k < lists@[a].kitties@.len() ==> record_held(
                    records@,
                    lists@[a].account,
                    #[trigger] lists@[a].kitties@[k],
                ),
        decreases lists@.len() - e,
    {
        let list = &lists[e].kitties;
        let who = lists[e].account;
        let mut k: usize = 0;
        while k < list.len()
            invariant
                distinct_keys(records@, dna_key()),
                e < lists@.len(),
                *list == lists@[e as int].kitties,
                who == lists@[e as int].account,
                k <= list@.len(),
                forall|b: int| 0 <= b < k ==> record_held(records@, who, #[trigger] list@[b]),
            decreases list@.len() - k,
        {
            let held = match find_record(records, &list[k]) {
                Some(r) => {
                    proof {
                        if records@[r as int].account != who && record_held(
                            records@,
                            who,
                            list@[k as int],
                        ) {
                            let other = choose|other: int|
                                0 <= other < records@.len() && (#[trigger] records@[other]).dna
                                    == list@[k as int] && records@[other].account == who;
                            if other < r {
                                assert(dna_key()(records@[other]) != dna_key()(records@[r as int]));
                            } else {
                                assert(dna_key()(records@[r as int]) != dna_key()(records@[other]));
                            }
                        }
                    }
                    records[r].account == who
                },
                None => false,
            };
            if !held {
                assert(!record_held(records@, lists@[e as int].account, lists@[e as int].kitties@[k as int]));
                return false;
            }
            k += 1;
        }
        e += 1;
    }
    true
}

/// Whether every one of `records` is named in a list of its holder.
fn records_are_listed(records: &Vec<Kitty>, lists: &Vec<OwnerList>) -> (ok: bool)
    requires
        distinct_keys(lists@, account_key()),
    ensures
        ok == records_listed(records@, lists@),
{
    let mut i: usize = 0;
    while i < records.len()
        invariant
            distinct_keys(lists@, account_key()),
            i <= records@.len(),
            forall|a: int|
                0 <= a < i ==> listed(lists@, (#[trigger] records@[a]).account, records@[a].dna),
        decreases records@.len() - i,
    {
        let who = records[i].account;
        let named = match find_list(lists, who) {
            Some(e) => {
                proof {
                    let dna = records@[i as int].dna;
                    if listed(lists@, who, dna) {
                        let other = choose|other: int|
                            0 <= other < lists@.len() && (#[trigger] lists@[other]).account == who
                                && lists@[other].kitties@.contains(dna);
                        if other < e {
                            assert(account_key()(lists@[other]) != account_key()(lists@[e as int]));
                        } else if e < other {
                            assert(account_key()(lists@[e as int]) != account_key()(lists@[other]));
                        }
                    }
                }
                position_of(&lists[e].kitties, &records[i].dna).is_some()
            },
            None => false,
        };
        if !named {
            assert(!listed(lists@, records@[i as int].account, records@[i as int].dna));
            return false;
        }
        i += 1;
    }
    true
}

impl Snapshot {
    /// Whether the snapshot stands for a well-formed registry.
    pub fn is_valid(&self) -> (ok: bool)
        ensures
            ok == self.valid(),
    {
        proof {
            self.lemma_valid_is_sound();
        }
        if self.number_of_kitties as usize != self.kitties.len() {
            return false;
        }
        if !records_are_distinct(&self.kitties) {
            return false;
        }
        if !genders_are_derived(&self.kitties) {
            return false;
        }
        if !accounts_are_distinct(&self.owner_to_kitties) {
            return false;
        }
        if !lists_are_distinct(&self.owner_to_kitties) {
            return false;
        }
        if !lists_are_held(&self.owner_to_kitties, &self.kitties) {
            return false;
        }
        records_are_listed(&self.kitties, &self.owner_to_kitties)
    }
}

} // verus!
