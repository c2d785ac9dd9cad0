use kitties::dna::gen_gender;
use kitties::pallet::Pallet;
use kitties::snapshot::{find_list, find_record, OwnerList, Snapshot};
use kitties::types::{AccountId, Dna, Error, Event, Gender, Kitty};

const ALICE: AccountId = 1;
const BOB: AccountId = 2;

fn dna(first: u8) -> Dna {
    let mut bytes: Dna = [1u8; 32];
    bytes[0] = first;
    bytes
}

fn kitty(first: u8, account: AccountId) -> Kitty {
    let id = dna(first);
    Kitty { dna: id, price: 5, gender: gen_gender(&id), account, created_date: 11 }
}

fn two_holders() -> Snapshot {
    Snapshot {
        kitties: vec![kitty(1, ALICE), kitty(2, BOB), kitty(3, ALICE)],
        owner_to_kitties: vec![
            OwnerList { account: ALICE, kitties: vec![dna(3), dna(1)] },
            OwnerList { account: BOB, kitties: vec![dna(2)] },
        ],
        number_of_kitties: 3,
        nonce: 8,
        limit: Some(4),
    }
}

fn exhausted() -> Snapshot {
    Snapshot { kitties: vec![], owner_to_kitties: vec![], number_of_kitties: 0, nonce: u64::MAX, limit: None }
}

#[test]
fn the_snapshot_of_a_new_registry_is_empty() {
    let snapshot = Pallet::new().snapshot();
    assert_eq!(
        snapshot,
        Snapshot { kitties: vec![], owner_to_kitties: vec![], number_of_kitties: 0, nonce: 0, limit: None }
    );
    assert!(snapshot.is_valid());
}

#[test]
fn a_snapshot_lists_records_and_holders_in_order_of_appearance() {
    let mut pallet = Pallet::new();
    pallet.set_limit_kitty(7).unwrap();
    pallet.store_kitty(BOB, 5, dna(2), 11).unwrap();
    pallet.store_kitty(ALICE, 5, dna(1), 11).unwrap();
    pallet.store_kitty(BOB, 5, dna(4), 11).unwrap();
    pallet.transfer_ownership(BOB, dna(2), ALICE).unwrap();
    assert_eq!(
        pallet.snapshot(),
        Snapshot {
            kitties: vec![kitty(2, ALICE), kitty(1, ALICE), kitty(4, BOB)],
            owner_to_kitties: vec![
                OwnerList { account: BOB, kitties: vec![dna(4)] },
                OwnerList { account: ALICE, kitties: vec![dna(1), dna(2)] },
            ],
            number_of_kitties: 3,
            nonce: 3,
            limit: Some(7),
        }
    );
}

#[test]
fn restore_takes_up_what_snapshot_laid_out() {
    let restored = Pallet::restore(two_holders()).expect("the snapshot is valid");
    assert_eq!(restored.number_of_kitties(), 3);
    assert_eq!(restored.get_nonce(), 8);
    assert_eq!(restored.kitty_limit(), 4);
    assert_eq!(restored.kitties(&dna(2)), Some(kitty(2, BOB)));
    assert_eq!(restored.owner_to_kitties(ALICE), Some(vec![dna(3), dna(1)]));
    assert_eq!(restored.owner_to_kitties(BOB), Some(vec![dna(2)]));
    assert_eq!(restored.snapshot(), two_holders());
}

#[test]
fn a_restored_registry_goes_on_where_it_stood() {
    let seed: [u8; 2] = [6, 6];
    let mut first = Pallet::new();
    first.create_kitty(ALICE, 1, &seed, 1).unwrap();
    let mut second = Pallet::restore(first.snapshot()).expect("a snapshot of a registry is valid");
    assert_eq!(first.create_kitty(BOB, 2, &seed, 2), second.create_kitty(BOB, 2, &seed, 2));
    assert_eq!(first.snapshot(), second.snapshot());
}

#[test]
fn an_empty_list_is_kept() {
    let mut snapshot = two_holders();
    snapshot.owner_to_kitties.push(OwnerList { account: 9, kitties: vec![] });
    let restored = Pallet::restore(snapshot).expect("an empty list breaks nothing");
    assert_eq!(restored.owner_to_kitties(9), Some(vec![]));
    assert_eq!(restored.owner_to_kitties(10), None);
}

#[test]
fn creation_fails_once_the_generation_counter_is_exhausted() {
    let seed: [u8; 1] = [1];
    let mut pallet = Pallet::restore(exhausted()).expect("only the counter is unusual");
    assert_eq!(pallet.create_kitty(ALICE, 1, &seed, 1), Err(Error::StorageOverflow));
    assert_eq!(pallet.store_kitty(ALICE, 1, dna(1), 1), Err(Error::StorageOverflow));
    assert_eq!(pallet.snapshot(), exhausted());
}

#[test]
fn the_last_value_of_the_generation_counter_can_be_reached() {
    let snapshot = Snapshot {
        kitties: vec![],
        owner_to_kitties: vec![],
        number_of_kitties: 0,
        nonce: u64::MAX - 1,
        limit: None,
    };
    let mut pallet = Pallet::restore(snapshot).expect("only the counter is unusual");
    assert_eq!(pallet.store_kitty(ALICE, 1, dna(1), 1), Ok(Event::KittyStored(dna(1), 1)));
    assert_eq!(pallet.get_nonce(), u64::MAX);
    assert_eq!(pallet.store_kitty(ALICE, 1, dna(2), 1), Err(Error::StorageOverflow));
}

#[test]
fn the_quota_is_checked_before_the_counters() {
    let snapshot = Snapshot {
        kitties: vec![],
        owner_to_kitties: vec![],
        number_of_kitties: 0,
        nonce: u64::MAX,
        limit: Some(0),
    };
    let mut pallet = Pallet::restore(snapshot).expect("only the counter is unusual");
    assert_eq!(pallet.store_kitty(ALICE, 1, dna(1), 1), Err(Error::OverKittyLimit));
}

#[test]
fn a_wrong_total_is_turned_down() {
    let mut snapshot = two_holders();
    snapshot.number_of_kitties = 2;
    assert!(!snapshot.is_valid());
    assert!(Pallet::restore(snapshot).is_none());
}

#[test]
fn two_records_under_one_identifier_are_turned_down() {
    let mut snapshot = two_holders();
    snapshot.kitties[2].dna = dna(1);
    assert!(!snapshot.is_valid());
    assert!(Pallet::restore(snapshot).is_none());
}

#[test]
fn a_wrong_gender_is_turned_down() {
    let mut snapshot = two_holders();
    assert_eq!(snapshot.kitties[1].gender, Gender::Female);
    snapshot.kitties[1].gender = Gender::Male;
    assert!(!snapshot.is_valid());
    assert!(Pallet::restore(snapshot).is_none());
}

#[test]
fn two_lists_of_one_holder_are_turned_down() {
    let mut snapshot = two_holders();
    snapshot.owner_to_kitties.push(OwnerList { account: ALICE, kitties: vec![] });
    assert!(!snapshot.is_valid());
    assert!(Pallet::restore(snapshot).is_none());
}

#[test]
fn a_list_that_names_a_kitty_twice_is_turned_down() {
    let mut snapshot = two_holders();
    snapshot.owner_to_kitties[1].kitties.push(dna(2));
    assert!(!snapshot.is_valid());
    assert!(Pallet::restore(snapshot).is_none());
}

#[test]
fn a_list_that_names_another_holders_kitty_is_turned_down() {
    let mut snapshot = two_holders();
    snapshot.owner_to_kitties[1].kitties.push(dna(1));
    assert!(!snapshot.is_valid());
    assert!(Pallet::restore(snapshot).is_none());
}

#[test]
fn a_list_that_names_an_unknown_kitty_is_turned_down() {
    let mut snapshot = two_holders();
    snapshot.owner_to_kitties[1].kitties.push(dna(77));
    assert!(!snapshot.is_valid());
    assert!(Pallet::restore(snapshot).is_none());
}

#[test]
fn a_record_that_no_list_names_is_turned_down() {
    let mut snapshot = two_holders();
    snapshot.owner_to_kitties[0].kitties.pop();
    assert!(!snapshot.is_valid());
    assert!(Pallet::restore(snapshot).is_none());
    let mut orphaned = two_holders();
    orphaned.owner_to_kitties.pop();
    assert!(!orphaned.is_valid());
}

#[test]
fn records_and_lists_are_found_by_their_keys() {
    let snapshot = two_holders();
    assert_eq!(find_record(&snapshot.kitties, &dna(3)), Some(2));
    assert_eq!(find_record(&snapshot.kitties, &dna(9)), None);
    assert_eq!(find_list(&snapshot.owner_to_kitties, BOB), Some(1));
    assert_eq!(find_list(&snapshot.owner_to_kitties, 3), None);
}
