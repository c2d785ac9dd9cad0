use kitties::dna::{dna_eq, gen_gender, generate};
use kitties::limit::{KittyLimit, DEFAULT_KITTY_LIMIT};
use kitties::pallet::Pallet;
use kitties::types::{AccountId, Dna, Error, Event, Gender, Kitty};

const ALICE: AccountId = 1;
const BOB: AccountId = 2;
const CAROL: AccountId = 3;

fn dna_with_first_byte(first: u8) -> Dna {
    let mut dna: Dna = [7u8; 32];
    dna[0] = first;
    dna
}

fn created(result: Result<Event, Error>) -> Dna {
    match result {
        Ok(Event::KittyStored(dna, _)) => dna,
        other => panic!("the creation did not succeed: {:?}", other),
    }
}

fn scale_encoded(seed: &[u8], sender: AccountId, nonce: u64) -> Vec<u8> {
    assert!(seed.len() < 64);
    let mut bytes: Vec<u8> = vec![(seed.len() as u8) << 2];
    bytes.extend_from_slice(seed);
    bytes.extend_from_slice(&sender.to_le_bytes());
    bytes.extend_from_slice(&nonce.to_le_bytes());
    bytes
}

#[test]
fn a_new_registry_is_empty() {
    let pallet = Pallet::new();
    assert_eq!(pallet.number_of_kitties(), 0);
    assert_eq!(pallet.get_nonce(), 0);
    assert_eq!(pallet.kitty_limit(), 1000);
    assert_eq!(pallet.owner_to_kitties(ALICE), None);
    assert_eq!(pallet.kitties(&[0u8; 32]), None);
}

#[test]
fn the_identifier_is_the_blake2_digest_of_the_encoded_inputs() {
    let seed: [u8; 4] = [9, 8, 7, 6];
    let expected = <frame_support::sp_runtime::traits::BlakeTwo256 as frame_support::sp_runtime::traits::Hash>::hash(
        &scale_encoded(&seed, ALICE, 5),
    );
    assert_eq!(generate(&seed, ALICE, 5), expected.to_fixed_bytes());
}

#[test]
fn the_identifier_depends_on_each_input() {
    let seed: [u8; 3] = [1, 2, 3];
    let other_seed: [u8; 3] = [1, 2, 4];
    let base = generate(&seed, ALICE, 0);
    assert_eq!(generate(&seed, ALICE, 0), base);
    assert_ne!(generate(&other_seed, ALICE, 0), base);
    assert_ne!(generate(&seed, BOB, 0), base);
    assert_ne!(generate(&seed, ALICE, 1), base);
}

#[test]
fn random_hash_uses_the_current_nonce() {
    let seed: [u8; 2] = [4, 2];
    let mut pallet = Pallet::new();
    assert_eq!(pallet.random_hash(&seed, ALICE), generate(&seed, ALICE, 0));
    created(pallet.create_kitty(ALICE, 10, &seed, 100));
    assert_eq!(pallet.get_nonce(), 1);
    assert_eq!(pallet.random_hash(&seed, ALICE), generate(&seed, ALICE, 1));
}

#[test]
fn gender_follows_the_parity_of_the_first_byte() {
    assert_eq!(gen_gender(&dna_with_first_byte(0)), Gender::Female);
    assert_eq!(gen_gender(&dna_with_first_byte(1)), Gender::Male);
    assert_eq!(gen_gender(&dna_with_first_byte(254)), Gender::Female);
    assert_eq!(gen_gender(&dna_with_first_byte(255)), Gender::Male);
}

#[test]
fn gender_is_the_same_on_every_call() {
    let dna = dna_with_first_byte(33);
    assert_eq!(gen_gender(&dna), gen_gender(&dna));
    assert_eq!(gen_gender(&dna), gen_gender(&dna.clone()));
}

#[test]
fn the_default_gender_is_male() {
    assert_eq!(Gender::default(), Gender::Male);
}

#[test]
fn identifiers_compare_byte_for_byte() {
    let left = dna_with_first_byte(3);
    let mut right = dna_with_first_byte(3);
    assert!(dna_eq(&left, &right));
    right[31] = 8;
    assert!(!dna_eq(&left, &right));
    assert!(!dna_eq(&dna_with_first_byte(4), &left));
}

#[test]
fn the_limit_defaults_to_one_thousand_until_set() {
    let mut limit = KittyLimit::new();
    assert_eq!(DEFAULT_KITTY_LIMIT, 1000);
    assert_eq!(limit.get(), 1000);
    limit.set(0);
    assert_eq!(limit.get(), 0);
    limit.set(u32::MAX);
    assert_eq!(limit.get(), u32::MAX);
}

#[test]
fn create_files_the_record_and_counts_it() {
    let seed: [u8; 3] = [5, 5, 5];
    let mut pallet = Pallet::new();
    let expected = generate(&seed, ALICE, 0);
    assert_eq!(pallet.create_kitty(ALICE, 42, &seed, 1_000), Ok(Event::KittyStored(expected, 42)));
    assert_eq!(
        pallet.kitties(&expected),
        Some(Kitty {
            dna: expected,
            price: 42,
            gender: gen_gender(&expected),
            account: ALICE,
            created_date: 1_000,
        })
    );
    assert_eq!(pallet.owner_to_kitties(ALICE), Some(vec![expected]));
    assert_eq!(pallet.number_of_kitties(), 1);
    assert_eq!(pallet.get_nonce(), 1);
}

#[test]
fn store_files_the_record_under_the_given_identifier() {
    let mut pallet = Pallet::new();
    let even = dna_with_first_byte(10);
    let odd = dna_with_first_byte(11);
    assert_eq!(pallet.store_kitty(ALICE, 1, even, 50), Ok(Event::KittyStored(even, 1)));
    assert_eq!(pallet.store_kitty(BOB, 2, odd, 60), Ok(Event::KittyStored(odd, 2)));
    assert_eq!(
        pallet.kitties(&even),
        Some(Kitty { dna: even, price: 1, gender: Gender::Female, account: ALICE, created_date: 50 })
    );
    assert_eq!(
        pallet.kitties(&odd),
        Some(Kitty { dna: odd, price: 2, gender: Gender::Male, account: BOB, created_date: 60 })
    );
    assert_eq!(pallet.number_of_kitties(), 2);
    assert_eq!(pallet.get_nonce(), 2);
}

#[test]
fn successful_creations_return_distinct_identifiers() {
    let seed: [u8; 1] = [0];
    let mut pallet = Pallet::new();
    let mut seen: Vec<Dna> = Vec::new();
    for round in 0..50u64 {
        let who: AccountId = round % 3;
        let dna = created(pallet.create_kitty(who, 0, &seed, round));
        assert!(!seen.contains(&dna));
        seen.push(dna);
    }
    assert_eq!(pallet.number_of_kitties(), 50);
    assert_eq!(pallet.get_nonce(), 50);
}

#[test]
fn a_second_record_under_one_identifier_is_rejected() {
    let mut pallet = Pallet::new();
    let dna = dna_with_first_byte(1);
    assert_eq!(pallet.store_kitty(ALICE, 1, dna, 5), Ok(Event::KittyStored(dna, 1)));
    assert_eq!(pallet.store_kitty(BOB, 2, dna, 6), Err(Error::DuplicateDna));
    assert_eq!(pallet.number_of_kitties(), 1);
    assert_eq!(pallet.get_nonce(), 1);
    assert_eq!(pallet.owner_to_kitties(BOB), None);
    assert_eq!(pallet.kitties(&dna).map(|kitty| kitty.account), Some(ALICE));
}

#[test]
fn the_creation_past_the_quota_fails_and_changes_nothing() {
    let seed: [u8; 2] = [1, 1];
    let mut pallet = Pallet::new();
    assert_eq!(pallet.set_limit_kitty(3), Ok(Event::SetLimitKittySuccess));
    let mut held: Vec<Dna> = Vec::new();
    for round in 0..3u64 {
        held.push(created(pallet.create_kitty(ALICE, 7, &seed, round)));
    }
    assert_eq!(pallet.create_kitty(ALICE, 7, &seed, 3), Err(Error::OverKittyLimit));
    assert_eq!(pallet.number_of_kitties(), 3);
    assert_eq!(pallet.get_nonce(), 3);
    assert_eq!(pallet.owner_to_kitties(ALICE), Some(held));
    assert!(pallet.create_kitty(BOB, 7, &seed, 3).is_ok());
}

#[test]
fn the_quota_is_checked_before_the_identifier() {
    let mut pallet = Pallet::new();
    let dna = dna_with_first_byte(2);
    pallet.set_limit_kitty(1).unwrap();
    assert!(pallet.store_kitty(ALICE, 1, dna, 5).is_ok());
    assert_eq!(pallet.store_kitty(ALICE, 1, dna, 5), Err(Error::OverKittyLimit));
    assert_eq!(pallet.store_kitty(BOB, 1, dna, 5), Err(Error::DuplicateDna));
}

#[test]
fn a_quota_of_zero_stops_every_creation() {
    let seed: [u8; 1] = [3];
    let mut pallet = Pallet::new();
    pallet.set_limit_kitty(0).unwrap();
    assert_eq!(pallet.kitty_limit(), 0);
    assert_eq!(pallet.create_kitty(ALICE, 1, &seed, 1), Err(Error::OverKittyLimit));
    assert_eq!(pallet.number_of_kitties(), 0);
    assert_eq!(pallet.get_nonce(), 0);
    assert_eq!(pallet.owner_to_kitties(ALICE), None);
}

#[test]
fn lowering_the_quota_evicts_nothing() {
    let seed: [u8; 1] = [4];
    let mut pallet = Pallet::new();
    let first = created(pallet.create_kitty(ALICE, 1, &seed, 1));
    let second = created(pallet.create_kitty(ALICE, 1, &seed, 2));
    pallet.set_limit_kitty(1).unwrap();
    assert_eq!(pallet.owner_to_kitties(ALICE), Some(vec![first, second]));
    assert_eq!(pallet.number_of_kitties(), 2);
    assert_eq!(pallet.create_kitty(ALICE, 1, &seed, 3), Err(Error::OverKittyLimit));
}

#[test]
fn without_a_set_quota_one_thousand_may_be_created() {
    let seed: [u8; 1] = [5];
    let mut pallet = Pallet::new();
    for round in 0..1000u64 {
        assert!(pallet.create_kitty(ALICE, 0, &seed, round).is_ok());
    }
    assert_eq!(pallet.create_kitty(ALICE, 0, &seed, 1000), Err(Error::OverKittyLimit));
    assert_eq!(pallet.number_of_kitties(), 1000);
    assert_eq!(pallet.owner_to_kitties(ALICE).map(|list| list.len()), Some(1000));
}

#[test]
fn transfer_moves_the_kitty_to_the_new_owner() {
    let seed: [u8; 1] = [6];
    let mut pallet = Pallet::new();
    let dna = created(pallet.create_kitty(ALICE, 9, &seed, 77));
    assert_eq!(
        pallet.transfer_ownership(ALICE, dna, BOB),
        Ok(Event::TransferKittySuccess(dna, BOB))
    );
    assert_eq!(
        pallet.kitties(&dna),
        Some(Kitty { dna, price: 9, gender: gen_gender(&dna), account: BOB, created_date: 77 })
    );
    assert_eq!(pallet.owner_to_kitties(BOB), Some(vec![dna]));
    assert_eq!(pallet.owner_to_kitties(ALICE), Some(vec![]));
    assert_eq!(pallet.number_of_kitties(), 1);
    assert_eq!(pallet.get_nonce(), 1);
}

#[test]
fn transfer_keeps_the_order_of_the_remaining_kitties() {
    let mut pallet = Pallet::new();
    let first = dna_with_first_byte(1);
    let second = dna_with_first_byte(2);
    let third = dna_with_first_byte(3);
    let fourth = dna_with_first_byte(4);
    for dna in [first, second, third] {
        pallet.store_kitty(ALICE, 0, dna, 0).unwrap();
    }
    pallet.store_kitty(BOB, 0, fourth, 0).unwrap();
    pallet.transfer_ownership(ALICE, second, BOB).unwrap();
    assert_eq!(pallet.owner_to_kitties(ALICE), Some(vec![first, third]));
    assert_eq!(pallet.owner_to_kitties(BOB), Some(vec![fourth, second]));
}

#[test]
fn transfer_by_another_account_fails_and_changes_nothing() {
    let seed: [u8; 1] = [7];
    let mut pallet = Pallet::new();
    let dna = created(pallet.create_kitty(ALICE, 9, &seed, 77));
    assert_eq!(pallet.transfer_ownership(CAROL, dna, BOB), Err(Error::NotOwner));
    assert_eq!(pallet.kitties(&dna).map(|kitty| kitty.account), Some(ALICE));
    assert_eq!(pallet.owner_to_kitties(ALICE), Some(vec![dna]));
    assert_eq!(pallet.owner_to_kitties(BOB), None);
    assert_eq!(pallet.owner_to_kitties(CAROL), None);
}

#[test]
fn transfer_of_an_unknown_kitty_fails() {
    let mut pallet = Pallet::new();
    let dna = dna_with_first_byte(9);
    assert_eq!(pallet.transfer_ownership(ALICE, dna, BOB), Err(Error::KittyNotFound));
    assert_eq!(pallet.owner_to_kitties(ALICE), None);
    assert_eq!(pallet.owner_to_kitties(BOB), None);
    assert_eq!(pallet.number_of_kitties(), 0);
}

#[test]
fn the_same_transfer_twice_fails_the_second_time() {
    let seed: [u8; 1] = [8];
    let mut pallet = Pallet::new();
    let dna = created(pallet.create_kitty(ALICE, 9, &seed, 77));
    assert!(pallet.transfer_ownership(ALICE, dna, BOB).is_ok());
    assert_eq!(pallet.transfer_ownership(ALICE, dna, BOB), Err(Error::NotOwner));
    assert_eq!(pallet.owner_to_kitties(BOB), Some(vec![dna]));
}

#[test]
fn transfer_to_oneself_moves_the_kitty_to_the_end_of_the_list() {
    let mut pallet = Pallet::new();
    let first = dna_with_first_byte(1);
    let second = dna_with_first_byte(2);
    pallet.store_kitty(ALICE, 0, first, 0).unwrap();
    pallet.store_kitty(ALICE, 0, second, 0).unwrap();
    assert_eq!(
        pallet.transfer_ownership(ALICE, first, ALICE),
        Ok(Event::TransferKittySuccess(first, ALICE))
    );
    assert_eq!(pallet.owner_to_kitties(ALICE), Some(vec![second, first]));
    assert_eq!(pallet.kitties(&first).map(|kitty| kitty.account), Some(ALICE));
}

#[test]
fn transfer_is_not_subject_to_the_quota() {
    let seed: [u8; 1] = [9];
    let mut pallet = Pallet::new();
    pallet.set_limit_kitty(1).unwrap();
    let of_alice = created(pallet.create_kitty(ALICE, 0, &seed, 0));
    let of_bob = created(pallet.create_kitty(BOB, 0, &seed, 0));
    assert!(pallet.transfer_ownership(ALICE, of_alice, BOB).is_ok());
    assert_eq!(pallet.owner_to_kitties(BOB), Some(vec![of_bob, of_alice]));
    assert_eq!(pallet.create_kitty(BOB, 0, &seed, 0), Err(Error::OverKittyLimit));
    assert!(pallet.create_kitty(ALICE, 0, &seed, 0).is_ok());
}

#[test]
fn every_record_stands_in_the_list_of_its_holder_and_nowhere_else() {
    let seed: [u8; 2] = [1, 0];
    let accounts: [AccountId; 3] = [ALICE, BOB, CAROL];
    let mut pallet = Pallet::new();
    let mut all: Vec<Dna> = Vec::new();
    for round in 0..12u64 {
        all.push(created(pallet.create_kitty(accounts[(round % 3) as usize], round as u128, &seed, round)));
    }
    for (round, dna) in all.iter().enumerate() {
        let from = accounts[round % 3];
        let to = accounts[(round + 1 + round / 3) % 3];
        assert!(pallet.transfer_ownership(from, *dna, to).is_ok());
    }
    for dna in all.iter() {
        let holder = pallet.kitties(dna).unwrap().account;
        for account in accounts {
            let list = pallet.owner_to_kitties(account).unwrap_or_default();
            let times = list.iter().filter(|entry| *entry == dna).count();
            assert_eq!(times, if account == holder { 1 } else { 0 });
        }
    }
    let listed: usize = accounts.iter().map(|a| pallet.owner_to_kitties(*a).unwrap_or_default().len()).sum();
    assert_eq!(listed, 12);
    assert_eq!(pallet.number_of_kitties(), 12);
}

#[test]
fn quota_two_scenario() {
    let seed: [u8; 4] = [1, 2, 3, 4];
    let mut pallet = Pallet::new();
    pallet.set_limit_kitty(2).unwrap();
    let i1 = created(pallet.create_kitty(ALICE, 10, &seed, 1));
    let i2 = created(pallet.create_kitty(ALICE, 20, &seed, 2));
    assert_ne!(i1, i2);
    assert_eq!(pallet.owner_to_kitties(ALICE), Some(vec![i1, i2]));
    assert_eq!(pallet.create_kitty(ALICE, 30, &seed, 3), Err(Error::OverKittyLimit));
    assert_eq!(pallet.transfer_ownership(ALICE, i1, BOB), Ok(Event::TransferKittySuccess(i1, BOB)));
    assert_eq!(pallet.owner_to_kitties(ALICE), Some(vec![i2]));
    assert_eq!(pallet.owner_to_kitties(BOB), Some(vec![i1]));
    assert_eq!(pallet.transfer_ownership(BOB, i2, CAROL), Err(Error::NotOwner));
    assert_eq!(pallet.owner_to_kitties(ALICE), Some(vec![i2]));
    assert_eq!(pallet.owner_to_kitties(BOB), Some(vec![i1]));
}

#[test]
fn a_kitty_prints_its_fields_in_order() {
    let kitty = Kitty { dna: [0u8; 32], price: 3, gender: Gender::Female, account: ALICE, created_date: 9 };
    let text = format!("{:?}", kitty);
    assert!(text.starts_with("Kitty { dna: [0, 0,"));
    assert!(text.ends_with("price: 3, gender: Female, account: 1, created_date: 9 }"));
}

#[test]
fn a_limit_is_restored_with_its_setting() {
    assert_eq!(KittyLimit::restore(None), KittyLimit::new());
    assert_eq!(KittyLimit::restore(None).setting(), None);
    assert_eq!(KittyLimit::restore(None).get(), 1000);
    assert_eq!(KittyLimit::restore(Some(12)).setting(), Some(12));
    assert_eq!(KittyLimit::restore(Some(12)).get(), 12);
    let mut limit = KittyLimit::new();
    limit.set(1000);
    assert_eq!(limit.setting(), Some(1000));
    assert_ne!(limit, KittyLimit::new());
}
