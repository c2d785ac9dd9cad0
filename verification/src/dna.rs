//! Identifiers: how one is generated, how two are compared, how one is found
//! in a list, and the classifier that is read off an identifier.

use crate::types::{AccountId, Dna, Gender};
use frame_support::sp_runtime::traits;
use vstd::prelude::*;

verus! {

/// The identifier that hashing a seed, the requesting account and the value of
/// the generation counter yields.
pub uninterp spec fn dna_of(seed: Seq<u8>, sender: AccountId, nonce: u64) -> Dna;

/// The longest seed that can be hashed: the encoding writes the length of the
/// seed as a number of thirty-two bits.
pub const MAX_SEED_LEN: usize = 0xffff_ffff;

/// `BlakeTwo256::hash_of` of sp-runtime (through frame-support), applied to the
/// tuple of the seed, a reference to the sender and the nonce. It SCALE-encodes
/// the tuple and hashes the bytes with Blake2b-256; the thirty-two bytes of the
/// digest are the result. The encoder panics on a slice of more than
/// `u32::MAX` items, so such a seed is left out. Trusted: the digest depends
/// on the three arguments alone, which is all that naming it by `dna_of`
/// claims.
#[verifier::external_body]
fn blake2_256_of(seed: &[u8], sender: AccountId, nonce: u64) -> (dna: Dna)
    requires
        seed@.len() <= MAX_SEED_LEN,
    ensures
        dna == dna_of(seed@, sender, nonce),
{
    <traits::BlakeTwo256 as traits::Hash>::hash_of(&(seed, &sender, nonce)).to_fixed_bytes()
}

/// The classifier of an identifier: `Female` where its first byte is even,
/// `Male` where it is odd.
pub open spec fn gender_of(dna: Dna) -> Gender {
    if dna[0] % 2 == 0 {
        Gender::Female
    } else {
        Gender::Male
    }
}

/// Derives the classifier of `dna` from the parity of its first byte.
pub fn gen_gender(dna: &Dna) -> (gender: Gender)
    ensures
        gender == gender_of(*dna),
{
    if dna[0] % 2 == 0 {
        Gender::Female
    } else {
        Gender::Male
    }
}

/// Whether two identifiers are the same, byte for byte.
pub fn dna_eq(left: &Dna, right: &Dna) -> (same: bool)
    ensures
        same == (*left == *right),
{
    let mut i: usize = 0;
    while i < 32
        invariant
            i <= 32,
            forall|j: int| 0 <= j < i ==> left[j] == right[j],
        decreases 32 - i,
    {
        if left[i] != right[i] {
            return false;
        }
        i += 1;
    }
    assert(*left =~= *right);
    true
}

/// Where `dna` stands in `list`, if it stands there: the first place.
pub fn position_of(list: &Vec<Dna>, dna: &Dna) -> (at: Option<usize>)
    ensures
        match at {
            Some(i) => i < list.len() && list@[i as int] == *dna && forall|j: int|
                0 <= j < i ==> list@[j] != *dna,
            None => !list@.contains(*dna),
        },
{
    let mut i: usize = 0;
    while i < list.len()
        invariant
            i <= list.len(),
            forall|j: int| 0 <= j < i ==> list@[j] != *dna,
        decreases list.len() - i,
    {
        if dna_eq(&list[i], dna) {
            return Some(i);
        }
        i += 1;
    }
    None
}

/// Generates the identifier for a creation that `sender` requests while the
/// generation counter stands at `nonce`.
pub fn generate(seed: &[u8], sender: AccountId, nonce: u64) -> (dna: Dna)
    requires
        seed@.len() <= MAX_SEED_LEN,
    ensures
        dna == dna_of(seed@, sender, nonce),
{
    blake2_256_of(seed, sender, nonce)
}

} // verus!
