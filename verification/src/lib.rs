//! A registry of kitties: uniquely identified records, each held by one
//! account, with a quota on how many an account may create and an atomic
//! transfer of ownership between accounts.

pub mod dna;
pub mod index;
pub mod laws;
pub mod limit;
pub mod pallet;
pub mod registry;
pub mod snapshot;
pub mod types;
