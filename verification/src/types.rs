//! The plain data of the registry: identifiers, records, events and errors.

use vstd::prelude::*;

verus! {

/// An account of the hosting ledger.
pub type AccountId = u64;

/// An amount of the hosting ledger's currency.
pub type Balance = u128;

/// A point in time, as the hosting ledger's clock counts it.
pub type Moment = u64;

/// The identifier of a kitty: thirty-two opaque bytes.
pub type Dna = [u8; 32];

/// The two-valued classifier of a kitty.
#[derive(Clone, Copy, Debug, PartialEq, Eq, Structural)]
pub enum Gender {
    Male,
    Female,
}

impl Default for Gender {
    fn default() -> (gender: Gender)
        ensures
            gender == Gender::Male,
    {
        Gender::Male
    }
}

/// One record of the registry. Only `account` ever changes after the record
/// was stored, and only by a transfer.
#[derive(Clone, Copy, Debug, PartialEq, Eq)]
pub struct Kitty {
    /// The identifier under which the record is filed.
    pub dna: Dna,
    /// The price that its creator named.
    pub price: Balance,
    /// The classifier that `dna` determines.
    pub gender: Gender,
    /// The account that holds the kitty.
    pub account: AccountId,
    /// The moment of its creation.
    pub created_date: Moment,
}

/// What a successful operation reports to the event sink.
#[derive(Clone, Copy, Debug, PartialEq, Eq)]
pub enum Event {
    /// A kitty was created: its identifier and its price.
    KittyStored(Dna, Balance),
    /// A kitty changed hands: its identifier and the account that now holds it.
    TransferKittySuccess(Dna, AccountId),
    /// The quota was changed.
    SetLimitKittySuccess,
}

/// Why an operation was rejected. A rejected operation changes nothing.
#[derive(Clone, Copy, Debug, PartialEq, Eq, Structural)]
pub enum Error {
    /// One of the registry's counters has reached the end of its range.
    StorageOverflow,
    /// No kitty is filed under the identifier.
    KittyNotFound,
    /// The requester does not hold the kitty.
    NotOwner,
    /// The creation would take the requester over the quota.
    OverKittyLimit,
    /// A kitty is already filed under the generated identifier.
    DuplicateDna,
}

} // verus!
