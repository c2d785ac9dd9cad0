//! The quota policy: how many kitties one account may hold when it creates
//! another.

use vstd::prelude::*;

verus! {

/// The quota that applies while none was set.
pub const DEFAULT_KITTY_LIMIT: u32 = 1000;

/// The quota that a setting stands for: the value that was set, or the default.
pub open spec fn limit_of(setting: Option<u32>) -> u32 {
    match setting {
        Some(value) => value,
        None => DEFAULT_KITTY_LIMIT,
    }
}

/// The quota policy. Any value may be set, zero included; lowering the quota
/// takes nothing away from an account that already holds more.
#[derive(Clone, Copy, Debug, PartialEq, Eq)]
pub struct KittyLimit {
    value: Option<u32>,
}

impl View for KittyLimit {
    type V = Option<u32>;

    closed spec fn view(&self) -> Option<u32> {
        self.value
    }
}

impl KittyLimit {
    /// A policy with no quota set.
    pub fn new() -> (limit: KittyLimit)
        ensures
            limit@ is None,
    {
        KittyLimit { value: None }
    }

    /// A policy with the given setting: the quota that was set, if one was.
    pub fn restore(setting: Option<u32>) -> (limit: KittyLimit)
        ensures
            limit@ == setting,
    {
        KittyLimit { value: setting }
    }

    /// The setting: the quota that was set, if one was.
    pub fn setting(&self) -> (setting: Option<u32>)
        ensures
            setting == self@,
    {
        self.value
    }

    /// The quota in force.
    pub fn get(&self) -> (quota: u32)
        ensures
            quota == limit_of(self@),
    {
        match self.value {
            Some(value) => value,
            None => DEFAULT_KITTY_LIMIT,
        }
    }

    /// Replaces the quota.
    pub fn set(&mut self, value: u32)
        ensures
            final(self)@ == Some(value),
    {
        self.value = Some(value);
    }
}

} // verus!
