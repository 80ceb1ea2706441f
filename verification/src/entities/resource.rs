//! Resources and their stock.

use vstd::prelude::*;

verus! {

#[derive(PartialEq, Clone, Debug)]
pub struct ResourceProperties {
    pub name: String,
    pub max_amount: u32,
    pub replenish_amount: Option<u32>,
}

#[derive(PartialEq, Clone, Debug)]
pub struct ResourceState {
    pub current_amount: u32,
}

impl ResourceState {
    /// What is left of `current` once `taken` has been extracted: nothing
    /// below zero.
    pub open spec fn after_extraction(current: u32, taken: u32) -> u32 {
        if current >= taken {
            (current - taken) as u32
        } else {
            0
        }
    }

    /// The stock after one replenishment: it grows by `amount` while that
    /// stays under `max`, and is set to `max` otherwise.
    pub open spec fn after_replenishment(current: u32, amount: u32, max: u32) -> u32 {
        if current + amount < max {
            (current + amount) as u32
        } else {
            max
        }
    }

    /// Takes `taken` units out of the stock, stopping at zero.
    pub fn extract(&mut self, taken: u32)
        ensures
            final(self).current_amount == Self::after_extraction(old(self).current_amount, taken),
    {
        if self.current_amount >= taken {
            self.current_amount = self.current_amount - taken;
        } else {
            self.current_amount = 0;
        }
    }

    /// Adds `amount` units to the stock, never going past `max`.
    pub fn replenish(&mut self, amount: u32, max: u32)
        ensures
            final(self).current_amount == Self::after_replenishment(
                old(self).current_amount,
                amount,
                max,
            ),
    {
        let sum: u64 = self.current_amount as u64 + amount as u64;
        if sum < max as u64 {
            self.current_amount = self.current_amount + amount;
        } else {
            self.current_amount = max;
        }
    }
}

} // verus!
