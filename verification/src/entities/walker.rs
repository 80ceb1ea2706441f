//! Walkers.

use crate::production::Commodity;
use vstd::prelude::*;

verus! {

/// What a walker carries.
#[derive(PartialEq, Clone, Debug)]
pub struct WalkerCommodities {
    pub data: Vec<Commodity>,
}

#[derive(PartialEq, Clone, Debug)]
pub struct WalkerProperties {
    pub name: String,
    pub patrol: Option<u16>,
    pub max_life: Option<u16>,
}

#[derive(PartialEq, Clone, Debug)]
pub struct WalkerState {
    pub current_life: Option<u16>,
    pub commodities: WalkerCommodities,
}

impl WalkerCommodities {
    /// A walker that carries nothing.
    pub fn default() -> (carried: WalkerCommodities)
        ensures
            carried.data@.len() == 0,
    {
        WalkerCommodities { data: Vec::new() }
    }
}

} // verus!
