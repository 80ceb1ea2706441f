//! Commodities, production stages and producers.

use crate::entities::resource::{ResourceProperties, ResourceState};
use crate::entities::structure::{StructureProperties, StructureState};
use crate::entities::walker::WalkerProperties;
use vstd::prelude::*;

pub mod exchange;
pub mod holdings;
pub mod registrations;
pub mod staging;
pub mod totals;

verus! {

/// An amount of a named good.
#[derive(PartialEq, Clone, Debug)]
pub struct Commodity {
    pub name: String,
    pub amount: u32,
}

/// One production event: the commodity that was produced, the commodities
/// that the producer asks for, and those that it used up.
#[derive(PartialEq, Clone, Debug)]
pub struct ProductionStage {
    pub commodity: Commodity,
    pub required: Vec<Commodity>,
    pub used: Vec<Commodity>,
}

/// What a producer is shown of the entity that owns it.
#[allow(inconsistent_fields)]
pub enum ProducerOwner<'a> {
    Resource { props: &'a ResourceProperties, state: &'a ResourceState },
    Structure { props: &'a StructureProperties, state: &'a StructureState },
}

/// The capability to turn out commodities and walkers. The simulation calls
/// it once for each tick in which the cursor stands on the owner's cell; what
/// is produced is up to the implementation.
///
/// What the simulation proves of producers, it proves of implementations
/// whose `produce_commodity` and `produce_walker` return what
/// `commodity_produced` and `walker_produced` say. Nothing holds an
/// implementation to that but its own proof, and nothing is said of how a
/// producer changes when it is asked. An implementation in code that is not
/// verified gives the two models bodies that are never run.
pub trait Producer {
    /// What `produce_commodity` returns for this producer and owner.
    spec fn commodity_produced(&self, owner: ProducerOwner<'_>) -> Option<ProductionStage>;

    /// What `produce_walker` returns for this producer and owner.
    spec fn walker_produced(&self, owner: ProducerOwner<'_>) -> Option<WalkerProperties>;

    /// The stage that the producer has reached for `owner`, if any.
    fn produce_commodity(&mut self, owner: &ProducerOwner<'_>) -> (stage: Option<ProductionStage>)
        ensures
            stage == old(self).commodity_produced(*owner),
    ;

    /// The walker that the producer sends out for `owner`, if any.
    fn produce_walker(&mut self, owner: &ProducerOwner<'_>) -> (walker: Option<WalkerProperties>)
        ensures
            walker == old(self).walker_produced(*owner),
    ;
}

} // verus!
