//! What a tick makes of an entity that produces, and what the entity
//! reports of it.

use crate::entities::resource::ResourceState;
use crate::entities::structure::Commodities;
use crate::entities::Entity;
use crate::production::exchange::CommodityState;
use crate::production::{Commodity, ProducerOwner, ProductionStage};
use vstd::prelude::*;

verus! {

/// The stage that the producer of `entity` turns out when asked: none for an
/// entity that has no producer.
pub open spec fn stage_of(entity: Entity) -> Option<ProductionStage> {
    match entity {
        Entity::Resource { props, state, producer: Some(p) } => p.commodity_produced(
            ProducerOwner::Resource { props: &props, state: &state },
        ),
        Entity::Structure { props, state, producer: Some(p) } => p.commodity_produced(
            ProducerOwner::Structure { props: &props, state: &state },
        ),
        _ => None,
    }
}

/// Each commodity of `commodities`, reported in the state `state`.
pub open spec fn reported(commodities: Seq<Commodity>, state: CommodityState) -> Seq<
    (Commodity, CommodityState),
> {
    commodities.map_values(|c: Commodity| (c, state))
}

/// What a structure reports of a stage: each input that it asks for as
/// required, each input that it used up as used, and then the commodity that
/// it produced as available.
pub open spec fn structure_updates(stage: ProductionStage) -> Seq<(Commodity, CommodityState)> {
    (reported(stage.required@, CommodityState::Required) + reported(
        stage.used@,
        CommodityState::Used,
    )).push((stage.commodity, CommodityState::Available))
}

/// What `entity` reports to the exchange in a tick on its cell: a resource
/// the commodity that it produced, a structure what `structure_updates`
/// says, and every other entity nothing.
pub open spec fn updates_of(entity: Entity) -> Seq<(Commodity, CommodityState)> {
    match (entity, stage_of(entity)) {
        (Entity::Resource { .. }, Some(stage)) => seq![(stage.commodity, CommodityState::Available)],
        (Entity::Structure { .. }, Some(stage)) => structure_updates(stage),
        _ => Seq::empty(),
    }
}

/// The stock of a resource after a tick in which its producer turned out
/// `stage`: what was produced is taken out, and then the stock is replenished
/// where the resource replenishes.
pub open spec fn stock_after(current: u32, stage: Option<ProductionStage>, replenish: Option<u32>, max: u32) -> u32 {
    let extracted = match stage {
        Some(s) => ResourceState::after_extraction(current, s.commodity.amount),
        None => current,
    };
    match replenish {
        Some(amount) => ResourceState::after_replenishment(extracted, amount, max),
        None => extracted,
    }
}

/// Whether `after` is what a tick on its cell makes of `before`.
///
/// A resource with a producer has its stock changed as `stock_after` says. A
/// structure with a producer has what it produced added to its ledger. Both
/// keep a producer, of which nothing more is said: how a producer changes
/// when asked is its own matter. Every other entity stays as it is.
pub open spec fn produced(before: Entity, after: Entity) -> bool {
    match before {
        Entity::Resource { props, state, producer: Some(_) } => {
            &&& after matches Entity::Resource { props: p, state: s, producer: Some(_) }
            &&& p == props
            &&& s.current_amount == stock_after(
                state.current_amount,
                stage_of(before),
                props.replenish_amount,
                props.max_amount,
            )
        },
        Entity::Structure { props, state, producer: Some(_) } => {
            &&& after matches Entity::Structure { props: p, state: s, producer: Some(_) }
            &&& p == props
            &&& s.current_employees == state.current_employees
            &&& s.risk == state.risk
            &&& s.commodities.data@ == (match stage_of(before) {
                Some(stage) => Commodities::credited(state.commodities.data@, stage.commodity),
                None => state.commodities.data@,
            })
        },
        _ => after == before,
    }
}

/// A copy of `commodity`.
fn copy_of(commodity: &Commodity) -> (copy: Commodity)
    ensures
        copy == *commodity,
{
    Commodity { name: commodity.name.clone(), amount: commodity.amount }
}

/// Appends each commodity of `commodities`, reported in the state `state`.
fn report_all(
    updates: &mut Vec<(Commodity, CommodityState)>,
    commodities: &Vec<Commodity>,
    state: CommodityState,
)
    ensures
        final(updates)@ == old(updates)@ + reported(commodities@, state),
{
    let ghost before = updates@;
    let mut i: usize = 0;
    assert(updates@ =~= before + reported(commodities@.take(0), state));
    while i < commodities.len()
        invariant
            i <= commodities.len(),
            updates@ == before + reported(commodities@.take(i as int), state),
        decreases commodities.len() - i,
    {
        updates.push((copy_of(&commodities[i]), state));
        assert(updates@ =~= before + reported(commodities@.take(i + 1), state));
        i = i + 1;
    }
    assert(commodities@.take(i as int) =~= commodities@);
}

/// What a structure reports of a stage.
pub fn stage_updates(stage: ProductionStage) -> (updates: Vec<(Commodity, CommodityState)>)
    ensures
        updates@ == structure_updates(stage),
{
    let mut updates: Vec<(Commodity, CommodityState)> = Vec::new();
    report_all(&mut updates, &stage.required, CommodityState::Required);
    report_all(&mut updates, &stage.used, CommodityState::Used);
    assert(updates@ =~= reported(stage.required@, CommodityState::Required) + reported(
        stage.used@,
        CommodityState::Used,
    ));
    updates.push((stage.commodity, CommodityState::Available));
    updates
}

/// Lets the entity produce, as in a tick on its cell, and returns what it
/// reports to the exchange.
///
/// A resource with a producer is asked for a commodity: what it turns out is
/// taken from the stock, which then replenishes. A structure with a producer
/// is asked for a commodity, which goes to its ledger, and then for a
/// walker, which is not placed anywhere.
pub fn produce(entity: &mut Entity) -> (updates: Vec<(Commodity, CommodityState)>)
    ensures
        produced(*old(entity), *final(entity)),
        updates@ == updates_of(*old(entity)),
{
    match entity {
        Entity::Resource { props, state, producer } => {
            match producer {
                Some(p) => {
                    let stage = p.produce_commodity(
                        &ProducerOwner::Resource { props: &*props, state: &*state },
                    );
                    let mut updates: Vec<(Commodity, CommodityState)> = Vec::new();
                    match stage {
                        Some(s) => {
                            state.extract(s.commodity.amount);
                            updates.push((s.commodity, CommodityState::Available));
                        },
                        None => {},
                    }
                    match props.replenish_amount {
                        Some(amount) => {
                            state.replenish(amount, props.max_amount);
                        },
                        None => {},
                    }
                    updates
                },
                None => Vec::new(),
            }
        },
        Entity::Structure { props, state, producer } => {
            match producer {
                Some(p) => {
                    let stage = p.produce_commodity(
                        &ProducerOwner::Structure { props: &*props, state: &*state },
                    );
                    let _walker = p.produce_walker(
                        &ProducerOwner::Structure { props: &*props, state: &*state },
                    );
                    match stage {
                        Some(s) => {
                            state.commodities.credit(&s.commodity);
                            stage_updates(s)
                        },
                        None => Vec::new(),
                    }
                },
                None => Vec::new(),
            }
        },
        _ => Vec::new(),
    }
}

} // verus!
