//! The commodity exchange.

use crate::entities::Entity;
use crate::production::holdings::{
    capped, collect_live, holdings_keyed, lemma_pruned_holdings_keyed, lemma_with_holding_keyed,
    live_amount, live_holders, pruned_holdings, set_holding, sum_live, with_holding, Holding,
};
use crate::production::registrations::{
    collect_registered, is_registered, lemma_pruned_registrations_keyed,
    lemma_registration_added_keyed, live_registered, pruned_registrations, register,
    registration_added, registrations_keyed, Registration,
};
use crate::production::totals::{
    find_total, lemma_with_total_keyed, raise_total, total_of, totals_keyed, with_total, Total,
};
use crate::production::Commodity;
use vstd::prelude::*;

verus! {

/// What an entity reports of a commodity.
#[derive(PartialEq, Eq, Structural, Clone, Copy, Debug)]
pub enum CommodityState {
    /// The entity needs this amount.
    Required,
    /// The entity has this amount to give.
    Available,
    /// The entity carries this amount.
    InTransit,
    /// This amount was used up.
    Used,
    /// This amount was lost.
    Lost,
}

/// Why the exchange refused an operation.
#[derive(PartialEq, Eq, Structural, Clone, Copy, Debug)]
pub enum ExchangeError {
    /// Entities of this kind do not take part in the operation.
    UnexpectedEntity,
    /// The entity is registered as a producer of the commodity already.
    ProducerExists,
    /// The entity is registered as a consumer of the commodity already.
    ConsumerExists,
}

/// The ledger of who needs, has and carries each commodity, who produces and
/// consumes it, and how much of it was used and lost.
///
/// The exchange refers to an entity by its identity and owns none. Whether an
/// entity still exists is for the caller to say: each operation that depends
/// on it takes the identities of the live entities. An entry of an entity
/// that is not among them is never counted, and is dropped when its commodity
/// is next written to.
pub struct CommodityExchange {
    required: Vec<Holding>,
    available: Vec<Holding>,
    in_transit: Vec<Holding>,
    producers: Vec<Registration>,
    consumers: Vec<Registration>,
    used: Vec<Total>,
    lost: Vec<Total>,
}

/// Whether entities of this kind can report a commodity: structures, walkers
/// and resources.
pub open spec fn can_report(entity: Entity) -> bool {
    entity is Structure || entity is Walker || entity is Resource
}

/// Whether entities of this kind can produce: structures and resources.
pub open spec fn can_produce(entity: Entity) -> bool {
    entity is Structure || entity is Resource
}

/// Whether entities of this kind can consume: structures.
pub open spec fn can_consume(entity: Entity) -> bool {
    entity is Structure
}

/// What an exchange records.
pub struct ExchangeView {
    /// What is required, in the order in which it was first reported.
    pub required: Seq<Holding>,
    /// What is available.
    pub available: Seq<Holding>,
    /// What is in transit.
    pub in_transit: Seq<Holding>,
    /// The producers, in the order of registration.
    pub producers: Seq<Registration>,
    /// The consumers.
    pub consumers: Seq<Registration>,
    /// The totals of what was used.
    pub used: Seq<Total>,
    /// The totals of what was lost.
    pub lost: Seq<Total>,
}

/// What an exchange records when nothing was reported to it.
pub open spec fn empty_view() -> ExchangeView {
    ExchangeView {
        required: Seq::empty(),
        available: Seq::empty(),
        in_transit: Seq::empty(),
        producers: Seq::empty(),
        consumers: Seq::empty(),
        used: Seq::empty(),
        lost: Seq::empty(),
    }
}

impl ExchangeView {
    /// Whether the records are those of maps: no holding, registration or
    /// total has the key of another of its kind. A new exchange is so, and
    /// every operation keeps it so.
    pub open spec fn keyed(self) -> bool {
        &&& holdings_keyed(self.required)
        &&& holdings_keyed(self.available)
        &&& holdings_keyed(self.in_transit)
        &&& registrations_keyed(self.producers)
        &&& registrations_keyed(self.consumers)
        &&& totals_keyed(self.used)
        &&& totals_keyed(self.lost)
    }
}

/// What `update_state` makes of `before` when the entity `id`, which can
/// report, reports `commodity` in the state `state` while the entities
/// `live` exist.
pub open spec fn updated(
    before: ExchangeView,
    id: u128,
    commodity: Commodity,
    state: CommodityState,
    live: Seq<u128>,
) -> ExchangeView {
    match state {
        CommodityState::Required => ExchangeView {
            required: with_holding(
                pruned_holdings(before.required, commodity.name@, id, live),
                commodity,
                id,
            ),
            ..before
        },
        CommodityState::Available => ExchangeView {
            available: with_holding(
                pruned_holdings(before.available, commodity.name@, id, live),
                commodity,
                id,
            ),
            ..before
        },
        CommodityState::InTransit => ExchangeView {
            in_transit: with_holding(
                pruned_holdings(before.in_transit, commodity.name@, id, live),
                commodity,
                id,
            ),
            ..before
        },
        CommodityState::Used => ExchangeView { used: with_total(before.used, commodity), ..before },
        CommodityState::Lost => ExchangeView { lost: with_total(before.lost, commodity), ..before },
    }
}

/// What a run of `update_state` over `updates`, in order, makes of `before`
/// when all of them are reported by the entity `id`, which can report.
pub open spec fn after_updates(
    before: ExchangeView,
    id: u128,
    updates: Seq<(Commodity, CommodityState)>,
    live: Seq<u128>,
) -> ExchangeView
    decreases updates.len(),
{
    if updates.len() == 0 {
        before
    } else {
        updated(
            after_updates(before, id, updates.drop_last(), live),
            id,
            updates.last().0,
            updates.last().1,
            live,
        )
    }
}

/// The records of an exchange stay keyed when a report is recorded.
pub proof fn lemma_updated_keyed(
    before: ExchangeView,
    id: u128,
    commodity: Commodity,
    state: CommodityState,
    live: Seq<u128>,
)
    requires
        before.keyed(),
    ensures
        updated(before, id, commodity, state, live).keyed(),
{
    match state {
        CommodityState::Required => {
            lemma_pruned_holdings_keyed(before.required, commodity.name@, id, live);
            lemma_with_holding_keyed(
                pruned_holdings(before.required, commodity.name@, id, live),
                commodity,
                id,
            );
        },
        CommodityState::Available => {
            lemma_pruned_holdings_keyed(before.available, commodity.name@, id, live);
            lemma_with_holding_keyed(
                pruned_holdings(before.available, commodity.name@, id, live),
                commodity,
                id,
            );
        },
        CommodityState::InTransit => {
            lemma_pruned_holdings_keyed(before.in_transit, commodity.name@, id, live);
            lemma_with_holding_keyed(
                pruned_holdings(before.in_transit, commodity.name@, id, live),
                commodity,
                id,
            );
        },
        CommodityState::Used => {
            lemma_with_total_keyed(before.used, commodity);
        },
        CommodityState::Lost => {
            lemma_with_total_keyed(before.lost, commodity);
        },
    }
}

/// The records of an exchange stay keyed through a run of reports.
pub proof fn lemma_after_updates_keyed(
    before: ExchangeView,
    id: u128,
    updates: Seq<(Commodity, CommodityState)>,
    live: Seq<u128>,
)
    requires
        before.keyed(),
    ensures
        after_updates(before, id, updates, live).keyed(),
    decreases updates.len(),
{
    if updates.len() > 0 {
        lemma_after_updates_keyed(before, id, updates.drop_last(), live);
        lemma_updated_keyed(
            after_updates(before, id, updates.drop_last(), live),
            id,
            updates.last().0,
            updates.last().1,
            live,
        );
    }
}

impl View for CommodityExchange {
    type V = ExchangeView;

    closed spec fn view(&self) -> ExchangeView {
        ExchangeView {
            required: self.required@,
            available: self.available@,
            in_transit: self.in_transit@,
            producers: self.producers@,
            consumers: self.consumers@,
            used: self.used@,
            lost: self.lost@,
        }
    }
}

impl CommodityExchange {
    /// An exchange in which nothing is recorded.
    pub fn new() -> (exchange: CommodityExchange)
        ensures
            exchange@ == empty_view(),
            exchange@.keyed(),
    {
        CommodityExchange {
            required: Vec::new(),
            available: Vec::new(),
            in_transit: Vec::new(),
            producers: Vec::new(),
            consumers: Vec::new(),
            used: Vec::new(),
            lost: Vec::new(),
        }
    }

    /// Registers the entity `entity_id` as a producer of `commodity`, and
    /// drops the producers of that commodity that are not among `live`.
    ///
    /// Only structures and resources produce: any other entity is refused
    /// with `UnexpectedEntity` and nothing changes. An entity that is
    /// registered for the commodity and live is refused with `ProducerExists`.
    pub fn add_producer(
        &mut self,
        producer: &Entity,
        entity_id: u128,
        commodity: &str,
        live: &Vec<u128>,
    ) -> (result: Result<(), ExchangeError>)
        ensures
            final(self)@ == (ExchangeView { producers: final(self)@.producers, ..old(self)@ }),
            !can_produce(*producer) ==> result == Err::<(), ExchangeError>(
                ExchangeError::UnexpectedEntity,
            ) && final(self)@ == old(self)@,
            can_produce(*producer) ==> {
                let kept = pruned_registrations(old(self)@.producers, commodity@, live@);
                if is_registered(kept, commodity@, entity_id) {
                    &&& result == Err::<(), ExchangeError>(ExchangeError::ProducerExists)
                    &&& final(self)@.producers == kept
                } else {
                    &&& result == Ok::<(), ExchangeError>(())
                    &&& registration_added(kept, final(self)@.producers, commodity@, entity_id)
                }
            },
            old(self)@.keyed() ==> final(self)@.keyed(),
    {
        proof {
            if self@.keyed() {
                let kept = pruned_registrations(self@.producers, commodity@, live@);
                lemma_pruned_registrations_keyed(self@.producers, commodity@, live@);
                assert forall|after: Seq<Registration>|
                    registration_added(kept, after, commodity@, entity_id) && !is_registered(
                        kept,
                        commodity@,
                        entity_id,
                    ) implies registrations_keyed(after) by {
                    lemma_registration_added_keyed(kept, after, commodity@, entity_id);
                }
            }
        }
        match producer {
            Entity::Structure { .. } | Entity::Resource { .. } => {
                if register(&mut self.producers, commodity, entity_id, live) {
                    Ok(())
                } else {
                    Err(ExchangeError::ProducerExists)
                }
            },
            _ => Err(ExchangeError::UnexpectedEntity),
        }
    }

    /// Registers the entity `entity_id` as a consumer of `commodity`, and
    /// drops the consumers of that commodity that are not among `live`.
    ///
    /// Only structures consume: any other entity is refused with
    /// `UnexpectedEntity` and nothing changes. An entity that is registered
    /// for the commodity and live is refused with `ConsumerExists`.
    pub fn add_consumer(
        &mut self,
        consumer: &Entity,
        entity_id: u128,
        commodity: &str,
        live: &Vec<u128>,
    ) -> (result: Result<(), ExchangeError>)
        ensures
            final(self)@ == (ExchangeView { consumers: final(self)@.consumers, ..old(self)@ }),
            !can_consume(*consumer) ==> result == Err::<(), ExchangeError>(
                ExchangeError::UnexpectedEntity,
            ) && final(self)@ == old(self)@,
            can_consume(*consumer) ==> {
                let kept = pruned_registrations(old(self)@.consumers, commodity@, live@);
                if is_registered(kept, commodity@, entity_id) {
                    &&& result == Err::<(), ExchangeError>(ExchangeError::ConsumerExists)
                    &&& final(self)@.consumers == kept
                } else {
                    &&& result == Ok::<(), ExchangeError>(())
                    &&& registration_added(kept, final(self)@.consumers, commodity@, entity_id)
                }
            },
            old(self)@.keyed() ==> final(self)@.keyed(),
    {
        proof {
            if self@.keyed() {
                let kept = pruned_registrations(self@.consumers, commodity@, live@);
                lemma_pruned_registrations_keyed(self@.consumers, commodity@, live@);
                assert forall|after: Seq<Registration>|
                    registration_added(kept, after, commodity@, entity_id) && !is_registered(
                        kept,
                        commodity@,
                        entity_id,
                    ) implies registrations_keyed(after) by {
                    lemma_registration_added_keyed(kept, after, commodity@, entity_id);
                }
            }
        }
        match consumer {
            Entity::Structure { .. } => {
                if register(&mut self.consumers, commodity, entity_id, live) {
                    Ok(())
                } else {
                    Err(ExchangeError::ConsumerExists)
                }
            },
            _ => Err(ExchangeError::UnexpectedEntity),
        }
    }

    /// Records what the entity `entity_id` reports of `commodity`.
    ///
    /// `Required`, `Available` and `InTransit` set the entity's amount of the
    /// commodity in that state, and drop the amounts of that commodity and
    /// state whose entity is neither this one nor among `live`. `Used` and
    /// `Lost` add the amount to the running total of the commodity, held at
    /// the largest `usize`. Only structures, walkers and resources report: any
    /// other entity is refused with `UnexpectedEntity` and nothing changes.
    pub fn update_state(
        &mut self,
        entity: &Entity,
        entity_id: u128,
        commodity: &Commodity,
        state: CommodityState,
        live: &Vec<u128>,
    ) -> (result: Result<(), ExchangeError>)
        ensures
            result == (if can_report(*entity) {
                Ok::<(), ExchangeError>(())
            } else {
                Err::<(), ExchangeError>(ExchangeError::UnexpectedEntity)
            }),
            !can_report(*entity) ==> final(self)@ == old(self)@,
            can_report(*entity) ==> final(self)@ == updated(
                old(self)@,
                entity_id,
                *commodity,
                state,
                live@,
            ),
            old(self)@.keyed() ==> final(self)@.keyed(),
    {
        proof {
            if self@.keyed() {
                lemma_updated_keyed(self@, entity_id, *commodity, state, live@);
            }
        }
        match entity {
            Entity::Structure { .. } | Entity::Walker { .. } | Entity::Resource { .. } => {
                match state {
                    CommodityState::Required => {
                        set_holding(&mut self.required, commodity, entity_id, live);
                    },
                    CommodityState::Available => {
                        set_holding(&mut self.available, commodity, entity_id, live);
                    },
                    CommodityState::InTransit => {
                        set_holding(&mut self.in_transit, commodity, entity_id, live);
                    },
                    CommodityState::Used => {
                        raise_total(&mut self.used, commodity);
                    },
                    CommodityState::Lost => {
                        raise_total(&mut self.lost, commodity);
                    },
                }
                Ok(())
            },
            _ => Err(ExchangeError::UnexpectedEntity),
        }
    }

    /// The live entities that need `commodity`: those with a required amount
    /// above zero, in the order in which they first reported.
    pub fn entities_that_need(&self, commodity: &str, live: &Vec<u128>) -> (found: Vec<u128>)
        ensures
            found@ == live_holders(self@.required, commodity@, live@),
    {
        collect_live(&self.required, commodity, live)
    }

    /// The live entities that have `commodity`.
    pub fn entities_that_have(&self, commodity: &str, live: &Vec<u128>) -> (found: Vec<u128>)
        ensures
            found@ == live_holders(self@.available, commodity@, live@),
    {
        collect_live(&self.available, commodity, live)
    }

    /// The live entities that carry `commodity`.
    pub fn entities_transporting(&self, commodity: &str, live: &Vec<u128>) -> (found: Vec<u128>)
        ensures
            found@ == live_holders(self@.in_transit, commodity@, live@),
    {
        collect_live(&self.in_transit, commodity, live)
    }

    /// The live producers of `commodity`, in the order of registration.
    pub fn producers_of(&self, commodity: &str, live: &Vec<u128>) -> (found: Vec<u128>)
        ensures
            found@ == live_registered(self@.producers, commodity@, live@),
    {
        collect_registered(&self.producers, commodity, live)
    }

    /// The live consumers of `commodity`, in the order of registration.
    pub fn consumers_of(&self, commodity: &str, live: &Vec<u128>) -> (found: Vec<u128>)
        ensures
            found@ == live_registered(self@.consumers, commodity@, live@),
    {
        collect_registered(&self.consumers, commodity, live)
    }

    /// How much of `commodity` the live entities need, held at the largest
    /// `usize`.
    pub fn amount_required_of(&self, commodity: &str, live: &Vec<u128>) -> (amount: usize)
        ensures
            amount == capped(live_amount(self@.required, commodity@, live@)),
    {
        sum_live(&self.required, commodity, live)
    }

    /// How much of `commodity` the live entities have, held at the largest
    /// `usize`.
    pub fn amount_available_of(&self, commodity: &str, live: &Vec<u128>) -> (amount: usize)
        ensures
            amount == capped(live_amount(self@.available, commodity@, live@)),
    {
        sum_live(&self.available, commodity, live)
    }

    /// How much of `commodity` the live entities carry, held at the largest
    /// `usize`.
    pub fn amount_in_transit_of(&self, commodity: &str, live: &Vec<u128>) -> (amount: usize)
        ensures
            amount == capped(live_amount(self@.in_transit, commodity@, live@)),
    {
        sum_live(&self.in_transit, commodity, live)
    }

    /// How much of `commodity` was used so far.
    pub fn amount_used_of(&self, commodity: &str) -> (amount: usize)
        ensures
            amount == total_of(self@.used, commodity@),
    {
        let key: String = commodity.to_owned();
        let i: usize = find_total(&self.used, &key);
        if i < self.used.len() {
            self.used[i].amount
        } else {
            0
        }
    }

    /// How much of `commodity` was lost so far.
    pub fn amount_lost_of(&self, commodity: &str) -> (amount: usize)
        ensures
            amount == total_of(self@.lost, commodity@),
    {
        let key: String = commodity.to_owned();
        let i: usize = find_total(&self.lost, &key);
        if i < self.lost.len() {
            self.lost[i].amount
        } else {
            0
        }
    }

    /// Records each of `updates`, in order, as reported by the entity
    /// `entity_id`, and returns the failures. An update that fails does not
    /// keep the ones after it from being recorded.
    ///
    /// Structures, walkers and resources report, so for them nothing fails.
    /// For any other entity every update fails with `UnexpectedEntity` and
    /// nothing changes.
    pub fn update_states(
        &mut self,
        entity: &Entity,
        entity_id: u128,
        updates: &Vec<(Commodity, CommodityState)>,
        live: &Vec<u128>,
    ) -> (failures: Vec<ExchangeError>)
        ensures
            can_report(*entity) ==> failures@.len() == 0 && final(self)@ == after_updates(
                old(self)@,
                entity_id,
                updates@,
                live@,
            ),
            !can_report(*entity) ==> final(self)@ == old(self)@ && failures@.len()
                == updates@.len() && forall|k: int|
                0 <= k < failures@.len() ==> failures@[k] == ExchangeError::UnexpectedEntity,
            old(self)@.keyed() ==> final(self)@.keyed(),
    {
        proof {
            if self@.keyed() {
                lemma_after_updates_keyed(self@, entity_id, updates@, live@);
            }
        }
        let mut failures: Vec<ExchangeError> = Vec::new();
        let mut k: usize = 0;
        assert(updates@.take(0) =~= Seq::<(Commodity, CommodityState)>::empty());
        while k < updates.len()
            invariant
                k <= updates.len(),
                can_report(*entity) ==> failures@.len() == 0 && self@ == after_updates(
                    old(self)@,
                    entity_id,
                    updates@.take(k as int),
                    live@,
                ),
                !can_report(*entity) ==> self@ == old(self)@ && failures@.len() == k && forall|
                    j: int,
                | 0 <= j < failures@.len() ==> failures@[j] == ExchangeError::UnexpectedEntity,
            decreases updates.len() - k,
        {
            assert(updates@.take(k + 1).drop_last() =~= updates@.take(k as int));
            assert(updates@.take(k + 1).last() == updates@[k as int]);
            match self.update_state(entity, entity_id, &updates[k].0, updates[k].1, live) {
                Ok(()) => {},
                Err(e) => {
                    failures.push(e);
                },
            }
            k = k + 1;
        }
        assert(updates@.take(k as int) =~= updates@);
        failures
    }
}

} // verus!
