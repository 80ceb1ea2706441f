//! Production on the cell of the cursor.

use crate::map::GridEntity;
use crate::production::exchange::{
    after_updates, lemma_after_updates_keyed, CommodityExchange, ExchangeError, ExchangeView,
};
use crate::production::staging::{produce, produced, updates_of};
use vstd::prelude::*;

verus! {

/// Whether `after` are the entities `before` after a tick on the cell `at`:
/// each entity that stands on the cell has produced, and every other entity
/// is as it was. No entity changes its identity or its place.
pub open spec fn after_production(
    before: Seq<GridEntity>,
    after: Seq<GridEntity>,
    at: (usize, usize),
) -> bool {
    &&& after.len() == before.len()
    &&& forall|i: int|
        0 <= i < before.len() ==> {
            &&& (#[trigger] after[i]).id == before[i].id
            &&& after[i].parent == before[i].parent
            &&& after[i].size == before[i].size
            &&& if before[i].covers(at) {
                produced(before[i].entity, after[i].entity)
            } else {
                after[i].entity == before[i].entity
            }
        }
}

/// What the exchange records after a tick on the cell `at`: each entity of
/// `placed` that stands on the cell has reported what it produced, in the
/// order of `placed`.
pub open spec fn after_tick(
    before: ExchangeView,
    placed: Seq<GridEntity>,
    at: (usize, usize),
    live: Seq<u128>,
) -> ExchangeView
    decreases placed.len(),
{
    if placed.len() == 0 {
        before
    } else {
        let rest = after_tick(before, placed.drop_last(), at, live);
        let e = placed.last();
        if e.covers(at) {
            after_updates(rest, e.id, updates_of(e.entity), live)
        } else {
            rest
        }
    }
}

/// The records of an exchange stay keyed through a tick.
pub proof fn lemma_after_tick_keyed(
    before: ExchangeView,
    placed: Seq<GridEntity>,
    at: (usize, usize),
    live: Seq<u128>,
)
    requires
        before.keyed(),
    ensures
        after_tick(before, placed, at, live).keyed(),
    decreases placed.len(),
{
    if placed.len() > 0 {
        lemma_after_tick_keyed(before, placed.drop_last(), at, live);
        let e = placed.last();
        if e.covers(at) {
            lemma_after_updates_keyed(
                after_tick(before, placed.drop_last(), at, live),
                e.id,
                updates_of(e.entity),
                live,
            );
        }
    }
}

/// Lets each of `entities` that stands on the cell `at` produce, in order,
/// and reports what it produced to the exchange, for which the entities
/// `live` exist. Returns the reports that the exchange refused: there are
/// none, since only resources and structures produce.
pub(crate) fn produce_all(
    entities: &mut Vec<GridEntity>,
    at: (usize, usize),
    exchange: &mut CommodityExchange,
    live: &Vec<u128>,
) -> (failures: Vec<ExchangeError>)
    ensures
        after_production(old(entities)@, final(entities)@, at),
        final(exchange)@ == after_tick(old(exchange)@, old(entities)@, at, live@),
        old(exchange)@.keyed() ==> final(exchange)@.keyed(),
        failures@.len() == 0,
{
    proof {
        if exchange@.keyed() {
            lemma_after_tick_keyed(exchange@, entities@, at, live@);
        }
    }
    let mut failures: Vec<ExchangeError> = Vec::new();
    let ghost before = entities@;
    let mut i: usize = 0;
    assert(before.take(0) =~= Seq::<GridEntity>::empty());
    while i < entities.len()
        invariant
            i <= entities.len(),
            before == old(entities)@,
            entities@.len() == before.len(),
            failures@.len() == 0,
            after_production(before.take(i as int), entities@.take(i as int), at),
            forall|j: int| i <= j < before.len() ==> entities@[j] == before[j],
            forall|j: int|
                0 <= j < before.len() ==> (#[trigger] entities@[j]).id == before[j].id
                    && entities@[j].parent == before[j].parent && entities@[j].size
                    == before[j].size,
            exchange@ == after_tick(old(exchange)@, before.take(i as int), at, live@),
        decreases entities.len() - i,
    {
        let ghost current = entities@;
        assert(before.take(i + 1).drop_last() =~= before.take(i as int));
        assert(before.take(i + 1).last() == before[i as int]);
        if entities[i].occupies(at) {
            let updates = produce(&mut entities[i].entity);
            let id: u128 = entities[i].id;
            let mut failed = exchange.update_states(&entities[i].entity, id, &updates, live);
            failures.append(&mut failed);
        }
        proof {
            let now = entities@;
            assert(forall|j: int| 0 <= j < before.len() && j != i ==> now[j] == current[j]);
            assert forall|j: int| 0 <= j < i + 1 implies {
                &&& (#[trigger] now.take(i + 1)[j]).id == before.take(i + 1)[j].id
                &&& now.take(i + 1)[j].parent == before.take(i + 1)[j].parent
                &&& now.take(i + 1)[j].size == before.take(i + 1)[j].size
                &&& if before.take(i + 1)[j].covers(at) {
                    produced(before.take(i + 1)[j].entity, now.take(i + 1)[j].entity)
                } else {
                    now.take(i + 1)[j].entity == before.take(i + 1)[j].entity
                }
            } by {
                if j < i {
                    assert(now.take(i + 1)[j] == current.take(i as int)[j]);
                    assert(before.take(i + 1)[j] == before.take(i as int)[j]);
                }
            }
        }
        i = i + 1;
    }
    assert(before.take(i as int) =~= before);
    assert(entities@.take(i as int) =~= entities@);
    failures
}

} // verus!
