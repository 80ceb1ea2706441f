//! Registrations of producers and consumers.

use crate::production::holdings::{is_live, lemma_tail_step};
use vstd::prelude::*;

verus! {

/// An entity's registration for a commodity.
pub struct Registration {
    pub commodity: String,
    pub entity_id: u128,
}

/// The index of the first registration of `id` for `commodity`, or the
/// length of `registrations` where there is none.
pub open spec fn registration_index(
    registrations: Seq<Registration>,
    commodity: Seq<char>,
    id: u128,
) -> int
    decreases registrations.len(),
{
    if registrations.len() == 0 {
        0
    } else if registrations[0].commodity@ == commodity && registrations[0].entity_id == id {
        0
    } else {
        1 + registration_index(registrations.drop_first(), commodity, id)
    }
}

/// Whether `id` is registered for `commodity`.
pub open spec fn is_registered(registrations: Seq<Registration>, commodity: Seq<char>, id: u128) -> bool {
    registration_index(registrations, commodity, id) < registrations.len()
}

/// Whether a registration outlasts a write to `commodity`: it does if it is
/// for another commodity or if its entity is live.
pub open spec fn registration_kept(r: Registration, commodity: Seq<char>, live: Seq<u128>) -> bool {
    r.commodity@ != commodity || live.contains(r.entity_id)
}

/// The registrations without those that a write to `commodity` drops.
pub open spec fn pruned_registrations(
    registrations: Seq<Registration>,
    commodity: Seq<char>,
    live: Seq<u128>,
) -> Seq<Registration> {
    registrations.filter(|r: Registration| registration_kept(r, commodity, live))
}

/// Whether `after` is `before` with a registration of `id` for `commodity`
/// appended.
pub open spec fn registration_added(
    before: Seq<Registration>,
    after: Seq<Registration>,
    commodity: Seq<char>,
    id: u128,
) -> bool {
    &&& after.len() == before.len() + 1
    &&& after.last().commodity@ == commodity
    &&& after.last().entity_id == id
    &&& after.drop_last() == before
}

/// The live entities registered for `commodity`, in the order of the
/// registrations.
pub open spec fn live_registered(
    registrations: Seq<Registration>,
    commodity: Seq<char>,
    live: Seq<u128>,
) -> Seq<u128>
    decreases registrations.len(),
{
    if registrations.len() == 0 {
        Seq::empty()
    } else {
        let rest = live_registered(registrations.drop_last(), commodity, live);
        if registrations.last().commodity@ == commodity && live.contains(
            registrations.last().entity_id,
        ) {
            rest.push(registrations.last().entity_id)
        } else {
            rest
        }
    }
}

/// Whether each entity has at most one registration for each commodity.
pub open spec fn registrations_keyed(registrations: Seq<Registration>) -> bool {
    forall|i: int, j: int|
        0 <= i < j < registrations.len() ==> !((#[trigger] registrations[i]).commodity@ == (
        #[trigger] registrations[j]).commodity@ && registrations[i].entity_id
            == registrations[j].entity_id)
}

/// `registration_index` is a valid index or the length, points at a
/// registration of that entity and commodity, and no earlier one is.
pub proof fn lemma_registration_index(
    registrations: Seq<Registration>,
    commodity: Seq<char>,
    id: u128,
)
    ensures
        0 <= registration_index(registrations, commodity, id) <= registrations.len(),
        registration_index(registrations, commodity, id) < registrations.len() ==> {
            let r = registrations[registration_index(registrations, commodity, id)];
            r.commodity@ == commodity && r.entity_id == id
        },
        forall|i: int|
            0 <= i < registration_index(registrations, commodity, id) ==> !((
            #[trigger] registrations[i]).commodity@ == commodity && registrations[i].entity_id
                == id),
    decreases registrations.len(),
{
    if registrations.len() > 0 && !(registrations[0].commodity@ == commodity
        && registrations[0].entity_id == id) {
        let rest = registrations.drop_first();
        lemma_registration_index(rest, commodity, id);
        assert forall|i: int| 0 <= i < registration_index(registrations, commodity, id) implies !((
        #[trigger] registrations[i]).commodity@ == commodity && registrations[i].entity_id
            == id) by {
            if i > 0 {
                assert(registrations[i] == rest[i - 1]);
            }
        }
    }
}

/// Registrations of entities that are not live are not listed: where no
/// registration for `commodity` belongs to a live entity, no entity is listed
/// for it.
pub proof fn lemma_dead_registrations_are_not_listed(
    registrations: Seq<Registration>,
    commodity: Seq<char>,
    live: Seq<u128>,
)
    requires
        forall|i: int|
            0 <= i < registrations.len() && (#[trigger] registrations[i]).commodity@ == commodity
                ==> !live.contains(registrations[i].entity_id),
    ensures
        live_registered(registrations, commodity, live).len() == 0,
    decreases registrations.len(),
{
    if registrations.len() > 0 {
        let rest = registrations.drop_last();
        assert forall|i: int|
            0 <= i < rest.len() && (#[trigger] rest[i]).commodity@ == commodity
                implies !live.contains(rest[i].entity_id) by {
            assert(rest[i] == registrations[i]);
        }
        lemma_dead_registrations_are_not_listed(rest, commodity, live);
        assert(registrations.last() == registrations[registrations.len() - 1]);
    }
}

/// Registrations stay keyed when some of them are dropped.
pub proof fn lemma_pruned_registrations_keyed(
    registrations: Seq<Registration>,
    commodity: Seq<char>,
    live: Seq<u128>,
)
    requires
        registrations_keyed(registrations),
    ensures
        registrations_keyed(pruned_registrations(registrations, commodity, live)),
    decreases registrations.len(),
{
    let keep = |r: Registration| registration_kept(r, commodity, live);
    let kept = pruned_registrations(registrations, commodity, live);
    reveal(Seq::filter);
    if registrations.len() > 0 {
        let rest = registrations.drop_last();
        let last = registrations.last();
        assert forall|i: int, j: int| 0 <= i < j < rest.len() implies !((
        #[trigger] rest[i]).commodity@ == (#[trigger] rest[j]).commodity@ && rest[i].entity_id
            == rest[j].entity_id) by {
            assert(rest[i] == registrations[i] && rest[j] == registrations[j]);
        }
        lemma_pruned_registrations_keyed(rest, commodity, live);
        let before = pruned_registrations(rest, commodity, live);
        if keep(last) {
            assert(kept == before.push(last));
            assert forall|i: int, j: int| 0 <= i < j < kept.len() implies !((
            #[trigger] kept[i]).commodity@ == (#[trigger] kept[j]).commodity@ && kept[i].entity_id
                == kept[j].entity_id) by {
                if j == before.len() {
                    assert(before[i] == kept[i]);
                    assert(before.contains(before[i]));
                    rest.lemma_filter_contains_rev(keep, before[i]);
                    let m = choose|m: int| 0 <= m < rest.len() && rest[m] == before[i];
                    assert(registrations[m] == kept[i]);
                    assert(registrations[registrations.len() - 1] == kept[j]);
                } else {
                    assert(before[i] == kept[i] && before[j] == kept[j]);
                }
            }
        } else {
            assert(kept == before);
        }
    }
}

/// Registrations stay keyed when an entity that is not registered for a
/// commodity is registered for it.
pub proof fn lemma_registration_added_keyed(
    before: Seq<Registration>,
    after: Seq<Registration>,
    commodity: Seq<char>,
    id: u128,
)
    requires
        registrations_keyed(before),
        !is_registered(before, commodity, id),
        registration_added(before, after, commodity, id),
    ensures
        registrations_keyed(after),
{
    lemma_registration_index(before, commodity, id);
    assert forall|i: int, j: int| 0 <= i < j < after.len() implies !((
    #[trigger] after[i]).commodity@ == (#[trigger] after[j]).commodity@ && after[i].entity_id
        == after[j].entity_id) by {
        assert(after.drop_last()[i] == after[i]);
        if j < before.len() {
            assert(after.drop_last()[j] == after[j]);
        } else {
            assert(after[j] == after.last());
        }
    }
}

fn find_registration(registrations: &Vec<Registration>, commodity: &String, id: u128) -> (i: usize)
    ensures
        i == registration_index(registrations@, commodity@, id),
        i <= registrations@.len(),
{
    let mut i: usize = 0;
    while i < registrations.len()
        invariant
            i <= registrations.len(),
            forall|j: int|
                0 <= j < i ==> !((#[trigger] registrations@[j]).commodity@ == commodity@
                    && registrations@[j].entity_id == id),
        decreases registrations.len() - i,
    {
        if registrations[i].entity_id == id && registrations[i].commodity == *commodity {
            proof {
                lemma_registration_index(registrations@, commodity@, id);
            }
            return i;
        }
        i = i + 1;
    }
    proof {
        lemma_registration_index(registrations@, commodity@, id);
    }
    i
}

/// Drops the registrations for `commodity` whose entity is not live.
fn prune_registrations(registrations: &mut Vec<Registration>, commodity: &String, live: &Vec<u128>)
    ensures
        final(registrations)@ == pruned_registrations(old(registrations)@, commodity@, live@),
{
    let ghost before = registrations@;
    let ghost keep = |r: Registration| registration_kept(r, commodity@, live@);
    let mut i: usize = 0;
    let mut seen: Ghost<int> = Ghost(0);
    assert(before.take(0).filter(keep) =~= Seq::<Registration>::empty());
    while i < registrations.len()
        invariant
            0 <= seen@ <= before.len(),
            i <= registrations.len(),
            registrations.len() - i == before.len() - seen@,
            registrations@.take(i as int) == before.take(seen@).filter(keep),
            registrations@.skip(i as int) == before.skip(seen@),
            keep == (|r: Registration| registration_kept(r, commodity@, live@)),
        decreases registrations.len() - i,
    {
        let ghost current = registrations@;
        proof {
            lemma_tail_step(current, i as int, before, seen@);
            assert(before.take(seen@ + 1) =~= before.take(seen@).push(before[seen@]));
            before.take(seen@).lemma_filter_push(before[seen@], keep);
        }
        let keeps: bool = !(registrations[i].commodity == *commodity) || is_live(
            live,
            registrations[i].entity_id,
        );
        if keeps {
            assert(current.take(i + 1) =~= current.take(i as int).push(current[i as int]));
            i = i + 1;
        } else {
            registrations.remove(i);
            assert(registrations@.take(i as int) =~= current.take(i as int));
            assert(registrations@.skip(i as int) =~= current.skip(i + 1));
        }
        proof {
            seen@ = seen@ + 1;
        }
    }
    assert(registrations@.take(i as int) =~= registrations@);
    assert(before.take(seen@) =~= before);
}

/// The live entities registered for `commodity`.
pub(crate) fn collect_registered(registrations: &Vec<Registration>, commodity: &str, live: &Vec<u128>) -> (found:
    Vec<u128>)
    ensures
        found@ == live_registered(registrations@, commodity@, live@),
{
    let key: String = commodity.to_owned();
    let mut found: Vec<u128> = Vec::new();
    let mut i: usize = 0;
    assert(registrations@.take(0) =~= Seq::<Registration>::empty());
    while i < registrations.len()
        invariant
            i <= registrations.len(),
            key@ == commodity@,
            found@ == live_registered(registrations@.take(i as int), commodity@, live@),
        decreases registrations.len() - i,
    {
        assert(registrations@.take(i + 1).drop_last() =~= registrations@.take(i as int));
        assert(registrations@.take(i + 1).last() == registrations@[i as int]);
        if registrations[i].commodity == key && is_live(live, registrations[i].entity_id) {
            found.push(registrations[i].entity_id);
        }
        i = i + 1;
    }
    assert(registrations@.take(i as int) =~= registrations@);
    found
}

/// Registers `id` for `commodity` after the registrations of dead entities
/// for that commodity have been dropped. Returns whether `id` was not
/// registered for it already.
pub(crate) fn register(registrations: &mut Vec<Registration>, commodity: &str, id: u128, live: &Vec<u128>) -> (added:
    bool)
    ensures
        added == !is_registered(
            pruned_registrations(old(registrations)@, commodity@, live@),
            commodity@,
            id,
        ),
        added ==> registration_added(
            pruned_registrations(old(registrations)@, commodity@, live@),
            final(registrations)@,
            commodity@,
            id,
        ),
        !added ==> final(registrations)@ == pruned_registrations(
            old(registrations)@,
            commodity@,
            live@,
        ),
{
    let key: String = commodity.to_owned();
    prune_registrations(registrations, &key, live);
    let i: usize = find_registration(registrations, &key, id);
    if i < registrations.len() {
        false
    } else {
        let ghost before = registrations@;
        registrations.push(Registration { commodity: key, entity_id: id });
        assert(registrations@.drop_last() =~= before);
        true
    }
}

} // verus!
