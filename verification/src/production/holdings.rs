//! Amounts of commodities, by entity.

use crate::production::Commodity;
use vstd::prelude::*;

verus! {

/// An entity's amount of a commodity.
pub struct Holding {
    pub commodity: String,
    pub entity_id: u128,
    pub amount: u32,
}

/// The index of the first holding of `id` in `commodity`, or the length of
/// `holdings` where there is none.
pub open spec fn holding_index(holdings: Seq<Holding>, commodity: Seq<char>, id: u128) -> int
    decreases holdings.len(),
{
    if holdings.len() == 0 {
        0
    } else if holdings[0].commodity@ == commodity && holdings[0].entity_id == id {
        0
    } else {
        1 + holding_index(holdings.drop_first(), commodity, id)
    }
}

/// Whether a holding outlasts a write to `commodity` by the entity `id`: it
/// does if it is of another commodity, if it is that entity's own, or if its
/// entity is live.
pub open spec fn holding_kept(h: Holding, commodity: Seq<char>, id: u128, live: Seq<u128>) -> bool {
    h.commodity@ != commodity || h.entity_id == id || live.contains(h.entity_id)
}

/// The holdings without those that a write to `commodity` by `id` drops.
pub open spec fn pruned_holdings(
    holdings: Seq<Holding>,
    commodity: Seq<char>,
    id: u128,
    live: Seq<u128>,
) -> Seq<Holding> {
    holdings.filter(|h: Holding| holding_kept(h, commodity, id, live))
}

/// The holdings after the entity `id` has reported `commodity`: the first
/// holding of that entity in that commodity has the amount reported, or,
/// where there is none, such a holding is appended. Nothing else changes.
pub open spec fn with_holding(before: Seq<Holding>, commodity: Commodity, id: u128) -> Seq<Holding> {
    let i = holding_index(before, commodity.name@, id);
    if i < before.len() {
        before.update(
            i,
            (Holding {
                commodity: before[i].commodity,
                entity_id: before[i].entity_id,
                amount: commodity.amount,
            }),
        )
    } else {
        before.push(
            (Holding { commodity: commodity.name, entity_id: id, amount: commodity.amount }),
        )
    }
}

/// Whether a holding counts towards `commodity`: it is of that commodity and
/// its entity is live.
pub open spec fn holding_counts(h: Holding, commodity: Seq<char>, live: Seq<u128>) -> bool {
    h.commodity@ == commodity && live.contains(h.entity_id)
}

/// The sum of the amounts of `commodity` over the holdings of live entities.
pub open spec fn live_amount(holdings: Seq<Holding>, commodity: Seq<char>, live: Seq<u128>) -> nat
    decreases holdings.len(),
{
    if holdings.len() == 0 {
        0
    } else {
        live_amount(holdings.drop_last(), commodity, live) + (if holding_counts(
            holdings.last(),
            commodity,
            live,
        ) {
            holdings.last().amount as nat
        } else {
            0
        })
    }
}

/// The live entities with a holding of `commodity` above zero, in the order
/// of the holdings.
pub open spec fn live_holders(holdings: Seq<Holding>, commodity: Seq<char>, live: Seq<u128>) -> Seq<
    u128,
>
    decreases holdings.len(),
{
    if holdings.len() == 0 {
        Seq::empty()
    } else {
        let rest = live_holders(holdings.drop_last(), commodity, live);
        if holding_counts(holdings.last(), commodity, live) && holdings.last().amount > 0 {
            rest.push(holdings.last().entity_id)
        } else {
            rest
        }
    }
}

/// `n`, held at the largest `usize`.
pub open spec fn capped(n: nat) -> usize {
    if n > usize::MAX {
        usize::MAX
    } else {
        n as usize
    }
}

/// Whether each entity has at most one holding of each commodity.
pub open spec fn holdings_keyed(holdings: Seq<Holding>) -> bool {
    forall|i: int, j: int|
        0 <= i < j < holdings.len() ==> !((#[trigger] holdings[i]).commodity@ == (
        #[trigger] holdings[j]).commodity@ && holdings[i].entity_id == holdings[j].entity_id)
}

/// `holding_index` is a valid index or the length, points at a holding of
/// that entity and commodity, and no earlier holding is one.
pub proof fn lemma_holding_index(holdings: Seq<Holding>, commodity: Seq<char>, id: u128)
    ensures
        0 <= holding_index(holdings, commodity, id) <= holdings.len(),
        holding_index(holdings, commodity, id) < holdings.len() ==> {
            let h = holdings[holding_index(holdings, commodity, id)];
            h.commodity@ == commodity && h.entity_id == id
        },
        forall|i: int|
            0 <= i < holding_index(holdings, commodity, id) ==> !((#[trigger] holdings[i]).commodity@
                == commodity && holdings[i].entity_id == id),
    decreases holdings.len(),
{
    if holdings.len() > 0 && !(holdings[0].commodity@ == commodity && holdings[0].entity_id == id) {
        let rest = holdings.drop_first();
        lemma_holding_index(rest, commodity, id);
        assert forall|i: int| 0 <= i < holding_index(holdings, commodity, id) implies !((
        #[trigger] holdings[i]).commodity@ == commodity && holdings[i].entity_id == id) by {
            if i > 0 {
                assert(holdings[i] == rest[i - 1]);
            }
        }
    }
}

/// The amount of a commodity is the sum over the live holdings: a holding
/// that is appended adds its amount where it is of that commodity and its
/// entity is live, and nothing otherwise.
pub proof fn lemma_amount_is_a_sum(
    holdings: Seq<Holding>,
    last: Holding,
    commodity: Seq<char>,
    live: Seq<u128>,
)
    ensures
        live_amount(Seq::<Holding>::empty(), commodity, live) == 0,
        live_amount(holdings.push(last), commodity, live) == live_amount(
            holdings,
            commodity,
            live,
        ) + (if holding_counts(last, commodity, live) {
            last.amount as nat
        } else {
            0
        }),
{
    assert(holdings.push(last).drop_last() =~= holdings);
    assert(holdings.push(last).last() == last);
}

/// Holdings of entities that are not live are not counted: where no
/// holding of `commodity` belongs to a live entity, the amount of it is zero
/// and no entity is listed for it.
pub proof fn lemma_dead_holdings_count_nothing(
    holdings: Seq<Holding>,
    commodity: Seq<char>,
    live: Seq<u128>,
)
    requires
        forall|i: int|
            0 <= i < holdings.len() && (#[trigger] holdings[i]).commodity@ == commodity
                ==> !live.contains(holdings[i].entity_id),
    ensures
        live_amount(holdings, commodity, live) == 0,
        live_holders(holdings, commodity, live).len() == 0,
    decreases holdings.len(),
{
    if holdings.len() > 0 {
        let rest = holdings.drop_last();
        assert forall|i: int|
            0 <= i < rest.len() && (#[trigger] rest[i]).commodity@ == commodity
                implies !live.contains(rest[i].entity_id) by {
            assert(rest[i] == holdings[i]);
        }
        lemma_dead_holdings_count_nothing(rest, commodity, live);
        assert(holdings.last() == holdings[holdings.len() - 1]);
    }
}

/// Holdings stay keyed when some of them are dropped.
pub proof fn lemma_pruned_holdings_keyed(
    holdings: Seq<Holding>,
    commodity: Seq<char>,
    id: u128,
    live: Seq<u128>,
)
    requires
        holdings_keyed(holdings),
    ensures
        holdings_keyed(pruned_holdings(holdings, commodity, id, live)),
    decreases holdings.len(),
{
    let keep = |h: Holding| holding_kept(h, commodity, id, live);
    let kept = pruned_holdings(holdings, commodity, id, live);
    reveal(Seq::filter);
    if holdings.len() > 0 {
        let rest = holdings.drop_last();
        let last = holdings.last();
        assert forall|i: int, j: int| 0 <= i < j < rest.len() implies !((
        #[trigger] rest[i]).commodity@ == (#[trigger] rest[j]).commodity@ && rest[i].entity_id
            == rest[j].entity_id) by {
            assert(rest[i] == holdings[i] && rest[j] == holdings[j]);
        }
        lemma_pruned_holdings_keyed(rest, commodity, id, live);
        let before = pruned_holdings(rest, commodity, id, live);
        if keep(last) {
            assert(kept == before.push(last));
            assert forall|i: int, j: int| 0 <= i < j < kept.len() implies !((
            #[trigger] kept[i]).commodity@ == (#[trigger] kept[j]).commodity@ && kept[i].entity_id
                == kept[j].entity_id) by {
                if j == before.len() {
                    assert(before[i] == kept[i]);
                    assert(before.contains(before[i]));
                    rest.lemma_filter_contains_rev(keep, before[i]);
                    let m = choose|m: int| 0 <= m < rest.len() && rest[m] == before[i];
                    assert(holdings[m] == kept[i]);
                    assert(holdings[holdings.len() - 1] == kept[j]);
                } else {
                    assert(before[i] == kept[i] && before[j] == kept[j]);
                }
            }
        } else {
            assert(kept == before);
        }
    }
}

/// Holdings stay keyed when an amount is set.
pub proof fn lemma_with_holding_keyed(holdings: Seq<Holding>, commodity: Commodity, id: u128)
    requires
        holdings_keyed(holdings),
    ensures
        holdings_keyed(with_holding(holdings, commodity, id)),
{
    lemma_holding_index(holdings, commodity.name@, id);
    let after = with_holding(holdings, commodity, id);
    let k = holding_index(holdings, commodity.name@, id);
    assert forall|i: int, j: int| 0 <= i < j < after.len() implies !((
    #[trigger] after[i]).commodity@ == (#[trigger] after[j]).commodity@ && after[i].entity_id
        == after[j].entity_id) by {
        if k < holdings.len() {
            assert(after[i].commodity == holdings[i].commodity && after[i].entity_id
                == holdings[i].entity_id);
            assert(after[j].commodity == holdings[j].commodity && after[j].entity_id
                == holdings[j].entity_id);
        } else if j < holdings.len() {
            assert(after[i] == holdings[i] && after[j] == holdings[j]);
        } else {
            assert(after[i] == holdings[i]);
        }
    }
}

/// Two sequences with equal tails agree on the first element of the tails
/// and on what follows it.
pub(crate) proof fn lemma_tail_step<A>(a: Seq<A>, i: int, b: Seq<A>, j: int)
    requires
        0 <= i < a.len(),
        0 <= j <= b.len(),
        a.skip(i) == b.skip(j),
    ensures
        j < b.len(),
        a[i] == b[j],
        a.skip(i + 1) == b.skip(j + 1),
{
    assert(a.skip(i).len() == a.len() - i);
    assert(b.skip(j).len() == b.len() - j);
    assert(j < b.len());
    assert(a[i] == a.skip(i)[0]);
    assert(b[j] == b.skip(j)[0]);
    let x = a.skip(i + 1);
    let y = b.skip(j + 1);
    assert forall|k: int| 0 <= k < x.len() implies #[trigger] x[k] == y[k] by {
        assert(x[k] == a.skip(i)[k + 1]);
        assert(y[k] == b.skip(j)[k + 1]);
    }
    assert(a.skip(i + 1) =~= b.skip(j + 1));
}

/// Whether `id` is among `live`.
pub fn is_live(live: &Vec<u128>, id: u128) -> (found: bool)
    ensures
        found == live@.contains(id),
{
    let mut i: usize = 0;
    while i < live.len()
        invariant
            i <= live.len(),
            forall|j: int| 0 <= j < i ==> live@[j] != id,
        decreases live.len() - i,
    {
        if live[i] == id {
            return true;
        }
        i = i + 1;
    }
    false
}

fn find_holding(holdings: &Vec<Holding>, commodity: &String, id: u128) -> (i: usize)
    ensures
        i == holding_index(holdings@, commodity@, id),
        i <= holdings@.len(),
{
    let mut i: usize = 0;
    while i < holdings.len()
        invariant
            i <= holdings.len(),
            forall|j: int|
                0 <= j < i ==> !((#[trigger] holdings@[j]).commodity@ == commodity@
                    && holdings@[j].entity_id == id),
        decreases holdings.len() - i,
    {
        if holdings[i].entity_id == id && holdings[i].commodity == *commodity {
            proof {
                lemma_holding_index(holdings@, commodity@, id);
            }
            return i;
        }
        i = i + 1;
    }
    proof {
        lemma_holding_index(holdings@, commodity@, id);
    }
    i
}

/// Drops the holdings of `commodity` whose entity is neither `id` nor live.
fn prune_holdings(holdings: &mut Vec<Holding>, commodity: &String, id: u128, live: &Vec<u128>)
    ensures
        final(holdings)@ == pruned_holdings(old(holdings)@, commodity@, id, live@),
{
    let ghost before = holdings@;
    let ghost keep = |h: Holding| holding_kept(h, commodity@, id, live@);
    let mut i: usize = 0;
    let mut seen: Ghost<int> = Ghost(0);
    assert(before.take(0).filter(keep) =~= Seq::<Holding>::empty());
    while i < holdings.len()
        invariant
            0 <= seen@ <= before.len(),
            i <= holdings.len(),
            holdings.len() - i == before.len() - seen@,
            holdings@.take(i as int) == before.take(seen@).filter(keep),
            holdings@.skip(i as int) == before.skip(seen@),
            keep == (|h: Holding| holding_kept(h, commodity@, id, live@)),
        decreases holdings.len() - i,
    {
        let ghost current = holdings@;
        proof {
            lemma_tail_step(current, i as int, before, seen@);
            assert(before.take(seen@ + 1) =~= before.take(seen@).push(before[seen@]));
            before.take(seen@).lemma_filter_push(before[seen@], keep);
        }
        let keeps: bool = holdings[i].entity_id == id || !(holdings[i].commodity == *commodity)
            || is_live(live, holdings[i].entity_id);
        if keeps {
            assert(current.take(i + 1) =~= current.take(i as int).push(current[i as int]));
            i = i + 1;
        } else {
            holdings.remove(i);
            assert(holdings@.take(i as int) =~= current.take(i as int));
            assert(holdings@.skip(i as int) =~= current.skip(i + 1));
        }
        proof {
            seen@ = seen@ + 1;
        }
    }
    assert(holdings@.take(i as int) =~= holdings@);
    assert(before.take(seen@) =~= before);
}

/// Sets the amount of `id` in the commodity of `commodity`, and drops the
/// holdings of that commodity whose entity is neither `id` nor live.
pub(crate) fn set_holding(holdings: &mut Vec<Holding>, commodity: &Commodity, id: u128, live: &Vec<u128>)
    ensures
        final(holdings)@ == with_holding(
            pruned_holdings(old(holdings)@, commodity.name@, id, live@),
            *commodity,
            id,
        ),
{
    prune_holdings(holdings, &commodity.name, id, live);
    let i: usize = find_holding(holdings, &commodity.name, id);
    let ghost before = holdings@;
    if i < holdings.len() {
        holdings[i].amount = commodity.amount;
        assert(holdings@ =~= with_holding(before, *commodity, id));
    } else {
        holdings.push(
            Holding { commodity: commodity.name.clone(), entity_id: id, amount: commodity.amount },
        );
    }
}

/// The sum of the amounts of `commodity` over the holdings of live
/// entities, held at the largest `usize`.
pub(crate) fn sum_live(holdings: &Vec<Holding>, commodity: &str, live: &Vec<u128>) -> (sum: usize)
    ensures
        sum == capped(live_amount(holdings@, commodity@, live@)),
{
    let key: String = commodity.to_owned();
    let mut sum: usize = 0;
    let mut i: usize = 0;
    assert(holdings@.take(0) =~= Seq::<Holding>::empty());
    while i < holdings.len()
        invariant
            i <= holdings.len(),
            key@ == commodity@,
            sum == capped(live_amount(holdings@.take(i as int), commodity@, live@)),
        decreases holdings.len() - i,
    {
        assert(holdings@.take(i + 1).drop_last() =~= holdings@.take(i as int));
        assert(holdings@.take(i + 1).last() == holdings@[i as int]);
        if holdings[i].commodity == key && is_live(live, holdings[i].entity_id) {
            let added: usize = holdings[i].amount as usize;
            sum = if sum > usize::MAX - added {
                usize::MAX
            } else {
                sum + added
            };
        }
        i = i + 1;
    }
    assert(holdings@.take(i as int) =~= holdings@);
    sum
}

/// The live entities with a holding of `commodity` above zero.
pub(crate) fn collect_live(holdings: &Vec<Holding>, commodity: &str, live: &Vec<u128>) -> (found: Vec<u128>)
    ensures
        found@ == live_holders(holdings@, commodity@, live@),
{
    let key: String = commodity.to_owned();
    let mut found: Vec<u128> = Vec::new();
    let mut i: usize = 0;
    assert(holdings@.take(0) =~= Seq::<Holding>::empty());
    while i < holdings.len()
        invariant
            i <= holdings.len(),
            key@ == commodity@,
            found@ == live_holders(holdings@.take(i as int), commodity@, live@),
        decreases holdings.len() - i,
    {
        assert(holdings@.take(i + 1).drop_last() =~= holdings@.take(i as int));
        assert(holdings@.take(i + 1).last() == holdings@[i as int]);
        if holdings[i].commodity == key && holdings[i].amount > 0 && is_live(
            live,
            holdings[i].entity_id,
        ) {
            found.push(holdings[i].entity_id);
        }
        i = i + 1;
    }
    assert(holdings@.take(i as int) =~= holdings@);
    found
}

} // verus!
