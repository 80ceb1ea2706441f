//! Running totals of commodities.

use crate::production::holdings::capped;
use crate::production::Commodity;
use vstd::prelude::*;

verus! {

/// A running total for a commodity.
pub struct Total {
    pub commodity: String,
    pub amount: usize,
}

/// The index of the first total of `commodity`, or the length of `totals`
/// where there is none.
pub open spec fn total_index(totals: Seq<Total>, commodity: Seq<char>) -> int
    decreases totals.len(),
{
    if totals.len() == 0 {
        0
    } else if totals[0].commodity@ == commodity {
        0
    } else {
        1 + total_index(totals.drop_first(), commodity)
    }
}

/// The running total of `commodity`: nothing where none was recorded.
pub open spec fn total_of(totals: Seq<Total>, commodity: Seq<char>) -> usize {
    let i = total_index(totals, commodity);
    if i < totals.len() {
        totals[i].amount
    } else {
        0
    }
}

/// The totals after the amount of `commodity` has been added to the total of
/// its name, held at the largest `usize`: the first total of that name grows,
/// or, where there is none, one is appended. Nothing else changes.
pub open spec fn with_total(before: Seq<Total>, commodity: Commodity) -> Seq<Total> {
    let i = total_index(before, commodity.name@);
    if i < before.len() {
        before.update(
            i,
            (Total {
                commodity: before[i].commodity,
                amount: capped((before[i].amount + commodity.amount) as nat),
            }),
        )
    } else {
        before.push((Total { commodity: commodity.name, amount: commodity.amount as usize }))
    }
}

/// Whether each commodity has at most one total.
pub open spec fn totals_keyed(totals: Seq<Total>) -> bool {
    forall|i: int, j: int|
        0 <= i < j < totals.len() ==> (#[trigger] totals[i]).commodity@ != (
        #[trigger] totals[j]).commodity@
}

/// `total_index` is a valid index or the length, points at a total of that
/// commodity, and no earlier total is one.
pub proof fn lemma_total_index(totals: Seq<Total>, commodity: Seq<char>)
    ensures
        0 <= total_index(totals, commodity) <= totals.len(),
        total_index(totals, commodity) < totals.len() ==> totals[total_index(
            totals,
            commodity,
        )].commodity@ == commodity,
        forall|i: int|
            0 <= i < total_index(totals, commodity) ==> (#[trigger] totals[i]).commodity@
                != commodity,
    decreases totals.len(),
{
    if totals.len() > 0 && totals[0].commodity@ != commodity {
        let rest = totals.drop_first();
        lemma_total_index(rest, commodity);
        assert forall|i: int| 0 <= i < total_index(totals, commodity) implies (
        #[trigger] totals[i]).commodity@ != commodity by {
            if i > 0 {
                assert(totals[i] == rest[i - 1]);
            }
        }
    }
}

/// Totals stay keyed when an amount is added.
pub proof fn lemma_with_total_keyed(totals: Seq<Total>, commodity: Commodity)
    requires
        totals_keyed(totals),
    ensures
        totals_keyed(with_total(totals, commodity)),
{
    lemma_total_index(totals, commodity.name@);
    let after = with_total(totals, commodity);
    let k = total_index(totals, commodity.name@);
    assert forall|i: int, j: int| 0 <= i < j < after.len() implies (#[trigger] after[i]).commodity@
        != (#[trigger] after[j]).commodity@ by {
        if k < totals.len() {
            assert(after[i].commodity == totals[i].commodity);
            assert(after[j].commodity == totals[j].commodity);
        } else if j < totals.len() {
            assert(after[i] == totals[i] && after[j] == totals[j]);
        } else {
            assert(after[i] == totals[i]);
        }
    }
}

pub(crate) fn find_total(totals: &Vec<Total>, commodity: &String) -> (i: usize)
    ensures
        i == total_index(totals@, commodity@),
        i <= totals@.len(),
{
    let mut i: usize = 0;
    while i < totals.len()
        invariant
            i <= totals.len(),
            forall|j: int| 0 <= j < i ==> (#[trigger] totals@[j]).commodity@ != commodity@,
        decreases totals.len() - i,
    {
        if totals[i].commodity == *commodity {
            proof {
                lemma_total_index(totals@, commodity@);
            }
            return i;
        }
        i = i + 1;
    }
    proof {
        lemma_total_index(totals@, commodity@);
    }
    i
}

/// Adds the amount of `commodity` to the running total of its name.
pub(crate) fn raise_total(totals: &mut Vec<Total>, commodity: &Commodity)
    ensures
        final(totals)@ == with_total(old(totals)@, *commodity),
{
    let i: usize = find_total(totals, &commodity.name);
    let ghost before = totals@;
    if i < totals.len() {
        let current: usize = totals[i].amount;
        let added: usize = commodity.amount as usize;
        let sum: usize = if current > usize::MAX - added {
            usize::MAX
        } else {
            current + added
        };
        totals[i].amount = sum;
        assert(totals@ =~= with_total(before, *commodity));
    } else {
        totals.push(Total { commodity: commodity.name.clone(), amount: commodity.amount as usize });
    }
}

} // verus!
