//! Structures and the goods that they hold.

use crate::production::Commodity;
use vstd::prelude::*;

verus! {

#[derive(PartialEq, Eq, Clone, Copy, Debug)]
pub struct Risk {
    pub fire: u8,
    pub damage: u8,
}

#[derive(PartialEq, Eq, Clone, Copy, Debug)]
pub enum Type {
    Housing,
    Entertainment,
    Military,
    Industry,
    Monument,
    Religion,
    Education,
    HealthCare,
    CivilService,
}

/// The footprint of a structure, in cells.
#[derive(PartialEq, Eq, Clone, Copy, Debug)]
pub struct Size {
    pub width: u8,
    pub height: u8,
}

#[derive(PartialEq, Debug)]
pub struct StructureProperties {
    pub name: String,
    pub size: Size,
    pub max_employees: u8,
    pub cost: u32,
    pub desirability: (i8, i8, i8, i8, i8, i8),
    pub structure_type: Type,
}

impl Clone for StructureProperties {
    fn clone(&self) -> (copy: Self)
        ensures
            copy == *self,
    {
        StructureProperties {
            name: self.name.clone(),
            size: self.size,
            max_employees: self.max_employees,
            cost: self.cost,
            desirability: self.desirability,
            structure_type: self.structure_type,
        }
    }
}

/// The goods that a structure holds, one entry for each commodity name.
#[derive(PartialEq, Clone, Debug)]
pub struct Commodities {
    pub data: Vec<Commodity>,
}

#[derive(PartialEq, Clone, Debug)]
pub struct StructureState {
    pub current_employees: u8,
    pub commodities: Commodities,
    pub risk: Risk,
}

/// The index of the first entry of `data` that is named `name`, or the length
/// of `data` where there is none.
pub open spec fn first_named(data: Seq<Commodity>, name: Seq<char>) -> int
    decreases data.len(),
{
    if data.len() == 0 {
        0
    } else if data[0].name@ == name {
        0
    } else {
        1 + first_named(data.drop_first(), name)
    }
}

/// `first_named` is a valid index or the length, points at an entry of that
/// name, and no earlier entry has the name.
pub proof fn lemma_first_named(data: Seq<Commodity>, name: Seq<char>)
    ensures
        0 <= first_named(data, name) <= data.len(),
        first_named(data, name) < data.len() ==> data[first_named(data, name)].name@ == name,
        forall|i: int| 0 <= i < first_named(data, name) ==> (#[trigger] data[i]).name@ != name,
    decreases data.len(),
{
    if data.len() > 0 && data[0].name@ != name {
        let rest = data.drop_first();
        lemma_first_named(rest, name);
        assert forall|i: int| 0 <= i < first_named(data, name) implies (#[trigger] data[i]).name@
            != name by {
            if i > 0 {
                assert(data[i] == rest[i - 1]);
            }
        }
    }
}

/// `a + b`, held at the largest `u32`.
pub open spec fn capped_sum(a: u32, b: u32) -> u32 {
    if a + b > u32::MAX {
        u32::MAX
    } else {
        (a + b) as u32
    }
}

impl Commodities {
    /// The ledger after `commodity` has been added to it: the first entry of
    /// that name grows by the amount, held at the largest `u32`; where there
    /// is none, the commodity is appended. Nothing else changes.
    pub open spec fn credited(before: Seq<Commodity>, commodity: Commodity) -> Seq<Commodity> {
        let i = first_named(before, commodity.name@);
        if i < before.len() {
            before.update(
                i,
                (Commodity {
                    name: before[i].name,
                    amount: capped_sum(before[i].amount, commodity.amount),
                }),
            )
        } else {
            before.push(commodity)
        }
    }

    /// How much of `name` the ledger holds: the amount of the first entry of
    /// that name, or nothing.
    pub open spec fn held(data: Seq<Commodity>, name: Seq<char>) -> u32 {
        let i = first_named(data, name);
        if i < data.len() {
            data[i].amount
        } else {
            0
        }
    }

    /// An empty ledger.
    pub fn new() -> (ledger: Commodities)
        ensures
            ledger.data@.len() == 0,
    {
        Commodities { data: Vec::new() }
    }

    /// The index of the first entry named `name`, or the number of entries.
    fn position_of(&self, name: &str) -> (i: usize)
        ensures
            i == first_named(self.data@, name@),
            i <= self.data@.len(),
    {
        let key: String = name.to_owned();
        let mut i: usize = 0;
        while i < self.data.len()
            invariant
                i <= self.data.len(),
                key@ == name@,
                forall|j: int| 0 <= j < i ==> (#[trigger] self.data@[j]).name@ != name@,
            decreases self.data.len() - i,
        {
            if self.data[i].name == key {
                proof {
                    lemma_first_named(self.data@, name@);
                }
                return i;
            }
            i = i + 1;
        }
        proof {
            lemma_first_named(self.data@, name@);
        }
        i
    }

    /// How much of `name` the ledger holds.
    pub fn amount_of(&self, name: &str) -> (amount: u32)
        ensures
            amount == Self::held(self.data@, name@),
    {
        let i: usize = self.position_of(name);
        if i < self.data.len() {
            self.data[i].amount
        } else {
            0
        }
    }

    /// Adds `commodity` to the ledger.
    pub fn credit(&mut self, commodity: &Commodity)
        ensures
            final(self).data@ == Self::credited(old(self).data@, *commodity),
    {
        let i: usize = self.position_of(commodity.name.as_str());
        let ghost before = self.data@;
        if i < self.data.len() {
            let current: u32 = self.data[i].amount;
            let sum: u32 = if current > u32::MAX - commodity.amount {
                u32::MAX
            } else {
                current + commodity.amount
            };
            self.data[i].amount = sum;
            assert(self.data@ =~= Self::credited(before, *commodity));
        } else {
            self.data.push(Commodity { name: commodity.name.clone(), amount: commodity.amount });
        }
    }
}

} // verus!
