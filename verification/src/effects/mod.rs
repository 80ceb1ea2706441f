//! Effects and their registration.

use crate::entities::Entity;
use std::rc::Rc;
use vstd::prelude::*;

verus! {

/// The capability to change an entity. The simulation decides where and when
/// an effect is applied; what it does to its target is up to the
/// implementation.
///
/// What the simulation proves of effects, it proves of implementations whose
/// `apply` does what their `applied` says. Nothing holds an implementation to
/// that but its own proof. An implementation in code that is not verified
/// gives `applied` a body that is never run.
pub trait Effect {
    /// What `apply` makes of `target`.
    spec fn applied(&self, target: Entity) -> Entity;

    /// Changes `other_entity` as this effect does.
    fn apply(&self, other_entity: &mut Entity)
        ensures
            *final(other_entity) == self.applied(*old(other_entity)),
    ;
}

/// An effect together with the identity under which cells and grids register
/// it: two references with the same `id` are the same effect.
pub struct EffectRef {
    pub id: u64,
    pub effect: Rc<dyn Effect>,
}

/// The entity after each effect of `effects` has been applied to it, in order.
pub open spec fn applied_all(effects: Seq<EffectRef>, target: Entity) -> Entity
    decreases effects.len(),
{
    if effects.len() == 0 {
        target
    } else {
        effects.last().effect.applied(applied_all(effects.drop_last(), target))
    }
}

/// Whether an effect with the identity `id` is among `effects`.
pub open spec fn has_effect(effects: Seq<EffectRef>, id: u64) -> bool {
    exists|i: int| 0 <= i < effects.len() && (#[trigger] effects[i]).id == id
}

/// The index of the first effect with the identity `id`, or the length of
/// `effects` where there is none.
pub open spec fn first_effect(effects: Seq<EffectRef>, id: u64) -> int
    decreases effects.len(),
{
    if effects.len() == 0 {
        0
    } else if effects[0].id == id {
        0
    } else {
        1 + first_effect(effects.drop_first(), id)
    }
}

/// Whether no identity occurs twice in `effects`.
pub open spec fn distinct_effects(effects: Seq<EffectRef>) -> bool {
    forall|i: int, j: int|
        0 <= i < j < effects.len() ==> (#[trigger] effects[i]).id != (#[trigger] effects[j]).id
}

/// `first_effect` is a valid index or the length, points at an effect with
/// that identity, and no earlier effect has it; it is an index exactly where
/// the identity is registered.
pub proof fn lemma_first_effect(effects: Seq<EffectRef>, id: u64)
    ensures
        0 <= first_effect(effects, id) <= effects.len(),
        first_effect(effects, id) < effects.len() <==> has_effect(effects, id),
        first_effect(effects, id) < effects.len() ==> effects[first_effect(effects, id)].id == id,
        forall|i: int| 0 <= i < first_effect(effects, id) ==> (#[trigger] effects[i]).id != id,
    decreases effects.len(),
{
    if effects.len() > 0 && effects[0].id != id {
        let rest = effects.drop_first();
        lemma_first_effect(rest, id);
        assert forall|i: int| 0 <= i < first_effect(effects, id) implies (#[trigger] effects[i]).id
            != id by {
            if i > 0 {
                assert(effects[i] == rest[i - 1]);
            }
        }
        if first_effect(rest, id) < rest.len() {
            assert(effects[first_effect(effects, id)] == rest[first_effect(rest, id)]);
        }
        if has_effect(effects, id) {
            let k = choose|k: int| 0 <= k < effects.len() && (#[trigger] effects[k]).id == id;
            assert(rest[k - 1] == effects[k]);
        }
    }
}

/// An effect that was registered is present, so that registering it once
/// more is refused; and where no identity occurred twice, none does after.
pub proof fn lemma_registered_effect(effects: Seq<EffectRef>, effect: EffectRef)
    ensures
        has_effect(effects.push(effect), effect.id),
        distinct_effects(effects) && !has_effect(effects, effect.id) ==> distinct_effects(
            effects.push(effect),
        ),
{
    let after = effects.push(effect);
    assert(after[effects.len() as int].id == effect.id);
    if distinct_effects(effects) && !has_effect(effects, effect.id) {
        assert forall|i: int, j: int| 0 <= i < j < after.len() implies (#[trigger] after[i]).id != (
        #[trigger] after[j]).id by {
            if j == effects.len() {
                assert(effects[i].id != effect.id);
            } else {
                assert(effects[i].id != effects[j].id);
            }
        }
    }
}

/// Where no identity occurs twice, an effect that was removed is absent, so
/// that removing it once more is refused; and no identity occurs twice after.
pub proof fn lemma_removed_effect(effects: Seq<EffectRef>, id: u64)
    requires
        distinct_effects(effects),
        has_effect(effects, id),
    ensures
        !has_effect(effects.remove(first_effect(effects, id)), id),
        distinct_effects(effects.remove(first_effect(effects, id))),
{
    lemma_first_effect(effects, id);
    let k = first_effect(effects, id);
    let after = effects.remove(k);
    assert forall|i: int| 0 <= i < after.len() implies (#[trigger] after[i]).id != id by {
        if i < k {
            assert(after[i] == effects[i]);
        } else {
            assert(after[i] == effects[i + 1]);
            assert(effects[k].id != effects[i + 1].id);
        }
    }
    assert forall|i: int, j: int| 0 <= i < j < after.len() implies (#[trigger] after[i]).id != (
    #[trigger] after[j]).id by {
        let i0 = if i < k {
            i
        } else {
            i + 1
        };
        let j0 = if j < k {
            j
        } else {
            j + 1
        };
        assert(after[i] == effects[i0]);
        assert(after[j] == effects[j0]);
        assert(effects[i0].id != effects[j0].id);
    }
}

/// The position of the first effect with the identity `id`, or the number
/// of effects.
pub fn find_effect(effects: &Vec<EffectRef>, id: u64) -> (i: usize)
    ensures
        i == first_effect(effects@, id),
        i <= effects@.len(),
        i < effects@.len() <==> has_effect(effects@, id),
{
    let mut i: usize = 0;
    while i < effects.len()
        invariant
            i <= effects.len(),
            forall|j: int| 0 <= j < i ==> (#[trigger] effects@[j]).id != id,
        decreases effects.len() - i,
    {
        if effects[i].id == id {
            proof {
                lemma_first_effect(effects@, id);
            }
            return i;
        }
        i = i + 1;
    }
    proof {
        lemma_first_effect(effects@, id);
    }
    i
}

} // verus!
