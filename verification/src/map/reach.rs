//! Applying effects to the entities that they reach.

use crate::effects::{applied_all, EffectRef};
use crate::entities::structure::Size;
use crate::map::{covered, fits, GridEntity};
use vstd::prelude::*;

verus! {

/// Whether the cell `c` is at most `range` cells from `center`, across and
/// down.
pub open spec fn within(c: (usize, usize), center: (usize, usize), range: usize) -> bool {
    &&& c.0 - center.0 <= range
    &&& center.0 - c.0 <= range
    &&& c.1 - center.1 <= range
    &&& center.1 - c.1 <= range
}

/// Whether a cell of the rectangle of `size` cells at `parent` is at most
/// `range` cells from `center`, across and down.
pub open spec fn window_holds(
    parent: (usize, usize),
    size: Size,
    center: (usize, usize),
    range: usize,
) -> bool {
    exists|c: (usize, usize)| covered(parent, size, c) && within(c, center, range)
}

/// Whether the entity is inside the window of `range` cells round `center`:
/// one of its cells is.
pub open spec fn in_window(e: GridEntity, center: (usize, usize), range: usize) -> bool {
    window_holds(e.parent, e.size, center, range)
}

/// Whether effects reach the entity: inside the window, where there is one,
/// and everywhere, where there is none.
pub open spec fn reached(e: GridEntity, window: Option<((usize, usize), usize)>) -> bool {
    match window {
        Some((center, range)) => in_window(e, center, range),
        None => true,
    }
}

/// The entity with `effects` applied to it, in order, where they reach it.
pub open spec fn affected(
    e: GridEntity,
    effects: Seq<EffectRef>,
    window: Option<((usize, usize), usize)>,
) -> GridEntity {
    if reached(e, window) {
        GridEntity { id: e.id, entity: applied_all(effects, e.entity), parent: e.parent, size: e.size }
    } else {
        e
    }
}

/// The entities after `effects` have been applied, in order, to each one
/// that they reach.
pub open spec fn after_effects(
    placed: Seq<GridEntity>,
    effects: Seq<EffectRef>,
    window: Option<((usize, usize), usize)>,
) -> Seq<GridEntity> {
    placed.map_values(|e: GridEntity| affected(e, effects, window))
}

/// How many cells lie between `center` and the nearest of the cells
/// `from .. from + length` of one axis.
pub open spec fn axis_gap(center: usize, from: usize, length: u8) -> int {
    if center < from {
        from - center
    } else if center >= from + length {
        center - (from + length - 1)
    } else {
        0
    }
}

/// An entity is inside a window exactly where it is at most `range` cells
/// away across and down.
pub proof fn lemma_in_window(e: GridEntity, center: (usize, usize), range: usize)
    requires
        fits(e.parent, e.size, usize::MAX, usize::MAX),
    ensures
        in_window(e, center, range) <==> axis_gap(center.0, e.parent.0, e.size.width) <= range
            && axis_gap(center.1, e.parent.1, e.size.height) <= range,
{
    if axis_gap(center.0, e.parent.0, e.size.width) <= range && axis_gap(
        center.1,
        e.parent.1,
        e.size.height,
    ) <= range {
        let x: usize = if center.0 < e.parent.0 {
            e.parent.0
        } else if center.0 >= e.parent.0 + e.size.width {
            (e.parent.0 + e.size.width - 1) as usize
        } else {
            center.0
        };
        let y: usize = if center.1 < e.parent.1 {
            e.parent.1
        } else if center.1 >= e.parent.1 + e.size.height {
            (e.parent.1 + e.size.height - 1) as usize
        } else {
            center.1
        };
        assert(covered(e.parent, e.size, (x, y)) && within((x, y), center, range));
    }
}

/// How many cells lie between `center` and the nearest of the cells
/// `from .. from + length` of one axis.
fn axis_distance(center: usize, from: usize, length: u8) -> (distance: usize)
    requires
        length >= 1,
        from + length <= usize::MAX,
    ensures
        distance == axis_gap(center, from, length),
{
    if center < from {
        from - center
    } else if center - from >= length as usize {
        center - (from + (length as usize - 1))
    } else {
        0
    }
}

/// Whether the entity is inside the window of `range` cells round `center`.
fn is_in_window(e: &GridEntity, center: (usize, usize), range: usize) -> (inside: bool)
    requires
        fits(e.parent, e.size, usize::MAX, usize::MAX),
    ensures
        inside == in_window(*e, center, range),
{
    let across: usize = axis_distance(center.0, e.parent.0, e.size.width);
    let down: usize = axis_distance(center.1, e.parent.1, e.size.height);
    proof {
        lemma_in_window(*e, center, range);
    }
    across <= range && down <= range
}

/// Applies each of `effects`, in order, to each entity that it reaches.
pub(crate) fn apply_effects(
    entities: &mut Vec<GridEntity>,
    effects: &Vec<EffectRef>,
    window: Option<((usize, usize), usize)>,
)
    requires
        forall|i: int|
            0 <= i < old(entities)@.len() ==> fits(
                (#[trigger] old(entities)@[i]).parent,
                old(entities)@[i].size,
                usize::MAX,
                usize::MAX,
            ),
    ensures
        final(entities)@ == after_effects(old(entities)@, effects@, window),
{
    let ghost before = entities@;
    let mut k: usize = 0;
    assert(effects@.take(0) =~= Seq::<EffectRef>::empty());
    assert(entities@ =~= after_effects(before, effects@.take(0), window));
    while k < effects.len()
        invariant
            k <= effects.len(),
            before == old(entities)@,
            forall|i: int|
                0 <= i < before.len() ==> fits(
                    (#[trigger] before[i]).parent,
                    before[i].size,
                    usize::MAX,
                    usize::MAX,
                ),
            entities@ == after_effects(before, effects@.take(k as int), window),
        decreases effects.len() - k,
    {
        let mut i: usize = 0;
        assert(effects@.take(k + 1).drop_last() =~= effects@.take(k as int));
        assert(effects@.take(k + 1).last() == effects@[k as int]);
        while i < entities.len()
            invariant
                k < effects.len(),
                i <= entities.len(),
                entities@.len() == before.len(),
                effects@.take(k + 1).drop_last() == effects@.take(k as int),
                effects@.take(k + 1).last() == effects@[k as int],
                forall|j: int|
                    0 <= j < before.len() ==> fits(
                        (#[trigger] before[j]).parent,
                        before[j].size,
                        usize::MAX,
                        usize::MAX,
                    ),
                forall|j: int|
                    0 <= j < i ==> #[trigger] entities@[j] == affected(
                        before[j],
                        effects@.take(k + 1),
                        window,
                    ),
                forall|j: int|
                    i <= j < before.len() ==> #[trigger] entities@[j] == affected(
                        before[j],
                        effects@.take(k as int),
                        window,
                    ),
            decreases entities.len() - i,
        {
            let ghost current = entities@;
            assert(current[i as int] == affected(before[i as int], effects@.take(k as int), window));
            assert(fits(before[i as int].parent, before[i as int].size, usize::MAX, usize::MAX));
            let reach: bool = match window {
                Some((center, range)) => is_in_window(&entities[i], center, range),
                None => true,
            };
            if reach {
                effects[k].effect.apply(&mut entities[i].entity);
            }
            assert(forall|j: int| 0 <= j < before.len() && j != i ==> entities@[j] == current[j]);
            i = i + 1;
        }
        assert(entities@ =~= after_effects(before, effects@.take(k + 1), window));
        k = k + 1;
    }
    assert(effects@.take(k as int) =~= effects@);
}

} // verus!
