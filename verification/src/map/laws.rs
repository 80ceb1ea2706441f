//! What follows from the contracts of the grid for placing and removing.

use crate::entities::Entity;
use crate::map::placed::{
    blocked, has_id, index_of_id, lemma_index_of_id, occupied, stands_at, takes_cells,
};
use crate::map::{covered, fits, CellState, Grid, GridEntity};
use vstd::prelude::*;

verus! {

/// On a grid without entities every cell of the grid is empty and takes any
/// entity that fits: a structure has to lie within the grid, and anything
/// else fits where it is put. No identity is in use, so that `add_entity`
/// succeeds there with `AvailableEmpty`.
pub proof fn lemma_empty_grid_takes_entities(grid: &Grid, at: (usize, usize), entity: Entity)
    requires
        grid.wf(),
        grid.placed().len() == 0,
        grid.in_grid(at),
        entity is Structure && takes_cells(entity) ==> fits(
            at,
            entity.extent(),
            grid.width(),
            grid.height(),
        ),
    ensures
        grid.state_of(at) == CellState::AvailableEmpty,
        grid.can_place(at, entity),
        forall|id: u128| !has_id(grid.placed(), id),
{
}

/// After an entity has been placed, it stands on each of its cells under
/// its identity, and each of these cells is occupied: unavailable where the
/// entity blocks, and available to others where it does not.
pub proof fn lemma_placed_entity_occupies(
    before: &Grid,
    after: &Grid,
    at: (usize, usize),
    entity: Entity,
    id: u128,
    cell: (usize, usize),
)
    requires
        before.wf(),
        before.can_place(at, entity),
        before.with_entity(after, at, entity, id),
        takes_cells(entity),
        covered(at, entity.extent(), cell),
    ensures
        stands_at(after.placed(), cell, id),
        after.state_of(cell) == (if entity.blocks() {
            CellState::UnavailableOccupied
        } else {
            CellState::AvailableOccupied
        }),
{
    let placed = after.placed();
    let last = before.placed().len() as int;
    assert(placed[last].covers(cell) && placed[last].id == id);
    assert(occupied(placed, cell));
    if !entity.blocks() {
        assert(cell == at);
        if blocked(placed, cell) {
            let k = choose|k: int|
                0 <= k < placed.len() && (#[trigger] placed[k]).covers(cell)
                    && placed[k].entity.blocks();
            assert(before.placed()[k] == placed[k]);
        }
    }
}

/// A structure cannot be placed where one of the cells that it would take
/// is outside the grid or holds a blocking entity: `add_entity` and
/// `place_entity` then fail with `CellUnavailable` and change nothing.
pub proof fn lemma_taken_cell_refuses_structure(
    grid: &Grid,
    at: (usize, usize),
    entity: Entity,
    cell: (usize, usize),
)
    requires
        grid.wf(),
        entity is Structure,
        covered(at, entity.extent(), cell),
        grid.state_of(cell) == CellState::UnavailableOccupied || grid.state_of(cell)
            == CellState::OutOfBounds,
    ensures
        !grid.can_place(at, entity),
{
}

/// After an entity has been removed it stands on none of the cells that it
/// took: a cell is occupied afterwards only where another entity stands on
/// it, and is empty where none does.
pub proof fn lemma_removed_entity_leaves_every_cell(
    before: &Grid,
    after: &Grid,
    id: u128,
    cell: (usize, usize),
)
    requires
        before.wf(),
        has_id(before.placed(), id),
        before.without_entity(after, id),
    ensures
        !stands_at(after.placed(), cell, id),
        occupied(after.placed(), cell) <==> exists|i: int|
            0 <= i < before.placed().len() && (#[trigger] before.placed()[i]).covers(cell)
                && before.placed()[i].id != id,
        before.in_grid(cell) && !occupied(after.placed(), cell) ==> after.state_of(cell)
            == CellState::AvailableEmpty,
{
    before.lemma_wf();
    let old_placed = before.placed();
    let new_placed = after.placed();
    let k = index_of_id(old_placed, id);
    lemma_index_of_id(old_placed, id);
    assert forall|i: int| 0 <= i < new_placed.len() implies (#[trigger] new_placed[i]).id != id by {
        if i < k {
            assert(new_placed[i] == old_placed[i]);
        } else {
            assert(new_placed[i] == old_placed[i + 1]);
            assert(old_placed[k].id != old_placed[i + 1].id);
        }
    }
    if occupied(new_placed, cell) {
        let i = choose|i: int| 0 <= i < new_placed.len() && (#[trigger] new_placed[i]).covers(cell);
        let j = if i < k {
            i
        } else {
            i + 1
        };
        assert(new_placed[i] == old_placed[j]);
        assert(old_placed[j].covers(cell) && old_placed[j].id != id);
    }
    if exists|i: int|
        0 <= i < old_placed.len() && (#[trigger] old_placed[i]).covers(cell) && old_placed[i].id
            != id {
        let i = choose|i: int|
            0 <= i < old_placed.len() && (#[trigger] old_placed[i]).covers(cell)
                && old_placed[i].id != id;
        let j = if i < k {
            i
        } else {
            i - 1
        };
        assert(new_placed[j] == old_placed[i]);
        assert(new_placed[j].covers(cell));
    }
    if !occupied(new_placed, cell) && blocked(new_placed, cell) {
        let i = choose|i: int|
            0 <= i < new_placed.len() && (#[trigger] new_placed[i]).covers(cell)
                && new_placed[i].entity.blocks();
        assert(new_placed[i].covers(cell));
    }
}

/// Every cell that an entity of a well-formed grid takes belongs to the
/// grid, and the entity stands on it under its identity.
pub proof fn lemma_entity_cells(grid: &Grid, i: int, cell: (usize, usize))
    requires
        grid.wf(),
        0 <= i < grid.placed().len(),
        grid.placed()[i].covers(cell),
    ensures
        grid.in_grid(cell),
        stands_at(grid.placed(), cell, grid.placed()[i].id),
        occupied(grid.placed(), cell),
{
    grid.lemma_wf();
    let e: GridEntity = grid.placed()[i];
    assert(fits(e.parent, e.size, grid.width(), grid.height()));
}

} // verus!
