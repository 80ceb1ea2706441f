//! The grid: placing and removing entities, registering effects, and the
//! steps of a tick.

use crate::effects::{
    distinct_effects, find_effect, first_effect, has_effect, lemma_registered_effect,
    lemma_removed_effect, EffectRef,
};
use crate::entities::structure::Size;
use crate::entities::{Entity, EntityType};
use crate::map::cells::{blank_square, cells_of, CellArray};
use crate::map::lookup::{
    cells_named, closest, first_road_beside, is_closest, is_first_road_beside, named_cells,
    structure_at,
};
use crate::map::placed::{
    blocked, footprint_is_free, has_id, identities, ids_of, index_of_id, lemma_index_of_id,
    occupation, occupied, position_of, stands_at, takes_cells, well_placed,
};
use crate::map::reach::{after_effects, apply_effects};
use crate::map::ticks::{after_production, after_tick, produce_all};
use crate::map::{covered, fits, Cell, CellState, Grid, GridEntity, GridError};
use crate::production::exchange::{CommodityExchange, ExchangeError};
use uuid::Uuid;
use vstd::prelude::*;

verus! {

/// `Uuid::new_v4`, read by `Uuid::as_u128` as the number of 128 bits that it
/// stands for. Trusted, and nothing is stated of the number: it is drawn at
/// random. That the system has random numbers to give is taken for granted.
#[verifier::external_body]
fn random_id() -> u128 {
    Uuid::new_v4().as_u128()
}

impl Grid {
    /// The number of columns.
    pub closed spec fn width(&self) -> usize {
        self.width
    }

    /// The number of rows.
    pub closed spec fn height(&self) -> usize {
        self.height
    }

    /// The entities on the grid, in the order in which they were placed.
    pub closed spec fn placed(&self) -> Seq<GridEntity> {
        self.entities@
    }

    /// The cells of the grid, by their coordinates.
    pub closed spec fn cells(&self) -> Map<(usize, usize), Cell> {
        cells_of(self.cells)
    }

    /// The effects that are active everywhere, in the order in which they
    /// were registered.
    pub closed spec fn global_effects(&self) -> Seq<EffectRef> {
        self.active_effects@
    }

    /// What holds of every grid that this module hands out: there is a cell
    /// for each pair of coordinates within the width and the height and for
    /// no other, no two entities share an identity, and each entity has a
    /// cell and lies within the grid.
    pub closed spec fn wf(&self) -> bool {
        &&& forall|at: (usize, usize)|
            cells_of(self.cells).contains_key(at) <==> at.0 < self.width && at.1 < self.height
        &&& self.width * self.height <= isize::MAX
        &&& well_placed(self.entities@, self.width, self.height)
    }

    /// Whether the cell `at` belongs to the grid.
    pub open spec fn in_grid(&self, at: (usize, usize)) -> bool {
        at.0 < self.width() && at.1 < self.height()
    }

    /// The effects that are active on the cell `at`, in the order in which
    /// they were registered.
    pub open spec fn cell_effects(&self, at: (usize, usize)) -> Seq<EffectRef> {
        self.cells()[at].active_effects@
    }

    /// The state of the cell `at`.
    pub open spec fn state_of(&self, at: (usize, usize)) -> CellState {
        if !self.in_grid(at) {
            CellState::OutOfBounds
        } else if blocked(self.placed(), at) {
            CellState::UnavailableOccupied
        } else if occupied(self.placed(), at) {
            CellState::AvailableOccupied
        } else {
            CellState::AvailableEmpty
        }
    }

    /// Whether walkers can pass over the cell `at`: it belongs to the grid
    /// and no blocking entity stands on it.
    pub open spec fn passable(&self, at: (usize, usize)) -> bool {
        self.in_grid(at) && !blocked(self.placed(), at)
    }

    /// Whether `entity` can be placed at `at`: the cell belongs to the grid
    /// and no blocking entity stands on it, and, for a structure, the same
    /// holds of every cell that it would take.
    pub open spec fn can_place(&self, at: (usize, usize), entity: Entity) -> bool {
        &&& self.passable(at)
        &&& (entity is Structure && takes_cells(entity)) ==> {
            &&& fits(at, entity.extent(), self.width(), self.height())
            &&& forall|c: (usize, usize)|
                covered(at, entity.extent(), c) ==> !blocked(self.placed(), c)
        }
    }

    /// Whether `other` has the width and the height of this grid.
    pub open spec fn same_shape(&self, other: &Grid) -> bool {
        self.width() == other.width() && self.height() == other.height()
    }

    /// Whether `other` has the cells and the global effects of this grid.
    pub open spec fn same_effects(&self, other: &Grid) -> bool {
        self.cells() == other.cells() && self.global_effects() == other.global_effects()
    }

    /// The facts about a well-formed grid that the definitions above rest on.
    pub proof fn lemma_wf(&self)
        requires
            self.wf(),
        ensures
            well_placed(self.placed(), self.width(), self.height()),
            self.width() * self.height() <= isize::MAX,
            forall|at: (usize, usize)| self.cells().contains_key(at) <==> self.in_grid(at),
    {
    }

    /// A square grid of `size` by `size` blank cells, without entities and
    /// without global effects.
    pub fn new(size: usize) -> (grid: Grid)
        requires
            size * size <= isize::MAX,
        ensures
            grid.wf(),
            grid.width() == size,
            grid.height() == size,
            grid.placed().len() == 0,
            grid.global_effects().len() == 0,
            blank_square(grid.cells(), size),
    {
        Grid {
            cells: CellArray::square(size),
            entities: Vec::new(),
            active_effects: Vec::new(),
            width: size,
            height: size,
        }
    }

    /// A square grid of `size` by `size` blank cells, without entities, on
    /// which `effects` are active everywhere.
    pub fn with_global_effects(size: usize, effects: Vec<EffectRef>) -> (grid: Grid)
        requires
            size * size <= isize::MAX,
        ensures
            grid.wf(),
            grid.width() == size,
            grid.height() == size,
            grid.placed().len() == 0,
            grid.global_effects() == effects@,
            blank_square(grid.cells(), size),
    {
        Grid {
            cells: CellArray::square(size),
            entities: Vec::new(),
            active_effects: effects,
            width: size,
            height: size,
        }
    }

    /// The width and the height of the grid.
    pub fn dimensions(&self) -> (size: (usize, usize))
        ensures
            size == (self.width(), self.height()),
    {
        (self.width, self.height)
    }

    /// Whether the cell belongs to the grid.
    pub fn is_cell_in_grid(&self, cell: (usize, usize)) -> (inside: bool)
        ensures
            inside == self.in_grid(cell),
    {
        self.width > cell.0 && self.height > cell.1
    }

    /// The state of the cell `at`: outside the grid, or classified by what
    /// stands on it.
    pub fn cell_state(&self, at: (usize, usize)) -> (state: CellState)
        requires
            self.wf(),
        ensures
            state == self.state_of(at),
    {
        match self.cells.get(at) {
            Some(_) => {
                let (any, blocking) = occupation(&self.entities, at);
                if blocking {
                    CellState::UnavailableOccupied
                } else if any {
                    CellState::AvailableOccupied
                } else {
                    CellState::AvailableEmpty
                }
            },
            None => CellState::OutOfBounds,
        }
    }

    /// Whether walkers can pass over the cell.
    pub fn is_cell_passable(&self, cell: (usize, usize)) -> (passable: bool)
        ensures
            passable == self.passable(cell),
    {
        if self.is_cell_in_grid(cell) {
            let (_, blocking) = occupation(&self.entities, cell);
            !blocking
        } else {
            false
        }
    }

    /// The identities of the entities on the grid, in the order in which
    /// they were placed.
    pub fn entity_ids(&self) -> (ids: Vec<u128>)
        ensures
            ids@ == ids_of(self.placed()),
    {
        identities(&self.entities)
    }

    /// The entity `id`, if it stands on the cell `at`.
    pub fn entity(&self, at: (usize, usize), id: u128) -> (found: Option<&Entity>)
        requires
            self.wf(),
        ensures
            found.is_some() == stands_at(self.placed(), at, id),
            found.is_some() ==> *found.unwrap() == self.placed()[index_of_id(
                self.placed(),
                id,
            )].entity,
    {
        let i: usize = position_of(&self.entities, id);
        proof {
            lemma_index_of_id(self.entities@, id);
        }
        if i < self.entities.len() && self.entities[i].occupies(at) {
            Some(&self.entities[i].entity)
        } else {
            proof {
                if stands_at(self.placed(), at, id) {
                    let k = choose|k: int|
                        0 <= k < self.entities@.len() && (#[trigger] self.entities@[k]).id == id
                            && self.entities@[k].covers(at);
                    assert(k == i);
                }
            }
            None
        }
    }

    /// Whether `after` is this grid with `entity` placed at `at` under the
    /// identity `id`: the entity comes last, anchored at `at` and with the
    /// cells of its kind, unless it is a structure without cells, which is
    /// placed nowhere. Nothing else differs.
    pub open spec fn with_entity(
        &self,
        after: &Grid,
        at: (usize, usize),
        entity: Entity,
        id: u128,
    ) -> bool {
        &&& self.same_shape(after)
        &&& self.same_effects(after)
        &&& after.placed() == (if takes_cells(entity) {
            self.placed().push(GridEntity { id, entity, parent: at, size: entity.extent() })
        } else {
            self.placed()
        })
    }

    /// Places `entity` at `at` under the identity `id`.
    ///
    /// This succeeds, with the state that the cell had before, exactly where
    /// the entity can be placed there and no entity on the grid has the
    /// identity yet. It fails with `CellUnavailable`, and changes nothing, in
    /// every other case.
    pub fn place_entity(&mut self, at: (usize, usize), entity: Entity, id: u128) -> (result: Result<
        (u128, CellState),
        GridError,
    >)
        requires
            old(self).wf(),
        ensures
            final(self).wf(),
            old(self).can_place(at, entity) && !has_id(old(self).placed(), id) ==> result == Ok::<
                (u128, CellState),
                GridError,
            >((id, old(self).state_of(at))) && old(self).with_entity(final(self), at, entity, id),
            !(old(self).can_place(at, entity) && !has_id(old(self).placed(), id)) ==> result
                == Err::<(u128, CellState), GridError>(GridError::CellUnavailable) && *final(self)
                == *old(self),
    {
        let state: CellState = self.cell_state(at);
        match state {
            CellState::AvailableEmpty | CellState::AvailableOccupied => {},
            _ => {
                return Err(GridError::CellUnavailable);
            },
        }
        let size: Size = entity.footprint();
        let structure: bool = match &entity {
            Entity::Structure { .. } => true,
            _ => false,
        };
        let takes: bool = !structure || (size.width >= 1 && size.height >= 1);
        if structure && takes && !footprint_is_free(&self.entities, at, size, self.width, self.height) {
            return Err(GridError::CellUnavailable);
        }
        let i: usize = position_of(&self.entities, id);
        proof {
            lemma_index_of_id(self.entities@, id);
        }
        if i < self.entities.len() {
            return Err(GridError::CellUnavailable);
        }
        if takes {
            let ghost before = self.entities@;
            self.entities.push(GridEntity { id, entity, parent: at, size });
            proof {
                assert forall|a: int, b: int| 0 <= a < b < self.entities@.len() implies (
                #[trigger] self.entities@[a]).id != (#[trigger] self.entities@[b]).id by {
                    if b == before.len() {
                        assert(before[a].id != id);
                    } else {
                        assert(before[a].id != before[b].id);
                    }
                }
            }
        }
        Ok((id, state))
    }

    /// Places `entity` at `at` under an identity that is drawn at random.
    ///
    /// This fails with `CellUnavailable`, and changes nothing, where the
    /// entity cannot be placed there: where `at` is outside the grid or holds
    /// a blocking entity, or where the entity is a structure and one of the
    /// cells that it would take is. It also fails so where the identity that
    /// was drawn is in use, which cannot happen on a grid without entities.
    /// On success the entity stands on the grid under the identity returned,
    /// which no other entity has, and the state returned is the one that the
    /// cell had before.
    pub fn add_entity(&mut self, at: (usize, usize), entity: Entity) -> (result: Result<
        (u128, CellState),
        GridError,
    >)
        requires
            old(self).wf(),
        ensures
            final(self).wf(),
            match result {
                Ok((id, state)) => {
                    &&& old(self).can_place(at, entity)
                    &&& !has_id(old(self).placed(), id)
                    &&& state == old(self).state_of(at)
                    &&& old(self).with_entity(final(self), at, entity, id)
                },
                Err(e) => e == GridError::CellUnavailable && *final(self) == *old(self),
            },
            !old(self).can_place(at, entity) ==> result.is_err(),
            old(self).can_place(at, entity) && old(self).placed().len() == 0 ==> result.is_ok(),
    {
        let id: u128 = random_id();
        self.place_entity(at, entity, id)
    }

    /// Whether `after` is this grid without the entity `id`.
    pub open spec fn without_entity(&self, after: &Grid, id: u128) -> bool {
        &&& self.same_shape(after)
        &&& self.same_effects(after)
        &&& after.placed() == self.placed().remove(index_of_id(self.placed(), id))
    }

    /// Takes the entity `id`, which stands on the cell `at`, off the grid,
    /// and with it off every cell that it took.
    ///
    /// This fails with `CellUnavailable` where `at` is outside the grid or
    /// nothing stands on it, and with `EntityMissing` where something does
    /// but not the entity `id`; a failure changes nothing. On success the
    /// state that the cell had before is returned.
    pub fn remove_entity(&mut self, at: (usize, usize), id: u128) -> (result: Result<
        CellState,
        GridError,
    >)
        requires
            old(self).wf(),
        ensures
            final(self).wf(),
            result == (if !old(self).in_grid(at) || !occupied(old(self).placed(), at) {
                Err::<CellState, GridError>(GridError::CellUnavailable)
            } else if !stands_at(old(self).placed(), at, id) {
                Err::<CellState, GridError>(GridError::EntityMissing)
            } else {
                Ok::<CellState, GridError>(old(self).state_of(at))
            }),
            result.is_ok() ==> old(self).without_entity(final(self), id),
            result.is_ok() ==> !has_id(final(self).placed(), id),
            result.is_err() ==> *final(self) == *old(self),
    {
        let state: CellState = self.cell_state(at);
        match state {
            CellState::AvailableOccupied | CellState::UnavailableOccupied => {},
            _ => {
                return Err(GridError::CellUnavailable);
            },
        }
        let i: usize = position_of(&self.entities, id);
        proof {
            lemma_index_of_id(self.entities@, id);
        }
        if i < self.entities.len() && self.entities[i].occupies(at) {
            let ghost before = self.entities@;
            self.entities.remove(i);
            proof {
                assert forall|a: int| 0 <= a < self.entities@.len() implies (
                #[trigger] self.entities@[a]).id != id && fits(
                    self.entities@[a].parent,
                    self.entities@[a].size,
                    self.width,
                    self.height,
                ) by {
                    if a < i {
                        assert(self.entities@[a] == before[a]);
                    } else {
                        assert(self.entities@[a] == before[a + 1]);
                        assert(before[i as int].id != before[a + 1].id);
                    }
                }
                assert forall|a: int, b: int| 0 <= a < b < self.entities@.len() implies (
                #[trigger] self.entities@[a]).id != (#[trigger] self.entities@[b]).id by {
                    let a0 = if a < i {
                        a
                    } else {
                        a + 1
                    };
                    let b0 = if b < i {
                        b
                    } else {
                        b + 1
                    };
                    assert(self.entities@[a] == before[a0]);
                    assert(self.entities@[b] == before[b0]);
                    assert(before[a0].id != before[b0].id);
                }
            }
            Ok(state)
        } else {
            proof {
                if stands_at(self.placed(), at, id) {
                    let k = choose|k: int|
                        0 <= k < self.entities@.len() && (#[trigger] self.entities@[k]).id == id
                            && self.entities@[k].covers(at);
                    assert(k == i);
                }
            }
            Err(GridError::EntityMissing)
        }
    }

    /// Whether `after` is this grid with `effects` as the effects that are
    /// active on the cell `at`. Nothing else differs.
    pub open spec fn with_cell_effects(
        &self,
        after: &Grid,
        at: (usize, usize),
        effects: Seq<EffectRef>,
    ) -> bool {
        &&& self.same_shape(after)
        &&& after.placed() == self.placed()
        &&& after.global_effects() == self.global_effects()
        &&& after.cells().dom() == self.cells().dom()
        &&& after.cells()[at].desirability == self.cells()[at].desirability
        &&& after.cell_effects(at) == effects
        &&& forall|c: (usize, usize)|
            c != at && self.in_grid(c) ==> #[trigger] after.cells()[c] == self.cells()[c]
    }

    /// Whether `after` is this grid with `effects` as the effects that are
    /// active everywhere. Nothing else differs.
    pub open spec fn with_effects(&self, after: &Grid, effects: Seq<EffectRef>) -> bool {
        &&& self.same_shape(after)
        &&& after.placed() == self.placed()
        &&& after.cells() == self.cells()
        &&& after.global_effects() == effects
    }

    /// Whether the effect is active on the cell; it is not where the cell is
    /// outside the grid.
    pub fn is_effect_in_cell(&self, cell: (usize, usize), effect: &EffectRef) -> (present: bool)
        requires
            self.wf(),
        ensures
            present == (self.in_grid(cell) && has_effect(self.cell_effects(cell), effect.id)),
    {
        match self.cells.get(cell) {
            None => false,
            Some(found) => {
                let i: usize = find_effect(&found.active_effects, effect.id);
                i < found.active_effects.len()
            },
        }
    }

    /// Whether the effect is active everywhere.
    pub fn is_effect_global(&self, effect: &EffectRef) -> (present: bool)
        ensures
            present == has_effect(self.global_effects(), effect.id),
    {
        let i: usize = find_effect(&self.active_effects, effect.id);
        i < self.active_effects.len()
    }

    /// Makes the effect active on the cell `at`.
    ///
    /// This fails with `CellUnavailable` where the cell is outside the grid,
    /// and with `EffectPresent` where the effect is active on it already; a
    /// failure changes nothing. On success the effect comes last among those
    /// of the cell, and the state of the cell is returned.
    pub fn add_cell_effect(&mut self, at: (usize, usize), effect: EffectRef) -> (result: Result<
        CellState,
        GridError,
    >)
        requires
            old(self).wf(),
        ensures
            final(self).wf(),
            result == (if !old(self).in_grid(at) {
                Err::<CellState, GridError>(GridError::CellUnavailable)
            } else if has_effect(old(self).cell_effects(at), effect.id) {
                Err::<CellState, GridError>(GridError::EffectPresent)
            } else {
                Ok::<CellState, GridError>(old(self).state_of(at))
            }),
            result.is_ok() ==> old(self).with_cell_effects(
                final(self),
                at,
                old(self).cell_effects(at).push(effect),
            ),
            result.is_err() ==> *final(self) == *old(self),
            distinct_effects(old(self).cell_effects(at)) ==> distinct_effects(
                final(self).cell_effects(at),
            ),
    {
        proof {
            lemma_registered_effect(self.cell_effects(at), effect);
        }
        let state: CellState = self.cell_state(at);
        match state {
            CellState::OutOfBounds => Err(GridError::CellUnavailable),
            _ => {
                if self.is_effect_in_cell(at, &effect) {
                    Err(GridError::EffectPresent)
                } else {
                    let cell = self.cells.get_mut(at);
                    cell.active_effects.push(effect);
                    assert(self.cells().dom() =~= old(self).cells().dom());
                    Ok(state)
                }
            },
        }
    }

    /// Takes the effect off the cell `at`.
    ///
    /// This fails with `CellUnavailable` where the cell is outside the grid,
    /// and with `EffectMissing` where the effect is not active on it; a
    /// failure changes nothing. On success the first registration of the
    /// effect is gone, and the state of the cell is returned.
    pub fn remove_cell_effect(&mut self, at: (usize, usize), effect: &EffectRef) -> (result: Result<
        CellState,
        GridError,
    >)
        requires
            old(self).wf(),
        ensures
            final(self).wf(),
            result == (if !old(self).in_grid(at) {
                Err::<CellState, GridError>(GridError::CellUnavailable)
            } else if !has_effect(old(self).cell_effects(at), effect.id) {
                Err::<CellState, GridError>(GridError::EffectMissing)
            } else {
                Ok::<CellState, GridError>(old(self).state_of(at))
            }),
            result.is_ok() ==> old(self).with_cell_effects(
                final(self),
                at,
                old(self).cell_effects(at).remove(
                    first_effect(old(self).cell_effects(at), effect.id),
                ),
            ),
            result.is_err() ==> *final(self) == *old(self),
            distinct_effects(old(self).cell_effects(at)) ==> distinct_effects(
                final(self).cell_effects(at),
            ) && !(result.is_ok() && has_effect(final(self).cell_effects(at), effect.id)),
    {
        proof {
            if distinct_effects(self.cell_effects(at)) && has_effect(
                self.cell_effects(at),
                effect.id,
            ) {
                lemma_removed_effect(self.cell_effects(at), effect.id);
            }
        }
        let state: CellState = self.cell_state(at);
        match state {
            CellState::OutOfBounds => Err(GridError::CellUnavailable),
            _ => {
                if self.is_effect_in_cell(at, effect) {
                    let cell = self.cells.get_mut(at);
                    let i: usize = find_effect(&cell.active_effects, effect.id);
                    cell.active_effects.remove(i);
                    assert(self.cells().dom() =~= old(self).cells().dom());
                    Ok(state)
                } else {
                    Err(GridError::EffectMissing)
                }
            },
        }
    }

    /// Takes every effect off the cell `at`.
    ///
    /// This fails with `CellUnavailable`, and changes nothing, where the cell
    /// is outside the grid. On success the state of the cell is returned.
    pub fn clear_cell_effects(&mut self, at: (usize, usize)) -> (result: Result<
        CellState,
        GridError,
    >)
        requires
            old(self).wf(),
        ensures
            final(self).wf(),
            result == (if !old(self).in_grid(at) {
                Err::<CellState, GridError>(GridError::CellUnavailable)
            } else {
                Ok::<CellState, GridError>(old(self).state_of(at))
            }),
            result.is_ok() ==> old(self).with_cell_effects(final(self), at, Seq::empty()),
            result.is_err() ==> *final(self) == *old(self),
    {
        let state: CellState = self.cell_state(at);
        match state {
            CellState::OutOfBounds => Err(GridError::CellUnavailable),
            _ => {
                let cell = self.cells.get_mut(at);
                cell.active_effects.clear();
                assert(self.cells().dom() =~= old(self).cells().dom());
                Ok(state)
            },
        }
    }

    /// Makes the effect active everywhere.
    ///
    /// This fails with `EffectPresent`, and changes nothing, where the effect
    /// is active everywhere already. On success it comes last among the
    /// global effects.
    pub fn add_global_effect(&mut self, effect: EffectRef) -> (result: Result<(), GridError>)
        requires
            old(self).wf(),
        ensures
            final(self).wf(),
            result == (if has_effect(old(self).global_effects(), effect.id) {
                Err::<(), GridError>(GridError::EffectPresent)
            } else {
                Ok::<(), GridError>(())
            }),
            result.is_ok() ==> old(self).with_effects(
                final(self),
                old(self).global_effects().push(effect),
            ),
            result.is_err() ==> *final(self) == *old(self),
            distinct_effects(old(self).global_effects()) ==> distinct_effects(
                final(self).global_effects(),
            ),
    {
        proof {
            lemma_registered_effect(self.global_effects(), effect);
        }
        if self.is_effect_global(&effect) {
            Err(GridError::EffectPresent)
        } else {
            self.active_effects.push(effect);
            Ok(())
        }
    }

    /// Takes the effect off the global effects.
    ///
    /// This fails with `EffectMissing`, and changes nothing, where the effect
    /// is not active everywhere. On success its first registration is gone.
    pub fn remove_global_effect(&mut self, effect: &EffectRef) -> (result: Result<(), GridError>)
        requires
            old(self).wf(),
        ensures
            final(self).wf(),
            result == (if has_effect(old(self).global_effects(), effect.id) {
                Ok::<(), GridError>(())
            } else {
                Err::<(), GridError>(GridError::EffectMissing)
            }),
            result.is_ok() ==> old(self).with_effects(
                final(self),
                old(self).global_effects().remove(
                    first_effect(old(self).global_effects(), effect.id),
                ),
            ),
            result.is_err() ==> *final(self) == *old(self),
            distinct_effects(old(self).global_effects()) ==> distinct_effects(
                final(self).global_effects(),
            ) && !(result.is_ok() && has_effect(final(self).global_effects(), effect.id)),
    {
        proof {
            if distinct_effects(self.global_effects()) && has_effect(
                self.global_effects(),
                effect.id,
            ) {
                lemma_removed_effect(self.global_effects(), effect.id);
            }
        }
        let i: usize = find_effect(&self.active_effects, effect.id);
        if i < self.active_effects.len() {
            self.active_effects.remove(i);
            Ok(())
        } else {
            Err(GridError::EffectMissing)
        }
    }

    /// Takes every effect off the global effects.
    pub fn clear_global_effects(&mut self)
        requires
            old(self).wf(),
        ensures
            final(self).wf(),
            old(self).with_effects(final(self), Seq::empty()),
    {
        self.active_effects.clear()
    }

    /// Whether `after` is this grid with `placed` as its entities. Nothing
    /// else differs.
    pub open spec fn with_entities(&self, after: &Grid, placed: Seq<GridEntity>) -> bool {
        &&& self.same_shape(after)
        &&& self.same_effects(after)
        &&& after.placed() == placed
    }

    /// Applies the effects that are active on the cell `at` to every entity
    /// inside the window of `range` cells round it: each effect, in the
    /// order of registration, to each entity of which some cell is at most
    /// `range` cells from `at` across and down.
    pub fn apply_cell_effects(&mut self, at: (usize, usize), range: usize)
        requires
            old(self).wf(),
            old(self).in_grid(at),
        ensures
            final(self).wf(),
            old(self).with_entities(
                final(self),
                after_effects(old(self).placed(), old(self).cell_effects(at), Some((at, range))),
            ),
    {
        match self.cells.get(at) {
            Some(cell) => {
                apply_effects(&mut self.entities, &cell.active_effects, Some((at, range)));
            },
            None => {},
        }
    }

    /// Applies the global effects to every entity on the grid: each effect,
    /// in the order of registration, to each entity.
    pub fn apply_global_effects(&mut self)
        requires
            old(self).wf(),
        ensures
            final(self).wf(),
            old(self).with_entities(
                final(self),
                after_effects(old(self).placed(), old(self).global_effects(), None),
            ),
    {
        apply_effects(&mut self.entities, &self.active_effects, None);
    }

    /// Lets each entity that stands on the cell `at` produce, in the order
    /// in which the entities were placed, and reports what it produced to
    /// the exchange, for which the entities of the grid are the live ones.
    /// Returns the reports that the exchange refused: there are none, since
    /// only resources and structures produce.
    pub fn produce_at(&mut self, at: (usize, usize), exchange: &mut CommodityExchange) -> (failures:
        Vec<ExchangeError>)
        requires
            old(self).wf(),
        ensures
            final(self).wf(),
            old(self).same_shape(final(self)),
            old(self).same_effects(final(self)),
            after_production(old(self).placed(), final(self).placed(), at),
            final(exchange)@ == after_tick(
                old(exchange)@,
                old(self).placed(),
                at,
                ids_of(old(self).placed()),
            ),
            old(exchange)@.keyed() ==> final(exchange)@.keyed(),
            failures@.len() == 0,
    {
        let live: Vec<u128> = identities(&self.entities);
        produce_all(&mut self.entities, at, exchange, &live)
    }

    /// Where the entities of the kind `entity_type` that are named
    /// `with_name` stand: one cell for each, in the order in which the
    /// entities were placed. For an entity that takes several cells it is the
    /// last of them in a scan of the grid column by column, the one at the
    /// bottom right.
    pub fn find_named_entities(&self, entity_type: EntityType, with_name: String) -> (found: Vec<
        (usize, usize),
    >)
        requires
            self.wf(),
        ensures
            found@ == named_cells(self.placed(), entity_type, with_name@),
    {
        cells_named(&self.entities, entity_type, &with_name, self.width, self.height)
    }

    /// Of the cells that `find_named_entities` gives, the one closest to
    /// `close_to`, with the square of its distance from there, held at the
    /// largest `u128`. Of several cells that are as close, the one that a
    /// scan of the grid column by column reaches first is returned: the one
    /// further to the left, and of two in one column the upper one. Nothing
    /// is returned where no entity is of that kind and name.
    pub fn find_closest_named_entity(
        &self,
        entity_type: EntityType,
        with_name: String,
        close_to: &(usize, usize),
    ) -> (found: Option<((usize, usize), u128)>)
        requires
            self.wf(),
        ensures
            is_closest(named_cells(self.placed(), entity_type, with_name@), *close_to, found),
    {
        let cells = cells_named(&self.entities, entity_type, &with_name, self.width, self.height);
        closest(&cells, close_to)
    }

    /// The first cell with a road on it beside the structure `id`, which
    /// stands on the cell `next_to`: the cells to the left and the right of
    /// its rows and above and below its columns are looked at row by row,
    /// each row from left to right. Nothing is returned where there is no
    /// such cell, where the entity `id` does not stand on `next_to`, or where
    /// it is not a structure.
    pub fn find_first_adjacent_road(&self, next_to: (usize, usize), id: u128) -> (found: Option<
        (usize, usize),
    >)
        requires
            self.wf(),
        ensures
            match structure_at(self.placed(), next_to, id) {
                Some(e) => is_first_road_beside(self.placed(), e.parent, e.size, found),
                None => found.is_none(),
            },
    {
        let i: usize = position_of(&self.entities, id);
        proof {
            lemma_index_of_id(self.entities@, id);
            if stands_at(self.placed(), next_to, id) {
                let k = choose|k: int|
                    0 <= k < self.entities@.len() && (#[trigger] self.entities@[k]).id == id
                        && self.entities@[k].covers(next_to);
                assert(k == i);
            }
        }
        if i >= self.entities.len() || !self.entities[i].occupies(next_to) {
            return None;
        }
        match self.entities[i].entity {
            Entity::Structure { .. } => {},
            _ => {
                return None;
            },
        }
        assert(fits(
            self.entities@[i as int].parent,
            self.entities@[i as int].size,
            self.width,
            self.height,
        ));
        first_road_beside(
            &self.entities,
            self.entities[i].parent,
            self.entities[i].size,
            self.width,
            self.height,
        )
    }
}

} // verus!
