//! The grid, what stands on it, and the cursor that sweeps it.

use crate::effects::EffectRef;
use crate::entities::structure::Size;
use crate::entities::Entity;
use crate::map::cells::CellArray;
use crate::production::exchange::ExchangeError;
use vstd::prelude::*;

pub mod cells;
pub mod cursor;
pub mod grid;
pub mod laws;
pub mod lookup;
pub mod placed;
pub mod reach;
pub mod search;
pub mod ticks;

verus! {

/// How a cell stands to placement and traversal.
#[derive(PartialEq, Eq, Structural, Clone, Copy, Debug)]
pub enum CellState {
    /// In the grid, with nothing on it.
    AvailableEmpty,
    /// In the grid, holding only roads, roadblocks and walkers.
    AvailableOccupied,
    /// In the grid, holding a doodad, a resource or a structure.
    UnavailableOccupied,
    /// Outside the grid.
    OutOfBounds,
}

/// What a walker may step on.
#[derive(PartialEq, Eq, Structural, Clone, Copy, Debug)]
pub enum TraversalType {
    RoadOnly,
    EmptyOnly,
    RoadOrEmpty,
}

/// Why an operation on the grid was refused.
#[derive(PartialEq, Eq, Structural, Clone, Copy, Debug)]
pub enum GridError {
    /// The cell is outside the grid, or it is not in the state that the
    /// operation needs.
    CellUnavailable,
    /// The cell holds no entity with the given identity.
    EntityMissing,
    /// The effect is registered already.
    EffectPresent,
    /// The effect is not registered.
    EffectMissing,
}

/// The way a cursor sweeps the grid. `Right` runs along a row from left to
/// right and goes on with the row below; `Left` is its mirror image; `Down`
/// runs along a column from top to bottom and goes on with the column to the
/// right; `Up` is its mirror image. Each wraps round at the end of the grid.
#[derive(PartialEq, Eq, Structural, Clone, Copy, Debug)]
pub enum Direction {
    Up,
    Down,
    Left,
    Right,
}

/// Why a tick failed.
#[derive(PartialEq, Eq, Debug)]
pub enum CursorError {
    /// The grid refused an operation of the tick.
    ForGrid { e: GridError },
    /// The exchange refused reports of the tick: one error for each.
    ForExchange { errors: Vec<ExchangeError> },
}

/// The position from which the simulation proceeds, one cell for each tick.
pub struct Cursor {
    cell: (usize, usize),
    direction: Direction,
    range: usize,
}

/// An entity on the grid: its identity, its present value, the cell that it
/// is anchored at and the cells that it takes from there.
pub struct GridEntity {
    pub id: u128,
    pub entity: Entity,
    pub parent: (usize, usize),
    pub size: Size,
}

/// What a cell holds of its own: a desirability and the effects that are
/// active on it. The entities that stand on a cell are kept by the grid.
pub struct Cell {
    pub desirability: i8,
    pub active_effects: Vec<EffectRef>,
}

/// A rectangle of cells, the entities that stand on them, and the effects
/// that are active everywhere.
pub struct Grid {
    cells: CellArray,
    entities: Vec<GridEntity>,
    active_effects: Vec<EffectRef>,
    width: usize,
    height: usize,
}

/// Whether the cell `at` lies in the rectangle of `size` cells whose top left
/// cell is `parent`.
pub open spec fn covered(parent: (usize, usize), size: Size, at: (usize, usize)) -> bool {
    &&& parent.0 <= at.0 < parent.0 + size.width
    &&& parent.1 <= at.1 < parent.1 + size.height
}

/// Whether the rectangle of `size` cells at `parent` has a cell and lies
/// within a grid of `width` by `height` cells.
pub open spec fn fits(parent: (usize, usize), size: Size, width: usize, height: usize) -> bool {
    &&& size.width >= 1
    &&& size.height >= 1
    &&& parent.0 + size.width <= width
    &&& parent.1 + size.height <= height
}

/// Whether two rectangles, each with a cell, share one.
pub open spec fn overlapping(a: (usize, usize), a_size: Size, b: (usize, usize), b_size: Size) -> bool {
    &&& a.0 < b.0 + b_size.width
    &&& b.0 < a.0 + a_size.width
    &&& a.1 < b.1 + b_size.height
    &&& b.1 < a.1 + a_size.height
}

/// Two rectangles overlap exactly when some cell lies in both.
pub proof fn lemma_overlapping(a: (usize, usize), a_size: Size, b: (usize, usize), b_size: Size)
    requires
        a_size.width >= 1,
        a_size.height >= 1,
        b_size.width >= 1,
        b_size.height >= 1,
    ensures
        overlapping(a, a_size, b, b_size) <==> exists|c: (usize, usize)|
            covered(a, a_size, c) && covered(b, b_size, c),
{
    if overlapping(a, a_size, b, b_size) {
        let x: usize = if a.0 >= b.0 {
            a.0
        } else {
            b.0
        };
        let y: usize = if a.1 >= b.1 {
            a.1
        } else {
            b.1
        };
        assert(covered(a, a_size, (x, y)) && covered(b, b_size, (x, y)));
    }
}

impl GridEntity {
    /// Whether this entity takes the cell `at`.
    pub open spec fn covers(self, at: (usize, usize)) -> bool {
        covered(self.parent, self.size, at)
    }

    /// Puts `entity` in the place of the present value.
    pub fn replace_entity(&mut self, entity: Entity)
        ensures
            final(self).entity == entity,
            final(self).id == old(self).id,
            final(self).parent == old(self).parent,
            final(self).size == old(self).size,
    {
        self.entity = entity;
    }

    /// Whether this entity takes the cell `at`.
    pub fn occupies(&self, at: (usize, usize)) -> (covered: bool)
        ensures
            covered == self.covers(at),
    {
        self.parent.0 <= at.0 && at.0 - self.parent.0 < self.size.width as usize && self.parent.1
            <= at.1 && at.1 - self.parent.1 < self.size.height as usize
    }
}

impl Cell {
    /// Whether the cell is as `empty` makes it.
    pub open spec fn is_blank(self) -> bool {
        self.desirability == 0 && self.active_effects@.len() == 0
    }

    /// A cell without effects and of neutral desirability.
    pub fn empty() -> (cell: Cell)
        ensures
            cell.is_blank(),
    {
        Cell { desirability: 0, active_effects: Vec::new() }
    }
}

} // verus!
