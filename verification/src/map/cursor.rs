//! The cursor: where it goes next, and what a tick does.

use crate::map::placed::ids_of;
use crate::map::reach::after_effects;
use crate::map::ticks::{after_production, after_tick};
use crate::map::{Cursor, CursorError, Direction, Grid, GridEntity};
use crate::production::exchange::CommodityExchange;
use vstd::prelude::*;

verus! {

/// The cell that follows `cell` in a sweep of a grid of `width` by `height`
/// cells in the direction `direction`.
///
/// `Right` goes one cell to the right, and from the end of a row to the start
/// of the row below; from the last row it goes back to the first. `Left` goes
/// one cell to the left, and from the start of a row to the end of the row
/// above; from the first row it goes to the last. `Down` and `Up` do the same
/// with columns in the place of rows.
pub open spec fn next_cell(
    cell: (usize, usize),
    width: usize,
    height: usize,
    direction: Direction,
) -> (usize, usize) {
    let (x, y) = cell;
    match direction {
        Direction::Up => if y == 0 {
            (
                if x == 0 {
                    (width - 1) as usize
                } else {
                    (x - 1) as usize
                },
                (height - 1) as usize,
            )
        } else {
            (x, (y - 1) as usize)
        },
        Direction::Down => if y + 1 == height {
            (
                if x + 1 == width {
                    0
                } else {
                    (x + 1) as usize
                },
                0,
            )
        } else {
            (x, (y + 1) as usize)
        },
        Direction::Left => if x == 0 {
            (
                (width - 1) as usize,
                if y == 0 {
                    (height - 1) as usize
                } else {
                    (y - 1) as usize
                },
            )
        } else {
            ((x - 1) as usize, y)
        },
        Direction::Right => if x + 1 == width {
            (
                0,
                if y + 1 == height {
                    0
                } else {
                    (y + 1) as usize
                },
            )
        } else {
            ((x + 1) as usize, y)
        },
    }
}

/// The cell that a sweep reaches from `start` in `steps` steps.
pub open spec fn sweep(
    start: (usize, usize),
    width: usize,
    height: usize,
    direction: Direction,
    steps: nat,
) -> (usize, usize)
    decreases steps,
{
    if steps == 0 {
        start
    } else {
        next_cell(sweep(start, width, height, direction, (steps - 1) as nat), width, height, direction)
    }
}

/// The place of `cell` in the order in which a sweep in the direction
/// `direction` visits the cells, counted from the cell that the sweep visits
/// after wrapping round.
pub open spec fn sweep_rank(
    cell: (usize, usize),
    width: usize,
    height: usize,
    direction: Direction,
) -> int {
    let (x, y) = cell;
    match direction {
        Direction::Right => y * width + x,
        Direction::Left => (height - 1 - y) * width + (width - 1 - x),
        Direction::Down => x * height + y,
        Direction::Up => (width - 1 - x) * height + (height - 1 - y),
    }
}

/// `rank`, moved on by `steps` places in a cycle of `length` places.
pub open spec fn rank_after(rank: int, steps: int, length: int) -> int {
    if rank + steps < length {
        rank + steps
    } else {
        rank + steps - length
    }
}

/// `row * width + column` numbers the cells of a table: the number is below
/// the count of cells, and two cells with the same number are the same.
proof fn lemma_numbering(row: int, column: int, other_row: int, other_column: int, width: int, height: int)
    requires
        0 <= row < height,
        0 <= column < width,
        0 <= other_row < height,
        0 <= other_column < width,
    ensures
        0 <= row * width + column < width * height,
        row * width + column == other_row * width + other_column ==> row == other_row && column
            == other_column,
        (row + 1) * width == row * width + width,
{
    assert(0 <= row * width + column < width * height) by (nonlinear_arith)
        requires
            0 <= row < height,
            0 <= column < width,
    ;
    assert((row + 1) * width == row * width + width) by (nonlinear_arith);
    if row * width + column == other_row * width + other_column {
        assert(row == other_row) by (nonlinear_arith)
            requires
                row * width + column == other_row * width + other_column,
                0 <= column < width,
                0 <= other_column < width,
        ;
    }
}

/// The rank of a cell of the grid is below the number of cells; the cell
/// that follows it is a cell of the grid and has the next rank, or the first
/// after the last.
pub proof fn lemma_next_cell(cell: (usize, usize), width: usize, height: usize, direction: Direction)
    requires
        cell.0 < width,
        cell.1 < height,
    ensures
        next_cell(cell, width, height, direction).0 < width,
        next_cell(cell, width, height, direction).1 < height,
        0 <= sweep_rank(cell, width, height, direction) < width * height,
        sweep_rank(next_cell(cell, width, height, direction), width, height, direction)
            == rank_after(sweep_rank(cell, width, height, direction), 1, width * height),
{
    let (x, y) = cell;
    let w = width as int;
    let h = height as int;
    let next = next_cell(cell, width, height, direction);
    assert(0 * w == 0 && 0 * h == 0) by (nonlinear_arith);
    assert(h * w == w * h) by (nonlinear_arith);
    assert((h - 1) * w + (w - 1) == w * h - 1) by (nonlinear_arith);
    assert((w - 1) * h + (h - 1) == w * h - 1) by (nonlinear_arith);
    match direction {
        Direction::Right => {
            lemma_numbering(y as int, x as int, next.1 as int, next.0 as int, w, h);
            lemma_numbering(next.1 as int, next.0 as int, y as int, x as int, w, h);
        },
        Direction::Left => {
            lemma_numbering(h - 1 - y, w - 1 - x, h - 1 - next.1, w - 1 - next.0, w, h);
            lemma_numbering(h - 1 - next.1, w - 1 - next.0, h - 1 - y, w - 1 - x, w, h);
        },
        Direction::Down => {
            lemma_numbering(x as int, y as int, next.0 as int, next.1 as int, h, w);
            lemma_numbering(next.0 as int, next.1 as int, x as int, y as int, h, w);
        },
        Direction::Up => {
            lemma_numbering(w - 1 - x, h - 1 - y, w - 1 - next.0, h - 1 - next.1, h, w);
            lemma_numbering(w - 1 - next.0, h - 1 - next.1, w - 1 - x, h - 1 - y, h, w);
        },
    }
}

/// Two cells of the grid with the same rank are the same cell.
pub proof fn lemma_rank_is_one_to_one(
    a: (usize, usize),
    b: (usize, usize),
    width: usize,
    height: usize,
    direction: Direction,
)
    requires
        a.0 < width,
        a.1 < height,
        b.0 < width,
        b.1 < height,
        sweep_rank(a, width, height, direction) == sweep_rank(b, width, height, direction),
    ensures
        a == b,
{
    let w = width as int;
    let h = height as int;
    match direction {
        Direction::Right => {
            lemma_numbering(a.1 as int, a.0 as int, b.1 as int, b.0 as int, w, h);
        },
        Direction::Left => {
            lemma_numbering(h - 1 - a.1, w - 1 - a.0, h - 1 - b.1, w - 1 - b.0, w, h);
        },
        Direction::Down => {
            lemma_numbering(a.0 as int, a.1 as int, b.0 as int, b.1 as int, h, w);
        },
        Direction::Up => {
            lemma_numbering(w - 1 - a.0, h - 1 - a.1, w - 1 - b.0, h - 1 - b.1, h, w);
        },
    }
}

/// After `steps` steps, at most as many as the grid has cells, a sweep
/// stands on a cell of the grid whose rank is the rank of the start moved on
/// by `steps`.
pub proof fn lemma_sweep_rank(
    start: (usize, usize),
    width: usize,
    height: usize,
    direction: Direction,
    steps: nat,
)
    requires
        start.0 < width,
        start.1 < height,
        steps <= width * height,
    ensures
        sweep(start, width, height, direction, steps).0 < width,
        sweep(start, width, height, direction, steps).1 < height,
        sweep_rank(sweep(start, width, height, direction, steps), width, height, direction)
            == rank_after(sweep_rank(start, width, height, direction), steps as int, width * height),
    decreases steps,
{
    lemma_next_cell(start, width, height, direction);
    if steps > 0 {
        let before = sweep(start, width, height, direction, (steps - 1) as nat);
        lemma_sweep_rank(start, width, height, direction, (steps - 1) as nat);
        lemma_next_cell(before, width, height, direction);
    }
}

/// A sweep that starts on a cell of the grid visits every cell once and is
/// back where it started after as many steps as the grid has cells: its
/// first `width * height` cells are cells of the grid, no two of them are
/// the same, and the next one is the start.
pub proof fn lemma_full_sweep(start: (usize, usize), width: usize, height: usize, direction: Direction)
    requires
        start.0 < width,
        start.1 < height,
    ensures
        sweep(start, width, height, direction, (width * height) as nat) == start,
        forall|i: nat|
            i < width * height ==> (#[trigger] sweep(start, width, height, direction, i)).0 < width
                && sweep(start, width, height, direction, i).1 < height,
        forall|i: nat, j: nat|
            i < j < width * height ==> #[trigger] sweep(start, width, height, direction, i)
                != #[trigger] sweep(start, width, height, direction, j),
{
    let cells = (width * height) as nat;
    lemma_next_cell(start, width, height, direction);
    lemma_sweep_rank(start, width, height, direction, cells);
    lemma_rank_is_one_to_one(
        sweep(start, width, height, direction, cells),
        start,
        width,
        height,
        direction,
    );
    assert forall|i: nat| i < width * height implies (#[trigger] sweep(
        start,
        width,
        height,
        direction,
        i,
    )).0 < width && sweep(start, width, height, direction, i).1 < height by {
        lemma_sweep_rank(start, width, height, direction, i);
    }
    assert forall|i: nat, j: nat| i < j < width * height implies #[trigger] sweep(
        start,
        width,
        height,
        direction,
        i,
    ) != #[trigger] sweep(start, width, height, direction, j) by {
        lemma_sweep_rank(start, width, height, direction, i);
        lemma_sweep_rank(start, width, height, direction, j);
        if sweep(start, width, height, direction, i) == sweep(start, width, height, direction, j) {
            assert(false);
        }
    }
}

/// The entities on which a tick lets producers work: those of the grid
/// after the effects of the cell `at` have been applied inside the window of
/// `range` cells round it and, where the sweep is about to start over, the
/// global effects have been applied everywhere.
pub open spec fn staged(grid: &Grid, at: (usize, usize), range: usize, starts_over: bool) -> Seq<
    GridEntity,
> {
    let local = after_effects(grid.placed(), grid.cell_effects(at), Some((at, range)));
    if starts_over {
        after_effects(local, grid.global_effects(), None)
    } else {
        local
    }
}

impl Cursor {
    /// The cell that the cursor stands on.
    pub closed spec fn cell(&self) -> (usize, usize) {
        self.cell
    }

    /// The direction in which the cursor sweeps.
    pub closed spec fn direction(&self) -> Direction {
        self.direction
    }

    /// How far the effects of a cell reach.
    pub closed spec fn range(&self) -> usize {
        self.range
    }

    /// A cursor on the cell `start` that sweeps in the direction `direction`
    /// and lets the effects of a cell reach `range` cells.
    pub fn new(range: usize, direction: Direction, start: (usize, usize)) -> (cursor: Cursor)
        ensures
            cursor.cell() == start,
            cursor.direction() == direction,
            cursor.range() == range,
    {
        Cursor { cell: start, direction, range }
    }

    /// The cell that the cursor stands on.
    pub fn position(&self) -> (cell: (usize, usize))
        ensures
            cell == self.cell(),
    {
        (self.cell.0, self.cell.1)
    }

    /// The cell that follows `(cell_x, cell_y)` in a sweep of a grid of
    /// `grid_width` by `grid_height` cells.
    pub fn calculate_next_cell(
        cell_x: usize,
        cell_y: usize,
        grid_width: usize,
        grid_height: usize,
        direction: &Direction,
    ) -> (next: (usize, usize))
        requires
            cell_x < grid_width,
            cell_y < grid_height,
        ensures
            next == next_cell((cell_x, cell_y), grid_width, grid_height, *direction),
            next.0 < grid_width,
            next.1 < grid_height,
    {
        match direction {
            Direction::Up => {
                if cell_y == 0 {
                    (
                        if cell_x == 0 {
                            grid_width - 1
                        } else {
                            cell_x - 1
                        },
                        grid_height - 1,
                    )
                } else {
                    (cell_x, cell_y - 1)
                }
            },
            Direction::Down => {
                if cell_y + 1 == grid_height {
                    (
                        if cell_x + 1 == grid_width {
                            0
                        } else {
                            cell_x + 1
                        },
                        0,
                    )
                } else {
                    (cell_x, cell_y + 1)
                }
            },
            Direction::Left => {
                if cell_x == 0 {
                    (
                        grid_width - 1,
                        if cell_y == 0 {
                            grid_height - 1
                        } else {
                            cell_y - 1
                        },
                    )
                } else {
                    (cell_x - 1, cell_y)
                }
            },
            Direction::Right => {
                if cell_x + 1 == grid_width {
                    (
                        0,
                        if cell_y + 1 == grid_height {
                            0
                        } else {
                            cell_y + 1
                        },
                    )
                } else {
                    (cell_x + 1, cell_y)
                }
            },
        }
    }

    /// One tick: processes the cell that the cursor stands on and moves the
    /// cursor to the next cell of its sweep.
    ///
    /// First the effects of the cell are applied to every entity inside the
    /// window of `range` cells round it. Then, where the next cell is the
    /// origin of the grid, the global effects are applied to every entity.
    /// Then each entity on the cell produces and reports what it produced to
    /// the exchange, for which the entities of the grid are the live ones.
    /// The result is `Ok`: the exchange refuses no report of a resource or a
    /// structure, and nothing else reports.
    pub fn process_and_advance(&mut self, grid: &mut Grid, exchange: &mut CommodityExchange) -> (result:
        Result<(), CursorError>)
        requires
            old(grid).wf(),
            old(grid).in_grid(old(self).cell()),
        ensures
            final(grid).wf(),
            final(self).cell() == next_cell(
                old(self).cell(),
                old(grid).width(),
                old(grid).height(),
                old(self).direction(),
            ),
            final(grid).in_grid(final(self).cell()),
            final(self).direction() == old(self).direction(),
            final(self).range() == old(self).range(),
            old(grid).same_shape(final(grid)),
            old(grid).same_effects(final(grid)),
            after_production(
                staged(
                    old(grid),
                    old(self).cell(),
                    old(self).range(),
                    final(self).cell() == (0usize, 0usize),
                ),
                final(grid).placed(),
                old(self).cell(),
            ),
            final(exchange)@ == after_tick(
                old(exchange)@,
                staged(
                    old(grid),
                    old(self).cell(),
                    old(self).range(),
                    final(self).cell() == (0usize, 0usize),
                ),
                old(self).cell(),
                ids_of(old(grid).placed()),
            ),
            old(exchange)@.keyed() ==> final(exchange)@.keyed(),
            result == Ok::<(), CursorError>(()),
    {
        let (width, height) = grid.dimensions();
        let next: (usize, usize) = Self::calculate_next_cell(
            self.cell.0,
            self.cell.1,
            width,
            height,
            &self.direction,
        );
        grid.apply_cell_effects(self.cell, self.range);
        if next.0 == 0 && next.1 == 0 {
            grid.apply_global_effects();
        }
        proof {
            let s = staged(old(grid), old(self).cell(), old(self).range(), next == (0usize, 0usize));
            assert(grid.placed() == s);
            assert(ids_of(s) =~= ids_of(old(grid).placed()));
        }
        let failures = grid.produce_at(self.cell, exchange);
        self.cell = next;
        if failures.len() == 0 {
            Ok(())
        } else {
            Err(CursorError::ForExchange { errors: failures })
        }
    }
}

} // verus!
