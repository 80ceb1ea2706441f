//! Finding entities by name, by distance, and roads beside structures.

use crate::entities::structure::Size;
use crate::entities::{Entity, EntityType};
use crate::map::placed::{index_of_id, stands_at, well_placed};
use crate::map::{fits, GridEntity};
use vstd::prelude::*;

verus! {

/// The last of the cells of an entity in a scan of the grid column by
/// column: the one at the bottom right.
pub open spec fn far_corner(e: GridEntity) -> (usize, usize) {
    ((e.parent.0 + e.size.width - 1) as usize, (e.parent.1 + e.size.height - 1) as usize)
}

/// For each entity of `placed` that is of the kind `entity_type` and named
/// `name`, in order, its last cell.
pub open spec fn named_cells(placed: Seq<GridEntity>, entity_type: EntityType, name: Seq<char>) -> Seq<
    (usize, usize),
>
    decreases placed.len(),
{
    if placed.len() == 0 {
        Seq::empty()
    } else {
        let rest = named_cells(placed.drop_last(), entity_type, name);
        if placed.last().entity.is_named(entity_type, name) {
            rest.push(far_corner(placed.last()))
        } else {
            rest
        }
    }
}

/// The square of the distance between two cells.
pub open spec fn distance_squared(a: (usize, usize), b: (usize, usize)) -> int {
    (a.0 - b.0) * (a.0 - b.0) + (a.1 - b.1) * (a.1 - b.1)
}

/// Whether the cell `a` is ahead of the cell `b` in a search round `to`: it
/// is closer, or as close and reached first in a scan of the grid column by
/// column, which is to say further to the left, or in the same column and
/// further up.
pub open spec fn nearer(a: (usize, usize), b: (usize, usize), to: (usize, usize)) -> bool {
    let da = distance_squared(a, to);
    let db = distance_squared(b, to);
    da < db || (da == db && (a.0 < b.0 || (a.0 == b.0 && a.1 < b.1)))
}

/// `n`, held at the largest `u128`.
pub open spec fn capped_u128(n: int) -> u128 {
    if n > u128::MAX {
        u128::MAX
    } else {
        n as u128
    }
}

/// Whether `found` is the cell of `cells` that no other is ahead of in a
/// search round `to`, with the square of its distance, held at the largest
/// `u128`; or nothing where there are no cells.
pub open spec fn is_closest(
    cells: Seq<(usize, usize)>,
    to: (usize, usize),
    found: Option<((usize, usize), u128)>,
) -> bool {
    match found {
        None => cells.len() == 0,
        Some((cell, d)) => {
            &&& cells.contains(cell)
            &&& d == capped_u128(distance_squared(cell, to))
            &&& forall|i: int| 0 <= i < cells.len() ==> !nearer(#[trigger] cells[i], cell, to)
        },
    }
}

/// The number that a sum of two squares stands for: its low 128 bits and
/// whether it went past them.
pub open spec fn wide(sum: (bool, u128)) -> int {
    if sum.0 {
        sum.1 + 0x1_0000_0000_0000_0000_0000_0000_0000_0000
    } else {
        sum.1 as int
    }
}

/// The structure `id`, if it stands on the cell `at`.
pub open spec fn structure_at(placed: Seq<GridEntity>, at: (usize, usize), id: u128) -> Option<
    GridEntity,
> {
    if stands_at(placed, at, id) && placed[index_of_id(placed, id)].entity is Structure {
        Some(placed[index_of_id(placed, id)])
    } else {
        None
    }
}

/// Whether a road lies on the cell `at`.
pub open spec fn has_road(placed: Seq<GridEntity>, at: (usize, usize)) -> bool {
    exists|i: int| 0 <= i < placed.len() && (#[trigger] placed[i]).covers(at) && placed[i].entity is Road
}

/// Whether the cell `c` lies beside the rectangle of `size` cells at
/// `parent`: outside it, and directly to the left or the right of one of its
/// rows, or directly above or below one of its columns.
pub open spec fn beside(parent: (usize, usize), size: Size, c: (usize, usize)) -> bool {
    ||| {
        &&& parent.1 <= c.1 < parent.1 + size.height
        &&& (c.0 + 1 == parent.0 || c.0 == parent.0 + size.width)
    }
    ||| {
        &&& parent.0 <= c.0 < parent.0 + size.width
        &&& (c.1 + 1 == parent.1 || c.1 == parent.1 + size.height)
    }
}

/// Whether a scan of the grid row by row reaches the cell `a` before the
/// cell `b`.
pub open spec fn row_first(a: (usize, usize), b: (usize, usize)) -> bool {
    a.1 < b.1 || (a.1 == b.1 && a.0 < b.0)
}

/// Whether `found` is the first cell, row by row, that lies beside the
/// rectangle and has a road on it; or nothing where there is no such cell.
pub open spec fn is_first_road_beside(
    placed: Seq<GridEntity>,
    parent: (usize, usize),
    size: Size,
    found: Option<(usize, usize)>,
) -> bool {
    match found {
        Some(c) => {
            &&& beside(parent, size, c)
            &&& has_road(placed, c)
            &&& forall|o: (usize, usize)|
                beside(parent, size, o) && #[trigger] has_road(placed, o) ==> !row_first(o, c)
        },
        None => forall|o: (usize, usize)| !(beside(parent, size, o) && #[trigger] has_road(placed, o)),
    }
}

/// A cell with a road on it belongs to the grid.
pub proof fn lemma_road_in_grid(
    placed: Seq<GridEntity>,
    width: usize,
    height: usize,
    at: (usize, usize),
)
    requires
        well_placed(placed, width, height),
        has_road(placed, at),
    ensures
        at.0 < width,
        at.1 < height,
{
    let k = choose|k: int|
        0 <= k < placed.len() && (#[trigger] placed[k]).covers(at) && placed[k].entity is Road;
    assert(fits(placed[k].parent, placed[k].size, width, height));
}

/// The square of the distance between `a` and `b` along one axis.
fn axis_square(a: usize, b: usize) -> (square: u128)
    ensures
        square == (a - b) * (a - b),
{
    let d: u128 = if a < b {
        (b - a) as u128
    } else {
        (a - b) as u128
    };
    assert(d * d <= 0xFFFF_FFFF_FFFF_FFFF * 0xFFFF_FFFF_FFFF_FFFF) by (nonlinear_arith)
        requires
            0 <= d <= 0xFFFF_FFFF_FFFF_FFFF,
    ;
    assert(d * d == (a - b) * (a - b)) by (nonlinear_arith)
        requires
            d == a - b || d == b - a,
    ;
    d * d
}

/// The square of the distance between two cells, in 129 bits.
fn wide_distance(a: &(usize, usize), b: &(usize, usize)) -> (sum: (bool, u128))
    ensures
        wide(sum) == distance_squared(*a, *b),
{
    let across: u128 = axis_square(a.0, b.0);
    let down: u128 = axis_square(a.1, b.1);
    let room: u128 = u128::MAX - across;
    if down > room {
        (true, down - room - 1)
    } else {
        (false, across + down)
    }
}

/// The square of the distance between two cells, held at the largest `u128`.
pub fn squared_distance_between(a: &(usize, usize), b: &(usize, usize)) -> (square: u128)
    ensures
        square == capped_u128(distance_squared(*a, *b)),
{
    let sum = wide_distance(a, b);
    if sum.0 {
        u128::MAX
    } else {
        sum.1
    }
}

/// For each of `entities` that is of the kind `entity_type` and named
/// `with_name`, in order, its last cell.
pub(crate) fn cells_named(
    entities: &Vec<GridEntity>,
    entity_type: EntityType,
    with_name: &String,
    width: usize,
    height: usize,
) -> (found: Vec<(usize, usize)>)
    requires
        well_placed(entities@, width, height),
    ensures
        found@ == named_cells(entities@, entity_type, with_name@),
{
    let mut found: Vec<(usize, usize)> = Vec::new();
    let mut i: usize = 0;
    assert(entities@.take(0) =~= Seq::<GridEntity>::empty());
    while i < entities.len()
        invariant
            i <= entities.len(),
            well_placed(entities@, width, height),
            found@ == named_cells(entities@.take(i as int), entity_type, with_name@),
        decreases entities.len() - i,
    {
        assert(entities@.take(i + 1).drop_last() =~= entities@.take(i as int));
        assert(entities@.take(i + 1).last() == entities@[i as int]);
        if entities[i].entity.has_name(entity_type, with_name) {
            assert(fits(
                entities@[i as int].parent,
                entities@[i as int].size,
                width,
                height,
            ));
            let x: usize = entities[i].parent.0 + (entities[i].size.width as usize
                - 1);
            let y: usize = entities[i].parent.1 + (entities[i].size.height as usize
                - 1);
            found.push((x, y));
        }
        i = i + 1;
    }
    assert(entities@.take(i as int) =~= entities@);
    found
}

/// Of `cells`, the one that no other is ahead of in a search round
/// `close_to`, with the square of its distance from there, held at the
/// largest `u128`.
pub(crate) fn closest(cells: &Vec<(usize, usize)>, close_to: &(usize, usize)) -> (found: Option<
    ((usize, usize), u128),
>)
    ensures
        is_closest(cells@, *close_to, found),
{
    let mut best: Option<((usize, usize), (bool, u128))> = None;
    let mut i: usize = 0;
    while i < cells.len()
        invariant
            i <= cells.len(),
            match best {
                None => i == 0,
                Some((cell, d)) => {
                    &&& cells@.take(i as int).contains(cell)
                    &&& wide(d) == distance_squared(cell, *close_to)
                    &&& forall|j: int| 0 <= j < i ==> !nearer(#[trigger] cells@[j], cell, *close_to)
                },
            },
        decreases cells.len() - i,
    {
        let cell: (usize, usize) = cells[i];
        let d: (bool, u128) = wide_distance(&cell, close_to);
        let ahead: bool = match best {
            None => true,
            Some((other, least)) => {
                let closer: bool = (!d.0 && least.0) || (d.0 == least.0 && d.1 < least.1);
                let level: bool = d.0 == least.0 && d.1 == least.1;
                closer || (level && (cell.0 < other.0 || (cell.0 == other.0 && cell.1
                    < other.1)))
            },
        };
        proof {
            assert(cells@.take(i + 1)[i as int] == cell);
            match best {
                Some((other, least)) => {
                    let k = choose|k: int|
                        0 <= k < cells@.take(i as int).len() && cells@.take(i as int)[k]
                            == other;
                    assert(cells@.take(i + 1)[k] == other);
                    assert(ahead == nearer(cell, other, *close_to));
                },
                None => {},
            }
        }
        if ahead {
            best = Some((cell, d));
        }
        i = i + 1;
    }
    assert(cells@.take(i as int) =~= cells@);
    match best {
        None => None,
        Some((cell, d)) => Some(
            (
                cell,
                if d.0 {
                    u128::MAX
                } else {
                    d.1
                },
            ),
        ),
    }
}

/// Whether a road lies on the cell `at`.
fn road_at(entities: &Vec<GridEntity>, at: (usize, usize)) -> (found: bool)
    ensures
        found == has_road(entities@, at),
{
    let mut i: usize = 0;
    while i < entities.len()
        invariant
            i <= entities.len(),
            forall|j: int|
                0 <= j < i ==> !((#[trigger] entities@[j]).covers(at)
                    && entities@[j].entity is Road),
        decreases entities.len() - i,
    {
        if entities[i].occupies(at) {
            match entities[i].entity {
                Entity::Road => {
                    return true;
                },
                _ => {},
            }
        }
        i = i + 1;
    }
    false
}

/// The first cell, row by row, that lies beside the rectangle of `size`
/// cells at `parent` and has a road on it.
pub(crate) fn first_road_beside(
    entities: &Vec<GridEntity>,
    parent: (usize, usize),
    size: Size,
    width: usize,
    height: usize,
) -> (found: Option<(usize, usize)>)
    requires
        well_placed(entities@, width, height),
        fits(parent, size, width, height),
    ensures
        is_first_road_beside(entities@, parent, size, found),
{
    let first_row: usize = if parent.1 > 0 {
        parent.1 - 1
    } else {
        0
    };
    let first_column: usize = if parent.0 > 0 {
        parent.0 - 1
    } else {
        0
    };
    let below: usize = parent.1 + size.height as usize;
    let right: usize = parent.0 + size.width as usize;
    let last_row: usize = if below < height {
        below
    } else {
        height - 1
    };
    let last_column: usize = if right < width {
        right
    } else {
        width - 1
    };
    let mut y: usize = first_row;
    while y <= last_row
        invariant
            well_placed(entities@, width, height),
            fits(parent, size, width, height),
            first_row <= y <= last_row + 1,
            last_row < height,
            last_column < width,
            first_row + 1 == parent.1 || (first_row == 0 && parent.1 == 0),
            first_column + 1 == parent.0 || (first_column == 0 && parent.0 == 0),
            first_column <= last_column,
            below == parent.1 + size.height,
            right == parent.0 + size.width,
            last_row == below || last_row == height - 1,
            last_column == right || last_column == width - 1,
            forall|o: (usize, usize)|
                beside(parent, size, o) && #[trigger] has_road(entities@, o) ==> o.1 >= y,
        decreases last_row + 1 - y,
    {
        let mut x: usize = first_column;
        while x <= last_column
            invariant
                well_placed(entities@, width, height),
                fits(parent, size, width, height),
                first_column <= x <= last_column + 1,
                y <= last_row,
                last_row < height,
                last_column < width,
                first_column + 1 == parent.0 || (first_column == 0 && parent.0 == 0),
                below == parent.1 + size.height,
                right == parent.0 + size.width,
                last_column == right || last_column == width - 1,
                forall|o: (usize, usize)|
                    beside(parent, size, o) && #[trigger] has_road(entities@, o) ==> (o.1
                        > y || (o.1 == y && o.0 >= x)),
            decreases last_column + 1 - x,
        {
            let inside_rows: bool = parent.1 <= y && y - parent.1 < size.height as usize;
            let inside_columns: bool = parent.0 <= x && x - parent.0 < size.width as usize;
            let next_to_rows: bool = inside_rows && (x + 1 == parent.0 || x == right);
            let next_to_columns: bool = inside_columns && (y + 1 == parent.1 || y == below);
            assert((next_to_rows || next_to_columns) == beside(parent, size, (x, y)));
            if (next_to_rows || next_to_columns) && road_at(entities, (x, y)) {
                return Some((x, y));
            }
            proof {
                assert forall|o: (usize, usize)|
                    beside(parent, size, o) && #[trigger] has_road(
                        entities@,
                        o,
                    ) implies (o.1 > y || (o.1 == y && o.0 >= x + 1)) by {
                    if o.1 == y && o.0 == x {
                        assert(o == (x, y));
                    }
                }
            }
            x = x + 1;
        }
        proof {
            assert forall|o: (usize, usize)|
                beside(parent, size, o) && #[trigger] has_road(entities@, o) implies o.1
                >= y + 1 by {
                if o.1 == y {
                    lemma_road_in_grid(entities@, width, height, o);
                }
            }
        }
        y = y + 1;
    }
    proof {
        assert forall|o: (usize, usize)|
            !(beside(parent, size, o) && #[trigger] has_road(entities@, o)) by {
            if beside(parent, size, o) && has_road(entities@, o) {
                lemma_road_in_grid(entities@, width, height, o);
            }
        }
    }
    None
}

} // verus!
