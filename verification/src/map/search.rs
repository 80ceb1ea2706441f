//! Neighbouring cells and shortest paths.

use crate::map::Grid;
use pathfinding::prelude::dijkstra;
use vstd::prelude::*;

verus! {

/// The eight places round `cell`, each with the neighbour that it holds:
/// none where a coordinate would leave the range of `usize`, and none at a
/// corner where corners are left out. The row below comes first, then the
/// cells to the left and to the right, then the row above, each row from left
/// to right.
pub open spec fn neighbour_slots(cell: (usize, usize), corners: bool) -> Seq<Option<(usize, usize)>> {
    let (x, y) = cell;
    let left = x > 0;
    let right = x < usize::MAX;
    let up = y > 0;
    let down = y < usize::MAX;
    seq![
        if corners && left && down {
            Some(((x - 1) as usize, (y + 1) as usize))
        } else {
            None
        },
        if down {
            Some((x, (y + 1) as usize))
        } else {
            None
        },
        if corners && right && down {
            Some(((x + 1) as usize, (y + 1) as usize))
        } else {
            None
        },
        if left {
            Some(((x - 1) as usize, y))
        } else {
            None
        },
        if right {
            Some(((x + 1) as usize, y))
        } else {
            None
        },
        if corners && left && up {
            Some(((x - 1) as usize, (y - 1) as usize))
        } else {
            None
        },
        if up {
            Some((x, (y - 1) as usize))
        } else {
            None
        },
        if corners && right && up {
            Some(((x + 1) as usize, (y - 1) as usize))
        } else {
            None
        },
    ]
}

/// Whether `b` is one of the eight cells round `a`.
pub open spec fn adjacent(a: (usize, usize), b: (usize, usize)) -> bool {
    &&& a != b
    &&& a.0 - b.0 <= 1
    &&& b.0 - a.0 <= 1
    &&& a.1 - b.1 <= 1
    &&& b.1 - a.1 <= 1
}

/// The cells that a search found, with their cost, as values.
pub open spec fn path_view(found: Option<(Vec<(usize, usize)>, usize)>) -> Option<
    (Seq<(usize, usize)>, usize),
> {
    match found {
        Some((path, cost)) => Some((path@, cost)),
        None => None,
    }
}

/// What `dijkstra` of the `pathfinding` crate returns for a search from
/// `start` to `end` in which a step leads from a cell to each passable cell
/// round it, at the cost of one, the neighbours being tried in the order of
/// `neighbour_slots`. Among the shortest paths it is the one that the
/// algorithm comes upon first.
pub uninterp spec fn dijkstra_path(
    passable: Set<(usize, usize)>,
    start: (usize, usize),
    end: (usize, usize),
) -> Option<(Seq<(usize, usize)>, usize)>;

impl Grid {
    /// The cells that walkers can pass over.
    pub open spec fn passable_cells(&self) -> Set<(usize, usize)> {
        Set::new(|c: (usize, usize)| self.passable(c))
    }

    /// The passable cells among `slots`, in order.
    pub open spec fn open_cells(&self, slots: Seq<Option<(usize, usize)>>) -> Seq<(usize, usize)>
        decreases slots.len(),
    {
        if slots.len() == 0 {
            Seq::empty()
        } else {
            let rest = self.open_cells(slots.drop_last());
            match slots.last() {
                Some(c) => if self.passable(c) {
                    rest.push(c)
                } else {
                    rest
                },
                None => rest,
            }
        }
    }

    /// Whether a walker can step from `a` to `b`: `b` is among the passable
    /// cells round `a`.
    pub open spec fn is_step(&self, a: (usize, usize), b: (usize, usize)) -> bool {
        self.open_cells(neighbour_slots(a, true)).contains(b)
    }

    /// The passable cells among `slots` are the cells that a slot holds and
    /// that are passable.
    pub proof fn lemma_open_cells(&self, slots: Seq<Option<(usize, usize)>>, cell: (usize, usize))
        ensures
            self.open_cells(slots).contains(cell) <==> self.passable(cell) && slots.contains(
                Some(cell),
            ),
        decreases slots.len(),
    {
        if slots.len() > 0 {
            let rest = slots.drop_last();
            let open = self.open_cells(rest);
            self.lemma_open_cells(rest, cell);
            let opened = match slots.last() {
                Some(c) => self.passable(c),
                None => false,
            };
            if opened {
                let c = slots.last().unwrap();
                assert(self.open_cells(slots) == open.push(c));
                if self.open_cells(slots).contains(cell) {
                    let k = choose|k: int|
                        0 <= k < open.push(c).len() && open.push(c)[k] == cell;
                    if k < open.len() {
                        assert(open[k] == cell);
                        assert(open.contains(cell));
                        let m = choose|m: int| 0 <= m < rest.len() && rest[m] == Some(cell);
                        assert(slots[m] == Some(cell));
                    } else {
                        assert(slots[slots.len() - 1] == Some(cell));
                    }
                }
            } else {
                assert(self.open_cells(slots) == open);
                if open.contains(cell) {
                    let m = choose|m: int| 0 <= m < rest.len() && rest[m] == Some(cell);
                    assert(slots[m] == Some(cell));
                }
            }
            if self.passable(cell) && slots.contains(Some(cell)) {
                let m = choose|m: int| 0 <= m < slots.len() && slots[m] == Some(cell);
                if m < rest.len() {
                    assert(rest[m] == Some(cell));
                    assert(rest.contains(Some(cell)));
                    let k = choose|k: int| 0 <= k < open.len() && open[k] == cell;
                    assert(self.open_cells(slots)[k] == cell);
                } else {
                    assert(self.open_cells(slots)[open.len() as int] == cell);
                }
            }
        }
    }

    /// A walker can step from `a` to `b` exactly where `b` is one of the
    /// eight cells round `a` and is passable.
    pub proof fn lemma_steps(&self, a: (usize, usize), b: (usize, usize))
        ensures
            self.is_step(a, b) <==> adjacent(a, b) && self.passable(b),
    {
        let slots = neighbour_slots(a, true);
        self.lemma_open_cells(slots, b);
        if slots.contains(Some(b)) {
            let m = choose|m: int| 0 <= m < slots.len() && slots[m] == Some(b);
            assert(adjacent(a, b));
        }
        if adjacent(a, b) {
            let across: int = b.0 - a.0 + 1;
            let down: int = b.1 - a.1 + 1;
            let m: int = if down == 2 {
                across
            } else if down == 1 {
                if across == 0 {
                    3
                } else {
                    4
                }
            } else {
                5 + across
            };
            assert(slots[m] == Some(b));
        }
    }

    /// Whether `path` leads from `start` to `end` by steps of walkers.
    pub open spec fn is_walk(
        &self,
        path: Seq<(usize, usize)>,
        start: (usize, usize),
        end: (usize, usize),
    ) -> bool {
        &&& path.len() >= 1
        &&& path[0] == start
        &&& path[path.len() - 1] == end
        &&& forall|i: int| 0 <= i < path.len() - 1 ==> self.is_step(#[trigger] path[i], path[i + 1])
    }

    /// Whether `found` is a shortest walk from `start` to `end` with its
    /// number of steps, or nothing where no walk leads there.
    pub open spec fn is_shortest(
        &self,
        found: Option<(Seq<(usize, usize)>, usize)>,
        start: (usize, usize),
        end: (usize, usize),
    ) -> bool {
        match found {
            Some((path, cost)) => {
                &&& self.is_walk(path, start, end)
                &&& cost == path.len() - 1
                &&& forall|other: Seq<(usize, usize)>|
                    #[trigger] self.is_walk(other, start, end) ==> cost <= other.len() - 1
            },
            None => forall|other: Seq<(usize, usize)>| !#[trigger] self.is_walk(other, start, end),
        }
    }

    /// The cells round `cell`, as `neighbour_slots` lays them out.
    pub fn neighbours_of(cell: &(usize, usize), with_corner_neighbours: bool) -> (slots: Vec<
        Option<(usize, usize)>,
    >)
        ensures
            slots@ == neighbour_slots(*cell, with_corner_neighbours),
    {
        let x: usize = cell.0;
        let y: usize = cell.1;
        let left: bool = x > 0;
        let right: bool = x < usize::MAX;
        let up: bool = y > 0;
        let down: bool = y < usize::MAX;
        let mut slots: Vec<Option<(usize, usize)>> = Vec::new();
        slots.push(
            if with_corner_neighbours && left && down {
                Some((x - 1, y + 1))
            } else {
                None
            },
        );
        slots.push(
            if down {
                Some((x, y + 1))
            } else {
                None
            },
        );
        slots.push(
            if with_corner_neighbours && right && down {
                Some((x + 1, y + 1))
            } else {
                None
            },
        );
        slots.push(
            if left {
                Some((x - 1, y))
            } else {
                None
            },
        );
        slots.push(
            if right {
                Some((x + 1, y))
            } else {
                None
            },
        );
        slots.push(
            if with_corner_neighbours && left && up {
                Some((x - 1, y - 1))
            } else {
                None
            },
        );
        slots.push(
            if up {
                Some((x, y - 1))
            } else {
                None
            },
        );
        slots.push(
            if with_corner_neighbours && right && up {
                Some((x + 1, y - 1))
            } else {
                None
            },
        );
        assert(slots@ =~= neighbour_slots(*cell, with_corner_neighbours));
        slots
    }

    /// The passable cells round `cell`, corners included, in the order of
    /// `neighbour_slots`.
    pub fn passable_neighbours_of(&self, cell: &(usize, usize)) -> (open: Vec<(usize, usize)>)
        ensures
            open@ == self.open_cells(neighbour_slots(*cell, true)),
    {
        let slots = Self::neighbours_of(cell, true);
        let mut open: Vec<(usize, usize)> = Vec::new();
        let mut i: usize = 0;
        assert(slots@.take(0) =~= Seq::<Option<(usize, usize)>>::empty());
        while i < slots.len()
            invariant
                i <= slots.len(),
                open@ == self.open_cells(slots@.take(i as int)),
            decreases slots.len() - i,
        {
            assert(slots@.take(i + 1).drop_last() =~= slots@.take(i as int));
            assert(slots@.take(i + 1).last() == slots@[i as int]);
            match slots[i] {
                Some(c) => {
                    if self.is_cell_passable(c) {
                        open.push(c);
                    }
                },
                None => {},
            }
            i = i + 1;
        }
        assert(slots@.take(i as int) =~= slots@);
        open
    }

    /// The steps that lead on from `cell`, each with its cost of one.
    pub fn steps_from(&self, cell: &(usize, usize)) -> (steps: Vec<((usize, usize), usize)>)
        ensures
            steps@ == self.open_cells(neighbour_slots(*cell, true)).map_values(
                |c: (usize, usize)| (c, 1usize),
            ),
    {
        let open = self.passable_neighbours_of(cell);
        let mut steps: Vec<((usize, usize), usize)> = Vec::new();
        let mut i: usize = 0;
        while i < open.len()
            invariant
                i <= open.len(),
                steps@ == open@.take(i as int).map_values(|c: (usize, usize)| (c, 1usize)),
            decreases open.len() - i,
        {
            steps.push((open[i], 1));
            assert(steps@ =~= open@.take(i + 1).map_values(|c: (usize, usize)| (c, 1usize)));
            i = i + 1;
        }
        assert(open@.take(i as int) =~= open@);
        steps
    }

    /// `pathfinding::prelude::dijkstra` from `start`, with `steps_from` for
    /// the successors of a cell and `end` for the goal.
    ///
    /// Trusted, as the crate documents it: what is returned is a shortest
    /// path from the start to the goal over these successors, both cells
    /// included, with its cost, which is here its number of steps; nothing is
    /// returned where no path leads to the goal. Which of several shortest
    /// paths is returned is left to `dijkstra_path`. The cost of a path is
    /// below the number of cells, so that the sums of the crate cannot
    /// overflow on a well-formed grid.
    #[verifier::external_body]
    fn search(&self, start: (usize, usize), end: (usize, usize)) -> (found: Option<
        (Vec<(usize, usize)>, usize),
    >)
        requires
            self.wf(),
        ensures
            path_view(found) == dijkstra_path(self.passable_cells(), start, end),
            self.is_shortest(path_view(found), start, end),
    {
        dijkstra(&start, |cell| self.steps_from(cell), |cell| same_cell(cell, &end))
    }

    /// A shortest way for a walker from `start` to `end`, with its number
    /// of steps.
    ///
    /// Nothing is returned where one of the two cells is outside the grid or
    /// where no walk leads from `start` to `end`. Otherwise the path starts
    /// with `start`, ends with `end`, each of its cells after the first is a
    /// passable cell round the one before, and no walk from `start` to `end`
    /// takes fewer steps. Where several paths are as short, the one returned
    /// is the one that `dijkstra_path` names. The way from a cell to itself is
    /// the cell alone, and the way to a cell that is one step away is that
    /// step.
    pub fn path_between(&self, start: (usize, usize), end: (usize, usize)) -> (found: Option<
        (Vec<(usize, usize)>, usize),
    >)
        requires
            self.wf(),
        ensures
            !(self.in_grid(start) && self.in_grid(end)) ==> found.is_none(),
            self.in_grid(start) && self.in_grid(end) ==> path_view(found) == dijkstra_path(
                self.passable_cells(),
                start,
                end,
            ) && self.is_shortest(path_view(found), start, end),
            self.in_grid(start) && start == end ==> path_view(found) == Some((seq![start], 0usize)),
            self.in_grid(start) && self.is_step(start, end) ==> path_view(found) == Some(
                (seq![start, end], 1usize),
            ),
    {
        if self.is_cell_in_grid(start) && self.is_cell_in_grid(end) {
            let found = self.search(start, end);
            proof {
                if start == end {
                    let alone = seq![start];
                    assert(self.is_walk(alone, start, end));
                    let (path, cost) = path_view(found).unwrap();
                    assert(path =~= alone);
                }
                if self.is_step(start, end) {
                    lemma_step_is_shortest(self, path_view(found), start, end);
                }
            }
            found
        } else {
            proof {
                self.lemma_steps(start, end);
            }
            None
        }
    }
}

/// Whether `a` and `b` are the same cell.
pub fn same_cell(a: &(usize, usize), b: &(usize, usize)) -> (same: bool)
    ensures
        same == (*a == *b),
{
    a.0 == b.0 && a.1 == b.1
}

/// Where a walker can step from `start` to `end`, the shortest walk between
/// them is that one step.
pub proof fn lemma_step_is_shortest(
    grid: &Grid,
    found: Option<(Seq<(usize, usize)>, usize)>,
    start: (usize, usize),
    end: (usize, usize),
)
    requires
        grid.is_shortest(found, start, end),
        grid.is_step(start, end),
    ensures
        found.is_some(),
        found.unwrap().1 == 1,
        found.unwrap().0 == seq![start, end],
{
    let direct = seq![start, end];
    grid.lemma_steps(start, end);
    assert(direct[0] == start && direct[1] == end);
    assert(grid.is_walk(direct, start, end));
    let (path, cost) = found.unwrap();
    assert(path =~= direct);
}

} // verus!
