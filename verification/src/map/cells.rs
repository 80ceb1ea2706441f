//! The storage of the cells of a grid.

use crate::map::Cell;
use ndarray::Array2;
use vstd::prelude::*;

verus! {

/// The cells of a grid, kept in a two-dimensional `ndarray` array that is
/// indexed by `(x, y)`. Verus does not look inside: what it knows of the array
/// is what the functions below state of `cells_of`.
#[verifier::external_body]
pub struct CellArray {
    inner: Array2<Cell>,
}

/// The cells that an array holds, by their coordinates.
pub uninterp spec fn cells_of(array: CellArray) -> Map<(usize, usize), Cell>;

/// Whether `cells` are the cells of a fresh square grid of side `size`.
pub open spec fn blank_square(cells: Map<(usize, usize), Cell>, size: usize) -> bool {
    &&& forall|at: (usize, usize)| cells.contains_key(at) <==> at.0 < size && at.1 < size
    &&& forall|at: (usize, usize)| cells.contains_key(at) ==> (#[trigger] cells[at]).is_blank()
}

/// Whether `found` is what a lookup of `at` in `cells` gives.
pub open spec fn found_at(
    cells: Map<(usize, usize), Cell>,
    at: (usize, usize),
    found: Option<&Cell>,
) -> bool {
    match found {
        Some(cell) => cells.contains_key(at) && *cell == cells[at],
        None => !cells.contains_key(at),
    }
}

impl CellArray {
    /// `Array2::from_shape_fn` on the shape `(size, size)`, with `Cell::empty`
    /// for every element. Trusted: the array holds one blank cell for each
    /// pair of coordinates below `size`, and nothing else. `ndarray` panics
    /// where the number of elements does not fit in `isize`, so that is
    /// required of the caller. That the memory for the cells can be had is
    /// taken for granted, as it is of every allocation.
    #[verifier::external_body]
    pub(crate) fn square(size: usize) -> (array: CellArray)
        requires
            size * size <= isize::MAX,
        ensures
            blank_square(cells_of(array), size),
    {
        CellArray { inner: Array2::from_shape_fn((size, size), |_| Cell::empty()) }
    }

    /// `get` of an `ndarray` array. Trusted: it returns the cell at `at`
    /// where the array has one, and `None` where `at` is outside the array.
    #[verifier::external_body]
    pub(crate) fn get(&self, at: (usize, usize)) -> (found: Option<&Cell>)
        ensures
            found_at(cells_of(*self), at, found),
    {
        self.inner.get(at)
    }

    /// `index_mut` of an `ndarray` array, written `array[at]`. Trusted: the
    /// reference points at the cell at `at`, and what is written through it is
    /// what the array holds there afterwards, every other cell being as it
    /// was. `ndarray` panics where `at` is outside the array, so the caller
    /// has to show that it is not.
    #[verifier::external_body]
    pub(crate) fn get_mut(&mut self, at: (usize, usize)) -> (cell: &mut Cell)
        requires
            cells_of(*old(self)).contains_key(at),
        ensures
            *cell == cells_of(*old(self))[at],
            cells_of(*final(self)) == cells_of(*old(self)).insert(at, *final(cell)),
    {
        &mut self.inner[at]
    }
}

} // verus!
