//! The entities on a grid, and what they make of its cells.

use crate::entities::structure::Size;
use crate::entities::Entity;
use crate::map::{covered, fits, lemma_overlapping, overlapping, GridEntity};
use vstd::prelude::*;

verus! {

/// Whether some entity of `placed` takes the cell `at`.
pub open spec fn occupied(placed: Seq<GridEntity>, at: (usize, usize)) -> bool {
    exists|i: int| 0 <= i < placed.len() && (#[trigger] placed[i]).covers(at)
}

/// Whether some blocking entity of `placed` takes the cell `at`.
pub open spec fn blocked(placed: Seq<GridEntity>, at: (usize, usize)) -> bool {
    exists|i: int| 0 <= i < placed.len() && (#[trigger] placed[i]).covers(at) && placed[i].entity.blocks()
}

/// Whether an entity of `placed` has the identity `id`.
pub open spec fn has_id(placed: Seq<GridEntity>, id: u128) -> bool {
    exists|i: int| 0 <= i < placed.len() && (#[trigger] placed[i]).id == id
}

/// Whether the entity `id` of `placed` takes the cell `at`.
pub open spec fn stands_at(placed: Seq<GridEntity>, at: (usize, usize), id: u128) -> bool {
    exists|i: int| 0 <= i < placed.len() && (#[trigger] placed[i]).id == id && placed[i].covers(at)
}

/// The index of the first entity with the identity `id`, or the length of
/// `placed` where there is none.
pub open spec fn index_of_id(placed: Seq<GridEntity>, id: u128) -> int
    decreases placed.len(),
{
    if placed.len() == 0 {
        0
    } else if placed[0].id == id {
        0
    } else {
        1 + index_of_id(placed.drop_first(), id)
    }
}

/// Whether no identity occurs twice in `placed` and every entity has a cell
/// and lies within a grid of `width` by `height` cells.
pub open spec fn well_placed(placed: Seq<GridEntity>, width: usize, height: usize) -> bool {
    &&& forall|i: int, j: int|
        0 <= i < j < placed.len() ==> (#[trigger] placed[i]).id != (#[trigger] placed[j]).id
    &&& forall|i: int|
        0 <= i < placed.len() ==> fits(
            (#[trigger] placed[i]).parent,
            placed[i].size,
            width,
            height,
        )
}

/// The identities of `placed`, in order.
pub open spec fn ids_of(placed: Seq<GridEntity>) -> Seq<u128> {
    placed.map_values(|e: GridEntity| e.id)
}

/// Whether an entity takes cells when placed: all do, but for a structure
/// whose width or height is zero.
pub open spec fn takes_cells(entity: Entity) -> bool {
    !(entity is Structure) || (entity.extent().width >= 1 && entity.extent().height >= 1)
}

/// `index_of_id` is a valid index or the length, points at an entity with
/// that identity, and no earlier entity has it.
pub proof fn lemma_index_of_id(placed: Seq<GridEntity>, id: u128)
    ensures
        0 <= index_of_id(placed, id) <= placed.len(),
        index_of_id(placed, id) < placed.len() <==> has_id(placed, id),
        index_of_id(placed, id) < placed.len() ==> placed[index_of_id(placed, id)].id == id,
        forall|i: int| 0 <= i < index_of_id(placed, id) ==> (#[trigger] placed[i]).id != id,
    decreases placed.len(),
{
    if placed.len() > 0 && placed[0].id != id {
        let rest = placed.drop_first();
        lemma_index_of_id(rest, id);
        assert forall|i: int| 0 <= i < index_of_id(placed, id) implies (#[trigger] placed[i]).id
            != id by {
            if i > 0 {
                assert(placed[i] == rest[i - 1]);
            }
        }
        if index_of_id(rest, id) < rest.len() {
            assert(placed[index_of_id(placed, id)] == rest[index_of_id(rest, id)]);
        }
        if has_id(placed, id) {
            let k = choose|k: int| 0 <= k < placed.len() && (#[trigger] placed[k]).id == id;
            assert(rest[k - 1] == placed[k]);
        }
    }
}

/// Whether two rectangles, each with a cell and within a grid, share a cell.
fn rectangles_overlap(a: (usize, usize), a_size: Size, b: (usize, usize), b_size: Size) -> (overlap: bool)
    requires
        a.0 + a_size.width <= usize::MAX,
        a.1 + a_size.height <= usize::MAX,
        b.0 + b_size.width <= usize::MAX,
        b.1 + b_size.height <= usize::MAX,
    ensures
        overlap == overlapping(a, a_size, b, b_size),
{
    a.0 < b.0 + b_size.width as usize && b.0 < a.0 + a_size.width as usize && a.1 < b.1
        + b_size.height as usize && b.1 < a.1 + a_size.height as usize
}

/// Whether an entity takes the cell `at`, and whether a blocking one does.
pub(crate) fn occupation(entities: &Vec<GridEntity>, at: (usize, usize)) -> (found: (bool, bool))
    ensures
        found.0 == occupied(entities@, at),
        found.1 == blocked(entities@, at),
{
    let mut any: bool = false;
    let mut blocking: bool = false;
    let mut i: usize = 0;
    while i < entities.len()
        invariant
            i <= entities.len(),
            any == exists|j: int| 0 <= j < i && (#[trigger] entities@[j]).covers(at),
            blocking == exists|j: int|
                0 <= j < i && (#[trigger] entities@[j]).covers(at)
                    && entities@[j].entity.blocks(),
        decreases entities.len() - i,
    {
        if entities[i].occupies(at) {
            any = true;
            if entities[i].entity.is_blocking() {
                blocking = true;
            }
        }
        i = i + 1;
    }
    (any, blocking)
}

/// The position in `entities` of the one with the identity `id`, or the
/// length of `entities`.
pub(crate) fn position_of(entities: &Vec<GridEntity>, id: u128) -> (i: usize)
    ensures
        i == index_of_id(entities@, id),
        i <= entities@.len(),
{
    let mut i: usize = 0;
    while i < entities.len()
        invariant
            i <= entities.len(),
            forall|j: int| 0 <= j < i ==> (#[trigger] entities@[j]).id != id,
        decreases entities.len() - i,
    {
        if entities[i].id == id {
            proof {
                lemma_index_of_id(entities@, id);
            }
            return i;
        }
        i = i + 1;
    }
    proof {
        lemma_index_of_id(entities@, id);
    }
    i
}

/// The identities of `entities`, in order.
pub(crate) fn identities(entities: &Vec<GridEntity>) -> (ids: Vec<u128>)
    ensures
        ids@ == ids_of(entities@),
{
    let mut ids: Vec<u128> = Vec::new();
    let mut i: usize = 0;
    while i < entities.len()
        invariant
            i <= entities.len(),
            ids@ == ids_of(entities@.take(i as int)),
        decreases entities.len() - i,
    {
        ids.push(entities[i].id);
        assert(entities@.take(i + 1) =~= entities@.take(i as int).push(
            entities@[i as int],
        ));
        assert(ids@ =~= ids_of(entities@.take(i + 1)));
        i = i + 1;
    }
    assert(entities@.take(i as int) =~= entities@);
    ids
}

/// Whether no blocking entity stands on a cell of the rectangle of `size`
/// cells at `at`, and the rectangle lies within a grid of `width` by
/// `height` cells.
pub(crate) fn footprint_is_free(
    entities: &Vec<GridEntity>,
    at: (usize, usize),
    size: Size,
    width: usize,
    height: usize,
) -> (free: bool)
    requires
        well_placed(entities@, width, height),
        at.0 < width,
        at.1 < height,
        size.width >= 1,
        size.height >= 1,
    ensures
        free == (fits(at, size, width, height) && forall|c: (usize, usize)|
            covered(at, size, c) ==> !blocked(entities@, c)),
{
    if size.width as usize > width - at.0 || size.height as usize > height - at.1 {
        return false;
    }
    let mut i: usize = 0;
    while i < entities.len()
        invariant
            i <= entities.len(),
            well_placed(entities@, width, height),
            fits(at, size, width, height),
            forall|j: int|
                0 <= j < i ==> !((#[trigger] entities@[j]).entity.blocks() && overlapping(
                    entities@[j].parent,
                    entities@[j].size,
                    at,
                    size,
                )),
        decreases entities.len() - i,
    {
        if entities[i].entity.is_blocking() && rectangles_overlap(
            entities[i].parent,
            entities[i].size,
            at,
            size,
        ) {
            proof {
                let e = entities@[i as int];
                lemma_overlapping(e.parent, e.size, at, size);
                let c = choose|c: (usize, usize)|
                    covered(e.parent, e.size, c) && covered(at, size, c);
                assert(e.covers(c));
                assert(blocked(entities@, c));
            }
            return false;
        }
        i = i + 1;
    }
    proof {
        assert forall|c: (usize, usize)| covered(at, size, c) implies !blocked(
            entities@,
            c,
        ) by {
            if blocked(entities@, c) {
                let k = choose|k: int|
                    0 <= k < entities@.len() && (#[trigger] entities@[k]).covers(c)
                        && entities@[k].entity.blocks();
                let e = entities@[k];
                lemma_overlapping(e.parent, e.size, at, size);
            }
        }
    }
    true
}

} // verus!
