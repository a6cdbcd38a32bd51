//! The neighbours of a tile, as sums over the eight directions in which a
//! king moves, and what such sums hold.

use crate::coordinate_methods::{
    class_of, corners_beside_where, edges_beside_where, in_bounds, is_across, is_neighbor,
    Coordinates, CENTER_TILE, GRID_SIZE,
};
use crate::gameboard::BoardPositions;
use crate::seq_facts::{
    both, item_where, lemma_add_contains, lemma_filter_item, lemma_filter_nothing,
};
use vstd::prelude::*;

verus! {

/// Whether moving from `c` by `d` (rows, columns) stays on the grid.
pub open spec fn can_step(c: Coordinates, d: (int, int)) -> bool {
    0 <= c.0 + d.0 < GRID_SIZE && 0 <= c.1 + d.1 < GRID_SIZE
}

/// The tile reached from `c` by `d`; meaningful where `can_step(c, d)`.
pub open spec fn step(c: Coordinates, d: (int, int)) -> Coordinates {
    ((c.0 + d.0) as usize, (c.1 + d.1) as usize)
}

/// Every tile.
pub open spec fn any_tile() -> spec_fn(Coordinates) -> bool {
    |tile: Coordinates| true
}

/// Every tile but the centre.
pub open spec fn off_center() -> spec_fn(Coordinates) -> bool {
    |tile: Coordinates| tile != CENTER_TILE
}

/// The neighbour of `c` in direction `d`, where the grid has one and `keep`
/// holds of it.
pub open spec fn neighbor_where(
    c: Coordinates,
    d: (int, int),
    keep: spec_fn(Coordinates) -> bool,
) -> Seq<Coordinates> {
    if can_step(c, d) {
        item_where(step(c, d), keep)
    } else {
        Seq::empty()
    }
}

/// The row and column neighbours of `c` of which `keep` holds, in scan
/// order: below, above, right, left. Reveal it to work it out for a given
/// tile.
#[verifier::opaque]
pub open spec fn axis_around_where(
    c: Coordinates,
    keep: spec_fn(Coordinates) -> bool,
) -> Seq<Coordinates> {
    neighbor_where(c, (1, 0), keep) + neighbor_where(c, (-1, 0), keep) + neighbor_where(
        c,
        (0, 1),
        keep,
    ) + neighbor_where(c, (0, -1), keep)
}

/// The king-move neighbours of `c` of which `keep` holds, in scan order: the
/// row and column neighbours, then the diagonal ones below right, above
/// left, above right and below left. Reveal it, and `axis_around_where`, to
/// work it out for a given tile.
#[verifier::opaque]
pub open spec fn around_where(
    c: Coordinates,
    keep: spec_fn(Coordinates) -> bool,
) -> Seq<Coordinates> {
    axis_around_where(c, keep) + neighbor_where(c, (1, 1), keep) + neighbor_where(
        c,
        (-1, -1),
        keep,
    ) + neighbor_where(c, (-1, 1), keep) + neighbor_where(c, (1, -1), keep)
}

/// `neighbor_where(c, d, keep)` holds the neighbour of `c` in direction `d`
/// where `keep` holds of it, and nothing else.
pub proof fn lemma_neighbor_where_contains(
    c: Coordinates,
    d: (int, int),
    keep: spec_fn(Coordinates) -> bool,
    p: Coordinates,
)
    ensures
        neighbor_where(c, d, keep).contains(p) <==> can_step(c, d) && p == step(c, d) && keep(p),
{
    if can_step(c, d) && keep(step(c, d)) {
        assert(seq![step(c, d)][0] == step(c, d));
    }
}

/// `axis_around_where(c, keep)` holds exactly the tiles one row or column
/// move away from `c` of which `keep` holds.
pub proof fn lemma_axis_around_where_contains(
    c: Coordinates,
    keep: spec_fn(Coordinates) -> bool,
    p: Coordinates,
)
    ensures
        axis_around_where(c, keep).contains(p) <==> is_across(p, c) && keep(p),
{
    reveal(axis_around_where);
    let below = neighbor_where(c, (1, 0), keep);
    let above = neighbor_where(c, (-1, 0), keep);
    let right = neighbor_where(c, (0, 1), keep);
    let left = neighbor_where(c, (0, -1), keep);
    lemma_neighbor_where_contains(c, (1, 0), keep, p);
    lemma_neighbor_where_contains(c, (-1, 0), keep, p);
    lemma_neighbor_where_contains(c, (0, 1), keep, p);
    lemma_neighbor_where_contains(c, (0, -1), keep, p);
    lemma_add_contains(below, above, p);
    lemma_add_contains(below + above, right, p);
    lemma_add_contains(below + above + right, left, p);
}

/// `around_where(c, keep)` holds exactly the tiles one king move away from
/// `c` of which `keep` holds.
pub proof fn lemma_around_where_contains(
    c: Coordinates,
    keep: spec_fn(Coordinates) -> bool,
    p: Coordinates,
)
    ensures
        around_where(c, keep).contains(p) <==> is_neighbor(p, c) && keep(p),
{
    reveal(around_where);
    let axis = axis_around_where(c, keep);
    let first = neighbor_where(c, (1, 1), keep);
    let second = neighbor_where(c, (-1, -1), keep);
    let third = neighbor_where(c, (-1, 1), keep);
    let fourth = neighbor_where(c, (1, -1), keep);
    lemma_axis_around_where_contains(c, keep, p);
    lemma_neighbor_where_contains(c, (1, 1), keep, p);
    lemma_neighbor_where_contains(c, (-1, -1), keep, p);
    lemma_neighbor_where_contains(c, (-1, 1), keep, p);
    lemma_neighbor_where_contains(c, (1, -1), keep, p);
    lemma_add_contains(axis, first, p);
    lemma_add_contains(axis + first, second, p);
    lemma_add_contains(axis + first + second, third, p);
    lemma_add_contains(axis + first + second + third, fourth, p);
}

/// Filtering the neighbour in one direction keeps it where both tests hold.
pub proof fn lemma_neighbor_where_filter(
    c: Coordinates,
    d: (int, int),
    first: spec_fn(Coordinates) -> bool,
    second: spec_fn(Coordinates) -> bool,
)
    ensures
        neighbor_where(c, d, first).filter(second) == neighbor_where(c, d, both(first, second)),
{
    lemma_filter_item(step(c, d), first, second);
    lemma_filter_nothing(second);
}

/// Filtering the row and column neighbours that pass a test gives those that
/// pass both tests.
pub proof fn lemma_axis_around_where_filter(
    c: Coordinates,
    first: spec_fn(Coordinates) -> bool,
    second: spec_fn(Coordinates) -> bool,
)
    ensures
        axis_around_where(c, first).filter(second) == axis_around_where(c, both(first, second)),
{
    reveal(axis_around_where);
    let below = neighbor_where(c, (1, 0), first);
    let above = neighbor_where(c, (-1, 0), first);
    let right = neighbor_where(c, (0, 1), first);
    let left = neighbor_where(c, (0, -1), first);
    lemma_neighbor_where_filter(c, (1, 0), first, second);
    lemma_neighbor_where_filter(c, (-1, 0), first, second);
    lemma_neighbor_where_filter(c, (0, 1), first, second);
    lemma_neighbor_where_filter(c, (0, -1), first, second);
    Seq::filter_distributes_over_add(below, above, second);
    Seq::filter_distributes_over_add(below + above, right, second);
    Seq::filter_distributes_over_add(below + above + right, left, second);
}

/// Filtering the neighbours that pass a test gives those that pass both
/// tests.
pub proof fn lemma_around_where_filter(
    c: Coordinates,
    first: spec_fn(Coordinates) -> bool,
    second: spec_fn(Coordinates) -> bool,
)
    ensures
        around_where(c, first).filter(second) == around_where(c, both(first, second)),
{
    reveal(around_where);
    let axis = axis_around_where(c, first);
    let one = neighbor_where(c, (1, 1), first);
    let two = neighbor_where(c, (-1, -1), first);
    let three = neighbor_where(c, (-1, 1), first);
    let four = neighbor_where(c, (1, -1), first);
    lemma_axis_around_where_filter(c, first, second);
    lemma_neighbor_where_filter(c, (1, 1), first, second);
    lemma_neighbor_where_filter(c, (-1, -1), first, second);
    lemma_neighbor_where_filter(c, (-1, 1), first, second);
    lemma_neighbor_where_filter(c, (1, -1), first, second);
    Seq::filter_distributes_over_add(axis, one, second);
    Seq::filter_distributes_over_add(axis + one, two, second);
    Seq::filter_distributes_over_add(axis + one + two, three, second);
    Seq::filter_distributes_over_add(axis + one + two + three, four, second);
}

/// Two tests that agree on every tile select the same neighbours.
pub proof fn lemma_around_where_same(
    c: Coordinates,
    first: spec_fn(Coordinates) -> bool,
    second: spec_fn(Coordinates) -> bool,
)
    requires
        forall|tile: Coordinates| #[trigger] first(tile) == second(tile),
    ensures
        around_where(c, first) == around_where(c, second),
        axis_around_where(c, first) == axis_around_where(c, second),
{
    reveal(around_where);
    reveal(axis_around_where);
}

/// Filtering the neighbours that pass a test by a narrower test gives the
/// neighbours that pass the narrower test.
pub proof fn lemma_around_where_narrowed(
    c: Coordinates,
    wide: spec_fn(Coordinates) -> bool,
    narrow: spec_fn(Coordinates) -> bool,
)
    requires
        forall|tile: Coordinates| #[trigger] narrow(tile) ==> wide(tile),
    ensures
        around_where(c, wide).filter(narrow) == around_where(c, narrow),
{
    lemma_around_where_filter(c, wide, narrow);
    lemma_around_where_same(c, both(wide, narrow), narrow);
}

/// Off the centre, the row and column neighbours of a corner are its edges
/// and those of an edge are its corners.
pub proof fn lemma_axis_around_by_class(c: Coordinates, keep: spec_fn(Coordinates) -> bool)
    requires
        in_bounds(c),
    ensures
        class_of(c) == BoardPositions::Corner ==> axis_around_where(c, both(off_center(), keep))
            == edges_beside_where(c, keep),
        class_of(c) == BoardPositions::Edge ==> axis_around_where(c, both(off_center(), keep))
            == corners_beside_where(c, keep),
{
    reveal(axis_around_where);
}

} // verus!
