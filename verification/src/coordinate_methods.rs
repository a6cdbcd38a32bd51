//! Geometry of the 3x3 grid: which tiles are neighbours, which tile lies
//! opposite another, and which pairs of tiles share a line with a third.

use crate::gameboard::{BoardConfig, BoardPositions};
use crate::neighbors::{
    any_tile, around_where, axis_around_where, can_step, lemma_around_where_contains,
    lemma_around_where_same, lemma_axis_around_by_class, lemma_axis_around_where_contains,
    lemma_axis_around_where_filter, off_center, step,
};
use crate::seq_facts::{both, item_where, lemma_filter_nothing};
use vstd::prelude::*;

verus! {

/// The number of rows, and of columns, of the grid.
pub const GRID_SIZE: usize = 3;

/// The tile in the middle of the grid.
pub const CENTER_TILE: Coordinates = (1, 1);

/// A tile of the grid, as `(row, column)`.
pub type Coordinates = (usize, usize);

/// Whether `c` names one of the nine tiles of the grid.
pub open spec fn in_bounds(c: Coordinates) -> bool {
    c.0 < GRID_SIZE && c.1 < GRID_SIZE
}

/// The class that a tile has by its place on the grid.
pub open spec fn class_of(c: Coordinates) -> BoardPositions {
    if c.0 == 1 && c.1 == 1 {
        BoardPositions::Center
    } else if c.0 == 1 || c.1 == 1 {
        BoardPositions::Edge
    } else {
        BoardPositions::Corner
    }
}

/// Whether `a` and `b` differ by exactly one.
pub open spec fn one_apart(a: usize, b: usize) -> bool {
    a == b + 1 || b == a + 1
}

/// Whether `c` is a tile of the grid one diagonal move away from `origin`.
pub open spec fn is_diagonal(c: Coordinates, origin: Coordinates) -> bool {
    in_bounds(c) && one_apart(c.0, origin.0) && one_apart(c.1, origin.1)
}

/// Whether `c` is a tile of the grid one row or column move away from
/// `origin`.
pub open spec fn is_across(c: Coordinates, origin: Coordinates) -> bool {
    in_bounds(c) && ((c.1 == origin.1 && one_apart(c.0, origin.0)) || (c.0 == origin.0
        && one_apart(c.1, origin.1)))
}

/// Whether `c` is a tile of the grid one king move away from `origin`.
pub open spec fn is_neighbor(c: Coordinates, origin: Coordinates) -> bool {
    is_diagonal(c, origin) || is_across(c, origin)
}

/// Whether going from `origin` to `adjacent` and as far again ends on the
/// grid.
pub open spec fn reflects_on_grid(origin: Coordinates, adjacent: Coordinates) -> bool {
    0 <= 2 * adjacent.0 - origin.0 < GRID_SIZE && 0 <= 2 * adjacent.1 - origin.1 < GRID_SIZE
}

/// The tile `adjacent + (adjacent - origin)`; meaningful where
/// `reflects_on_grid(origin, adjacent)`.
pub open spec fn opposite_of(origin: Coordinates, adjacent: Coordinates) -> Coordinates {
    ((2 * adjacent.0 - origin.0) as usize, (2 * adjacent.1 - origin.1) as usize)
}

/// The third tile of the line in which `origin` lies between its neighbour
/// `adjacent` and that tile. On this grid `origin` is then the centre, or an
/// edge with `adjacent` one of its corners.
pub open spec fn third_beyond_origin(
    origin: Coordinates,
    adjacent: Coordinates,
) -> Option<Coordinates> {
    if in_bounds(origin) && is_neighbor(adjacent, origin) && reflects_on_grid(adjacent, origin) {
        Some(opposite_of(adjacent, origin))
    } else {
        None
    }
}

/// The third tile of the line in which the neighbour `adjacent` lies between
/// `origin` and that tile. On this grid `adjacent` is then the centre, or an
/// edge with `origin` one of its corners.
pub open spec fn third_beyond_adjacent(
    origin: Coordinates,
    adjacent: Coordinates,
) -> Option<Coordinates> {
    if in_bounds(origin) && is_neighbor(adjacent, origin) && reflects_on_grid(origin, adjacent) {
        Some(opposite_of(origin, adjacent))
    } else {
        None
    }
}

/// The third tile of the line through the neighbours `origin` and `adjacent`,
/// if the grid has one: either `origin` is the middle of the line or
/// `adjacent` is.
pub open spec fn third_in_line(origin: Coordinates, adjacent: Coordinates) -> Option<Coordinates> {
    match third_beyond_origin(origin, adjacent) {
        Some(third) => Some(third),
        None => third_beyond_adjacent(origin, adjacent),
    }
}

/// Whether the third tile of the line through `origin` and `adjacent` exists
/// and holds what `origin` holds.
pub open spec fn in_a_row(origin: Coordinates, adjacent: Coordinates, board: BoardConfig) -> bool {
    third_in_line(origin, adjacent) matches Some(third) && board.state_at(third) == board.state_at(
        origin,
    )
}

/// The king-move neighbours of `c` that lie on the grid, in scan order.
pub open spec fn coords_around(c: Coordinates) -> Seq<Coordinates> {
    around_where(c, any_tile())
}

/// The neighbours of each tile of the grid, as `coords_around` lists them.
pub open spec fn neighbors_on_grid(c: Coordinates) -> Seq<Coordinates> {
    if c == (0usize, 0usize) {
        seq![(1, 0), (0, 1), (1, 1)]
    } else if c == (0usize, 1usize) {
        seq![(1, 1), (0, 2), (0, 0), (1, 2), (1, 0)]
    } else if c == (0usize, 2usize) {
        seq![(1, 2), (0, 1), (1, 1)]
    } else if c == (1usize, 0usize) {
        seq![(2, 0), (0, 0), (1, 1), (2, 1), (0, 1)]
    } else if c == (1usize, 1usize) {
        seq![(2, 1), (0, 1), (1, 2), (1, 0), (2, 2), (0, 0), (0, 2), (2, 0)]
    } else if c == (1usize, 2usize) {
        seq![(2, 2), (0, 2), (1, 1), (0, 1), (2, 1)]
    } else if c == (2usize, 0usize) {
        seq![(1, 0), (2, 1), (1, 1)]
    } else if c == (2usize, 1usize) {
        seq![(1, 1), (2, 2), (2, 0), (1, 0), (1, 2)]
    } else {
        seq![(1, 2), (2, 1), (1, 1)]
    }
}

/// The row and column neighbours of `c` that lie on the grid, the centre left
/// out, in scan order.
pub open spec fn axis_coords_off_center(c: Coordinates) -> Seq<Coordinates> {
    axis_around_where(c, off_center())
}

/// The corners beside an edge of which `keep` holds, in scan order: below and
/// above an edge at the side, right and left of an edge at the top or bottom.
/// Nothing for a tile that is no edge.
pub open spec fn corners_beside_where(
    c: Coordinates,
    keep: spec_fn(Coordinates) -> bool,
) -> Seq<Coordinates> {
    if class_of(c) != BoardPositions::Edge {
        Seq::empty()
    } else if c.0 == 1 {
        item_where((2, c.1), keep) + item_where((0, c.1), keep)
    } else {
        item_where((c.0, 2), keep) + item_where((c.0, 0), keep)
    }
}

/// The edges beside a corner of which `keep` holds, in scan order: the one in
/// its column, then the one in its row. Nothing for a tile that is no corner.
pub open spec fn edges_beside_where(
    c: Coordinates,
    keep: spec_fn(Coordinates) -> bool,
) -> Seq<Coordinates> {
    if class_of(c) != BoardPositions::Corner {
        Seq::empty()
    } else {
        item_where((1, c.1), keep) + item_where((c.0, 1), keep)
    }
}

/// The two corners beside an edge; nothing for a tile that is no edge.
pub open spec fn corners_beside(c: Coordinates) -> Seq<Coordinates> {
    corners_beside_where(c, any_tile())
}

/// The two edges beside a corner; nothing for a tile that is no corner.
pub open spec fn edges_beside(c: Coordinates) -> Seq<Coordinates> {
    edges_beside_where(c, any_tile())
}

/// Applying `get_opposite_coordinates` twice with the same second tile gives
/// the first tile back, wherever both results lie on the grid.
pub proof fn lemma_opposite_involution(a: Coordinates, c: Coordinates)
    requires
        reflects_on_grid(a, c),
        reflects_on_grid(opposite_of(a, c), c),
    ensures
        opposite_of(opposite_of(a, c), c) == a,
{
}

/// No tile is both diagonal from and across from `origin`, and the tiles that
/// are one or the other are exactly the neighbours that `get_coords_around`
/// lists for `origin`.
pub proof fn lemma_diagonal_across_partition(a: Coordinates, origin: Coordinates)
    ensures
        !(is_diagonal(a, origin) && is_across(a, origin)),
        (is_diagonal(a, origin) || is_across(a, origin)) <==> coords_around(origin).contains(a),
{
    lemma_around_where_contains(origin, any_tile(), a);
}

/// On the grid, `coords_around` lists the neighbours that `neighbors_on_grid`
/// tells.
pub proof fn lemma_coords_around_on_grid(c: Coordinates)
    requires
        in_bounds(c),
    ensures
        coords_around(c) == neighbors_on_grid(c),
{
    reveal(around_where);
    reveal(axis_around_where);
    assert(coords_around(c) =~= neighbors_on_grid(c));
}

/// The row and column neighbours of a corner, off the centre, are the edges
/// beside it; those of an edge are the corners beside it.
pub proof fn lemma_axis_coords_by_class(c: Coordinates)
    requires
        in_bounds(c),
    ensures
        class_of(c) == BoardPositions::Corner ==> axis_coords_off_center(c) == edges_beside(c),
        class_of(c) == BoardPositions::Edge ==> axis_coords_off_center(c) == corners_beside(c),
{
    lemma_axis_around_by_class(c, any_tile());
    lemma_around_where_same(c, both(off_center(), any_tile()), off_center());
}

/// Filtering the tiles beside a tile gives those of which the test holds.
pub proof fn lemma_beside_filter(c: Coordinates, keep: spec_fn(Coordinates) -> bool)
    requires
        in_bounds(c),
    ensures
        corners_beside(c).filter(keep) == corners_beside_where(c, keep),
        edges_beside(c).filter(keep) == edges_beside_where(c, keep),
{
    lemma_axis_coords_by_class(c);
    lemma_axis_around_by_class(c, keep);
    lemma_axis_around_where_filter(c, off_center(), keep);
    lemma_filter_nothing(keep);
}

/// The class of a tile of the grid.
pub fn position_of(coords: &Coordinates) -> (position: BoardPositions)
    ensures
        position == class_of(*coords),
{
    if coords.0 == 1 && coords.1 == 1 {
        BoardPositions::Center
    } else if coords.0 == 1 || coords.1 == 1 {
        BoardPositions::Edge
    } else {
        BoardPositions::Corner
    }
}

/// Whether two numbers differ by exactly one.
fn differ_by_one(a: usize, b: usize) -> (apart: bool)
    ensures
        apart == one_apart(a, b),
{
    (a > b && a - b == 1) || (b > a && b - a == 1)
}

/// The neighbour of `c` in direction `(dr, dc)`, if the grid has one.
fn neighbor(c: &Coordinates, dr: i8, dc: i8) -> (tile: Option<Coordinates>)
    requires
        -1 <= dr <= 1,
        -1 <= dc <= 1,
    ensures
        tile == if can_step(*c, (dr as int, dc as int)) {
            Some(step(*c, (dr as int, dc as int)))
        } else {
            None
        },
{
    if c.0 > GRID_SIZE || c.1 > GRID_SIZE {
        return None;
    }
    let row: i8 = c.0 as i8 + dr;
    let col: i8 = c.1 as i8 + dc;
    if 0 <= row && row < 3 && 0 <= col && col < 3 {
        Some((row as usize, col as usize))
    } else {
        None
    }
}

/// Adds `tile` to `out`, unless there is no tile, or it is the centre and
/// the centre is to be left out.
fn push_tile(out: &mut Vec<Coordinates>, tile: Option<Coordinates>, with_center: bool)
    ensures
        final(out)@ == old(out)@ + match tile {
            Some(tile) => item_where(
                tile,
                if with_center {
                    any_tile()
                } else {
                    off_center()
                },
            ),
            None => Seq::empty(),
        },
{
    if let Some(tile) = tile {
        if with_center || tile.0 != CENTER_TILE.0 || tile.1 != CENTER_TILE.1 {
            out.push(tile);
        }
    }
}

/// The row and column neighbours of a tile, the centre left out: the corners
/// beside an edge, or the edges beside a corner.
pub fn get_corners_around_edge_and_edges_around_corner(
    coordinates: &Coordinates,
) -> (out: Vec<Coordinates>)
    ensures
        out@ == axis_coords_off_center(*coordinates),
        forall|p: Coordinates|
            #[trigger] out@.contains(p) <==> is_across(p, *coordinates) && p != CENTER_TILE,
        in_bounds(*coordinates) ==> out@ == match class_of(*coordinates) {
            BoardPositions::Corner => edges_beside(*coordinates),
            BoardPositions::Edge => corners_beside(*coordinates),
            BoardPositions::Center => seq![(2, 1), (0, 1), (1, 2), (1, 0)],
        },
{
    let mut out: Vec<Coordinates> = Vec::new();
    push_tile(&mut out, neighbor(coordinates, 1, 0), false);
    push_tile(&mut out, neighbor(coordinates, -1, 0), false);
    push_tile(&mut out, neighbor(coordinates, 0, 1), false);
    push_tile(&mut out, neighbor(coordinates, 0, -1), false);
    proof {
        reveal(axis_around_where);
        assert forall|p: Coordinates| #[trigger]
            out@.contains(p) <==> is_across(p, *coordinates) && p != CENTER_TILE by {
            lemma_axis_around_where_contains(*coordinates, off_center(), p);
        }
        if in_bounds(*coordinates) {
            lemma_axis_coords_by_class(*coordinates);
        }
    }
    out
}

/// What can be asked of a tile: its neighbours, the tile opposite, and
/// whether it lies in a line with others.
pub trait CoordinateMethods {
    /// The tile that the value names.
    spec fn coords(&self) -> Coordinates;

    /// The tile reached by going from `self` to `adjacent_coords` and as far
    /// again: `adjacent_coords + (adjacent_coords - self)`.
    fn get_opposite_coordinates(&self, adjacent_coords: &Coordinates) -> (opposite: Coordinates)
        requires
            reflects_on_grid(self.coords(), *adjacent_coords),
        ensures
            opposite == opposite_of(self.coords(), *adjacent_coords),
            in_bounds(opposite),
    ;

    /// Whether `self` is a tile of the grid one diagonal move away from
    /// `origin_coords`.
    fn is_diagonal_from(&self, origin_coords: &Coordinates) -> (diagonal: bool)
        ensures
            diagonal == is_diagonal(self.coords(), *origin_coords),
    ;

    /// Whether `self` is a tile of the grid one row or column move away from
    /// `origin_coords`.
    fn is_across_from(&self, origin_coords: &Coordinates) -> (across: bool)
        ensures
            across == is_across(self.coords(), *origin_coords),
    ;

    /// Whether `self` and its neighbour `adjacent_coords` lie in a line with
    /// a third tile that holds what `self` holds.
    fn is_matching_in_a_row(
        &self,
        adjacent_coords: &Coordinates,
        board_config: &BoardConfig,
    ) -> (matching: bool)
        requires
            in_bounds(self.coords()),
            in_bounds(*adjacent_coords),
            board_config.is_classified(),
        ensures
            matching == in_a_row(self.coords(), *adjacent_coords, *board_config),
    ;

    /// Where `self` lies between `adjacent_coords` and a third tile: whether
    /// that tile holds what `self` holds.
    fn is_in_between_matching(
        &self,
        adjacent_coords: &Coordinates,
        board_config: &BoardConfig,
    ) -> (matching: Option<bool>)
        requires
            in_bounds(self.coords()),
            in_bounds(*adjacent_coords),
            board_config.is_classified(),
        ensures
            matching == match third_beyond_origin(self.coords(), *adjacent_coords) {
                Some(third) => Some(
                    board_config.state_at(third) == board_config.state_at(self.coords()),
                ),
                None => None,
            },
    ;

    /// Where `adjacent_coords` lies between `self` and a third tile: whether
    /// that tile holds what `self` holds.
    fn is_side_matching(
        &self,
        adjacent_coords: &Coordinates,
        board_config: &BoardConfig,
    ) -> (matching: Option<bool>)
        requires
            in_bounds(self.coords()),
            in_bounds(*adjacent_coords),
            board_config.is_classified(),
        ensures
            matching == match third_beyond_adjacent(self.coords(), *adjacent_coords) {
                Some(third) => Some(
                    board_config.state_at(third) == board_config.state_at(self.coords()),
                ),
                None => None,
            },
    ;

    /// The two corners beside an edge; nothing for a tile that is no edge.
    fn get_corners_around_edge(&self, gameboard: &BoardConfig) -> (corners: Vec<Coordinates>)
        requires
            in_bounds(self.coords()),
            gameboard.is_classified(),
        ensures
            corners@ == corners_beside(self.coords()),
            forall|i: int| 0 <= i < corners@.len() ==> in_bounds(#[trigger] corners@[i]),
    ;

    /// The two edges beside a corner; nothing for a tile that is no corner.
    fn get_edges_around_corner(&self, gameboard: &BoardConfig) -> (edges: Vec<Coordinates>)
        requires
            in_bounds(self.coords()),
            gameboard.is_classified(),
        ensures
            edges@ == edges_beside(self.coords()),
            forall|i: int| 0 <= i < edges@.len() ==> in_bounds(#[trigger] edges@[i]),
    ;

    /// The neighbours of a tile on the grid, by king moves, in scan order:
    /// three for a corner, five for an edge, eight for the centre.
    fn get_coords_around(&self) -> (around: Vec<Coordinates>)
        ensures
            around@ == coords_around(self.coords()),
            forall|p: Coordinates|
                #[trigger] around@.contains(p) <==> is_neighbor(p, self.coords()),
            in_bounds(self.coords()) ==> around@ == neighbors_on_grid(self.coords()),
    ;
}

impl CoordinateMethods for Coordinates {
    open spec fn coords(&self) -> Coordinates {
        *self
    }

    fn get_opposite_coordinates(&self, adjacent_coords: &Coordinates) -> (opposite: Coordinates) {
        let row = if self.0 <= adjacent_coords.0 {
            adjacent_coords.0 + (adjacent_coords.0 - self.0)
        } else {
            adjacent_coords.0 - (self.0 - adjacent_coords.0)
        };
        let col = if self.1 <= adjacent_coords.1 {
            adjacent_coords.1 + (adjacent_coords.1 - self.1)
        } else {
            adjacent_coords.1 - (self.1 - adjacent_coords.1)
        };
        (row, col)
    }

    fn is_diagonal_from(&self, origin_coords: &Coordinates) -> (diagonal: bool) {
        self.0 < GRID_SIZE && self.1 < GRID_SIZE && differ_by_one(self.0, origin_coords.0)
            && differ_by_one(self.1, origin_coords.1)
    }

    fn is_across_from(&self, origin_coords: &Coordinates) -> (across: bool) {
        self.0 < GRID_SIZE && self.1 < GRID_SIZE && ((self.1 == origin_coords.1 && differ_by_one(
            self.0,
            origin_coords.0,
        )) || (self.0 == origin_coords.0 && differ_by_one(self.1, origin_coords.1)))
    }

    fn is_matching_in_a_row(
        &self,
        adjacent_coords: &Coordinates,
        board_config: &BoardConfig,
    ) -> (matching: bool) {
        if let Some(is_matching) = self.is_in_between_matching(adjacent_coords, board_config) {
            is_matching
        } else if let Some(is_matching) = self.is_side_matching(adjacent_coords, board_config) {
            is_matching
        } else {
            false
        }
    }

    fn is_in_between_matching(
        &self,
        adjacent_coords: &Coordinates,
        board_config: &BoardConfig,
    ) -> (matching: Option<bool>) {
        let is_near = adjacent_coords.is_diagonal_from(self) || adjacent_coords.is_across_from(
            self,
        );
        let own_position = *board_config.get_board_position(self);

        if is_near && (own_position == BoardPositions::Center || own_position
            == BoardPositions::Edge && *board_config.get_board_position(adjacent_coords)
            == BoardPositions::Corner) {
            let opposite_coords = adjacent_coords.get_opposite_coordinates(self);

            Some(
                *board_config.get_board_state(&opposite_coords) == *board_config.get_board_state(
                    self,
                ),
            )
        } else {
            None
        }
    }

    fn is_side_matching(
        &self,
        adjacent_coords: &Coordinates,
        board_config: &BoardConfig,
    ) -> (matching: Option<bool>) {
        let is_near = adjacent_coords.is_diagonal_from(self) || adjacent_coords.is_across_from(
            self,
        );
        let own_position = *board_config.get_board_position(self);
        let adjacent_position = *board_config.get_board_position(adjacent_coords);

        if is_near && own_position != BoardPositions::Center && adjacent_position
            != BoardPositions::Corner && adjacent_position != own_position {
            let opposite_coords = self.get_opposite_coordinates(adjacent_coords);

            Some(
                *board_config.get_board_state(&opposite_coords) == *board_config.get_board_state(
                    self,
                ),
            )
        } else {
            None
        }
    }

    fn get_corners_around_edge(&self, gameboard: &BoardConfig) -> (corners: Vec<Coordinates>) {
        if *gameboard.get_board_position(self) == BoardPositions::Edge {
            let corners = get_corners_around_edge_and_edges_around_corner(self);
            proof {
                lemma_axis_coords_by_class(*self);
            }
            corners
        } else {
            Vec::new()
        }
    }

    fn get_edges_around_corner(&self, gameboard: &BoardConfig) -> (edges: Vec<Coordinates>) {
        if *gameboard.get_board_position(self) == BoardPositions::Corner {
            let edges = get_corners_around_edge_and_edges_around_corner(self);
            proof {
                lemma_axis_coords_by_class(*self);
            }
            edges
        } else {
            Vec::new()
        }
    }

    fn get_coords_around(&self) -> (around: Vec<Coordinates>) {
        let mut around: Vec<Coordinates> = Vec::new();
        push_tile(&mut around, neighbor(self, 1, 0), true);
        push_tile(&mut around, neighbor(self, -1, 0), true);
        push_tile(&mut around, neighbor(self, 0, 1), true);
        push_tile(&mut around, neighbor(self, 0, -1), true);
        push_tile(&mut around, neighbor(self, 1, 1), true);
        push_tile(&mut around, neighbor(self, -1, -1), true);
        push_tile(&mut around, neighbor(self, -1, 1), true);
        push_tile(&mut around, neighbor(self, 1, -1), true);
        proof {
            reveal(around_where);
            reveal(axis_around_where);
            assert forall|p: Coordinates| #[trigger]
                around@.contains(p) <==> is_neighbor(p, *self) by {
                lemma_around_where_contains(*self, any_tile(), p);
            }
            if in_bounds(*self) {
                lemma_coords_around_on_grid(*self);
            }
        }
        around
    }
}

} // verus!
