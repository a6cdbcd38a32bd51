//! The forced tile: the one tile that completes a line through a corner or
//! an edge.

use crate::coordinate_methods::{
    class_of, in_bounds, is_neighbor, opposite_of, CoordinateMethods, Coordinates, CENTER_TILE,
};
use crate::gameboard::{BoardConfig, BoardPositions, BoardStates};
use crate::neighbors::{
    any_tile, around_where, axis_around_where, lemma_around_where_contains,
    lemma_around_where_narrowed,
};
use crate::seq_facts::{
    item_if, lemma_add_contains, lemma_filter_nothing, lemma_filter_take_next, lemma_take_ends,
    only_of,
};
use vstd::prelude::*;

verus! {

/// The tile that lies opposite `c` on the other side of the centre.
pub open spec fn mirrored(c: Coordinates) -> Coordinates {
    ((2 - c.0) as usize, (2 - c.1) as usize)
}

/// The one of 0, 1 and 2 that is neither `a` nor `b`, for two of them that
/// differ.
pub open spec fn third_of(a: usize, b: usize) -> usize {
    (3 - a - b) as usize
}

/// The tiles of another class than `c`.
spec fn of_other_class(c: Coordinates) -> spec_fn(Coordinates) -> bool {
    |n: Coordinates| class_of(n) != class_of(c)
}

/// The neighbours of `c` that are of another class than `c`, in scan order:
/// for a corner its two edges and the centre, for an edge its two corners and
/// the centre.
spec fn nearby_of_other_class(c: Coordinates) -> Seq<Coordinates> {
    around_where(c, of_other_class(c))
}

/// The tile at the far end of the line that starts at `c` and passes through
/// a neighbour.
spec fn beyond_from(c: Coordinates) -> spec_fn(Coordinates) -> Coordinates {
    |n: Coordinates| opposite_of(c, n)
}

/// The tile at the far end of the line that starts at a neighbour and passes
/// through `c`.
spec fn across_from(c: Coordinates) -> spec_fn(Coordinates) -> Coordinates {
    |n: Coordinates| opposite_of(n, c)
}

/// `nearby_of_other_class(c)` holds the neighbours of `c` whose class is not
/// that of `c`.
proof fn lemma_nearby_contains(c: Coordinates, n: Coordinates)
    ensures
        nearby_of_other_class(c).contains(n) <==> is_neighbor(n, c) && class_of(n) != class_of(c),
{
    lemma_around_where_contains(c, of_other_class(c), n);
}

impl BoardConfig {
    /// The tiles that complete the line from `c` through `near` to `far` for
    /// the mark of `c`: `far` where `near` holds that mark and `far` is
    /// empty, `near` where `near` is empty and `far` holds that mark.
    pub open spec fn line_gaps(
        &self,
        c: Coordinates,
        near: Coordinates,
        far: Coordinates,
    ) -> Seq<Coordinates> {
        item_if(
            self.state_at(near) == self.state_at(c) && self.state_at(far) == BoardStates::Empty,
            far,
        ) + item_if(
            self.state_at(near) == BoardStates::Empty && self.state_at(far) == self.state_at(c),
            near,
        )
    }

    /// The tiles that would complete a line through the corner `c`: what is
    /// free in its column, in its row and on its diagonal.
    pub open spec fn corner_candidates(&self, c: Coordinates) -> Seq<Coordinates> {
        self.line_gaps(c, (1, c.1), (mirrored(c).0, c.1)) + self.line_gaps(
            c,
            (c.0, 1),
            (c.0, mirrored(c).1),
        ) + self.line_gaps(c, CENTER_TILE, mirrored(c))
    }

    /// The corners that would complete the border line through the edge `c`:
    /// the empty one of its two corners where the other holds the mark of
    /// `c`.
    pub open spec fn border_candidates(&self, c: Coordinates) -> Seq<Coordinates> {
        let first = if c.0 == 1 {
            (2usize, c.1)
        } else {
            (c.0, 2usize)
        };
        let second = if c.0 == 1 {
            (0usize, c.1)
        } else {
            (c.0, 0usize)
        };
        item_if(
            self.state_at(first) == self.state_at(c) && self.state_at(second)
                == BoardStates::Empty,
            second,
        ) + item_if(
            self.state_at(second) == self.state_at(c) && self.state_at(first)
                == BoardStates::Empty,
            first,
        )
    }

    /// The tiles that would complete the line through the centre on which the
    /// edge `c` lies: the edge opposite where the centre holds the mark of
    /// `c` and that edge is empty, the centre where it is empty and the edge
    /// opposite holds the mark.
    pub open spec fn center_line_candidates(&self, c: Coordinates) -> Seq<Coordinates> {
        self.line_gaps(c, CENTER_TILE, mirrored(c))
    }

    /// The tiles that would complete a line through the edge `c`: what is
    /// free on its border line and on its line through the centre.
    pub open spec fn edge_candidates(&self, c: Coordinates) -> Seq<Coordinates> {
        self.border_candidates(c) + self.center_line_candidates(c)
    }

    /// The tile that completes a line through the corner `c`, where exactly
    /// one tile does; nothing where none does or several do.
    pub open spec fn corner_series(&self, c: Coordinates) -> Option<Coordinates> {
        only_of(self.corner_candidates(c))
    }

    /// The tile that completes a line through the edge `c`, where exactly
    /// one tile does; nothing where none does or several do.
    pub open spec fn edge_series(&self, c: Coordinates) -> Option<Coordinates> {
        only_of(self.edge_candidates(c))
    }

    /// The tile that is forced by the lines through `c`, see `corner_series`
    /// and `edge_series`; nothing for the centre.
    pub open spec fn two_in_series(&self, c: Coordinates) -> Option<Coordinates> {
        match class_of(c) {
            BoardPositions::Corner => self.corner_series(c),
            BoardPositions::Edge => self.edge_series(c),
            BoardPositions::Center => None,
        }
    }

    /// Whether the empty tile `tile` is all that the mark of `c` lacks in a
    /// line through `c`: `c` holds a mark, `tile` is another tile of its row,
    /// its column or a diagonal on which both lie, and the third tile of that
    /// line holds the mark of `c`.
    pub open spec fn fills_line(&self, c: Coordinates, tile: Coordinates) -> bool {
        let mark = self.state_at(c);
        &&& mark != BoardStates::Empty
        &&& in_bounds(c)
        &&& in_bounds(tile)
        &&& tile != c
        &&& self.state_at(tile) == BoardStates::Empty
        &&& {
            ||| c.0 == tile.0 && self.state_at((c.0, third_of(c.1, tile.1))) == mark
            ||| c.1 == tile.1 && self.state_at((third_of(c.0, tile.0), c.1)) == mark
            ||| c.0 == c.1 && tile.0 == tile.1 && self.state_at(
                (third_of(c.0, tile.0), third_of(c.1, tile.1)),
            ) == mark
            ||| c.0 + c.1 == 2 && tile.0 + tile.1 == 2 && self.state_at(
                (third_of(c.0, tile.0), third_of(c.1, tile.1)),
            ) == mark
        }
    }

    /// The neighbours `n` of `c`, of another class than `c`, through which a
    /// line of `c` can be completed at its far end: `n` holds the mark of `c`
    /// and the tile beyond `n` is empty.
    spec fn open_beyond(&self, c: Coordinates) -> spec_fn(Coordinates) -> bool {
        |n: Coordinates|
            class_of(n) != class_of(c) && self.state_at(n) == self.state_at(c) && self.state_at(
                opposite_of(c, n),
            ) == BoardStates::Empty
    }

    /// The neighbours `n` of `c`, of another class than `c`, at which a line
    /// of `c` can be completed: `n` is empty and the tile beyond `n` holds
    /// the mark of `c`.
    spec fn open_before(&self, c: Coordinates) -> spec_fn(Coordinates) -> bool {
        |n: Coordinates|
            class_of(n) != class_of(c) && self.state_at(n) == BoardStates::Empty && self.state_at(
                opposite_of(c, n),
            ) == self.state_at(c)
    }

    /// The corners `n` beside the edge `c` from which the line along the
    /// border can be completed: `n` holds the mark of `c` and the corner at
    /// the other side of `c` is empty.
    spec fn open_across(&self, c: Coordinates) -> spec_fn(Coordinates) -> bool {
        |n: Coordinates|
            class_of(n) == BoardPositions::Corner && self.state_at(n) == self.state_at(c)
                && self.state_at(opposite_of(n, c)) == BoardStates::Empty
    }

    /// What the search from the corner `c` finds: the far ends of its lines
    /// first, then the tiles next to `c`.
    spec fn found_from_corner(&self, c: Coordinates) -> Seq<Coordinates> {
        around_where(c, self.open_beyond(c)).map_values(beyond_from(c)) + around_where(
            c,
            self.open_before(c),
        )
    }

    /// What the search from the edge `c` finds along the border.
    spec fn found_from_edge(&self, c: Coordinates) -> Seq<Coordinates> {
        around_where(c, self.open_across(c)).map_values(across_from(c))
    }

    /// The tile that is forced from a marked tile is all that the mark lacks
    /// in a line through that tile: it is empty, it is another tile, and the
    /// third tile of their line holds the mark.
    pub proof fn lemma_series_fills_line(&self, c: Coordinates)
        requires
            in_bounds(c),
            self.state_at(c) != BoardStates::Empty,
            self.two_in_series(c) is Some,
        ensures
            self.fills_line(c, self.two_in_series(c)->0),
    {
        if class_of(c) == BoardPositions::Corner {
            self.lemma_corner_series_fills_line(c);
        } else {
            self.lemma_edge_series_fills_line(c);
        }
    }

    /// A tile is forced from a marked corner or edge exactly if it is the one
    /// tile that is all that the mark lacks in a line through the corner or
    /// edge.
    pub proof fn lemma_series_is_the_one_filler(&self, c: Coordinates, tile: Coordinates)
        requires
            in_bounds(c),
            c != CENTER_TILE,
            self.state_at(c) != BoardStates::Empty,
        ensures
            self.two_in_series(c) == Some(tile) <==> self.fills_line(c, tile) && forall|
                other: Coordinates,
            | #[trigger] self.fills_line(c, other) ==> other == tile,
    {
        assert forall|other: Coordinates| #[trigger]
            self.fills_line(c, other) == self.is_candidate(c, other) by {
            if self.fills_line(c, other) {
                self.lemma_filler_is_candidate(c, other);
            }
            if self.is_candidate(c, other) {
                self.lemma_candidate_is_filler(c, other);
            }
        }
        self.lemma_candidates_of_series(c);
        if self.two_in_series(c) is Some {
            self.lemma_series_fills_line(c);
            assert(self.is_candidate(c, self.two_in_series(c)->0));
        } else if self.fills_line(c, tile) {
            assert(self.is_candidate(c, tile));
            let pair = choose|pair: (Coordinates, Coordinates)|
                pair.0 != pair.1 && self.is_candidate(c, pair.0) && self.is_candidate(c, pair.1);
            assert(self.fills_line(c, pair.0) && self.fills_line(c, pair.1));
        }
    }

    /// A tile that is all that a mark lacks in a line completes the line once
    /// it holds the mark: the line is then full through either tile.
    pub proof fn lemma_filled_line_completes(
        &self,
        after: &BoardConfig,
        c: Coordinates,
        tile: Coordinates,
    )
        requires
            self.fills_line(c, tile),
            self.marked_at(after, tile, self.state_at(c)),
        ensures
            after.completes_line(c),
            after.completes_line(tile),
    {
        let mark = self.state_at(c);
        assert(after.state_at(c) == mark);
        if c.0 == tile.0 && self.state_at((c.0, third_of(c.1, tile.1))) == mark {
            assert(after.state_at((c.0, third_of(c.1, tile.1))) == mark);
            assert(after.row_is(c.0, mark));
        } else if c.1 == tile.1 && self.state_at((third_of(c.0, tile.0), c.1)) == mark {
            assert(after.state_at((third_of(c.0, tile.0), c.1)) == mark);
            assert(after.column_is(c.1, mark));
        } else {
            assert(after.state_at((third_of(c.0, tile.0), third_of(c.1, tile.1))) == mark);
            assert(after.diagonal_is(mark) || after.antidiagonal_is(mark));
        }
    }

    /// The tile that is forced from a marked corner is empty, and it
    /// completes a line through the corner once it holds the mark of the
    /// corner.
    pub proof fn lemma_corner_series_completes(&self, after: &BoardConfig, c: Coordinates)
        requires
            in_bounds(c),
            class_of(c) == BoardPositions::Corner,
            self.state_at(c) != BoardStates::Empty,
            self.corner_series(c) is Some,
            self.marked_at(after, self.corner_series(c)->0, self.state_at(c)),
        ensures
            self.fills_line(c, self.corner_series(c)->0),
            after.completes_line(c),
            after.completes_line(self.corner_series(c)->0),
    {
        self.lemma_corner_series_fills_line(c);
        self.lemma_filled_line_completes(after, c, self.corner_series(c)->0);
    }

    /// The tile that is forced from a marked edge is empty, and it completes
    /// a line through the edge once it holds the mark of the edge.
    pub proof fn lemma_edge_series_completes(&self, after: &BoardConfig, c: Coordinates)
        requires
            in_bounds(c),
            class_of(c) == BoardPositions::Edge,
            self.state_at(c) != BoardStates::Empty,
            self.edge_series(c) is Some,
            self.marked_at(after, self.edge_series(c)->0, self.state_at(c)),
        ensures
            self.fills_line(c, self.edge_series(c)->0),
            after.completes_line(c),
            after.completes_line(self.edge_series(c)->0),
    {
        self.lemma_edge_series_fills_line(c);
        self.lemma_filled_line_completes(after, c, self.edge_series(c)->0);
    }

    /// Whether `tile` is among the tiles that would complete a line through
    /// `c`.
    spec fn is_candidate(&self, c: Coordinates, tile: Coordinates) -> bool {
        if class_of(c) == BoardPositions::Corner {
            self.corner_candidates(c).contains(tile)
        } else {
            self.edge_candidates(c).contains(tile)
        }
    }

    /// Every tile that is all that a mark lacks in a line through a corner
    /// or an edge is among the candidates of that corner or edge.
    proof fn lemma_filler_is_candidate(&self, c: Coordinates, tile: Coordinates)
        requires
            in_bounds(c),
            c != CENTER_TILE,
            self.fills_line(c, tile),
        ensures
            self.is_candidate(c, tile),
    {
        let mark = self.state_at(c);
        if class_of(c) == BoardPositions::Corner {
            let column = self.line_gaps(c, (1, c.1), (mirrored(c).0, c.1));
            let row = self.line_gaps(c, (c.0, 1), (c.0, mirrored(c).1));
            let diagonal = self.line_gaps(c, CENTER_TILE, mirrored(c));
            if c.1 == tile.1 {
                assert(column.len() == 1 && column[0] == tile);
                assert((column + row + diagonal)[0] == tile);
            } else if c.0 == tile.0 {
                assert(row.len() == 1 && row[0] == tile);
                assert((column + row + diagonal)[column.len() as int] == tile);
            } else {
                assert(diagonal.len() == 1 && diagonal[0] == tile);
                assert((column + row + diagonal)[(column.len() + row.len()) as int] == tile);
            }
        } else {
            let border = self.border_candidates(c);
            let through = self.center_line_candidates(c);
            if tile == CENTER_TILE || tile == mirrored(c) {
                assert(through.len() == 1 && through[0] == tile);
                assert((border + through)[border.len() as int] == tile);
            } else {
                assert(border.len() == 1 && border[0] == tile);
                assert((border + through)[0] == tile);
            }
        }
    }

    /// The forced tile is the one candidate: where a tile is forced, every
    /// candidate is that tile, and where none is forced, there is no
    /// candidate or there are two that differ.
    proof fn lemma_candidates_of_series(&self, c: Coordinates)
        requires
            in_bounds(c),
            c != CENTER_TILE,
            self.state_at(c) != BoardStates::Empty,
        ensures
            self.two_in_series(c) matches Some(tile) ==> forall|other: Coordinates|
                #[trigger] self.is_candidate(c, other) ==> other == tile,
            self.two_in_series(c) is None ==> (forall|other: Coordinates|
                !#[trigger] self.is_candidate(c, other)) || exists|pair: (Coordinates, Coordinates)|
                pair.0 != pair.1 && self.is_candidate(c, pair.0) && self.is_candidate(c, pair.1),
    {
        let all = if class_of(c) == BoardPositions::Corner {
            self.corner_candidates(c)
        } else {
            self.edge_candidates(c)
        };
        if all.len() == 1 {
            assert forall|other: Coordinates| #[trigger]
                self.is_candidate(c, other) implies other == all[0] by {
                let i = choose|i: int| 0 <= i < all.len() && all[i] == other;
            }
        } else if all.len() == 0 {
            assert forall|other: Coordinates| !#[trigger] self.is_candidate(c, other) by {
                if all.contains(other) {
                    let i = choose|i: int| 0 <= i < all.len() && all[i] == other;
                }
            }
        } else {
            assert(all.contains(all[0]) && all.contains(all[1]));
            self.lemma_candidates_differ(c);
            let pair = (all[0], all[1]);
            assert(pair.0 != pair.1 && self.is_candidate(c, pair.0) && self.is_candidate(
                c,
                pair.1,
            ));
        }
    }

    /// Every candidate of a marked corner or edge is all that the mark lacks
    /// in a line through it.
    proof fn lemma_candidate_is_filler(&self, c: Coordinates, tile: Coordinates)
        requires
            in_bounds(c),
            c != CENTER_TILE,
            self.state_at(c) != BoardStates::Empty,
            self.is_candidate(c, tile),
        ensures
            self.fills_line(c, tile),
    {
        if class_of(c) == BoardPositions::Corner {
            let column = self.line_gaps(c, (1, c.1), (mirrored(c).0, c.1));
            let row = self.line_gaps(c, (c.0, 1), (c.0, mirrored(c).1));
            let diagonal = self.line_gaps(c, CENTER_TILE, mirrored(c));
            lemma_add_contains(column, row, tile);
            lemma_add_contains(column + row, diagonal, tile);
            if column.contains(tile) {
                self.lemma_gap_is_filler(c, (1, c.1), (mirrored(c).0, c.1), tile);
            } else if row.contains(tile) {
                self.lemma_gap_is_filler(c, (c.0, 1), (c.0, mirrored(c).1), tile);
            } else {
                self.lemma_gap_is_filler(c, CENTER_TILE, mirrored(c), tile);
            }
        } else {
            let border = self.border_candidates(c);
            let through = self.center_line_candidates(c);
            lemma_add_contains(border, through, tile);
            if border.contains(tile) {
                self.lemma_border_gap_is_filler(c, tile);
            } else {
                self.lemma_gap_is_filler(c, CENTER_TILE, mirrored(c), tile);
            }
        }
    }

    /// A candidate on the line from a marked tile through `near` to `far` is
    /// all that the mark lacks in that line.
    proof fn lemma_gap_is_filler(
        &self,
        c: Coordinates,
        near: Coordinates,
        far: Coordinates,
        tile: Coordinates,
    )
        requires
            in_bounds(c),
            in_bounds(near),
            in_bounds(far),
            self.state_at(c) != BoardStates::Empty,
            c.0 + far.0 == 2 * near.0,
            c.1 + far.1 == 2 * near.1,
            c != near,
            self.line_gaps(c, near, far).contains(tile),
        ensures
            self.fills_line(c, tile),
    {
        let gaps = self.line_gaps(c, near, far);
        let i = choose|i: int| 0 <= i < gaps.len() && gaps[i] == tile;
        assert(tile == near || tile == far);
        if tile == near {
            assert(self.state_at(far) == self.state_at(c));
            assert(third_of(c.0, near.0) == far.0 || c.0 == near.0);
            assert(third_of(c.1, near.1) == far.1 || c.1 == near.1);
        } else {
            assert(self.state_at(near) == self.state_at(c));
            assert(third_of(c.0, far.0) == near.0 || c.0 == far.0);
            assert(third_of(c.1, far.1) == near.1 || c.1 == far.1);
        }
    }

    /// A candidate on the border line of a marked edge is all that the mark
    /// lacks in that line.
    proof fn lemma_border_gap_is_filler(&self, c: Coordinates, tile: Coordinates)
        requires
            in_bounds(c),
            class_of(c) == BoardPositions::Edge,
            self.state_at(c) != BoardStates::Empty,
            self.border_candidates(c).contains(tile),
        ensures
            self.fills_line(c, tile),
    {
        let border = self.border_candidates(c);
        let i = choose|i: int| 0 <= i < border.len() && border[i] == tile;
        if c.0 == 1 {
            assert(tile == (2usize, c.1) || tile == (0usize, c.1));
        } else {
            assert(tile == (c.0, 2usize) || tile == (c.0, 0usize));
        }
    }

    /// The candidates of a marked corner or edge are different tiles.
    proof fn lemma_candidates_differ(&self, c: Coordinates)
        requires
            in_bounds(c),
            c != CENTER_TILE,
            self.state_at(c) != BoardStates::Empty,
        ensures
            class_of(c) == BoardPositions::Corner && self.corner_candidates(c).len() >= 2
                ==> self.corner_candidates(c)[0] != self.corner_candidates(c)[1],
            class_of(c) == BoardPositions::Edge && self.edge_candidates(c).len() >= 2
                ==> self.edge_candidates(c)[0] != self.edge_candidates(c)[1],
    {
    }

    /// See `lemma_series_fills_line`, for a corner.
    proof fn lemma_corner_series_fills_line(&self, c: Coordinates)
        requires
            in_bounds(c),
            class_of(c) == BoardPositions::Corner,
            self.state_at(c) != BoardStates::Empty,
            self.corner_series(c) is Some,
        ensures
            self.fills_line(c, self.corner_series(c)->0),
    {
        let tile = self.corner_series(c)->0;
        let column = self.line_gaps(c, (1, c.1), (mirrored(c).0, c.1));
        let row = self.line_gaps(c, (c.0, 1), (c.0, mirrored(c).1));
        let diagonal = self.line_gaps(c, CENTER_TILE, mirrored(c));
        if column.len() == 1 {
            assert(tile == column[0]);
        } else if row.len() == 1 {
            assert(tile == row[0]);
        } else {
            assert(tile == diagonal[0]);
        }
    }

    /// See `lemma_series_fills_line`, for an edge.
    proof fn lemma_edge_series_fills_line(&self, c: Coordinates)
        requires
            in_bounds(c),
            class_of(c) == BoardPositions::Edge,
            self.state_at(c) != BoardStates::Empty,
            self.edge_series(c) is Some,
        ensures
            self.fills_line(c, self.edge_series(c)->0),
    {
        let tile = self.edge_series(c)->0;
        let border = self.border_candidates(c);
        let through = self.center_line_candidates(c);
        if border.len() == 1 {
            assert(tile == border[0]);
        } else {
            assert(tile == through[0]);
        }
    }

    /// The search from a corner finds one tile exactly where one tile
    /// completes a line through the corner, and then that tile.
    proof fn lemma_corner_search(&self, c: Coordinates)
        requires
            in_bounds(c),
            class_of(c) == BoardPositions::Corner,
        ensures
            only_of(self.found_from_corner(c)) == self.corner_series(c),
    {
        reveal(around_where);
        reveal(axis_around_where);
        let far = around_where(c, self.open_beyond(c));
        let near = around_where(c, self.open_before(c));
        let found = self.found_from_corner(c);
        let column = self.line_gaps(c, (1, c.1), (mirrored(c).0, c.1));
        let row = self.line_gaps(c, (c.0, 1), (c.0, mirrored(c).1));
        let diagonal = self.line_gaps(c, CENTER_TILE, mirrored(c));
        assert(far.len() + near.len() == column.len() + row.len() + diagonal.len());
        assert(found.len() == 1 ==> found[0] == self.corner_candidates(c)[0]);
    }

    /// The search from an edge finds as many corners as complete the border
    /// line through the edge, and where it finds one, that corner.
    proof fn lemma_edge_search(&self, c: Coordinates)
        requires
            in_bounds(c),
            class_of(c) == BoardPositions::Edge,
        ensures
            self.found_from_edge(c).len() == self.border_candidates(c).len(),
            self.found_from_edge(c).len() == 1 ==> self.found_from_edge(c)[0]
                == self.border_candidates(c)[0],
            only_of(self.found_from_edge(c) + self.center_line_candidates(c))
                == self.edge_series(c),
    {
        reveal(around_where);
        reveal(axis_around_where);
        let found = self.found_from_edge(c);
        let border = self.border_candidates(c);
        let through = self.center_line_candidates(c);
        assert(found.len() == border.len());
        assert(found.len() == 1 ==> found[0] == border[0]);
        assert((found + through).len() == (border + through).len());
        assert((found + through).len() == 1 ==> (found + through)[0] == (border + through)[0]);
    }

    /// If there is a series of 2, this will return the empty one in the
    /// series. Otherwise it'll return None.
    pub fn check_if_two_in_series(&self, check_from: &Coordinates) -> (tile: Option<Coordinates>)
        requires
            in_bounds(*check_from),
            self.is_classified(),
        ensures
            tile == self.two_in_series(*check_from),
            tile matches Some(free) ==> in_bounds(free) && free != *check_from && self.state_at(
                free,
            ) == BoardStates::Empty,
            tile matches Some(free) ==> self.state_at(*check_from) == BoardStates::Empty
                || self.fills_line(*check_from, free),
    {
        let around = check_from.get_coords_around();
        let own_position = *self.get_board_position(check_from);
        let mut nearby_coords: Vec<Coordinates> = Vec::new();
        let mut i: usize = 0;
        proof {
            lemma_take_ends(around@);
            lemma_filter_nothing(of_other_class(*check_from));
        }
        while i < around.len()
            invariant
                i <= around.len(),
                in_bounds(*check_from),
                self.is_classified(),
                own_position == class_of(*check_from),
                forall|p: Coordinates| #[trigger]
                    around@.contains(p) <==> is_neighbor(p, *check_from),
                nearby_coords@ == around@.take(i as int).filter(of_other_class(*check_from)),
            decreases around.len() - i,
        {
            proof {
                lemma_filter_take_next(around@, i as int, of_other_class(*check_from));
                assert(around@.contains(around@[i as int]));
            }
            let tile = around[i];
            if *self.get_board_position(&tile) != own_position {
                nearby_coords.push(tile);
                assert(nearby_coords@ =~= around@.take(i as int).filter(
                    of_other_class(*check_from),
                ) + seq![tile]);
            } else {
                assert(nearby_coords@ =~= nearby_coords@ + Seq::<Coordinates>::empty());
            }
            i = i + 1;
        }
        proof {
            lemma_around_where_narrowed(*check_from, any_tile(), of_other_class(*check_from));
            if own_position == BoardPositions::Corner {
                self.lemma_corner_search(*check_from);
            } else if own_position == BoardPositions::Edge {
                self.lemma_edge_search(*check_from);
            }
            if self.state_at(*check_from) != BoardStates::Empty && self.two_in_series(
                *check_from,
            ) is Some {
                self.lemma_series_fills_line(*check_from);
            }
        }

        match own_position {
            BoardPositions::Edge => series_of_two_edge_check(self, check_from, nearby_coords),
            BoardPositions::Corner => series_of_two_corner_check(self, check_from, nearby_coords),
            _ => None,
        }
    }
}

/// The one tile that completes a line through an edge: along the border,
/// found among the neighbours of the edge that are no edges, or on the line
/// through the centre.
fn series_of_two_edge_check(
    gameboard: &BoardConfig,
    check_from: &Coordinates,
    nearby_coords: Vec<Coordinates>,
) -> (tile: Option<Coordinates>)
    requires
        in_bounds(*check_from),
        class_of(*check_from) == BoardPositions::Edge,
        gameboard.is_classified(),
        nearby_coords@ == nearby_of_other_class(*check_from),
    ensures
        tile == only_of(
            gameboard.found_from_edge(*check_from) + gameboard.center_line_candidates(*check_from),
        ),
        tile matches Some(free) ==> in_bounds(free) && free != *check_from && gameboard.state_at(
            free,
        ) == BoardStates::Empty,
{
    let checking_state = *gameboard.get_board_state(check_from);
    let mut from_corner: Vec<Coordinates> = Vec::new();
    let mut i: usize = 0;
    proof {
        lemma_take_ends(nearby_coords@);
        lemma_filter_nothing(gameboard.open_across(*check_from));
        assert(Seq::<Coordinates>::empty().map_values(across_from(*check_from))
            =~= Seq::<Coordinates>::empty());
    }
    while i < nearby_coords.len()
        invariant
            i <= nearby_coords.len(),
            in_bounds(*check_from),
            class_of(*check_from) == BoardPositions::Edge,
            gameboard.is_classified(),
            checking_state == gameboard.state_at(*check_from),
            nearby_coords@ == nearby_of_other_class(*check_from),
            from_corner@ == nearby_coords@.take(i as int).filter(
                gameboard.open_across(*check_from),
            ).map_values(across_from(*check_from)),
            from_corner@.len() <= i,
            forall|k: int|
                0 <= k < from_corner@.len() ==> in_bounds(#[trigger] from_corner@[k])
                    && from_corner@[k] != *check_from && gameboard.state_at(from_corner@[k])
                    == BoardStates::Empty,
        decreases nearby_coords.len() - i,
    {
        let coords = nearby_coords[i];
        proof {
            lemma_filter_take_next(nearby_coords@, i as int, gameboard.open_across(*check_from));
            assert(nearby_coords@.contains(coords));
            lemma_nearby_contains(*check_from, coords);
            let before = nearby_coords@.take(i as int).filter(gameboard.open_across(*check_from));
            assert((before + seq![coords]).map_values(across_from(*check_from))
                =~= before.map_values(across_from(*check_from)).push(
                opposite_of(coords, *check_from),
            ));
            assert((before + Seq::<Coordinates>::empty()).map_values(across_from(*check_from))
                =~= before.map_values(across_from(*check_from)));
        }
        if *gameboard.get_board_position(&coords) == BoardPositions::Corner
            && *gameboard.get_board_state(&coords) == checking_state {
            let other_corner = coords.get_opposite_coordinates(check_from);
            if *gameboard.get_board_state(&other_corner) == BoardStates::Empty {
                from_corner.push(other_corner);
            }
        }
        i = i + 1;
    }
    proof {
        lemma_around_where_narrowed(
            *check_from,
            of_other_class(*check_from),
            gameboard.open_across(*check_from),
        );
    }

    let opposite_edge = check_from.get_opposite_coordinates(&CENTER_TILE);
    let center_state = *gameboard.get_board_state(&CENTER_TILE);
    let opposite_state = *gameboard.get_board_state(&opposite_edge);
    let mut from_edge: Vec<Coordinates> = Vec::new();

    if center_state == checking_state && opposite_state == BoardStates::Empty {
        from_edge.push(opposite_edge);
    }
    if center_state == BoardStates::Empty && opposite_state == checking_state {
        from_edge.push(CENTER_TILE);
    }
    proof {
        assert(opposite_edge == mirrored(*check_from));
        assert(from_edge@ =~= gameboard.center_line_candidates(*check_from));
    }

    if from_corner.len() == 1 && from_edge.len() == 0 {
        Some(from_corner[0])
    } else if from_corner.len() == 0 && from_edge.len() == 1 {
        Some(from_edge[0])
    } else {
        None
    }
}

/// The one tile that completes a line through a corner, found among the
/// neighbours of the corner that are no corners.
fn series_of_two_corner_check(
    gameboard: &BoardConfig,
    check_from: &Coordinates,
    nearby_coords: Vec<Coordinates>,
) -> (tile: Option<Coordinates>)
    requires
        in_bounds(*check_from),
        class_of(*check_from) == BoardPositions::Corner,
        nearby_coords@ == nearby_of_other_class(*check_from),
    ensures
        tile == only_of(gameboard.found_from_corner(*check_from)),
        tile matches Some(free) ==> in_bounds(free) && free != *check_from && gameboard.state_at(
            free,
        ) == BoardStates::Empty,
{
    let checking_state = *gameboard.get_board_state(check_from);

    let mut valid_empty_far_coords: Vec<Coordinates> = Vec::new();
    let mut valid_empty_near_coords: Vec<Coordinates> = Vec::new();
    let mut i: usize = 0;
    proof {
        lemma_take_ends(nearby_coords@);
        lemma_filter_nothing(gameboard.open_beyond(*check_from));
        lemma_filter_nothing(gameboard.open_before(*check_from));
        assert(Seq::<Coordinates>::empty().map_values(beyond_from(*check_from))
            =~= Seq::<Coordinates>::empty());
    }
    while i < nearby_coords.len()
        invariant
            i <= nearby_coords.len(),
            in_bounds(*check_from),
            class_of(*check_from) == BoardPositions::Corner,
            checking_state == gameboard.state_at(*check_from),
            nearby_coords@ == nearby_of_other_class(*check_from),
            valid_empty_far_coords@ == nearby_coords@.take(i as int).filter(
                gameboard.open_beyond(*check_from),
            ).map_values(beyond_from(*check_from)),
            valid_empty_near_coords@ == nearby_coords@.take(i as int).filter(
                gameboard.open_before(*check_from),
            ),
            valid_empty_far_coords@.len() <= i,
            valid_empty_near_coords@.len() <= i,
            forall|k: int|
                0 <= k < valid_empty_far_coords@.len() ==> in_bounds(
                    #[trigger] valid_empty_far_coords@[k],
                ) && valid_empty_far_coords@[k] != *check_from && gameboard.state_at(
                    valid_empty_far_coords@[k],
                ) == BoardStates::Empty,
            forall|k: int|
                0 <= k < valid_empty_near_coords@.len() ==> in_bounds(
                    #[trigger] valid_empty_near_coords@[k],
                ) && valid_empty_near_coords@[k] != *check_from && gameboard.state_at(
                    valid_empty_near_coords@[k],
                ) == BoardStates::Empty,
        decreases nearby_coords.len() - i,
    {
        let coords = nearby_coords[i];
        proof {
            lemma_filter_take_next(nearby_coords@, i as int, gameboard.open_beyond(*check_from));
            lemma_filter_take_next(nearby_coords@, i as int, gameboard.open_before(*check_from));
            assert(nearby_coords@.contains(coords));
            lemma_nearby_contains(*check_from, coords);
            let far = nearby_coords@.take(i as int).filter(gameboard.open_beyond(*check_from));
            assert((far + seq![coords]).map_values(beyond_from(*check_from)) =~= far.map_values(
                beyond_from(*check_from),
            ).push(opposite_of(*check_from, coords)));
            assert((far + Seq::<Coordinates>::empty()).map_values(beyond_from(*check_from))
                =~= far.map_values(beyond_from(*check_from)));
            let near = nearby_coords@.take(i as int).filter(gameboard.open_before(*check_from));
            assert(near + seq![coords] =~= near.push(coords));
            assert(near + Seq::<Coordinates>::empty() =~= near);
        }
        let beyond = check_from.get_opposite_coordinates(&coords);
        if *gameboard.get_board_state(&coords) == checking_state && *gameboard.get_board_state(
            &beyond,
        ) == BoardStates::Empty {
            valid_empty_far_coords.push(beyond);
        }
        if *gameboard.get_board_state(&coords) == BoardStates::Empty && *gameboard.get_board_state(
            &beyond,
        ) == checking_state {
            valid_empty_near_coords.push(coords);
        }
        i = i + 1;
    }
    proof {
        lemma_around_where_narrowed(
            *check_from,
            of_other_class(*check_from),
            gameboard.open_beyond(*check_from),
        );
        lemma_around_where_narrowed(
            *check_from,
            of_other_class(*check_from),
            gameboard.open_before(*check_from),
        );
    }

    if valid_empty_far_coords.len() == 1 && valid_empty_near_coords.len() == 0 {
        Some(valid_empty_far_coords[0])
    } else if valid_empty_far_coords.len() == 0 && valid_empty_near_coords.len() == 1 {
        Some(valid_empty_near_coords[0])
    } else {
        None
    }
}

} // verus!
