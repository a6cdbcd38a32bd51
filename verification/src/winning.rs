//! When a mark wins: the tiles around a tile that hold its mark, and whether
//! the tile lies in a full line.

use crate::coordinate_methods::{
    in_a_row, in_bounds, is_neighbor, CoordinateMethods, Coordinates,
};
use crate::gameboard::{all_in_bounds, lemma_nine_tiles, BoardConfig, BoardStates};
use crate::neighbors::{
    any_tile, around_where, can_step, lemma_around_where_contains, lemma_around_where_narrowed,
    step,
};
use vstd::prelude::*;

verus! {

impl BoardConfig {
    /// The neighbours of `c` that hold the mark of `c`, in scan order; none
    /// where `c` is empty.
    pub open spec fn matching_around(&self, c: Coordinates) -> Seq<Coordinates> {
        if self.state_at(c) == BoardStates::Empty {
            Seq::empty()
        } else {
            around_where(c, self.holding(self.state_at(c)))
        }
    }

    /// Whether the neighbour of `c` in direction `d` holds the mark of `c`
    /// and lies in a row with `c` whose third tile holds that mark too.
    pub open spec fn wins_toward(&self, c: Coordinates, d: (int, int)) -> bool {
        can_step(c, d) && self.state_at(step(c, d)) == self.state_at(c) && in_a_row(
            c,
            step(c, d),
            *self,
        )
    }

    /// Whether `c` holds a mark and some neighbour of `c` that holds the same
    /// mark lies in a row with it whose third tile holds that mark too.
    pub open spec fn wins_through(&self, c: Coordinates) -> bool {
        self.state_at(c) != BoardStates::Empty && (self.wins_toward(c, (1, 0)) || self.wins_toward(
            c,
            (-1, 0),
        ) || self.wins_toward(c, (0, 1)) || self.wins_toward(c, (0, -1)) || self.wins_toward(
            c,
            (1, 1),
        ) || self.wins_toward(c, (-1, -1)) || self.wins_toward(c, (-1, 1)) || self.wins_toward(
            c,
            (1, -1),
        ))
    }

    /// Whether the three tiles of a row hold `mark`.
    pub open spec fn row_is(&self, row: usize, mark: BoardStates) -> bool {
        self.state_at((row, 0)) == mark && self.state_at((row, 1)) == mark && self.state_at(
            (row, 2),
        ) == mark
    }

    /// Whether the three tiles of a column hold `mark`.
    pub open spec fn column_is(&self, col: usize, mark: BoardStates) -> bool {
        self.state_at((0, col)) == mark && self.state_at((1, col)) == mark && self.state_at(
            (2, col),
        ) == mark
    }

    /// Whether the three tiles from the top left to the bottom right hold
    /// `mark`.
    pub open spec fn diagonal_is(&self, mark: BoardStates) -> bool {
        self.state_at((0, 0)) == mark && self.state_at((1, 1)) == mark && self.state_at((2, 2))
            == mark
    }

    /// Whether the three tiles from the top right to the bottom left hold
    /// `mark`.
    pub open spec fn antidiagonal_is(&self, mark: BoardStates) -> bool {
        self.state_at((0, 2)) == mark && self.state_at((1, 1)) == mark && self.state_at((2, 0))
            == mark
    }

    /// Whether `c` holds a mark that fills one of the lines through `c`: its
    /// row, its column, or a diagonal on which it lies.
    pub open spec fn completes_line(&self, c: Coordinates) -> bool {
        let mark = self.state_at(c);
        mark != BoardStates::Empty && (self.row_is(c.0, mark) || self.column_is(c.1, mark) || (c.0
            == c.1 && self.diagonal_is(mark)) || (c.0 + c.1 == 2 && self.antidiagonal_is(mark)))
    }

    /// A tile wins through a neighbour exactly if its mark fills its row,
    /// its column or a diagonal on which it lies: the test on the neighbours
    /// of the tile marked last finds every line that the mark completed.
    pub proof fn lemma_wins_through_line(&self, c: Coordinates)
        requires
            in_bounds(c),
        ensures
            self.wins_through(c) <==> self.completes_line(c),
    {
        if self.completes_line(c) {
            self.lemma_line_wins(c);
        }
        if self.wins_through(c) {
            if self.wins_toward(c, (1, 0)) {
                self.lemma_toward_completes(c, (1, 0));
            } else if self.wins_toward(c, (-1, 0)) {
                self.lemma_toward_completes(c, (-1, 0));
            } else if self.wins_toward(c, (0, 1)) {
                self.lemma_toward_completes(c, (0, 1));
            } else if self.wins_toward(c, (0, -1)) {
                self.lemma_toward_completes(c, (0, -1));
            } else if self.wins_toward(c, (1, 1)) {
                self.lemma_toward_completes(c, (1, 1));
            } else if self.wins_toward(c, (-1, -1)) {
                self.lemma_toward_completes(c, (-1, -1));
            } else if self.wins_toward(c, (-1, 1)) {
                self.lemma_toward_completes(c, (-1, 1));
            } else {
                self.lemma_toward_completes(c, (1, -1));
            }
        }
    }

    /// A tile that wins through a neighbour fills its row, its column or a
    /// diagonal on which it lies.
    proof fn lemma_toward_completes(&self, c: Coordinates, d: (int, int))
        requires
            in_bounds(c),
            self.state_at(c) != BoardStates::Empty,
            self.wins_toward(c, d),
            -1 <= d.0 <= 1,
            -1 <= d.1 <= 1,
        ensures
            self.completes_line(c),
    {
        let mark = self.state_at(c);
        if d.0 == 0 {
            assert(self.row_is(c.0, mark));
        } else if d.1 == 0 {
            assert(self.column_is(c.1, mark));
        } else if d.0 == d.1 {
            assert(c.0 == c.1 && self.diagonal_is(mark));
        } else {
            assert(c.0 + c.1 == 2 && self.antidiagonal_is(mark));
        }
    }

    /// A tile whose mark fills its row, its column or a diagonal on which it
    /// lies wins through a neighbour.
    proof fn lemma_line_wins(&self, c: Coordinates)
        requires
            in_bounds(c),
            self.completes_line(c),
        ensures
            self.wins_through(c),
    {
        let mark = self.state_at(c);
        if self.row_is(c.0, mark) {
            if c.1 == 2 {
                assert(self.wins_toward(c, (0, -1)));
            } else {
                assert(self.wins_toward(c, (0, 1)));
            }
        } else if self.column_is(c.1, mark) {
            if c.0 == 2 {
                assert(self.wins_toward(c, (-1, 0)));
            } else {
                assert(self.wins_toward(c, (1, 0)));
            }
        } else if c.0 == c.1 && self.diagonal_is(mark) {
            if c.0 == 2 {
                assert(self.wins_toward(c, (-1, -1)));
            } else {
                assert(self.wins_toward(c, (1, 1)));
            }
        } else {
            if c.0 == 2 {
                assert(self.wins_toward(c, (-1, 1)));
            } else {
                assert(self.wins_toward(c, (1, -1)));
            }
        }
    }

    /// Among the neighbours that hold the mark of `c`, one lies in a row
    /// with `c` exactly if `c` wins through one of the eight directions.
    proof fn lemma_winning_neighbor(&self, c: Coordinates, matching: Seq<Coordinates>)
        requires
            in_bounds(c),
            forall|p: Coordinates| #[trigger]
                matching.contains(p) <==> self.state_at(c) != BoardStates::Empty && is_neighbor(
                    p,
                    c,
                ) && self.state_at(p) == self.state_at(c),
        ensures
            self.wins_through(c) <==> exists|k: int|
                0 <= k < matching.len() && in_a_row(c, #[trigger] matching[k], *self),
    {
        if exists|k: int| 0 <= k < matching.len() && in_a_row(c, #[trigger] matching[k], *self) {
            let k = choose|k: int|
                0 <= k < matching.len() && in_a_row(c, #[trigger] matching[k], *self);
            let p = matching[k];
            assert(matching.contains(p));
            let d = (p.0 - c.0, p.1 - c.1);
            assert(p == step(c, d));
            assert(self.wins_toward(c, d));
        }
        if self.wins_through(c) {
            let d: (int, int) = if self.wins_toward(c, (1, 0)) {
                (1, 0)
            } else if self.wins_toward(c, (-1, 0)) {
                (-1, 0)
            } else if self.wins_toward(c, (0, 1)) {
                (0, 1)
            } else if self.wins_toward(c, (0, -1)) {
                (0, -1)
            } else if self.wins_toward(c, (1, 1)) {
                (1, 1)
            } else if self.wins_toward(c, (-1, -1)) {
                (-1, -1)
            } else if self.wins_toward(c, (-1, 1)) {
                (-1, 1)
            } else {
                (1, -1)
            };
            let p = step(c, d);
            assert(is_neighbor(p, c));
            assert(matching.contains(p));
            let k = choose|k: int| 0 <= k < matching.len() && matching[k] == p;
            assert(in_a_row(c, matching[k], *self));
        }
    }

    /// This will return all coordinates around an input that are of the same
    /// boardstate.
    pub fn matching_adjacent_tiles(&self, coords: &Coordinates) -> (matching: Vec<Coordinates>)
        requires
            in_bounds(*coords),
        ensures
            matching@ == self.matching_around(*coords),
            all_in_bounds(matching@),
            forall|p: Coordinates| #[trigger]
                matching@.contains(p) <==> self.state_at(*coords) != BoardStates::Empty
                    && is_neighbor(p, *coords) && self.state_at(p) == self.state_at(*coords),
    {
        let adjacent_tiles = coords.get_coords_around();
        let matching_symbol = *self.get_board_state(coords);

        if matching_symbol == BoardStates::Empty {
            let nothing: Vec<Coordinates> = Vec::new();
            assert forall|p: Coordinates| !#[trigger] nothing@.contains(p) by {}
            return nothing;
        }
        proof {
            assert forall|i: int| 0 <= i < adjacent_tiles@.len() implies in_bounds(
                #[trigger] adjacent_tiles@[i],
            ) by {
                assert(adjacent_tiles@.contains(adjacent_tiles@[i]));
            }
            lemma_around_where_narrowed(*coords, any_tile(), self.holding(matching_symbol));
        }
        let matching = self.tiles_holding(&adjacent_tiles, &matching_symbol);
        proof {
            assert forall|p: Coordinates| #[trigger]
                matching@.contains(p) <==> is_neighbor(p, *coords) && self.state_at(p)
                    == matching_symbol by {
                lemma_around_where_contains(*coords, self.holding(matching_symbol), p);
            }
        }
        matching
    }

    /// Whether the tile at `coords` lies in a line of three tiles that all
    /// hold its mark. The test looks at the neighbours of the tile alone.
    pub fn has_winning_line_through(&self, coords: &Coordinates) -> (won: bool)
        requires
            in_bounds(*coords),
            self.is_classified(),
        ensures
            won == self.wins_through(*coords),
            won == self.completes_line(*coords),
    {
        let matching = self.matching_adjacent_tiles(coords);
        let mut i: usize = 0;
        let mut won = false;
        while i < matching.len() && !won
            invariant
                i <= matching.len(),
                in_bounds(*coords),
                self.is_classified(),
                all_in_bounds(matching@),
                won ==> exists|k: int|
                    0 <= k < matching@.len() && in_a_row(*coords, #[trigger] matching@[k], *self),
                !won ==> forall|k: int|
                    0 <= k < i ==> !in_a_row(*coords, #[trigger] matching@[k], *self),
            decreases
                    matching.len() - i + if won {
                        0int
                    } else {
                        1int
                    },
        {
            if coords.is_matching_in_a_row(&matching[i], self) {
                won = true;
            } else {
                i = i + 1;
            }
        }
        proof {
            lemma_nine_tiles(*coords);
            self.lemma_winning_neighbor(*coords, matching@);
            self.lemma_wins_through_line(*coords);
        }
        won
    }
}

} // verus!
