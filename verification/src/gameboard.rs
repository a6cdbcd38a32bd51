//! The board: nine tiles, each with a fixed class and a mark, the number of
//! marked tiles and the tile that was marked last.

use crate::chance::random_index;
use crate::coordinate_methods::{class_of, in_bounds, position_of, Coordinates, GRID_SIZE};
use crate::gameplay::{winner_of, GameState};
use crate::seq_facts::{
    first_of, item_where, lemma_filter_4, lemma_filter_first, lemma_filter_none,
    lemma_filter_nothing, lemma_filter_take_next, lemma_take_ends,
};
use vstd::prelude::*;

verus! {

/// What a tile holds, and the two sides of a game.
#[derive(PartialEq, Eq, Structural, Clone, Copy, Debug)]
pub enum BoardStates {
    X,
    O,
    Empty,
}

/// The class of a tile by its place on the grid.
#[derive(PartialEq, Eq, Structural, Clone, Copy, Debug)]
pub enum BoardPositions {
    Corner,
    Edge,
    Center,
}

/// A tile: its mark and its class.
#[derive(PartialEq, Clone, Copy, Debug)]
pub struct BoardTile {
    pub board_state: BoardStates,
    pub board_position: BoardPositions,
}

/// The board: its tiles by row and column, the number of marked tiles, the
/// mark of the player and the tile that was marked last.
#[derive(PartialEq, Debug)]
pub struct BoardConfig {
    pub tiles: [[BoardTile; GRID_SIZE]; GRID_SIZE],
    pub tiles_covered: u8,
    pub player_symbol: BoardStates,
    pub last_modified_tile: Option<Coordinates>,
}

/// Whether every item of `tiles` is a tile of the grid.
pub open spec fn all_in_bounds(tiles: Seq<Coordinates>) -> bool {
    forall|i: int| 0 <= i < tiles.len() ==> in_bounds(#[trigger] tiles[i])
}

/// The sign that stands for a mark when a board is shown.
pub open spec fn sign_of(mark: BoardStates) -> char {
    match mark {
        BoardStates::X => 'X',
        BoardStates::O => 'O',
        BoardStates::Empty => '\u{25AE}',
    }
}

/// Each tile of the grid is one of nine.
pub proof fn lemma_nine_tiles(c: Coordinates)
    requires
        in_bounds(c),
    ensures
        c == (0usize, 0usize) || c == (0usize, 1usize) || c == (0usize, 2usize) || c == (
            1usize,
            0usize,
        ) || c == (1usize, 1usize) || c == (1usize, 2usize) || c == (2usize, 0usize) || c == (
            2usize,
            1usize,
        ) || c == (2usize, 2usize),
        in_bounds((0, 0)) && in_bounds((0, 1)) && in_bounds((0, 2)),
        in_bounds((1, 0)) && in_bounds((1, 1)) && in_bounds((1, 2)),
        in_bounds((2, 0)) && in_bounds((2, 1)) && in_bounds((2, 2)),
{
}

impl BoardTile {
    /// An empty tile of the given class.
    pub fn new(board_position: BoardPositions) -> (tile: Self)
        ensures
            tile.board_state == BoardStates::Empty,
            tile.board_position == board_position,
    {
        BoardTile { board_state: BoardStates::Empty, board_position }
    }

    /// The sign that shows the tile: `X`, `O`, or a block for an empty tile.
    pub fn symbol(&self) -> (sign: char)
        ensures
            sign == sign_of(self.board_state),
    {
        match self.board_state {
            BoardStates::X => 'X',
            BoardStates::O => 'O',
            BoardStates::Empty => '\u{25AE}',
        }
    }
}

impl Default for BoardConfig {
    fn default() -> (board: Self)
        ensures
            board.is_fresh(),
            board.inv(),
    {
        Self::new()
    }
}

impl BoardConfig {
    /// The mark on the tile at `c`.
    pub open spec fn state_at(&self, c: Coordinates) -> BoardStates {
        self.tiles[c.0 as int][c.1 as int].board_state
    }

    /// The class recorded for the tile at `c`.
    pub open spec fn position_at(&self, c: Coordinates) -> BoardPositions {
        self.tiles[c.0 as int][c.1 as int].board_position
    }

    /// The tiles that hold `mark`.
    pub open spec fn holding(&self, mark: BoardStates) -> spec_fn(Coordinates) -> bool {
        |c: Coordinates| self.state_at(c) == mark
    }

    /// The tiles that hold a mark.
    pub open spec fn marked(&self) -> spec_fn(Coordinates) -> bool {
        |c: Coordinates| self.state_at(c) != BoardStates::Empty
    }

    /// 1 where the tile at `c` is marked, 0 where it is empty.
    pub open spec fn filled(&self, c: Coordinates) -> nat {
        if self.state_at(c) == BoardStates::Empty {
            0
        } else {
            1
        }
    }

    /// The number of marked tiles.
    pub open spec fn filled_count(&self) -> nat {
        self.filled((0, 0)) + self.filled((0, 1)) + self.filled((0, 2)) + self.filled((1, 0))
            + self.filled((1, 1)) + self.filled((1, 2)) + self.filled((2, 0)) + self.filled((2, 1))
            + self.filled((2, 2))
    }

    /// Every tile records the class that its place on the grid gives it.
    pub open spec fn is_classified(&self) -> bool {
        forall|c: Coordinates| in_bounds(c) ==> #[trigger] self.position_at(c) == class_of(c)
    }

    /// The board is fit to be read: its tiles are classified, and the tile
    /// marked last, if there is one, is a tile of the grid.
    pub open spec fn wf(&self) -> bool {
        &&& self.is_classified()
        &&& self.last_modified_tile matches Some(last) ==> in_bounds(last)
    }

    /// The invariant of a board that only `new` and `place_tile` with a mark
    /// have touched: beyond `wf`, the count of marked tiles is exact and the
    /// tile marked last holds a mark.
    pub open spec fn inv(&self) -> bool {
        &&& self.wf()
        &&& self.tiles_covered == self.filled_count()
        &&& self.last_modified_tile matches Some(last) ==> self.state_at(last) != BoardStates::Empty
    }

    /// No tile holds a mark.
    pub open spec fn is_blank(&self) -> bool {
        forall|c: Coordinates| in_bounds(c) ==> #[trigger] self.state_at(c) == BoardStates::Empty
    }

    /// Every tile holds a mark.
    pub open spec fn is_full(&self) -> bool {
        forall|c: Coordinates| in_bounds(c) ==> #[trigger] self.state_at(c) != BoardStates::Empty
    }

    /// The board is as `new` makes it: classified, without a mark, without a
    /// tile marked last and without the mark of a player.
    pub open spec fn is_fresh(&self) -> bool {
        &&& self.is_classified()
        &&& self.is_blank()
        &&& self.tiles_covered == 0
        &&& self.player_symbol == BoardStates::Empty
        &&& self.last_modified_tile is None
    }

    /// `after` is this board with `mark` on the tile at `c` and no other tile
    /// changed.
    pub open spec fn marked_at(
        &self,
        after: &BoardConfig,
        c: Coordinates,
        mark: BoardStates,
    ) -> bool {
        &&& after.state_at(c) == mark
        &&& forall|o: Coordinates|
            in_bounds(o) && o != c ==> #[trigger] after.state_at(o) == self.state_at(o)
        &&& forall|o: Coordinates|
            in_bounds(o) ==> #[trigger] after.position_at(o) == self.position_at(o)
        &&& after.player_symbol == self.player_symbol
    }

    /// `after` is this board once `mark` was placed at `c`: the mark is
    /// there, no other tile has changed, the count of marked tiles is exact
    /// and `c` is the tile marked last.
    pub open spec fn placed(&self, after: &BoardConfig, c: Coordinates, mark: BoardStates) -> bool {
        &&& self.marked_at(after, c, mark)
        &&& after.tiles_covered == after.filled_count()
        &&& after.last_modified_tile == Some(c)
    }

    /// The empty corners, in the order in which they are looked through.
    pub open spec fn empty_corners(&self) -> Seq<Coordinates> {
        let empty = self.holding(BoardStates::Empty);
        item_where((0, 0), empty) + item_where((2, 0), empty) + item_where((0, 2), empty)
            + item_where((2, 2), empty)
    }

    /// The empty edges, in the order in which they are looked through.
    pub open spec fn empty_edges(&self) -> Seq<Coordinates> {
        let empty = self.holding(BoardStates::Empty);
        item_where((0, 1), empty) + item_where((1, 0), empty) + item_where((1, 2), empty)
            + item_where((2, 1), empty)
    }

    /// The tiles among which a free tile is drawn: the empty corners, or the
    /// empty edges once no corner is empty.
    pub open spec fn corner_then_edge(&self) -> Seq<Coordinates> {
        if self.empty_corners().len() > 0 {
            self.empty_corners()
        } else {
            self.empty_edges()
        }
    }

    /// The class of a tile is fixed: classified boards agree on it, whatever
    /// marks they hold, and marking a tile leaves a board classified.
    pub proof fn lemma_class_is_fixed(&self, other: &BoardConfig, c: Coordinates)
        requires
            in_bounds(c),
            self.is_classified(),
        ensures
            self.position_at(c) == class_of(c),
            other.is_classified() ==> other.position_at(c) == self.position_at(c),
            forall|at: Coordinates, mark: BoardStates| #[trigger]
                self.marked_at(other, at, mark) ==> other.is_classified(),
    {
        assert forall|at: Coordinates, mark: BoardStates| #[trigger]
            self.marked_at(other, at, mark) implies other.is_classified() by {
            assert forall|o: Coordinates| in_bounds(o) implies #[trigger] other.position_at(o)
                == class_of(o) by {
                assert(other.position_at(o) == self.position_at(o));
            }
        }
    }

    /// Marking one tile changes the number of marked tiles by what that tile
    /// gained or lost, and no board has more than nine.
    pub proof fn lemma_count_after_change(&self, after: &BoardConfig, c: Coordinates)
        requires
            in_bounds(c),
            forall|o: Coordinates|
                in_bounds(o) && o != c ==> #[trigger] after.state_at(o) == self.state_at(o),
        ensures
            after.filled_count() + self.filled(c) == self.filled_count() + after.filled(c),
            after.filled_count() <= 9,
    {
        assert(c == (0usize, 0usize) || c == (0usize, 1usize) || c == (0usize, 2usize) || c == (
            1usize,
            0usize,
        ) || c == (1usize, 1usize) || c == (1usize, 2usize) || c == (2usize, 0usize) || c == (
            2usize,
            1usize,
        ) || c == (2usize, 2usize));
    }

    /// Nine tiles are marked exactly where the board is full, and none
    /// exactly where it is blank.
    pub proof fn lemma_count_of_full_and_blank(&self)
        ensures
            self.filled_count() == 9 <==> self.is_full(),
            self.filled_count() == 0 <==> self.is_blank(),
    {
        lemma_nine_tiles((0, 0));
        if self.filled_count() == 9 {
            assert forall|c: Coordinates| in_bounds(c) implies #[trigger] self.state_at(c)
                != BoardStates::Empty by {
                lemma_nine_tiles(c);
            }
        }
        if self.filled_count() == 0 {
            assert forall|c: Coordinates| in_bounds(c) implies #[trigger] self.state_at(c)
                == BoardStates::Empty by {
                lemma_nine_tiles(c);
            }
        }
    }

    /// The empty board.
    pub fn new() -> (board: Self)
        ensures
            board.is_fresh(),
            board.inv(),
    {
        let tiles = [
            [
                BoardTile::new(BoardPositions::Corner),
                BoardTile::new(BoardPositions::Edge),
                BoardTile::new(BoardPositions::Corner),
            ],
            [
                BoardTile::new(BoardPositions::Edge),
                BoardTile::new(BoardPositions::Center),
                BoardTile::new(BoardPositions::Edge),
            ],
            [
                BoardTile::new(BoardPositions::Corner),
                BoardTile::new(BoardPositions::Edge),
                BoardTile::new(BoardPositions::Corner),
            ],
        ];

        BoardConfig {
            tiles,
            tiles_covered: 0,
            player_symbol: BoardStates::Empty,
            last_modified_tile: None,
        }
    }

    /// Whether the tile at `(row, col)` records the class that its place
    /// gives it.
    fn is_classified_at(&self, row: usize, col: usize) -> (ok: bool)
        requires
            in_bounds((row, col)),
        ensures
            ok == (self.position_at((row, col)) == class_of((row, col))),
    {
        self.tiles[row][col].board_position == position_of(&(row, col))
    }

    /// Whether the board is fit to be read, see `wf`.
    pub fn is_well_formed(&self) -> (ok: bool)
        ensures
            ok == self.wf(),
    {
        let classified = self.is_classified_at(0, 0) && self.is_classified_at(0, 1)
            && self.is_classified_at(0, 2) && self.is_classified_at(1, 0) && self.is_classified_at(
            1,
            1,
        ) && self.is_classified_at(1, 2) && self.is_classified_at(2, 0) && self.is_classified_at(
            2,
            1,
        ) && self.is_classified_at(2, 2);
        proof {
            lemma_nine_tiles((0, 0));
            if classified {
                assert forall|c: Coordinates| in_bounds(c) implies #[trigger] self.position_at(c)
                    == class_of(c) by {
                    lemma_nine_tiles(c);
                }
            }
        }
        classified && match self.last_modified_tile {
            Some(last) => last.0 < GRID_SIZE && last.1 < GRID_SIZE,
            None => true,
        }
    }

    /// Whether all nine tiles are counted as marked.
    pub fn all_tiles_covered(self) -> (covered: bool)
        ensures
            covered == (self.tiles_covered == 9),
            self.tiles_covered == self.filled_count() ==> covered == self.is_full(),
    {
        proof {
            self.lemma_count_of_full_and_blank();
        }
        self.tiles_covered == 9
    }

    /// The class of the tile at `coords`.
    pub fn get_board_position(&self, coords: &Coordinates) -> (position: &BoardPositions)
        requires
            in_bounds(*coords),
        ensures
            *position == self.position_at(*coords),
            self.is_classified() ==> *position == class_of(*coords),
    {
        &self.tiles[coords.0][coords.1].board_position
    }

    /// The mark on the tile at `coords`.
    pub fn get_board_state(&self, coords: &Coordinates) -> (state: &BoardStates)
        requires
            in_bounds(*coords),
        ensures
            *state == self.state_at(*coords),
    {
        &self.tiles[coords.0][coords.1].board_state
    }

    /// 1 where the tile at `(row, col)` is marked, 0 where it is empty.
    fn filled_at(&self, row: usize, col: usize) -> (count: u8)
        requires
            in_bounds((row, col)),
        ensures
            count == self.filled((row, col)),
    {
        if self.tiles[row][col].board_state != BoardStates::Empty {
            1
        } else {
            0
        }
    }

    /// The number of marked tiles.
    fn count_filled(&self) -> (count: u8)
        ensures
            count == self.filled_count(),
    {
        self.filled_at(0, 0) + self.filled_at(0, 1) + self.filled_at(0, 2) + self.filled_at(1, 0)
            + self.filled_at(1, 1) + self.filled_at(1, 2) + self.filled_at(2, 0) + self.filled_at(
            2,
            1,
        ) + self.filled_at(2, 2)
    }

    /// Writes `mark` on the tile at `c`.
    fn set_board_state(&mut self, c: &Coordinates, mark: &BoardStates)
        requires
            in_bounds(*c),
        ensures
            old(self).marked_at(final(self), *c, *mark),
            final(self).tiles_covered == old(self).tiles_covered,
            final(self).last_modified_tile == old(self).last_modified_tile,
    {
        self.tiles[c.0][c.1].board_state = *mark;
    }

    /// Puts `changed_state` on the tile at `coords`, records the tile as the
    /// one marked last and counts the marked tiles anew. On a board with an
    /// exact count, a mark on an empty tile raises the count by one.
    pub fn place_tile(&mut self, coords: &Coordinates, changed_state: &BoardStates)
        requires
            in_bounds(*coords),
        ensures
            old(self).placed(final(self), *coords, *changed_state),
            old(self).is_classified() ==> final(self).wf(),
            old(self).is_classified() && *changed_state != BoardStates::Empty ==> final(self).inv(),
            old(self).tiles_covered == old(self).filled_count() && old(self).state_at(*coords)
                == BoardStates::Empty && *changed_state != BoardStates::Empty
                ==> final(self).tiles_covered == old(self).tiles_covered + 1,
    {
        self.last_modified_tile = Some(*coords);
        self.set_board_state(coords, changed_state);
        let ghost marked = *self;
        self.tiles_covered = self.count_filled();
        proof {
            assert forall|o: Coordinates| in_bounds(o) implies #[trigger] self.state_at(o)
                == marked.state_at(o) && #[trigger] self.position_at(o) == marked.position_at(
                o,
            ) by {}
            old(self).lemma_count_after_change(self, *coords);
        }
    }

    /// The tiles of `tiles` that hold `mark`, in their order.
    pub fn tiles_holding(
        &self,
        tiles: &Vec<Coordinates>,
        mark: &BoardStates,
    ) -> (kept: Vec<Coordinates>)
        requires
            all_in_bounds(tiles@),
        ensures
            kept@ == tiles@.filter(self.holding(*mark)),
            all_in_bounds(kept@),
            forall|i: int| 0 <= i < kept@.len() ==> self.state_at(#[trigger] kept@[i]) == *mark,
    {
        let mut kept: Vec<Coordinates> = Vec::new();
        let mut i: usize = 0;
        proof {
            lemma_take_ends(tiles@);
            lemma_filter_nothing(self.holding(*mark));
        }
        while i < tiles.len()
            invariant
                i <= tiles.len(),
                all_in_bounds(tiles@),
                kept@ == tiles@.take(i as int).filter(self.holding(*mark)),
                all_in_bounds(kept@),
                forall|k: int| 0 <= k < kept@.len() ==> self.state_at(#[trigger] kept@[k]) == *mark,
            decreases tiles.len() - i,
        {
            proof {
                lemma_filter_take_next(tiles@, i as int, self.holding(*mark));
            }
            let tile = tiles[i];
            if *self.get_board_state(&tile) == *mark {
                kept.push(tile);
            }
            i = i + 1;
        }
        kept
    }

    /// The tile with the given number among `tiles`, if there is one.
    pub fn pick_tile(tiles: &Vec<Coordinates>, index: usize) -> (tile: Option<Coordinates>)
        ensures
            tile == if index < tiles@.len() {
                Some(tiles@[index as int])
            } else {
                None
            },
    {
        if index < tiles.len() {
            Some(tiles[index])
        } else {
            None
        }
    }

    /// A random empty corner, if a corner is empty.
    pub fn get_random_empty_corner(&self) -> (tile: Option<Coordinates>)
        ensures
            match tile {
                Some(corner) => self.empty_corners().contains(corner),
                None => self.empty_corners().len() == 0,
            },
            tile matches Some(corner) ==> in_bounds(corner) && self.state_at(corner)
                == BoardStates::Empty,
    {
        let corners: Vec<Coordinates> = vec![(0, 0), (2, 0), (0, 2), (2, 2)];
        proof {
            assert(corners@ =~= seq![(0, 0), (2, 0), (0, 2), (2, 2)]);
            lemma_filter_4(
                (0usize, 0usize),
                (2usize, 0usize),
                (0usize, 2usize),
                (2usize, 2usize),
                self.holding(BoardStates::Empty),
            );
        }
        let valid_corners = self.tiles_holding(&corners, &BoardStates::Empty);

        if valid_corners.len() > 0 {
            Self::pick_tile(&valid_corners, random_index(valid_corners.len()))
        } else {
            None
        }
    }

    /// A random empty edge, if an edge is empty.
    pub fn get_random_empty_edge(&self) -> (tile: Option<Coordinates>)
        ensures
            match tile {
                Some(edge) => self.empty_edges().contains(edge),
                None => self.empty_edges().len() == 0,
            },
            tile matches Some(edge) ==> in_bounds(edge) && self.state_at(edge)
                == BoardStates::Empty,
    {
        let edges: Vec<Coordinates> = vec![(0, 1), (1, 0), (1, 2), (2, 1)];
        proof {
            assert(edges@ =~= seq![(0, 1), (1, 0), (1, 2), (2, 1)]);
            lemma_filter_4(
                (0usize, 1usize),
                (1usize, 0usize),
                (1usize, 2usize),
                (2usize, 1usize),
                self.holding(BoardStates::Empty),
            );
        }
        let valid_edges = self.tiles_holding(&edges, &BoardStates::Empty);

        if valid_edges.len() > 0 {
            Self::pick_tile(&valid_edges, random_index(valid_edges.len()))
        } else {
            None
        }
    }

    /// Returns a random empty corner then once there're no more empty corners
    /// it returns a random empty edge.
    pub fn get_random_empty_corner_then_edge(&self) -> (tile: Option<Coordinates>)
        ensures
            match tile {
                Some(free) => self.corner_then_edge().contains(free),
                None => self.corner_then_edge().len() == 0,
            },
            tile matches Some(free) ==> in_bounds(free) && self.state_at(free)
                == BoardStates::Empty,
    {
        if let Some(coords) = self.get_random_empty_corner() {
            Some(coords)
        } else {
            self.get_random_empty_edge()
        }
    }

    /// The side that marked the last tile, as the winner of the game.
    pub fn last_placed_tile_to_game_state(&mut self) -> (state: GameState)
        requires
            old(self).last_modified_tile matches Some(last) && in_bounds(last),
        ensures
            *final(self) == *old(self),
            state == winner_of(old(self).state_at(old(self).last_modified_tile->0)),
    {
        let last = match self.last_modified_tile {
            Some(last) => last,
            None => (0, 0),
        };

        match self.get_board_state(&last) {
            BoardStates::X => GameState::XWon,
            BoardStates::O => GameState::OWon,
            _ => GameState::Draw,
        }
    }

    /// The first of `coordinates` whose tile is empty.
    pub fn get_first_empty_tile(&self, coordinates: Vec<Coordinates>) -> (tile: Option<Coordinates>)
        requires
            all_in_bounds(coordinates@),
        ensures
            tile == first_of(coordinates@.filter(self.holding(BoardStates::Empty))),
            match tile {
                Some(found) => exists|i: int|
                    0 <= i < coordinates@.len() && #[trigger] coordinates@[i] == found
                        && self.state_at(found) == BoardStates::Empty && forall|j: int|
                        0 <= j < i ==> self.state_at(#[trigger] coordinates@[j])
                            != BoardStates::Empty,
                None => forall|j: int|
                    0 <= j < coordinates@.len() ==> self.state_at(#[trigger] coordinates@[j])
                        != BoardStates::Empty,
            },
    {
        let mut i: usize = 0;
        while i < coordinates.len()
            invariant
                i <= coordinates.len(),
                all_in_bounds(coordinates@),
                forall|k: int|
                    0 <= k < i ==> self.state_at(#[trigger] coordinates@[k]) != BoardStates::Empty,
            decreases coordinates.len() - i,
        {
            if *self.get_board_state(&coordinates[i]) == BoardStates::Empty {
                proof {
                    lemma_filter_first(
                        coordinates@,
                        i as int,
                        self.holding(BoardStates::Empty),
                    );
                }
                return Some(coordinates[i]);
            }
            i = i + 1;
        }
        proof {
            lemma_filter_none(coordinates@, self.holding(BoardStates::Empty));
        }
        None
    }

    /// The first of `coordinates` whose tile holds a mark.
    pub fn get_first_filled_tile(
        &self,
        coordinates: Vec<Coordinates>,
    ) -> (tile: Option<Coordinates>)
        requires
            all_in_bounds(coordinates@),
        ensures
            tile == first_of(coordinates@.filter(self.marked())),
            match tile {
                Some(found) => exists|i: int|
                    0 <= i < coordinates@.len() && #[trigger] coordinates@[i] == found
                        && self.state_at(found) != BoardStates::Empty && forall|j: int|
                        0 <= j < i ==> self.state_at(#[trigger] coordinates@[j])
                            == BoardStates::Empty,
                None => forall|j: int|
                    0 <= j < coordinates@.len() ==> self.state_at(#[trigger] coordinates@[j])
                        == BoardStates::Empty,
            },
    {
        let mut i: usize = 0;
        while i < coordinates.len()
            invariant
                i <= coordinates.len(),
                all_in_bounds(coordinates@),
                forall|k: int|
                    0 <= k < i ==> self.state_at(#[trigger] coordinates@[k]) == BoardStates::Empty,
            decreases coordinates.len() - i,
        {
            if *self.get_board_state(&coordinates[i]) != BoardStates::Empty {
                proof {
                    lemma_filter_first(coordinates@, i as int, self.marked());
                }
                return Some(coordinates[i]);
            }
            i = i + 1;
        }
        proof {
            lemma_filter_none(coordinates@, self.marked());
        }
        None
    }
}

} // verus!
