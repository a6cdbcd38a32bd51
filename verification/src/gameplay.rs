//! A game in progress: whose turn it is, what a line of input names, what a
//! turn does to the board and when the game is over.

use crate::bot::{Bot, CurrentPath, NO_ERROR_GIVEN};
use crate::chance::random_bool;
use crate::coordinate_methods::{in_bounds, Coordinates, GRID_SIZE};
use crate::gameboard::{BoardConfig, BoardStates};
use crate::strategy::takes_empty_tile;
use vstd::prelude::*;
use vstd::string::StrSliceExecFns;

verus! {

/// The failure of a line of input that names no tile.
pub const INCORRECT_INPUT: &'static str = "incorrect input";

/// A game: whose turn it is, the player's mark, the board, how the game
/// ended and the bot.
#[derive(PartialEq, Debug)]
pub struct GameConfig {
    pub player_turn: bool,
    pub player_symbol: BoardStates,
    pub gameboard: BoardConfig,
    pub end_gamestate: GameState,
    pub bot: Bot,
}

/// How a game ended.
#[derive(PartialEq, Eq, Structural, Clone, Copy, Debug)]
pub enum GameState {
    XWon,
    OWon,
    Draw,
}

/// The winner that the mark on the deciding tile stands for.
pub open spec fn winner_of(mark: BoardStates) -> GameState {
    match mark {
        BoardStates::X => GameState::XWon,
        BoardStates::O => GameState::OWon,
        BoardStates::Empty => GameState::Draw,
    }
}

/// Whether `c` is white space: the code points that Unicode marks as
/// White_Space.
pub open spec fn is_blank(c: char) -> bool {
    let code = c as u32;
    9 <= code <= 13 || code == 0x20 || code == 0x85 || code == 0xA0 || code == 0x1680 || 0x2000
        <= code <= 0x200A || code == 0x2028 || code == 0x2029 || code == 0x202F || code == 0x205F
        || code == 0x3000
}

/// `text` without the white space that it starts with.
pub open spec fn trim_start(text: Seq<char>) -> Seq<char>
    decreases text.len(),
{
    if text.len() > 0 && is_blank(text[0]) {
        trim_start(text.skip(1))
    } else {
        text
    }
}

/// `text` without the white space that it ends with.
pub open spec fn trim_end(text: Seq<char>) -> Seq<char>
    decreases text.len(),
{
    if text.len() > 0 && is_blank(text.last()) {
        trim_end(text.drop_last())
    } else {
        text
    }
}

/// `text` without the white space at its two ends.
pub open spec fn trimmed(text: Seq<char>) -> Seq<char> {
    trim_end(trim_start(text))
}

/// The row that a letter names: `a`, `b` or `c`, in either case.
pub open spec fn row_of(letter: char) -> Option<usize> {
    if letter == 'a' || letter == 'A' {
        Some(0usize)
    } else if letter == 'b' || letter == 'B' {
        Some(1usize)
    } else if letter == 'c' || letter == 'C' {
        Some(2usize)
    } else {
        None
    }
}

/// The tile that a number from 1 to 9 names, counting along the rows.
pub open spec fn index_cell(number: int) -> Coordinates {
    (((number - 1) / 3) as usize, ((number - 1) % 3) as usize)
}

/// The tile that a line names by its number: the line holds, between white
/// space, one digit from 1 to 9.
pub open spec fn parsed_index(text: Seq<char>) -> Option<Coordinates> {
    let word = trimmed(text);
    if word.len() == 1 && '1' <= word[0] <= '9' {
        Some(index_cell(word[0] as u32 - '0' as u32))
    } else {
        None
    }
}

/// The tile that a line names by row and column: the line starts with a
/// letter from `a` to `c` and a digit from 1 to 3.
pub open spec fn parsed_row_column(text: Seq<char>) -> Option<Coordinates> {
    if text.len() >= 2 && row_of(text[0]) is Some && '1' <= text[1] <= '3' {
        Some((row_of(text[0])->0, (text[1] as u32 - '1' as u32) as usize))
    } else {
        None
    }
}

/// The tile that a line of input names: by its number where the line holds
/// one character between white space, by row and column where it holds two.
pub open spec fn parsed_input(text: Seq<char>) -> Option<Coordinates> {
    let word = trimmed(text);
    if word.len() == 1 {
        parsed_index(text)
    } else if word.len() == 2 {
        parsed_row_column(text)
    } else {
        None
    }
}

/// Whether `outcome` reports what a parser found: the tile, or the failure
/// where the line names none.
pub open spec fn reports(found: Option<Coordinates>, outcome: Result<Coordinates, String>) -> bool {
    match outcome {
        Ok(tile) => found == Some(tile),
        Err(text) => found is None && text@ == INCORRECT_INPUT@,
    }
}

/// Whether `c` is white space.
fn is_whitespace(c: char) -> (blank: bool)
    ensures
        blank == is_blank(c),
{
    let code = c as u32;
    (9 <= code && code <= 13) || code == 0x20 || code == 0x85 || code == 0xA0 || code == 0x1680
        || (0x2000 <= code && code <= 0x200A) || code == 0x2028 || code == 0x2029 || code
        == 0x202F || code == 0x205F || code == 0x3000
}

/// Where the trimmed text starts and ends in `text`.
fn trim_bounds(text: &str) -> (bounds: (usize, usize))
    ensures
        bounds.0 <= bounds.1 <= text@.len(),
        trimmed(text@) == text@.subrange(bounds.0 as int, bounds.1 as int),
{
    let len = text.unicode_len();
    let mut start: usize = 0;
    proof {
        assert(text@.skip(0) =~= text@);
    }
    while start < len && is_whitespace(text.get_char(start))
        invariant
            start <= len,
            len == text@.len(),
            trim_start(text@) == trim_start(text@.skip(start as int)),
        decreases len - start,
    {
        proof {
            assert(text@.skip(start as int).skip(1) =~= text@.skip(start + 1));
        }
        start = start + 1;
    }
    let mut end: usize = len;
    while end > start && is_whitespace(text.get_char(end - 1))
        invariant
            start <= end <= len,
            len == text@.len(),
            trim_start(text@) == text@.subrange(start as int, len as int),
            trimmed(text@) == trim_end(text@.subrange(start as int, end as int)),
        decreases end - start,
    {
        proof {
            assert(text@.subrange(start as int, end as int).drop_last() =~= text@.subrange(
                start as int,
                end - 1,
            ));
        }
        end = end - 1;
    }
    (start, end)
}

/// The tile that a line names by its number from 1 to 9.
pub fn index_parsing(player_input: String) -> (outcome: Result<Coordinates, String>)
    ensures
        reports(parsed_index(player_input@), outcome),
        outcome matches Ok(tile) ==> in_bounds(tile),
{
    let text = player_input.as_str();
    let (start, end) = trim_bounds(text);
    if end - start == 1 {
        let code = text.get_char(start) as u32;
        if 0x31 <= code && code <= 0x39 {
            let num = (code - 0x30) as usize;
            return Ok(((num - 1) / GRID_SIZE, (num - 1) % GRID_SIZE));
        }
    }
    Err(INCORRECT_INPUT.to_string())
}

/// The tile that a line names by a row letter and a column digit.
pub fn row_column_parsing(player_input: String) -> (outcome: Result<Coordinates, String>)
    ensures
        reports(parsed_row_column(player_input@), outcome),
        outcome matches Ok(tile) ==> in_bounds(tile),
{
    let text = player_input.as_str();
    if text.unicode_len() < 2 {
        return Err(INCORRECT_INPUT.to_string());
    }
    let coord_1: usize = match text.get_char(0) {
        'a' | 'A' => 0,
        'b' | 'B' => 1,
        'c' | 'C' => 2,
        _ => return Err(INCORRECT_INPUT.to_string()),
    };

    let code = text.get_char(1) as u32;
    if 0x31 <= code && code <= 0x33 {
        return Ok((coord_1, (code - 0x31) as usize));
    }
    Err(INCORRECT_INPUT.to_string())
}

/// The tile that a line of input names.
pub fn parse_player_input(player_input: String) -> (outcome: Result<Coordinates, String>)
    ensures
        reports(parsed_input(player_input@), outcome),
        outcome matches Ok(tile) ==> in_bounds(tile),
{
    let (start, end) = trim_bounds(player_input.as_str());
    if end - start == 1 {
        return index_parsing(player_input);
    } else if end - start == 2 {
        return row_column_parsing(player_input);
    }
    Err(INCORRECT_INPUT.to_string())
}

/// One turn of the bot: it chooses a tile and, where it found one, marks it.
pub fn bot_turn(bot: &mut Bot, gameboard: &mut BoardConfig) -> (chosen: Result<Coordinates, String>)
    requires
        old(bot).wf(),
        old(gameboard).wf(),
    ensures
        final(bot).path == old(bot).decision(*old(gameboard)).path,
        old(bot).decision(*old(gameboard)).choice.admits(chosen),
        final(bot).most_recent_chosen_coords == chosen,
        final(bot).bot_symbol == old(bot).bot_symbol,
        final(bot).wf(),
        final(gameboard).wf(),
        takes_empty_tile(*old(gameboard), chosen),
        chosen is Ok && old(bot).bot_symbol != BoardStates::Empty ==> final(gameboard).inv(),
        match chosen {
            Ok(tile) => in_bounds(tile) && old(gameboard).placed(
                final(gameboard),
                tile,
                old(bot).bot_symbol,
            ),
            Err(_) => *final(gameboard) == *old(gameboard),
        },
{
    bot.choose_coordinates(gameboard);

    match &bot.most_recent_chosen_coords {
        Ok(tile) => {
            gameboard.place_tile(tile, &bot.bot_symbol);
            Ok(*tile)
        },
        Err(text) => Err(text.clone()),
    }
}

impl Default for GameConfig {
    fn default() -> (config: Self)
        ensures
            config.is_start(config.player_turn),
    {
        Self::starting(random_bool())
    }
}

impl GameConfig {
    /// Whether this is a game before its first move in which the player
    /// moves first exactly if `player_turn` says so: the one who moves first
    /// plays X, the other O.
    pub open spec fn is_start(&self, player_turn: bool) -> bool {
        &&& self.player_turn == player_turn
        &&& self.player_symbol == if player_turn {
            BoardStates::X
        } else {
            BoardStates::O
        }
        &&& self.bot.bot_symbol == if player_turn {
            BoardStates::O
        } else {
            BoardStates::X
        }
        &&& self.bot.path == CurrentPath::FirstMove
        &&& self.bot.most_recent_chosen_coords matches Err(text) && text@ == NO_ERROR_GIVEN@
        &&& self.gameboard.is_fresh()
        &&& self.end_gamestate == GameState::Draw
    }

    /// Whether the game has come to its end: a side has won through the tile
    /// marked last, or no tile is left.
    pub open spec fn is_over(&self) -> bool {
        self.has_winner() || self.gameboard.tiles_covered >= 9
    }

    /// Whether the tile marked last completed a line.
    pub open spec fn has_winner(&self) -> bool {
        self.gameboard.last_modified_tile matches Some(last) && self.gameboard.completes_line(last)
    }

    /// A game before its first move; a coin decides who moves first.
    pub fn new() -> (outcome: Result<GameConfig, String>)
        ensures
            outcome matches Ok(config) && config.is_start(config.player_turn),
    {
        Ok(Self::starting(random_bool()))
    }

    /// A game before its first move, in which the player moves first exactly
    /// if `player_turn` says so.
    pub fn starting(player_turn: bool) -> (config: GameConfig)
        ensures
            config.is_start(player_turn),
    {
        let mut bot = Bot::new();

        let player_symbol = if player_turn {
            bot.bot_symbol = BoardStates::O;
            BoardStates::X
        } else {
            bot.bot_symbol = BoardStates::X;
            BoardStates::O
        };

        GameConfig {
            player_turn,
            player_symbol,
            gameboard: BoardConfig::new(),
            end_gamestate: GameState::Draw,
            bot,
        }
    }

    /// Whether the tile marked last completed a line of three.
    pub fn check_if_win(&mut self) -> (won: bool)
        requires
            old(self).gameboard.wf(),
        ensures
            *final(self) == *old(self),
            won == old(self).has_winner(),
    {
        match self.gameboard.last_modified_tile {
            Some(last) => self.gameboard.has_winning_line_through(&last),
            None => false,
        }
    }

    /// The player's turn: marks `selected_tile` with the player's mark where
    /// that is an empty tile of the grid, and says whether it did.
    pub fn player_move(&mut self, selected_tile: &Coordinates) -> (placed: bool)
        requires
            old(self).gameboard.wf(),
        ensures
            placed == (in_bounds(*selected_tile) && old(self).gameboard.state_at(*selected_tile)
                == BoardStates::Empty),
            placed ==> old(self).gameboard.placed(
                &final(self).gameboard,
                *selected_tile,
                old(self).player_symbol,
            ),
            !placed ==> final(self).gameboard == old(self).gameboard,
            final(self).gameboard.wf(),
            placed && old(self).player_symbol != BoardStates::Empty ==> final(self).gameboard.inv(),
            final(self).player_turn == old(self).player_turn,
            final(self).player_symbol == old(self).player_symbol,
            final(self).end_gamestate == old(self).end_gamestate,
            final(self).bot == old(self).bot,
    {
        if selected_tile.0 < GRID_SIZE && selected_tile.1 < GRID_SIZE
            && *self.gameboard.get_board_state(selected_tile) == BoardStates::Empty {
            self.gameboard.place_tile(selected_tile, &self.player_symbol);
            true
        } else {
            false
        }
    }

    /// Ends a turn: hands the turn to the other side, records the winner
    /// where the tile marked last completed a line, and says whether the game
    /// is over.
    pub fn finish_turn(&mut self) -> (over: bool)
        requires
            old(self).gameboard.wf(),
        ensures
            over == old(self).is_over(),
            final(self).player_turn == !old(self).player_turn,
            final(self).end_gamestate == if old(self).has_winner() {
                winner_of(old(self).gameboard.state_at(old(self).gameboard.last_modified_tile->0))
            } else {
                old(self).end_gamestate
            },
            final(self).gameboard == old(self).gameboard,
            final(self).player_symbol == old(self).player_symbol,
            final(self).bot == old(self).bot,
    {
        self.player_turn = !self.player_turn;
        if self.check_if_win() {
            self.end_gamestate = self.gameboard.last_placed_tile_to_game_state();
            true
        } else {
            self.gameboard.tiles_covered >= 9
        }
    }
}

} // verus!
