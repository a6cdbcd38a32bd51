//! The bot: a phase that records how the game has gone so far, and the rule
//! that turns phase and board into the next move.

use crate::chance::random_index;
use crate::coordinate_methods::{
    in_bounds, lemma_beside_filter, CoordinateMethods, Coordinates, CENTER_TILE, GRID_SIZE,
};
use crate::gameboard::{BoardConfig, BoardPositions, BoardStates};
use crate::strategy::{
    center_corner_reply, center_edge_reply, corner_after_edge, edge_after_corner,
    edge_beside_own, fallback, is_settled, lemma_choice_of, not_center_corner_reply,
    not_center_edge_reply, opening, opening_path, phase_rank, reply, takes_empty_tile, Decision,
};
use vstd::prelude::*;

verus! {

/// The number of marked tiles before the first move.
pub const FIRST_MOVE: u8 = 0;

/// The failure of a move on a board without an empty corner or edge.
pub const NO_POSSIBLE_TILE: &'static str = "No possible tile to place on";

/// The failure of the first move on a board without an empty corner or edge.
pub const FAILED_RANDOM_TILE: &'static str = "Failed to get random tile";

/// The failure of a check that is made for an opponent in the centre while
/// the bot holds the centre.
pub const INCORRECT_PATH: &'static str = "Incorrect path input";

/// The failure of a check that is made for a bot in the centre while the bot
/// does not play from the centre.
pub const UNKNOWN_CENTER_PATH: &'static str = "Unknown Center Path";

/// The failure of a move that has to answer a placement where the board
/// records none, or one in the centre.
pub const UNKNOWN_BOARD_POSITION: &'static str = "Unknown board position";

/// What a new bot holds in place of a move.
pub const NO_ERROR_GIVEN: &'static str = "No error has been given";

/// The bot: the phase it is in, the mark it plays and the tile that it
/// chose last, or why it chose none.
#[derive(PartialEq, Debug)]
pub struct Bot {
    pub path: CurrentPath,
    pub bot_symbol: BoardStates,
    pub most_recent_chosen_coords: Result<Coordinates, String>,
}

/// How the game has gone so far, as far as the bot's next move depends on it.
#[derive(PartialEq, Eq, Structural, Clone, Copy, Debug)]
pub enum CurrentPath {
    /// The bot opened in the centre.
    Center(BotPaths),
    /// The opponent opened in the centre; the bot took a corner and waits
    /// for the answer.
    PlayerPlacedCenter,
    /// The opponent opened elsewhere and the bot took the centre.
    PlayerDidntPlaceCenter,
    /// The bot has made its forcing move; from here on it completes, blocks
    /// or takes a free tile.
    DoubleWinCondition,
    /// No forcing line is left; the bot completes, blocks or takes a free
    /// tile.
    FocusDraw,
    /// The bot has not moved yet.
    FirstMove,
}

/// What the opponent answered to a bot in the centre.
#[derive(PartialEq, Eq, Structural, Clone, Copy, Debug)]
pub enum BotPaths {
    PlayerPlacedEdge,
    PlayerPlacedCorner,
    /// The opponent has not answered yet.
    Unknown,
}

impl Default for Bot {
    fn default() -> (bot: Self)
        ensures
            bot.is_fresh(),
    {
        Self::new()
    }
}

impl Bot {
    /// The bot is as `new` makes it: it has not moved and has no mark.
    pub open spec fn is_fresh(&self) -> bool {
        &&& self.path == CurrentPath::FirstMove
        &&& self.bot_symbol == BoardStates::Empty
        &&& self.most_recent_chosen_coords matches Err(text) && text@ == NO_ERROR_GIVEN@
    }

    /// Whether the bot is fit to move, see `wf`.
    pub fn is_well_formed(&self) -> (ok: bool)
        ensures
            ok == self.wf(),
    {
        match &self.most_recent_chosen_coords {
            Ok(mine) => mine.0 < GRID_SIZE && mine.1 < GRID_SIZE,
            Err(_) => true,
        }
    }

    /// The tile that the bot chose last, if it has chosen one.
    pub open spec fn own_tile(&self) -> Option<Coordinates> {
        match self.most_recent_chosen_coords {
            Ok(mine) => Some(mine),
            Err(_) => None,
        }
    }

    /// The tile that the bot chose last, if any, is a tile of the grid.
    pub open spec fn wf(&self) -> bool {
        self.own_tile() matches Some(mine) ==> in_bounds(mine)
    }

    /// What the next call of `choose_coordinates` decides on `board`.
    pub open spec fn decision(&self, board: BoardConfig) -> Decision {
        reply(self.path, self.own_tile(), self.bot_symbol, board)
    }

    /// A bot that has not moved and has no mark yet.
    pub fn new() -> (bot: Self)
        ensures
            bot.is_fresh(),
            bot.wf(),
    {
        Bot {
            path: CurrentPath::FirstMove,
            bot_symbol: BoardStates::Empty,
            most_recent_chosen_coords: Err(NO_ERROR_GIVEN.to_string()),
        }
    }

    /// The tile that the bot chose last, if it has chosen one.
    fn own_coords(&self) -> (own: Option<Coordinates>)
        ensures
            own == self.own_tile(),
    {
        match &self.most_recent_chosen_coords {
            Ok(mine) => Some(*mine),
            Err(_) => None,
        }
    }

    /// Chooses the bot's next tile on `gameboard`, which the caller then
    /// marks: the choice is left in `most_recent_chosen_coords` and the phase
    /// moves on.
    pub fn choose_coordinates(&mut self, gameboard: &BoardConfig)
        requires
            old(self).wf(),
            gameboard.wf(),
        ensures
            final(self).path == old(self).decision(*gameboard).path,
            old(self).decision(*gameboard).choice.admits(final(self).most_recent_chosen_coords),
            final(self).bot_symbol == old(self).bot_symbol,
            final(self).wf(),
            phase_rank(final(self).path) >= phase_rank(old(self).path),
            is_settled(old(self).path) ==> final(self).path == old(self).path,
            takes_empty_tile(*gameboard, final(self).most_recent_chosen_coords),
    {
        match self.path {
            CurrentPath::Center(_) => {
                center_position_checks(self, gameboard);
            },
            CurrentPath::PlayerPlacedCenter => {
                not_center_position_checks(self, gameboard);
            },
            CurrentPath::PlayerDidntPlaceCenter => {
                self.most_recent_chosen_coords = self.auto_play(gameboard);
                self.path = CurrentPath::FocusDraw;
            },
            CurrentPath::FocusDraw | CurrentPath::DoubleWinCondition => {
                self.most_recent_chosen_coords = self.auto_play(gameboard);
            },
            CurrentPath::FirstMove => {
                first_move_checks(self, gameboard);
            },
        }
    }

    /// This will only be called in the first 2 moves.
    pub fn check_if_center_is_available_or_not(
        &self,
        gameboard: &BoardConfig,
    ) -> (path: CurrentPath)
        ensures
            path == opening_path(*gameboard),
    {
        let center_board_state = *gameboard.get_board_state(&CENTER_TILE);

        if gameboard.tiles_covered == FIRST_MOVE && center_board_state == BoardStates::Empty {
            CurrentPath::Center(BotPaths::Unknown)
        } else if center_board_state == BoardStates::Empty {
            CurrentPath::PlayerDidntPlaceCenter
        } else {
            CurrentPath::PlayerPlacedCenter
        }
    }

    /// The answer of a bot in the centre to a corner.
    pub fn center_corner_checks(
        &mut self,
        gameboard: &BoardConfig,
    ) -> (chosen: Result<Coordinates, String>)
        requires
            old(self).wf(),
            gameboard.wf(),
        ensures
            final(self).path == center_corner_reply(
                old(self).path,
                old(self).own_tile(),
                *gameboard,
            ).path,
            center_corner_reply(old(self).path, old(self).own_tile(), *gameboard).choice.admits(
                chosen,
            ),
            final(self).bot_symbol == old(self).bot_symbol,
            final(self).most_recent_chosen_coords == old(self).most_recent_chosen_coords,
            chosen matches Ok(tile) ==> in_bounds(tile) && gameboard.state_at(tile)
                == BoardStates::Empty,
    {
        match self.path {
            CurrentPath::Center(BotPaths::Unknown) => {
                match gameboard.last_modified_tile {
                    Some(last) => {
                        self.path = CurrentPath::Center(BotPaths::PlayerPlacedCorner);

                        let opposite_coords = last.get_opposite_coordinates(&CENTER_TILE);

                        if *gameboard.get_board_state(&opposite_coords) == BoardStates::Empty {
                            proof {
                                lemma_choice_of(opposite_coords, Ok(opposite_coords));
                            }
                            Ok(opposite_coords)
                        } else {
                            self.auto_play(gameboard)
                        }
                    },
                    None => Err(UNKNOWN_BOARD_POSITION.to_string()),
                }
            },
            CurrentPath::Center(BotPaths::PlayerPlacedCorner) => {
                self.path = CurrentPath::FocusDraw;

                self.auto_play(gameboard)
            },
            CurrentPath::Center(BotPaths::PlayerPlacedEdge) => {
                center_corner_check_placed_edge(self, gameboard)
            },
            _ => Err(UNKNOWN_CENTER_PATH.to_string()),
        }
    }

    /// The answer of a bot in the centre to an edge.
    pub fn center_edge_checks(
        &mut self,
        gameboard: &BoardConfig,
    ) -> (chosen: Result<Coordinates, String>)
        requires
            old(self).wf(),
            gameboard.wf(),
        ensures
            final(self).path == center_edge_reply(
                old(self).path,
                old(self).own_tile(),
                old(self).bot_symbol,
                *gameboard,
            ).path,
            center_edge_reply(
                old(self).path,
                old(self).own_tile(),
                old(self).bot_symbol,
                *gameboard,
            ).choice.admits(chosen),
            final(self).bot_symbol == old(self).bot_symbol,
            final(self).most_recent_chosen_coords == old(self).most_recent_chosen_coords,
            chosen matches Ok(tile) ==> in_bounds(tile) && gameboard.state_at(tile)
                == BoardStates::Empty,
    {
        match self.path {
            CurrentPath::Center(BotPaths::Unknown) => {
                match gameboard.last_modified_tile {
                    Some(last) => {
                        self.path = CurrentPath::Center(BotPaths::PlayerPlacedEdge);

                        let corners_near_player_edge = last.get_corners_around_edge(gameboard);
                        proof {
                            lemma_beside_filter(last, gameboard.holding(BoardStates::Empty));
                        }
                        let open_corners = gameboard.tiles_holding(
                            &corners_near_player_edge,
                            &BoardStates::Empty,
                        );

                        if open_corners.len() > 0 {
                            // drawn among one corner: the first empty one beside the edge
                            let corner = open_corners[random_index(1)];
                            proof {
                                lemma_choice_of(corner, Ok(corner));
                            }
                            Ok(corner)
                        } else {
                            self.auto_play(gameboard)
                        }
                    },
                    None => Err(UNKNOWN_BOARD_POSITION.to_string()),
                }
            },
            CurrentPath::Center(BotPaths::PlayerPlacedCorner) => {
                center_edge_check_placed_corner_then_edge(self, gameboard)
            },
            CurrentPath::Center(BotPaths::PlayerPlacedEdge) => {
                self.path = CurrentPath::DoubleWinCondition;

                self.auto_play(gameboard)
            },
            _ => Err(UNKNOWN_CENTER_PATH.to_string()),
        }
    }

    /// The answer to a corner of a bot whose opponent holds the centre.
    pub fn not_center_corner_checks(
        &mut self,
        gameboard: &BoardConfig,
    ) -> (chosen: Result<Coordinates, String>)
        requires
            old(self).wf(),
            gameboard.wf(),
        ensures
            final(self).path == not_center_corner_reply(
                old(self).path,
                old(self).own_tile(),
                *gameboard,
            ).path,
            not_center_corner_reply(
                old(self).path,
                old(self).own_tile(),
                *gameboard,
            ).choice.admits(chosen),
            final(self).bot_symbol == old(self).bot_symbol,
            final(self).most_recent_chosen_coords == old(self).most_recent_chosen_coords,
            chosen matches Ok(tile) ==> in_bounds(tile) && gameboard.state_at(tile)
                == BoardStates::Empty,
    {
        match self.path {
            CurrentPath::Center(_) | CurrentPath::PlayerDidntPlaceCenter => Err(
                INCORRECT_PATH.to_string(),
            ),
            CurrentPath::DoubleWinCondition | CurrentPath::FocusDraw => self.auto_play(gameboard),
            _ => {
                self.path = CurrentPath::FocusDraw;

                match self.own_coords() {
                    Some(mine) => {
                        let opposite_coords = mine.get_opposite_coordinates(&CENTER_TILE);

                        if *gameboard.get_board_state(&opposite_coords) != BoardStates::Empty {
                            match gameboard.get_random_empty_corner() {
                                Some(corner) => Ok(corner),
                                None => self.auto_play(gameboard),
                            }
                        } else {
                            let blocking = match gameboard.last_modified_tile {
                                Some(last) => gameboard.check_if_two_in_series(&last),
                                None => None,
                            };
                            match blocking {
                                Some(tile) => {
                                    proof {
                                        lemma_choice_of(tile, Ok(tile));
                                    }
                                    Ok(tile)
                                },
                                None => self.auto_play(gameboard),
                            }
                        }
                    },
                    None => self.auto_play(gameboard),
                }
            },
        }
    }

    /// The answer to an edge of a bot whose opponent holds the centre.
    pub fn not_center_edge_checks(
        &mut self,
        gameboard: &BoardConfig,
    ) -> (chosen: Result<Coordinates, String>)
        requires
            old(self).wf(),
            gameboard.wf(),
        ensures
            final(self).path == not_center_edge_reply(
                old(self).path,
                old(self).own_tile(),
                *gameboard,
            ).path,
            not_center_edge_reply(old(self).path, old(self).own_tile(), *gameboard).choice.admits(
                chosen,
            ),
            final(self).bot_symbol == old(self).bot_symbol,
            final(self).most_recent_chosen_coords == old(self).most_recent_chosen_coords,
            chosen matches Ok(tile) ==> in_bounds(tile) && gameboard.state_at(tile)
                == BoardStates::Empty,
    {
        match self.path {
            CurrentPath::Center(_) | CurrentPath::PlayerDidntPlaceCenter => Err(
                INCORRECT_PATH.to_string(),
            ),
            CurrentPath::DoubleWinCondition | CurrentPath::FocusDraw => self.auto_play(gameboard),
            _ => {
                match (self.own_coords(), gameboard.last_modified_tile) {
                    (Some(mine), Some(last)) => {
                        if last.is_across_from(&mine) {
                            self.path = CurrentPath::DoubleWinCondition;

                            let opposite_coords = last.get_opposite_coordinates(&CENTER_TILE);

                            if *gameboard.get_board_state(&opposite_coords)
                                == BoardStates::Empty {
                                proof {
                                    lemma_choice_of(opposite_coords, Ok(opposite_coords));
                                }
                                Ok(opposite_coords)
                            } else {
                                self.auto_play(gameboard)
                            }
                        } else {
                            self.path = CurrentPath::FocusDraw;

                            self.auto_play(gameboard)
                        }
                    },
                    _ => {
                        self.path = CurrentPath::FocusDraw;

                        self.auto_play(gameboard)
                    },
                }
            },
        }
    }

    /// The move of a bot that follows no plan: it completes its own line,
    /// else blocks the opponent's, else takes a random empty corner, else a
    /// random empty edge.
    pub fn auto_play(&self, gameboard: &BoardConfig) -> (chosen: Result<Coordinates, String>)
        requires
            self.wf(),
            gameboard.wf(),
        ensures
            fallback(self.own_tile(), *gameboard).admits(chosen),
            chosen matches Ok(tile) ==> in_bounds(tile) && gameboard.state_at(tile)
                == BoardStates::Empty,
    {
        let completing = match self.own_coords() {
            Some(mine) => gameboard.check_if_two_in_series(&mine),
            None => None,
        };
        let forced = match completing {
            Some(tile) => Some(tile),
            None => match gameboard.last_modified_tile {
                Some(last) => gameboard.check_if_two_in_series(&last),
                None => None,
            },
        };
        if let Some(coords) = forced {
            proof {
                lemma_choice_of(coords, Ok(coords));
            }
            Ok(coords)
        } else if let Some(coords) = gameboard.get_random_empty_corner_then_edge() {
            Ok(coords)
        } else {
            Err(NO_POSSIBLE_TILE.to_string())
        }
    }
}

/// The first empty edge beside the bot's own tile, else the fallback.
fn center_edge_check_placed_edge_near(
    bot: &Bot,
    gameboard: &BoardConfig,
) -> (chosen: Result<Coordinates, String>)
    requires
        bot.wf(),
        gameboard.wf(),
    ensures
        edge_beside_own(bot.own_tile(), *gameboard).admits(chosen),
        chosen matches Ok(tile) ==> in_bounds(tile) && gameboard.state_at(tile)
            == BoardStates::Empty,
{
    let open_edge = match bot.own_coords() {
        Some(mine) => {
            proof {
                lemma_beside_filter(mine, gameboard.holding(BoardStates::Empty));
            }
            gameboard.get_first_empty_tile(mine.get_edges_around_corner(gameboard))
        },
        None => None,
    };
    match open_edge {
        Some(edge) => {
            proof {
                lemma_choice_of(edge, Ok(edge));
            }
            Ok(edge)
        },
        None => bot.auto_play(gameboard),
    }
}

/// The answer of a bot in the centre to a corner that follows an edge.
fn center_corner_check_placed_edge(
    bot: &mut Bot,
    gameboard: &BoardConfig,
) -> (chosen: Result<Coordinates, String>)
    requires
        old(bot).wf(),
        gameboard.wf(),
    ensures
        final(bot).path == CurrentPath::DoubleWinCondition,
        corner_after_edge(old(bot).own_tile(), *gameboard).admits(chosen),
        final(bot).bot_symbol == old(bot).bot_symbol,
        final(bot).most_recent_chosen_coords == old(bot).most_recent_chosen_coords,
        chosen matches Ok(tile) ==> in_bounds(tile) && gameboard.state_at(tile)
            == BoardStates::Empty,
{
    bot.path = CurrentPath::DoubleWinCondition;

    match bot.own_coords() {
        Some(mine) => {
            let opposite_of_last_placed = mine.get_opposite_coordinates(&CENTER_TILE);

            if *gameboard.get_board_state(&opposite_of_last_placed) != BoardStates::Empty {
                center_edge_check_placed_edge_near(bot, gameboard)
            } else {
                bot.auto_play(gameboard)
            }
        },
        None => bot.auto_play(gameboard),
    }
}

/// The answer of a bot in the centre to an edge that follows a corner.
fn center_edge_check_placed_corner_then_edge(
    bot: &mut Bot,
    gameboard: &BoardConfig,
) -> (chosen: Result<Coordinates, String>)
    requires
        old(bot).wf(),
        gameboard.wf(),
    ensures
        final(bot).path == CurrentPath::FocusDraw,
        edge_after_corner(old(bot).own_tile(), old(bot).bot_symbol, *gameboard).admits(chosen),
        final(bot).bot_symbol == old(bot).bot_symbol,
        final(bot).most_recent_chosen_coords == old(bot).most_recent_chosen_coords,
        chosen matches Ok(tile) ==> in_bounds(tile) && gameboard.state_at(tile)
            == BoardStates::Empty,
{
    bot.path = CurrentPath::FocusDraw;

    let marked_corner_near_player_edge = match gameboard.last_modified_tile {
        Some(last) => {
            proof {
                lemma_beside_filter(last, gameboard.marked());
            }
            gameboard.get_first_filled_tile(last.get_corners_around_edge(gameboard))
        },
        None => None,
    };

    match marked_corner_near_player_edge {
        Some(corner) => {
            if *gameboard.get_board_state(&corner) == bot.bot_symbol {
                center_edge_check_placed_edge_near(bot, gameboard)
            } else {
                // this is when the edge the player placed is far from the bot's corner
                bot.auto_play(gameboard)
            }
        },
        None => bot.auto_play(gameboard),
    }
}

/// The first move of a bot.
fn first_move_checks(bot: &mut Bot, gameboard: &BoardConfig)
    requires
        old(bot).path == CurrentPath::FirstMove,
    ensures
        final(bot).path == opening(*gameboard).path,
        opening(*gameboard).choice.admits(final(bot).most_recent_chosen_coords),
        final(bot).bot_symbol == old(bot).bot_symbol,
        final(bot).wf(),
        takes_empty_tile(*gameboard, final(bot).most_recent_chosen_coords),
{
    bot.path = bot.check_if_center_is_available_or_not(gameboard);

    bot.most_recent_chosen_coords = match bot.path {
        CurrentPath::PlayerPlacedCenter => {
            match gameboard.get_random_empty_corner_then_edge() {
                Some(coords) => Ok(coords),
                None => Err(FAILED_RANDOM_TILE.to_string()),
            }
        },
        _ => {
            proof {
                lemma_choice_of(CENTER_TILE, Ok(CENTER_TILE));
            }
            Ok(CENTER_TILE)
        },
    };
}

/// The move of a bot in the centre, by the class of the tile marked last.
fn center_position_checks(bot: &mut Bot, gameboard: &BoardConfig)
    requires
        old(bot).wf(),
        gameboard.wf(),
        old(bot).path is Center,
    ensures
        final(bot).path == old(bot).decision(*gameboard).path,
        old(bot).decision(*gameboard).choice.admits(final(bot).most_recent_chosen_coords),
        final(bot).bot_symbol == old(bot).bot_symbol,
        final(bot).wf(),
        takes_empty_tile(*gameboard, final(bot).most_recent_chosen_coords),
{
    let placed = match gameboard.last_modified_tile {
        Some(last) => Some(*gameboard.get_board_position(&last)),
        None => None,
    };
    match placed {
        Some(BoardPositions::Corner) => {
            bot.most_recent_chosen_coords = bot.center_corner_checks(gameboard);
        },
        Some(BoardPositions::Edge) => {
            bot.most_recent_chosen_coords = bot.center_edge_checks(gameboard);
        },
        _ => bot.most_recent_chosen_coords = Err(UNKNOWN_BOARD_POSITION.to_string()),
    }
}

/// The move of a bot whose opponent holds the centre, by the class of the
/// tile marked last.
fn not_center_position_checks(bot: &mut Bot, gameboard: &BoardConfig)
    requires
        old(bot).wf(),
        gameboard.wf(),
        old(bot).path == CurrentPath::PlayerPlacedCenter,
    ensures
        final(bot).path == old(bot).decision(*gameboard).path,
        old(bot).decision(*gameboard).choice.admits(final(bot).most_recent_chosen_coords),
        final(bot).bot_symbol == old(bot).bot_symbol,
        final(bot).wf(),
        takes_empty_tile(*gameboard, final(bot).most_recent_chosen_coords),
{
    let placed = match gameboard.last_modified_tile {
        Some(last) => Some(*gameboard.get_board_position(&last)),
        None => None,
    };
    match placed {
        Some(BoardPositions::Corner) => {
            bot.most_recent_chosen_coords = bot.not_center_corner_checks(gameboard);
        },
        Some(BoardPositions::Edge) => {
            bot.most_recent_chosen_coords = bot.not_center_edge_checks(gameboard);
        },
        _ => bot.most_recent_chosen_coords = Err(UNKNOWN_BOARD_POSITION.to_string()),
    }
}

} // verus!
