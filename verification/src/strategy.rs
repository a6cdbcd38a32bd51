//! The bot's rule as a function: from the phase, the bot's last tile, its
//! mark and the board to the next phase and the move.

use crate::bot::{
    BotPaths, CurrentPath, FAILED_RANDOM_TILE, FIRST_MOVE, INCORRECT_PATH, NO_POSSIBLE_TILE,
    UNKNOWN_BOARD_POSITION, UNKNOWN_CENTER_PATH,
};
use crate::coordinate_methods::{
    class_of, corners_beside, corners_beside_where, edges_beside_where, in_bounds, is_across,
    opposite_of, Coordinates, CENTER_TILE,
};
use crate::gameboard::{BoardConfig, BoardPositions, BoardStates};
use crate::seq_facts::first_of;
use crate::series::mirrored;
use vstd::prelude::*;

verus! {

/// What a move may be: any one of `options`, or, where there is none, a
/// failure that reads `failure`.
pub struct Choice {
    pub options: Seq<Coordinates>,
    pub failure: Seq<char>,
}

/// The phase after a move, and what the move may be.
pub struct Decision {
    pub path: CurrentPath,
    pub choice: Choice,
}

impl Choice {
    /// The move is `tile`.
    pub open spec fn of(tile: Coordinates) -> Choice {
        Choice { options: seq![tile], failure: Seq::empty() }
    }

    /// There is no move.
    pub open spec fn fails(failure: Seq<char>) -> Choice {
        Choice { options: Seq::empty(), failure }
    }

    /// Whether `outcome` is one of the moves, or the failure where there is
    /// no move.
    pub open spec fn admits(self, outcome: Result<Coordinates, String>) -> bool {
        match outcome {
            Ok(tile) => self.options.contains(tile),
            Err(text) => self.options.len() == 0 && text@ == self.failure,
        }
    }
}

/// How far a phase is from the start of the game.
pub open spec fn phase_rank(path: CurrentPath) -> nat {
    match path {
        CurrentPath::FirstMove => 0,
        CurrentPath::Center(BotPaths::Unknown) => 1,
        CurrentPath::PlayerPlacedCenter => 1,
        CurrentPath::PlayerDidntPlaceCenter => 1,
        CurrentPath::Center(BotPaths::PlayerPlacedEdge) => 2,
        CurrentPath::Center(BotPaths::PlayerPlacedCorner) => 2,
        CurrentPath::DoubleWinCondition => 3,
        CurrentPath::FocusDraw => 3,
    }
}

/// The two phases that last for the rest of the game.
pub open spec fn is_settled(path: CurrentPath) -> bool {
    path == CurrentPath::DoubleWinCondition || path == CurrentPath::FocusDraw
}

/// The phases in which the bot holds the centre.
pub open spec fn holds_center(path: CurrentPath) -> bool {
    path is Center || path == CurrentPath::PlayerDidntPlaceCenter
}

/// The class of the tile that was marked last.
pub open spec fn placed_class(board: BoardConfig) -> Option<BoardPositions> {
    match board.last_modified_tile {
        Some(last) => Some(class_of(last)),
        None => None,
    }
}

/// The tile that the bot is forced to take: the one that completes a line
/// through its own last tile, else the one that completes a line through the
/// tile marked last.
pub open spec fn forced_tile(own: Option<Coordinates>, board: BoardConfig) -> Option<Coordinates> {
    let completing = match own {
        Some(mine) => board.two_in_series(mine),
        None => None,
    };
    match completing {
        Some(tile) => Some(tile),
        None => match board.last_modified_tile {
            Some(last) => board.two_in_series(last),
            None => None,
        },
    }
}

/// The move of a bot that follows no plan: the forced tile, else any empty
/// corner, else any empty edge; a failure on a board that has none.
pub open spec fn fallback(own: Option<Coordinates>, board: BoardConfig) -> Choice {
    match forced_tile(own, board) {
        Some(tile) => Choice::of(tile),
        None => Choice { options: board.corner_then_edge(), failure: NO_POSSIBLE_TILE@ },
    }
}

/// The phase that the first move leads to: the bot opens in the centre of an
/// untouched board, takes the centre that the opponent left, or finds the
/// opponent there.
pub open spec fn opening_path(board: BoardConfig) -> CurrentPath {
    if board.state_at(CENTER_TILE) == BoardStates::Empty {
        if board.tiles_covered == FIRST_MOVE {
            CurrentPath::Center(BotPaths::Unknown)
        } else {
            CurrentPath::PlayerDidntPlaceCenter
        }
    } else {
        CurrentPath::PlayerPlacedCenter
    }
}

/// The first move: the centre where it is empty, else any empty corner, else
/// any empty edge.
pub open spec fn opening(board: BoardConfig) -> Decision {
    Decision {
        path: opening_path(board),
        choice: if board.state_at(CENTER_TILE) == BoardStates::Empty {
            Choice::of(CENTER_TILE)
        } else {
            Choice { options: board.corner_then_edge(), failure: FAILED_RANDOM_TILE@ }
        },
    }
}

/// The first empty edge beside the bot's own tile, which gives a bot with
/// that corner and the centre two lines of two; the fallback where there is
/// none.
pub open spec fn edge_beside_own(own: Option<Coordinates>, board: BoardConfig) -> Choice {
    match own {
        Some(mine) => match first_of(edges_beside_where(mine, board.holding(BoardStates::Empty))) {
            Some(edge) => Choice::of(edge),
            None => fallback(own, board),
        },
        None => fallback(own, board),
    }
}

/// The answer to a corner after an edge, from the centre: where the corner
/// opposite the bot's own is taken, an edge beside its own; else the
/// fallback.
pub open spec fn corner_after_edge(own: Option<Coordinates>, board: BoardConfig) -> Choice {
    match own {
        Some(mine) => if board.state_at(opposite_of(mine, CENTER_TILE)) != BoardStates::Empty {
            edge_beside_own(own, board)
        } else {
            fallback(own, board)
        },
        None => fallback(own, board),
    }
}

/// The answer to an edge after a corner, from the centre: where the first
/// marked corner beside that edge is the bot's, an edge beside its own; else
/// the fallback.
pub open spec fn edge_after_corner(
    own: Option<Coordinates>,
    symbol: BoardStates,
    board: BoardConfig,
) -> Choice {
    match board.last_modified_tile {
        Some(last) => match first_of(corners_beside_where(last, board.marked())) {
            Some(corner) => if board.state_at(corner) == symbol {
                edge_beside_own(own, board)
            } else {
                fallback(own, board)
            },
            None => fallback(own, board),
        },
        None => fallback(own, board),
    }
}

/// How a bot in the centre answers a corner.
pub open spec fn center_corner_reply(
    path: CurrentPath,
    own: Option<Coordinates>,
    board: BoardConfig,
) -> Decision {
    match path {
        CurrentPath::Center(BotPaths::Unknown) => match board.last_modified_tile {
            Some(last) => Decision {
                path: CurrentPath::Center(BotPaths::PlayerPlacedCorner),
                choice: if board.state_at(opposite_of(last, CENTER_TILE)) == BoardStates::Empty {
                    Choice::of(opposite_of(last, CENTER_TILE))
                } else {
                    fallback(own, board)
                },
            },
            None => Decision { path, choice: Choice::fails(UNKNOWN_BOARD_POSITION@) },
        },
        CurrentPath::Center(BotPaths::PlayerPlacedCorner) => Decision {
            path: CurrentPath::FocusDraw,
            choice: fallback(own, board),
        },
        CurrentPath::Center(BotPaths::PlayerPlacedEdge) => Decision {
            path: CurrentPath::DoubleWinCondition,
            choice: corner_after_edge(own, board),
        },
        _ => Decision { path, choice: Choice::fails(UNKNOWN_CENTER_PATH@) },
    }
}

/// How a bot in the centre answers an edge: a first edge with the first
/// empty corner beside it, where there is one.
pub open spec fn center_edge_reply(
    path: CurrentPath,
    own: Option<Coordinates>,
    symbol: BoardStates,
    board: BoardConfig,
) -> Decision {
    match path {
        CurrentPath::Center(BotPaths::Unknown) => match board.last_modified_tile {
            Some(last) => Decision {
                path: CurrentPath::Center(BotPaths::PlayerPlacedEdge),
                choice: match first_of(
                    corners_beside_where(last, board.holding(BoardStates::Empty)),
                ) {
                    Some(corner) => Choice::of(corner),
                    None => fallback(own, board),
                },
            },
            None => Decision { path, choice: Choice::fails(UNKNOWN_BOARD_POSITION@) },
        },
        CurrentPath::Center(BotPaths::PlayerPlacedCorner) => Decision {
            path: CurrentPath::FocusDraw,
            choice: edge_after_corner(own, symbol, board),
        },
        CurrentPath::Center(BotPaths::PlayerPlacedEdge) => Decision {
            path: CurrentPath::DoubleWinCondition,
            choice: fallback(own, board),
        },
        _ => Decision { path, choice: Choice::fails(UNKNOWN_CENTER_PATH@) },
    }
}

/// The answer to a corner while the opponent holds the centre: where the
/// corner opposite the bot's own is taken, any empty corner; else the tile
/// that blocks the opponent; the fallback where there is neither.
pub open spec fn corner_around_center(own: Option<Coordinates>, board: BoardConfig) -> Choice {
    match own {
        Some(mine) => if board.state_at(opposite_of(mine, CENTER_TILE)) != BoardStates::Empty {
            if board.empty_corners().len() > 0 {
                Choice { options: board.empty_corners(), failure: Seq::empty() }
            } else {
                fallback(own, board)
            }
        } else {
            match board.last_modified_tile {
                Some(last) => match board.two_in_series(last) {
                    Some(tile) => Choice::of(tile),
                    None => fallback(own, board),
                },
                None => fallback(own, board),
            }
        },
        None => fallback(own, board),
    }
}

/// How a bot answers a corner while the opponent holds the centre. A bot
/// that holds the centre itself has no such answer; a bot in a settled phase
/// stays there.
pub open spec fn not_center_corner_reply(
    path: CurrentPath,
    own: Option<Coordinates>,
    board: BoardConfig,
) -> Decision {
    if holds_center(path) {
        Decision { path, choice: Choice::fails(INCORRECT_PATH@) }
    } else if is_settled(path) {
        Decision { path, choice: fallback(own, board) }
    } else {
        Decision { path: CurrentPath::FocusDraw, choice: corner_around_center(own, board) }
    }
}

/// How a bot answers an edge while the opponent holds the centre: with the
/// edge opposite one that was put beside the bot's own tile, where that is
/// empty; else with the fallback. A bot that holds the centre itself has no
/// such answer; a bot in a settled phase stays there.
pub open spec fn not_center_edge_reply(
    path: CurrentPath,
    own: Option<Coordinates>,
    board: BoardConfig,
) -> Decision {
    if holds_center(path) {
        Decision { path, choice: Choice::fails(INCORRECT_PATH@) }
    } else if is_settled(path) {
        Decision { path, choice: fallback(own, board) }
    } else {
        match (own, board.last_modified_tile) {
            (Some(mine), Some(last)) => if is_across(last, mine) {
                Decision {
                    path: CurrentPath::DoubleWinCondition,
                    choice: if board.state_at(opposite_of(last, CENTER_TILE))
                        == BoardStates::Empty {
                        Choice::of(opposite_of(last, CENTER_TILE))
                    } else {
                        fallback(own, board)
                    },
                }
            } else {
                Decision { path: CurrentPath::FocusDraw, choice: fallback(own, board) }
            },
            _ => Decision { path: CurrentPath::FocusDraw, choice: fallback(own, board) },
        }
    }
}

/// The bot's rule: from the phase, its own last tile, its mark and the board
/// to the next phase and the move.
pub open spec fn reply(
    path: CurrentPath,
    own: Option<Coordinates>,
    symbol: BoardStates,
    board: BoardConfig,
) -> Decision {
    match path {
        CurrentPath::FirstMove => opening(board),
        CurrentPath::Center(_) => match placed_class(board) {
            Some(BoardPositions::Corner) => center_corner_reply(path, own, board),
            Some(BoardPositions::Edge) => center_edge_reply(path, own, symbol, board),
            _ => Decision { path, choice: Choice::fails(UNKNOWN_BOARD_POSITION@) },
        },
        CurrentPath::PlayerPlacedCenter => match placed_class(board) {
            Some(BoardPositions::Corner) => not_center_corner_reply(path, own, board),
            Some(BoardPositions::Edge) => not_center_edge_reply(path, own, board),
            _ => Decision { path, choice: Choice::fails(UNKNOWN_BOARD_POSITION@) },
        },
        CurrentPath::PlayerDidntPlaceCenter => Decision {
            path: CurrentPath::FocusDraw,
            choice: fallback(own, board),
        },
        CurrentPath::DoubleWinCondition | CurrentPath::FocusDraw => Decision {
            path,
            choice: fallback(own, board),
        },
    }
}

/// Whether a move takes an empty tile.
pub open spec fn takes_empty_tile(
    board: BoardConfig,
    outcome: Result<Coordinates, String>,
) -> bool {
    outcome matches Ok(tile) ==> board.state_at(tile) == BoardStates::Empty
}

/// A choice of one tile admits that tile and nothing else.
pub proof fn lemma_choice_of(tile: Coordinates, outcome: Result<Coordinates, String>)
    ensures
        Choice::of(tile).admits(outcome) <==> outcome == Ok::<Coordinates, String>(tile),
{
    assert(seq![tile][0] == tile);
}

/// A move never takes the bot back to an earlier phase, and the two settled
/// phases are never left: there the bot follows the fallback.
pub proof fn lemma_phase_never_reverts(
    path: CurrentPath,
    own: Option<Coordinates>,
    symbol: BoardStates,
    board: BoardConfig,
)
    ensures
        phase_rank(reply(path, own, symbol, board).path) >= phase_rank(path),
        is_settled(path) ==> reply(path, own, symbol, board) == (Decision {
            path,
            choice: fallback(own, board),
        }),
{
}

/// The first move on an untouched board is the centre, and the bot then
/// waits there for the answer.
pub proof fn lemma_opening_on_empty_board(
    own: Option<Coordinates>,
    symbol: BoardStates,
    board: BoardConfig,
)
    requires
        board.tiles_covered == 0,
        board.state_at(CENTER_TILE) == BoardStates::Empty,
    ensures
        reply(CurrentPath::FirstMove, own, symbol, board) == (Decision {
            path: CurrentPath::Center(BotPaths::Unknown),
            choice: Choice::of(CENTER_TILE),
        }),
{
}

/// From the centre, the bot answers a first edge with a corner beside that
/// edge: with the first one that is empty, where one is.
pub proof fn lemma_edge_answered_beside(
    own: Option<Coordinates>,
    symbol: BoardStates,
    board: BoardConfig,
)
    requires
        board.last_modified_tile matches Some(last) && in_bounds(last) && class_of(last)
            == BoardPositions::Edge,
        corners_beside_where(
            board.last_modified_tile->0,
            board.holding(BoardStates::Empty),
        ).len() > 0,
    ensures
        ({
            let last = board.last_modified_tile->0;
            let corner = corners_beside_where(last, board.holding(BoardStates::Empty))[0];
            &&& reply(CurrentPath::Center(BotPaths::Unknown), own, symbol, board) == (Decision {
                path: CurrentPath::Center(BotPaths::PlayerPlacedEdge),
                choice: Choice::of(corner),
            })
            &&& class_of(corner) == BoardPositions::Corner
            &&& is_across(corner, last)
            &&& board.state_at(corner) == BoardStates::Empty
            &&& board.state_at(corners_beside(last)[0]) == BoardStates::Empty ==> corner
                == corners_beside(last)[0]
        }),
{
}

/// On a board without an empty tile the bot finds no move: neither the
/// fallback nor the first move has a tile to take.
pub proof fn lemma_full_board_has_no_move(own: Option<Coordinates>, board: BoardConfig)
    requires
        board.is_full(),
        own matches Some(mine) ==> in_bounds(mine),
        board.last_modified_tile matches Some(last) ==> in_bounds(last),
    ensures
        fallback(own, board).options.len() == 0,
        fallback(own, board).failure == NO_POSSIBLE_TILE@,
        opening(board).choice.options.len() == 0,
        opening(board).choice.failure == FAILED_RANDOM_TILE@,
{
    lemma_no_free_tile_on_full_board(board);
    if let Some(mine) = own {
        lemma_nothing_forced_on_full_board(board, mine);
    }
    if let Some(last) = board.last_modified_tile {
        lemma_nothing_forced_on_full_board(board, last);
    }
}

/// On a board without an empty tile there is no corner or edge to draw.
proof fn lemma_no_free_tile_on_full_board(board: BoardConfig)
    requires
        board.is_full(),
    ensures
        board.corner_then_edge().len() == 0,
        board.state_at(CENTER_TILE) != BoardStates::Empty,
{
}

/// On a board without an empty tile no tile is forced.
proof fn lemma_nothing_forced_on_full_board(board: BoardConfig, c: Coordinates)
    requires
        board.is_full(),
        in_bounds(c),
    ensures
        board.two_in_series(c) is None,
{
}

} // verus!
