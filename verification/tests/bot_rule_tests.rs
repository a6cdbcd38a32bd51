use tictactoe_with_ai::bot::{Bot, BotPaths, CurrentPath};
use tictactoe_with_ai::coordinate_methods::{CoordinateMethods, Coordinates, GRID_SIZE};
use tictactoe_with_ai::gameboard::{BoardConfig, BoardPositions, BoardStates};

const X: BoardStates = BoardStates::X;
const O: BoardStates = BoardStates::O;
const E: BoardStates = BoardStates::Empty;

/// A board with the given marks; the tile named last is marked last.
fn board_of(rows: [[BoardStates; 3]; 3], last: Coordinates) -> BoardConfig {
  let mut board = BoardConfig::new();
  for row in 0..GRID_SIZE {
    for col in 0..GRID_SIZE {
      if rows[row][col] != E && (row, col) != last {
        board.place_tile(&(row, col), &rows[row][col]);
      }
    }
  }
  board.place_tile(&last, &rows[last.0][last.1]);
  board
}

/// A bot that plays X, in the given phase and with the given last tile.
fn bot_in(path: CurrentPath, own: Coordinates) -> Bot {
  let mut bot = Bot::new();
  bot.bot_symbol = X;
  bot.path = path;
  bot.most_recent_chosen_coords = Ok(own);
  bot
}

fn error(text: &str) -> Result<Coordinates, String> {
  Err(text.to_string())
}

#[test]
fn a_new_bot_has_not_moved() {
  let bot = Bot::new();

  assert_eq!(bot.path, CurrentPath::FirstMove);
  assert_eq!(bot.bot_symbol, E);
  assert_eq!(bot.most_recent_chosen_coords, error("No error has been given"));
  assert!(bot.is_well_formed());
  assert_eq!(bot, Bot::default());
}

#[test]
fn a_bot_with_a_tile_off_the_grid_is_not_well_formed() {
  let mut bot = Bot::new();
  bot.most_recent_chosen_coords = Ok((1, 3));
  assert!(!bot.is_well_formed());
  bot.most_recent_chosen_coords = Ok((2, 2));
  assert!(bot.is_well_formed());
}

#[test]
fn the_bot_opens_in_the_centre() {
  let mut bot = Bot::new();
  let gameboard = BoardConfig::new();

  bot.choose_coordinates(&gameboard);

  assert_eq!(bot.most_recent_chosen_coords, Ok((1, 1)));
  assert_eq!(bot.path, CurrentPath::Center(BotPaths::Unknown));
}

#[test]
fn the_bot_takes_the_centre_that_the_opponent_left() {
  let mut bot = Bot::new();
  let gameboard = board_of([[E, E, E], [E, E, O], [E, E, E]], (1, 2));

  assert_eq!(
    bot.check_if_center_is_available_or_not(&gameboard),
    CurrentPath::PlayerDidntPlaceCenter
  );
  bot.choose_coordinates(&gameboard);

  assert_eq!(bot.most_recent_chosen_coords, Ok((1, 1)));
  assert_eq!(bot.path, CurrentPath::PlayerDidntPlaceCenter);
}

#[test]
fn the_bot_takes_a_corner_against_an_opponent_in_the_centre() {
  for _ in 0..20 {
    let mut bot = Bot::new();
    let gameboard = board_of([[E, E, E], [E, O, E], [E, E, E]], (1, 1));

    assert_eq!(
      bot.check_if_center_is_available_or_not(&gameboard),
      CurrentPath::PlayerPlacedCenter
    );
    bot.choose_coordinates(&gameboard);

    let chosen = bot.most_recent_chosen_coords.clone().unwrap();
    assert_eq!(*gameboard.get_board_position(&chosen), BoardPositions::Corner);
    assert_eq!(bot.path, CurrentPath::PlayerPlacedCenter);
  }
}

#[test]
fn the_first_move_takes_an_edge_once_the_corners_are_gone() {
  let mut bot = Bot::new();
  let gameboard = board_of([[X, E, O], [O, O, X], [X, X, O]], (1, 1));

  bot.choose_coordinates(&gameboard);

  assert_eq!(bot.most_recent_chosen_coords, Ok((0, 1)));
  assert_eq!(bot.path, CurrentPath::PlayerPlacedCenter);
}

#[test]
fn the_first_move_fails_without_a_corner_or_an_edge() {
  let mut bot = Bot::new();
  let gameboard = board_of([[X, O, O], [O, O, X], [X, X, O]], (1, 1));

  bot.choose_coordinates(&gameboard);

  assert_eq!(bot.most_recent_chosen_coords, error("Failed to get random tile"));
  assert_eq!(bot.path, CurrentPath::PlayerPlacedCenter);
}

#[test]
fn from_the_centre_an_edge_is_answered_with_a_corner_beside_it() {
  let mut bot = bot_in(CurrentPath::Center(BotPaths::Unknown), (1, 1));
  let gameboard = board_of([[E, O, E], [E, X, E], [E, E, E]], (0, 1));

  bot.choose_coordinates(&gameboard);

  let chosen = bot.most_recent_chosen_coords.clone().unwrap();
  assert!(chosen == (0, 0) || chosen == (0, 2));
  assert_eq!(chosen, (0, 2));
  assert_eq!(*gameboard.get_board_position(&chosen), BoardPositions::Corner);
  assert!(chosen.is_across_from(&(0, 1)));
  assert_eq!(bot.path, CurrentPath::Center(BotPaths::PlayerPlacedEdge));
}

#[test]
fn from_the_centre_each_edge_is_answered_with_its_first_corner() {
  let answers = [((0, 1), (0, 2)), ((1, 0), (2, 0)), ((1, 2), (2, 2)), ((2, 1), (2, 2))];
  for (edge, corner) in answers {
    let mut bot = bot_in(CurrentPath::Center(BotPaths::Unknown), (1, 1));
    let mut gameboard = BoardConfig::new();
    gameboard.place_tile(&(1, 1), &X);
    gameboard.place_tile(&edge, &O);

    assert_eq!(bot.center_edge_checks(&gameboard), Ok(corner));
    assert_eq!(bot.path, CurrentPath::Center(BotPaths::PlayerPlacedEdge));
  }
}

#[test]
fn from_the_centre_an_edge_is_answered_with_an_empty_corner_beside_it() {
  // the first corner beside the edge is taken: the second one
  // -|O|X
  // -|X|-
  // -|-|-
  let mut bot = bot_in(CurrentPath::Center(BotPaths::Unknown), (1, 1));
  let gameboard = board_of([[E, O, X], [E, X, E], [E, E, E]], (0, 1));
  assert_eq!(bot.center_edge_checks(&gameboard), Ok((0, 0)));
  assert_eq!(bot.path, CurrentPath::Center(BotPaths::PlayerPlacedEdge));

  // both corners beside the edge are taken: the fallback, which finds
  // nothing forced and takes the one empty corner
  // O|O|X
  // -|X|-
  // O|-|-
  let mut bot = bot_in(CurrentPath::Center(BotPaths::Unknown), (1, 1));
  let gameboard = board_of([[O, O, X], [E, X, E], [O, E, E]], (0, 1));
  bot.choose_coordinates(&gameboard);
  assert_eq!(bot.most_recent_chosen_coords, Ok((2, 2)));
  assert_eq!(bot.path, CurrentPath::Center(BotPaths::PlayerPlacedEdge));
}

#[test]
fn the_fallback_blocks_where_its_own_edge_completes_nothing() {
  // O|-|-
  // X|O|-
  // -|-|-
  let bot = bot_in(CurrentPath::FocusDraw, (1, 0));
  let gameboard = board_of([[O, E, E], [X, O, E], [E, E, E]], (0, 0));

  assert_eq!(gameboard.check_if_two_in_series(&(1, 0)), None);
  assert_eq!(bot.auto_play(&gameboard), Ok((2, 2)));
}

#[test]
fn from_the_centre_a_corner_is_answered_with_the_corner_opposite() {
  let answers = [((0, 0), (2, 2)), ((0, 2), (2, 0)), ((2, 0), (0, 2)), ((2, 2), (0, 0))];
  for (corner, opposite) in answers {
    let mut bot = bot_in(CurrentPath::Center(BotPaths::Unknown), (1, 1));
    let mut gameboard = BoardConfig::new();
    gameboard.place_tile(&(1, 1), &X);
    gameboard.place_tile(&corner, &O);

    bot.choose_coordinates(&gameboard);

    assert_eq!(bot.most_recent_chosen_coords, Ok(opposite));
    assert_eq!(bot.path, CurrentPath::Center(BotPaths::PlayerPlacedCorner));
  }
}

#[test]
fn from_the_centre_a_corner_with_a_taken_opposite_falls_back() {
  // O|-|-
  // -|X|-
  // -|O|O
  let mut bot = bot_in(CurrentPath::Center(BotPaths::Unknown), (1, 1));
  let gameboard = board_of([[O, E, E], [E, X, E], [E, O, O]], (2, 2));

  bot.choose_coordinates(&gameboard);

  // nothing to complete through the centre, the opponent's row is blocked
  assert_eq!(bot.most_recent_chosen_coords, Ok((2, 0)));
  assert_eq!(bot.path, CurrentPath::Center(BotPaths::PlayerPlacedCorner));
}

#[test]
fn after_an_edge_a_corner_that_blocks_the_diagonal_is_answered_with_a_double_threat() {
  // -|O|X
  // -|X|-
  // O|-|-
  let mut bot = bot_in(CurrentPath::Center(BotPaths::PlayerPlacedEdge), (0, 2));
  let gameboard = board_of([[E, O, X], [E, X, E], [O, E, E]], (2, 0));

  bot.choose_coordinates(&gameboard);

  // the first empty edge beside the bot's corner: with it the bot has two lines of two
  assert_eq!(bot.most_recent_chosen_coords, Ok((1, 2)));
  assert_eq!(bot.path, CurrentPath::DoubleWinCondition);
}

#[test]
fn after_an_edge_a_corner_elsewhere_is_answered_with_the_win() {
  // O|O|X
  // -|X|-
  // -|-|-
  let mut bot = bot_in(CurrentPath::Center(BotPaths::PlayerPlacedEdge), (0, 2));
  let gameboard = board_of([[O, O, X], [E, X, E], [E, E, E]], (0, 0));

  bot.choose_coordinates(&gameboard);

  assert_eq!(bot.most_recent_chosen_coords, Ok((2, 0)));
  assert_eq!(bot.path, CurrentPath::DoubleWinCondition);
}

#[test]
fn after_an_edge_another_edge_is_answered_by_the_fallback() {
  // -|-|-
  // -|X|O
  // -|O|X
  let mut bot = bot_in(CurrentPath::Center(BotPaths::PlayerPlacedEdge), (2, 2));
  let gameboard = board_of([[E, E, E], [E, X, O], [E, O, X]], (1, 2));

  bot.choose_coordinates(&gameboard);

  assert_eq!(bot.most_recent_chosen_coords, Ok((0, 0)));
  assert_eq!(bot.path, CurrentPath::DoubleWinCondition);
}

#[test]
fn after_a_corner_a_corner_is_answered_by_the_fallback() {
  // X|-|-
  // -|X|-
  // O|-|O
  let mut bot = bot_in(CurrentPath::Center(BotPaths::PlayerPlacedCorner), (0, 0));
  let gameboard = board_of([[X, E, E], [E, X, E], [O, E, O]], (2, 0));

  bot.choose_coordinates(&gameboard);

  assert_eq!(bot.most_recent_chosen_coords, Ok((2, 1)));
  assert_eq!(bot.path, CurrentPath::FocusDraw);
}

#[test]
fn after_a_corner_an_edge_beside_the_bots_corner_is_answered_with_a_double_threat() {
  // X|O|-
  // -|X|-
  // -|-|O
  let mut bot = bot_in(CurrentPath::Center(BotPaths::PlayerPlacedCorner), (0, 0));
  let gameboard = board_of([[X, O, E], [E, X, E], [E, E, O]], (0, 1));

  bot.choose_coordinates(&gameboard);

  assert_eq!(bot.most_recent_chosen_coords, Ok((1, 0)));
  assert_eq!(bot.path, CurrentPath::FocusDraw);
}

#[test]
fn after_a_corner_an_edge_beside_the_opponents_corner_is_answered_by_the_fallback() {
  // X|-|-
  // -|X|O
  // -|-|O
  let mut bot = bot_in(CurrentPath::Center(BotPaths::PlayerPlacedCorner), (0, 0));
  let gameboard = board_of([[X, E, E], [E, X, O], [E, E, O]], (1, 2));

  bot.choose_coordinates(&gameboard);

  // the first marked corner beside the edge is the opponent's: block the column
  assert_eq!(bot.most_recent_chosen_coords, Ok((0, 2)));
  assert_eq!(bot.path, CurrentPath::FocusDraw);
}

#[test]
fn around_the_centre_a_corner_opposite_the_bots_is_answered_with_a_corner() {
  for _ in 0..20 {
    // -|-|O
    // -|O|-
    // X|-|-
    let mut bot = bot_in(CurrentPath::PlayerPlacedCenter, (2, 0));
    let gameboard = board_of([[E, E, O], [E, O, E], [X, E, E]], (0, 2));

    bot.choose_coordinates(&gameboard);

    let chosen = bot.most_recent_chosen_coords.clone().unwrap();
    assert!(chosen == (0, 0) || chosen == (2, 2));
    assert_eq!(bot.path, CurrentPath::FocusDraw);
  }
}

#[test]
fn around_the_centre_another_corner_is_blocked() {
  // O|-|-
  // -|O|-
  // X|-|-
  let mut bot = bot_in(CurrentPath::PlayerPlacedCenter, (2, 0));
  let gameboard = board_of([[O, E, E], [E, O, E], [X, E, E]], (0, 0));

  bot.choose_coordinates(&gameboard);

  assert_eq!(bot.most_recent_chosen_coords, Ok((2, 2)));
  assert_eq!(bot.path, CurrentPath::FocusDraw);
}

#[test]
fn around_the_centre_an_edge_beside_the_bots_corner_is_answered_opposite() {
  // -|-|-
  // -|O|-
  // -|O|X
  let mut bot = bot_in(CurrentPath::PlayerPlacedCenter, (2, 2));
  let gameboard = board_of([[E, E, E], [E, O, E], [E, O, X]], (2, 1));

  bot.choose_coordinates(&gameboard);

  assert_eq!(bot.most_recent_chosen_coords, Ok((0, 1)));
  assert_eq!(bot.path, CurrentPath::DoubleWinCondition);
}

#[test]
fn around_the_centre_an_edge_away_from_the_bots_corner_is_blocked() {
  // -|O|-
  // -|O|-
  // -|-|X
  let mut bot = bot_in(CurrentPath::PlayerPlacedCenter, (2, 2));
  let gameboard = board_of([[E, O, E], [E, O, E], [E, E, X]], (0, 1));

  bot.choose_coordinates(&gameboard);

  assert_eq!(bot.most_recent_chosen_coords, Ok((2, 1)));
  assert_eq!(bot.path, CurrentPath::FocusDraw);
}

#[test]
fn after_taking_the_centre_second_the_bot_falls_back() {
  // O|O|-
  // -|X|-
  // -|-|-
  let mut bot = bot_in(CurrentPath::PlayerDidntPlaceCenter, (1, 1));
  let gameboard = board_of([[O, O, E], [E, X, E], [E, E, E]], (0, 1));

  bot.choose_coordinates(&gameboard);

  assert_eq!(bot.most_recent_chosen_coords, Ok((0, 2)));
  assert_eq!(bot.path, CurrentPath::FocusDraw);
}

#[test]
fn the_settled_phases_are_never_left() {
  for path in [CurrentPath::FocusDraw, CurrentPath::DoubleWinCondition] {
    let mut bot = bot_in(path, (1, 1));
    let mut gameboard = board_of([[O, E, E], [E, X, E], [E, E, E]], (0, 0));

    for _ in 0..4 {
      bot.choose_coordinates(&gameboard);
      assert_eq!(bot.path, path);
      let chosen = bot.most_recent_chosen_coords.clone().unwrap();
      assert_eq!(*gameboard.get_board_state(&chosen), E);
      gameboard.place_tile(&chosen, &X);
    }
  }
}

#[test]
fn the_fallback_completes_before_it_blocks() {
  // X|X|-
  // O|O|-
  // -|-|-
  let bot = bot_in(CurrentPath::FocusDraw, (0, 1));
  let gameboard = board_of([[X, X, E], [O, O, E], [E, E, E]], (1, 1));

  assert_eq!(bot.auto_play(&gameboard), Ok((0, 2)));
}

#[test]
fn the_fallback_blocks_where_it_cannot_complete() {
  // X|-|-
  // O|O|-
  // -|-|X
  let bot = bot_in(CurrentPath::FocusDraw, (2, 2));
  let gameboard = board_of([[X, E, E], [O, O, E], [E, E, X]], (1, 0));

  assert_eq!(bot.auto_play(&gameboard), Ok((1, 2)));
}

#[test]
fn the_fallback_passes_over_an_ambiguous_completion() {
  // X|X|-
  // X|O|-
  // O|-|-
  let bot = bot_in(CurrentPath::FocusDraw, (0, 0));
  let gameboard = board_of([[X, X, E], [X, O, E], [E, E, O]], (2, 2));

  // two tiles complete a line through the bot's corner, none is forced; the
  // opponent's corner forces nothing either
  assert_eq!(gameboard.check_if_two_in_series(&(0, 0)), None);
  assert_eq!(gameboard.check_if_two_in_series(&(2, 2)), None);
  for _ in 0..20 {
    let chosen = bot.auto_play(&gameboard).unwrap();
    assert!(chosen == (0, 2) || chosen == (2, 0));
  }
}

#[test]
fn the_fallback_takes_corners_before_edges() {
  for _ in 0..20 {
    let bot = bot_in(CurrentPath::FocusDraw, (1, 1));
    let gameboard = board_of([[O, E, E], [E, X, E], [E, E, X]], (0, 0));
    let chosen = bot.auto_play(&gameboard).unwrap();
    assert!(chosen == (0, 2) || chosen == (2, 0));
  }
}

#[test]
fn the_fallback_without_a_move_of_its_own_blocks() {
  let bot = Bot::new();
  let gameboard = board_of([[O, O, E], [E, E, E], [E, E, E]], (0, 0));

  assert_eq!(bot.auto_play(&gameboard), Ok((0, 2)));
}

#[test]
fn the_fallback_on_an_untouched_board_takes_a_corner() {
  let bot = Bot::new();
  let gameboard = BoardConfig::new();

  let chosen = bot.auto_play(&gameboard).unwrap();
  assert_eq!(*gameboard.get_board_position(&chosen), BoardPositions::Corner);
}

#[test]
fn a_full_board_leaves_no_move() {
  let gameboard = board_of([[X, O, X], [X, O, O], [O, X, X]], (2, 2));

  for path in [CurrentPath::FocusDraw, CurrentPath::DoubleWinCondition] {
    let mut bot = bot_in(path, (2, 2));
    assert_eq!(bot.auto_play(&gameboard), error("No possible tile to place on"));
    bot.choose_coordinates(&gameboard);
    assert_eq!(bot.most_recent_chosen_coords, error("No possible tile to place on"));
    assert_eq!(bot.path, path);
  }
}

#[test]
fn only_the_centre_left_leaves_no_move() {
  let gameboard = board_of([[X, O, X], [X, E, O], [O, X, O]], (2, 2));
  let bot = bot_in(CurrentPath::FocusDraw, (0, 0));

  assert_eq!(bot.auto_play(&gameboard), error("No possible tile to place on"));
}

#[test]
fn a_check_from_the_centre_fails_in_another_phase() {
  let gameboard = board_of([[O, E, E], [E, X, E], [E, E, E]], (0, 0));
  let paths = [
    CurrentPath::FirstMove,
    CurrentPath::PlayerPlacedCenter,
    CurrentPath::PlayerDidntPlaceCenter,
    CurrentPath::DoubleWinCondition,
    CurrentPath::FocusDraw,
  ];
  for path in paths {
    let mut bot = bot_in(path, (1, 1));
    assert_eq!(bot.center_corner_checks(&gameboard), error("Unknown Center Path"));
    assert_eq!(bot.path, path);
    assert_eq!(bot.center_edge_checks(&gameboard), error("Unknown Center Path"));
    assert_eq!(bot.path, path);
    assert_eq!(bot.most_recent_chosen_coords, Ok((1, 1)));
  }
}

#[test]
fn a_check_around_the_centre_fails_for_a_bot_in_the_centre() {
  let gameboard = board_of([[O, E, E], [E, X, E], [E, E, E]], (0, 0));
  let paths = [
    CurrentPath::Center(BotPaths::Unknown),
    CurrentPath::Center(BotPaths::PlayerPlacedEdge),
    CurrentPath::Center(BotPaths::PlayerPlacedCorner),
    CurrentPath::PlayerDidntPlaceCenter,
  ];
  for path in paths {
    let mut bot = bot_in(path, (1, 1));
    assert_eq!(bot.not_center_corner_checks(&gameboard), error("Incorrect path input"));
    assert_eq!(bot.path, path);
    assert_eq!(bot.not_center_edge_checks(&gameboard), error("Incorrect path input"));
    assert_eq!(bot.path, path);
  }
}

#[test]
fn a_move_that_answers_no_placement_fails() {
  for path in [CurrentPath::Center(BotPaths::Unknown), CurrentPath::PlayerPlacedCenter] {
    // nothing was placed
    let mut bot = bot_in(path, (1, 1));
    bot.choose_coordinates(&BoardConfig::new());
    assert_eq!(bot.most_recent_chosen_coords, error("Unknown board position"));
    assert_eq!(bot.path, path);

    // the centre was placed last
    let mut bot = bot_in(path, (0, 0));
    let gameboard = board_of([[X, E, E], [E, O, E], [E, E, E]], (1, 1));
    bot.choose_coordinates(&gameboard);
    assert_eq!(bot.most_recent_chosen_coords, error("Unknown board position"));
    assert_eq!(bot.path, path);
  }

  let mut bot = bot_in(CurrentPath::Center(BotPaths::Unknown), (1, 1));
  assert_eq!(bot.center_corner_checks(&BoardConfig::new()), error("Unknown board position"));
  assert_eq!(bot.center_edge_checks(&BoardConfig::new()), error("Unknown board position"));
}

#[test]
fn a_move_never_goes_back_to_an_earlier_phase() {
  fn rank(path: CurrentPath) -> u8 {
    match path {
      CurrentPath::FirstMove => 0,
      CurrentPath::Center(BotPaths::Unknown) => 1,
      CurrentPath::PlayerPlacedCenter => 1,
      CurrentPath::PlayerDidntPlaceCenter => 1,
      CurrentPath::Center(_) => 2,
      CurrentPath::DoubleWinCondition => 3,
      CurrentPath::FocusDraw => 3,
    }
  }
  for opening in [None, Some((1, 1)), Some((0, 0)), Some((0, 1))] {
    for _ in 0..30 {
      let mut bot = Bot::new();
      bot.bot_symbol = X;
      let mut gameboard = BoardConfig::new();
      if let Some(tile) = opening {
        gameboard.place_tile(&tile, &O);
      }
      let mut before = rank(bot.path);
      loop {
        bot.choose_coordinates(&gameboard);
        assert!(rank(bot.path) >= before);
        before = rank(bot.path);
        let chosen = match &bot.most_recent_chosen_coords {
          Ok(chosen) => *chosen,
          Err(_) => break,
        };
        assert_eq!(*gameboard.get_board_state(&chosen), E);
        gameboard.place_tile(&chosen, &X);
        match gameboard.get_random_empty_corner_then_edge() {
          Some(tile) => gameboard.place_tile(&tile, &O),
          None => {
            if *gameboard.get_board_state(&(1, 1)) == E {
              gameboard.place_tile(&(1, 1), &O);
            } else {
              break;
            }
          }
        }
      }
    }
  }
}
