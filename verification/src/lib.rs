//! Tic-tac-toe on a 3x3 board with a bot that plays by rule: the geometry
//! of the grid, the board, the bot and the steps of a game.

pub mod bot;
mod chance;
pub mod coordinate_methods;
pub mod gameboard;
pub mod gameplay;
pub mod neighbors;
pub mod seq_facts;
pub mod series;
pub mod strategy;
pub mod winning;
