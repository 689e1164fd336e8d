//! A verified tic-tac-toe board with rule-based opponents.
//!
//! The board is a row-major grid of nine cells. Every executable function
//! carries a contract over the mathematical model of the board, a sequence of
//! nine marks together with the player whose turn it is.

pub mod board;
pub mod chance;
pub mod history;
pub mod mark;
pub mod moves;
pub mod selector;
pub mod strategy;
pub mod triple;

pub use board::{Grill, GrillErr, Outcome};
pub use moves::NO_CELL;
pub use selector::{algo_move, choose_algo, pick_algo, ALGO_NBR};
pub use strategy::{
    accept_draw, aim_corner, aim_oposit_corner, answer_opening, basic_algo, can_i_win, l_algo,
    medium_algo, place, random_algo, shows, stupid_algo, DRAWS,
};
pub use triple::{free_space, line_owner, BLOCKED, NOT_YET};
