//! Turn-based board games for two players with perfect information: the
//! rules of four games, opponents that search for their moves, the course of
//! a match with its time limit, and the rating of the players.
//!
//! Every board implements [`game::PvpGame`]; the opponents in [`minimax`],
//! [`mcts`] and [`random_ai`] work on any board whose moves are numbers. A
//! match is run by [`runner::GameRunner`], which decides what is due and
//! leaves waiting and drawing to its caller.

pub mod state;
pub mod game;
pub mod grid;
pub mod symbols;
pub mod tictactoe;
pub mod ultimate;
pub mod connect4;
pub mod pentago;
pub mod minimax;
pub mod rng;
pub mod clock;
pub mod random_ai;
pub mod mcts;
pub mod runner;
pub mod elo;
pub mod ranks;
