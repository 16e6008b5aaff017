//! The outcome of inspecting a board or of applying a move to it.

use vstd::prelude::*;

verus! {

/// What a board reports about itself, or about a move that was just tried.
///
/// `Invalid` only ever comes back from an attempted move; a board at rest is
/// `Running`, `Tie` or `Win`.
#[derive(Clone, Copy, Debug, PartialEq, Eq, Structural)]
pub enum GameState {
    Running,
    Tie,
    Invalid,
    Win(usize),
}

impl GameState {
    /// A state is terminal exactly when the game is tied or won.
    pub open spec fn finished(self) -> bool {
        self is Tie || self is Win
    }

    /// The winning player of a won game.
    pub open spec fn winner_of(self) -> Option<usize> {
        match self {
            GameState::Win(p) => Some(p),
            _ => None,
        }
    }

    /// Tells whether the game is over.
    pub fn is_finished(&self) -> (done: bool)
        ensures
            done == self.finished(),
    {
        match self {
            GameState::Tie => true,
            GameState::Win(_) => true,
            _ => false,
        }
    }
}

} // verus!
