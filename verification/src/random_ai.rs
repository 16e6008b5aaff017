//! The opponent that plays any accepted move.

use vstd::prelude::*;
use rand::rngs::StdRng;
use std::marker::PhantomData;
use crate::game::{AiPlayer, PvpGame};
use crate::rng::{seeded_rng, shuffle, try_fresh_rng};

verus! {

/// The seed of a generator for which the operating system gave no entropy.
pub const FALLBACK_SEED: u64 = 0x5eed_0000_0000_0001;

/// Plays a move drawn from the listed moves of the board.
pub struct RandomPlayer<G> {
    rng: StdRng,
    _phantom: PhantomData<G>,
}

impl<G> RandomPlayer<G> {
    /// The generator from which the opponent draws.
    pub closed spec fn generator(&self) -> StdRng {
        self.rng
    }

    /// An opponent that draws from the given generator.
    pub fn new(rng: StdRng) -> (player: Self)
        ensures
            player.generator() == rng,
    {
        RandomPlayer { rng, _phantom: PhantomData }
    }

    /// An opponent with a generator seeded by the operating system. Where the
    /// operating system has no entropy to give, the generator is seeded with
    /// `FALLBACK_SEED`.
    pub fn from_entropy() -> (player: Self) {
        let rng: StdRng = match try_fresh_rng() {
            Some(rng) => rng,
            None => seeded_rng(FALLBACK_SEED),
        };
        RandomPlayer { rng, _phantom: PhantomData }
    }
}

impl<G: PvpGame<usize> + Send + Sync> AiPlayer<usize, G> for RandomPlayer<G> {
    /// Any listed move may be played.
    open spec fn may_play(&self, game: &G, player: usize, action: usize) -> bool {
        game.moves_of(player).contains(action)
    }

    /// Shuffles the listed moves and plays the one that comes first.
    fn make_move(&mut self, game: &G, player_id: usize) -> (action: usize)
        ensures
            game.moves_of(player_id).contains(action),
            game.accepts(action, player_id),
    {
        let mut valid_moves: Vec<usize> = game.possible_moves(player_id);
        let ghost listed = valid_moves@;
        proof {
            game.running_has_moves(player_id);
            game.moves_are_the_accepted(player_id);
        }
        shuffle(&mut valid_moves, &mut self.rng);
        proof {
            listed.to_multiset_ensures();
            valid_moves@.to_multiset_ensures();
            assert(valid_moves@.len() == listed.len());
            let first = valid_moves@[0];
            assert(valid_moves@.contains(first));
            assert(valid_moves@.to_multiset().count(first) > 0);
            assert(listed.to_multiset().count(first) > 0);
            assert(listed.contains(first));
        }
        valid_moves[0]
    }
}

} // verus!
