//! The rating rule that is applied after a competitive match.
//!
//! Ratings and scores are fixed-point numbers with six decimal places: the
//! rating 1200 is `1200 * POINT`, and a certain win is the score `POINT`.

use vstd::prelude::*;

verus! {

/// A rating, in millionths of a point.
pub type Elo = i64;

/// One point, and the score of a win.
pub const POINT: i64 = 1_000_000;

/// The rating of a player who has none yet.
pub const DEFAULT_ELO: Elo = 1_200_000_000;

/// The weight of one match.
pub const K: i64 = 40;

/// The score of the first player: a win of seat 0 is worth a point, a win of
/// seat 1 nothing and a tie half a point. No other seat can win.
pub open spec fn score_of(winner: Option<usize>) -> Option<int> {
    match winner {
        None => Some(POINT / 2),
        Some(p) => if p == 0 {
            Some(POINT as int)
        } else if p == 1 {
            Some(0int)
        } else {
            None
        },
    }
}

/// By how much the rating of the first player rises: `K` times what the
/// player scored above what was expected.
pub open spec fn gain(expected0: int, score0: int) -> int {
    K * (score0 - expected0)
}

/// The ratings after a match: the first player gains what the second loses.
/// There are none where the winner is no seat or the expected score is no
/// score.
pub open spec fn rated(elo: (Elo, Elo), expected0: int, winner: Option<usize>) -> Option<
    (int, int),
> {
    match score_of(winner) {
        Some(score0) => if 0 <= expected0 <= POINT {
            Some((elo.0 + gain(expected0, score0), elo.1 - gain(expected0, score0)))
        } else {
            None
        },
        None => None,
    }
}

pub open spec fn fits(rating: int) -> bool {
    i64::MIN <= rating <= i64::MAX
}

/// The result code under which a match is recorded: 0 without a winner, 1
/// where the first player won and 2 where the second did.
pub open spec fn code_of(winner: Option<usize>) -> u8 {
    match winner {
        None => 0,
        Some(p) => if p == 0 {
            1
        } else {
            2
        },
    }
}

/// Rating points are conserved: what one player gains, the other loses.
pub proof fn rating_is_conserved(elo: (Elo, Elo), expected0: int, winner: Option<usize>)
    ensures
        rated(elo, expected0, winner) matches Some((r0, r1)) ==> r0 - elo.0 == -(r1 - elo.1),
{
}

/// Updates the ratings of the two players of a match. `expected0` is the
/// score that was expected of the first player, between 0 and `POINT`.
///
/// The result is `None` where `winner` names no seat, `expected0` is out of
/// range or a new rating does not fit.
pub fn process_game(elo: (Elo, Elo), expected0: i64, winner: Option<usize>) -> (updated: Option<
    (Elo, Elo),
>)
    ensures
        match rated(elo, expected0 as int, winner) {
            Some((r0, r1)) => if fits(r0) && fits(r1) {
                updated == Some((r0 as i64, r1 as i64))
            } else {
                updated is None
            },
            None => updated is None,
        },
{
    // actual score for player 0
    let score0: i64 = match winner {
        None => POINT / 2,
        Some(p) => if p == 0 {
            POINT
        } else if p == 1 {
            0
        } else {
            return None;
        },
    };
    if expected0 < 0 || expected0 > POINT {
        return None;
    }
    // calculate elo addition/subtraction

    let d_elo: i64 = K * (score0 - expected0);

    // update elo
    match (elo.0.checked_add(d_elo), elo.1.checked_sub(d_elo)) {
        (Some(r0), Some(r1)) => Some((r0, r1)),
        _ => None,
    }
}

/// The result code under which a match is recorded.
pub fn result_code(winner: Option<usize>) -> (code: u8)
    ensures
        code == code_of(winner),
{
    match winner {
        None => 0,
        Some(p) => if p == 0 {
            1
        } else {
            2
        },
    }
}

} // verus!
