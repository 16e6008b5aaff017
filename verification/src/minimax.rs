//! Exhaustive, depth-bounded search with a static evaluator for the leaves.
//!
//! Scores are fixed-point numbers: `ONE` stands for a certain win of the
//! player to move, 0 for a certain loss and `HALF` for a draw.

use vstd::prelude::*;
use crate::game::{opponent, preview, AiPlayer, PvpGame};
use crate::state::GameState;

verus! {

/// The score of a certain win.
pub const ONE: i64 = 1_000_000;

/// The score of a draw, and of the board on which nothing was played yet.
pub const HALF: i64 = 500_000;

/// The evaluator that a search consults.
pub trait MinimaxAi<G: PvpGame<usize>> {
    /// The static rating of a board for a player.
    spec fn rating(&self, board: &G, player: usize) -> i64;

    /// The depth to which the evaluator wants boards searched.
    spec fn depth_of(&self) -> usize;

    /// The move with which the evaluator opens on the initial board.
    spec fn opening(&self) -> usize;

    /// Rates a board for a player: between 0 and `ONE` where the evaluator
    /// judges the board, and 0 where it does not.
    fn rate(&self, board: &G, player: usize) -> (score: i64)
        requires
            player < 2,
        ensures
            score == self.rating(board, player),
            0 <= score,
    ;

    fn depth(&self) -> (depth: usize)
        ensures
            depth == self.depth_of(),
    ;

    fn default_move(&self) -> (action: usize)
        ensures
            action == self.opening(),
    ;
}

/// What a move is worth to `player`: what is left of `ONE` after the
/// opponent's score on the board that the move leads to.
pub open spec fn move_value<G: PvpGame<usize>, M: MinimaxAi<G>>(
    mm: &M,
    board: &G,
    player: usize,
    depth: nat,
    action: usize,
) -> int
    recommends
        depth > 0,
    decreases depth, 0nat, 1nat,
{
    if depth == 0 {
        0
    } else {
        ONE - search(mm, &board.after(action, player), opponent(player), (depth - 1) as nat).0
    }
}

/// The best value and move among the first `count` listed moves: the first
/// listed move with its value to begin with, and a later move in its place
/// only where it is worth strictly more. Where no move is listed, the value
/// is 0 with move 0.
pub open spec fn best_of<G: PvpGame<usize>, M: MinimaxAi<G>>(
    mm: &M,
    board: &G,
    player: usize,
    depth: nat,
    count: nat,
) -> (int, usize)
    decreases depth, count, 2nat,
{
    if count == 0 || depth == 0 {
        (0, 0)
    } else {
        let action = board.moves_of(player)[count - 1];
        let value = move_value(mm, board, player, depth, action);
        if count == 1 {
            (value, action)
        } else {
            let before = best_of(mm, board, player, depth, (count - 1) as nat);
            if value > before.0 {
                (value, action)
            } else {
                before
            }
        }
    }
}

/// The score of a board for the player to move, and the move to make.
///
/// The initial board is worth `HALF` with the evaluator's opening move; a won
/// board `ONE` or 0; a tied board `HALF`; at depth 0 the evaluator rates the
/// board. Otherwise the listed moves are tried in order.
pub open spec fn search<G: PvpGame<usize>, M: MinimaxAi<G>>(
    mm: &M,
    board: &G,
    player: usize,
    depth: nat,
) -> (int, usize)
    decreases depth, board.moves_of(player).len(), 3nat,
{
    if board.is_fresh() {
        (HALF as int, mm.opening())
    } else if board.status_of() is Win {
        if board.status_of()->Win_0 == player {
            (ONE as int, 0)
        } else {
            (0, 0)
        }
    } else if board.status_of() is Tie {
        (HALF as int, 0)
    } else if depth == 0 {
        (mm.rating(board, player) as int, 0)
    } else {
        best_of(mm, board, player, depth, board.moves_of(player).len())
    }
}

/// The best value is the greatest value of the moves that were tried, and
/// the best move is the first listed move that is worth it.
pub proof fn best_of_is_best<G: PvpGame<usize>, M: MinimaxAi<G>>(
    mm: &M,
    board: &G,
    player: usize,
    depth: nat,
    count: nat,
)
    requires
        depth > 0,
        0 < count <= board.moves_of(player).len(),
    ensures
        forall|i: int|
            0 <= i < count ==> best_of(mm, board, player, depth, count).0 >= #[trigger] move_value(
                mm,
                board,
                player,
                depth,
                board.moves_of(player)[i],
            ),
        exists|i: int|
            {
                &&& 0 <= i < count
                &&& board.moves_of(player)[i] == best_of(mm, board, player, depth, count).1
                &&& #[trigger] move_value(mm, board, player, depth, board.moves_of(player)[i])
                    == best_of(mm, board, player, depth, count).0
                &&& forall|j: int|
                    0 <= j < i ==> #[trigger] move_value(
                        mm,
                        board,
                        player,
                        depth,
                        board.moves_of(player)[j],
                    ) < best_of(mm, board, player, depth, count).0
            },
    decreases count,
{
    let action = board.moves_of(player)[count - 1];
    let value = move_value(mm, board, player, depth, action);
    let now = best_of(mm, board, player, depth, count);
    if count == 1 {
        assert(now == (value, action));
        assert(move_value(mm, board, player, depth, board.moves_of(player)[0]) == now.0);
    } else {
        best_of_is_best(mm, board, player, depth, (count - 1) as nat);
        let before = best_of(mm, board, player, depth, (count - 1) as nat);
        if value > before.0 {
            assert(now == (value, action));
            assert(move_value(mm, board, player, depth, board.moves_of(player)[count - 1])
                == now.0);
        } else {
            assert(now == before);
            let i = choose|i: int|
                {
                    &&& 0 <= i < count - 1
                    &&& board.moves_of(player)[i] == before.1
                    &&& #[trigger] move_value(mm, board, player, depth, board.moves_of(player)[i])
                        == before.0
                    &&& forall|j: int|
                        0 <= j < i ==> #[trigger] move_value(
                            mm,
                            board,
                            player,
                            depth,
                            board.moves_of(player)[j],
                        ) < before.0
                };
            assert(0 <= i < count);
        }
    }
}

/// Where the evaluator rates every board between 0 and `ONE`, every score
/// lies between 0 and `ONE`.
pub proof fn search_is_bounded<G: PvpGame<usize>, M: MinimaxAi<G>>(
    mm: &M,
    board: &G,
    player: usize,
    depth: nat,
)
    requires
        forall|b: G, p: usize| 0 <= #[trigger] mm.rating(&b, p) <= ONE,
    ensures
        0 <= search(mm, board, player, depth).0 <= ONE,
    decreases depth, board.moves_of(player).len(), 1nat,
{
    if !board.is_fresh() && !(board.status_of() is Win) && !(board.status_of() is Tie) {
        if depth == 0 {
            assert(0 <= mm.rating(board, player) <= ONE);
        } else {
            best_of_is_bounded(mm, board, player, depth, board.moves_of(player).len());
        }
    }
}

/// The bound on scores holds of the best among the first `count` moves.
pub proof fn best_of_is_bounded<G: PvpGame<usize>, M: MinimaxAi<G>>(
    mm: &M,
    board: &G,
    player: usize,
    depth: nat,
    count: nat,
)
    requires
        depth > 0,
        forall|b: G, p: usize| 0 <= #[trigger] mm.rating(&b, p) <= ONE,
    ensures
        0 <= best_of(mm, board, player, depth, count).0 <= ONE,
    decreases depth, count, 0nat,
{
    if count > 0 {
        if count > 1 {
            best_of_is_bounded(mm, board, player, depth, (count - 1) as nat);
        }
        let action = board.moves_of(player)[count - 1];
        search_is_bounded(mm, &board.after(action, player), opponent(player), (depth - 1) as nat);
        assert(move_value(mm, board, player, depth, action) == ONE - search(
            mm,
            &board.after(action, player),
            opponent(player),
            (depth - 1) as nat,
        ).0);
    }
}

/// While a game is running, a place is free.
pub proof fn running_has_vacancy<G: PvpGame<usize>>(board: &G, player: usize)
    requires
        board.wf(),
        player < 2,
        board.status_of() is Running,
    ensures
        board.vacancies() > 0,
        board.moves_of(player).len() > 0,
{
    board.running_has_moves(player);
    board.moves_are_the_accepted(player);
    let action = board.moves_of(player)[0];
    assert(board.moves_of(player).contains(action));
    board.accepted_move_fills(action, player);
}

/// A search that is deep enough to reach the end of every game finds the
/// same whatever depth it has to spare.
pub proof fn search_ignores_spare_depth<G: PvpGame<usize>, M: MinimaxAi<G>>(
    mm: &M,
    board: &G,
    player: usize,
    depth: nat,
    deeper: nat,
)
    requires
        board.wf(),
        player < 2,
        depth > board.vacancies(),
        deeper > board.vacancies(),
    ensures
        search(mm, board, player, depth) == search(mm, board, player, deeper),
    decreases board.vacancies(), board.moves_of(player).len() + 1,
{
    if !board.is_fresh() && !(board.status_of() is Win) && !(board.status_of() is Tie) {
        board.status_is_settled();
        running_has_vacancy(board, player);
        best_of_ignores_spare_depth(
            mm,
            board,
            player,
            depth,
            deeper,
            board.moves_of(player).len(),
        );
    }
}

/// The best among the first `count` moves does not depend on spare depth.
pub proof fn best_of_ignores_spare_depth<G: PvpGame<usize>, M: MinimaxAi<G>>(
    mm: &M,
    board: &G,
    player: usize,
    depth: nat,
    deeper: nat,
    count: nat,
)
    requires
        board.wf(),
        player < 2,
        depth > board.vacancies(),
        deeper > board.vacancies(),
        depth > 0,
        deeper > 0,
        count <= board.moves_of(player).len(),
    ensures
        best_of(mm, board, player, depth, count) == best_of(mm, board, player, deeper, count),
    decreases board.vacancies(), count,
{
    if count > 0 {
        if count > 1 {
            best_of_ignores_spare_depth(mm, board, player, depth, deeper, (count - 1) as nat);
        }
        let action = board.moves_of(player)[count - 1];
        board.moves_are_the_accepted(player);
        assert(board.moves_of(player).contains(action));
        board.accepted_move_fills(action, player);
        search_ignores_spare_depth(
            mm,
            &board.after(action, player),
            opponent(player),
            (depth - 1) as nat,
            (deeper - 1) as nat,
        );
        assert(move_value(mm, board, player, depth, action) == move_value(
            mm,
            board,
            player,
            deeper,
            action,
        ));
    }
}

/// The move that a search finds on a running board with a move to make is a
/// move that the board accepts, and it leaves the opponent with what is left
/// of `ONE`.
pub proof fn found_move_is_worth_its_value<G: PvpGame<usize>, M: MinimaxAi<G>>(
    mm: &M,
    board: &G,
    player: usize,
    depth: nat,
)
    requires
        player < 2,
        depth > 0,
        board.status_of() is Running,
        !board.is_fresh(),
        board.moves_of(player).len() > 0,
    ensures
        board.moves_of(player).contains(search(mm, board, player, depth).1),
        board.accepts(search(mm, board, player, depth).1, player),
        search(
            mm,
            &board.after(search(mm, board, player, depth).1, player),
            opponent(player),
            (depth - 1) as nat,
        ).0 == ONE - search(mm, board, player, depth).0,
{
    let count = board.moves_of(player).len();
    best_of_is_best(mm, board, player, depth, count);
    let found = best_of(mm, board, player, depth, count);
    let i = choose|i: int|
        {
            &&& 0 <= i < count
            &&& board.moves_of(player)[i] == found.1
            &&& #[trigger] move_value(mm, board, player, depth, board.moves_of(player)[i])
                == found.0
        };
    board.moves_are_the_accepted(player);
    assert(board.moves_of(player).contains(found.1));
}

/// No move of the player to move is worth more than the board: whatever the
/// player does, the opponent is left with at least what is left of `ONE`
/// after the value of the board.
pub proof fn no_move_beats_the_value<G: PvpGame<usize>, M: MinimaxAi<G>>(
    mm: &M,
    board: &G,
    player: usize,
    depth: nat,
    action: usize,
)
    requires
        player < 2,
        depth > 0,
        board.status_of() is Running,
        !board.is_fresh(),
        board.accepts(action, player),
    ensures
        search(mm, &board.after(action, player), opponent(player), (depth - 1) as nat).0 >= ONE
            - search(mm, board, player, depth).0,
{
    let count = board.moves_of(player).len();
    board.moves_are_the_accepted(player);
    assert(board.moves_of(player).contains(action));
    let i = choose|i: int| 0 <= i < count && board.moves_of(player)[i] == action;
    best_of_is_best(mm, board, player, depth, count);
    assert(best_of(mm, board, player, depth, count).0 >= move_value(
        mm,
        board,
        player,
        depth,
        board.moves_of(player)[i],
    ));
}

/// A search that is deep enough to reach the end of every game never asks
/// the evaluator: it values a board at 0, `HALF` or `ONE`.
pub proof fn full_search_decides<G: PvpGame<usize>, M: MinimaxAi<G>>(
    mm: &M,
    board: &G,
    player: usize,
    depth: nat,
)
    requires
        board.wf(),
        player < 2,
        depth > board.vacancies(),
    ensures
        search(mm, board, player, depth).0 == 0 || search(mm, board, player, depth).0 == HALF
            || search(mm, board, player, depth).0 == ONE,
    decreases board.vacancies(), board.moves_of(player).len() + 1,
{
    if !board.is_fresh() && !(board.status_of() is Win) && !(board.status_of() is Tie) {
        board.status_is_settled();
        running_has_vacancy(board, player);
        best_of_decides(mm, board, player, depth, board.moves_of(player).len());
    }
}

/// The best among the first `count` moves of a full search is 0, `HALF` or
/// `ONE`.
pub proof fn best_of_decides<G: PvpGame<usize>, M: MinimaxAi<G>>(
    mm: &M,
    board: &G,
    player: usize,
    depth: nat,
    count: nat,
)
    requires
        board.wf(),
        player < 2,
        depth > board.vacancies(),
        depth > 0,
        count <= board.moves_of(player).len(),
    ensures
        best_of(mm, board, player, depth, count).0 == 0 || best_of(
            mm,
            board,
            player,
            depth,
            count,
        ).0 == HALF || best_of(mm, board, player, depth, count).0 == ONE,
    decreases board.vacancies(), count,
{
    if count > 0 {
        if count > 1 {
            best_of_decides(mm, board, player, depth, (count - 1) as nat);
        }
        let action = board.moves_of(player)[count - 1];
        board.moves_are_the_accepted(player);
        assert(board.moves_of(player).contains(action));
        board.accepted_move_fills(action, player);
        full_search_decides(mm, &board.after(action, player), opponent(player), (depth - 1) as nat);
        assert(move_value(mm, board, player, depth, action) == ONE - search(
            mm,
            &board.after(action, player),
            opponent(player),
            (depth - 1) as nat,
        ).0);
    }
}

/// A full search finds the value of the game. On a running board, searched
/// deep enough to reach the end of every game, the score is 0, `HALF` or
/// `ONE`; no move of the player to move leaves the opponent with less than
/// what is left of `ONE`; and the move that the search finds leaves the
/// opponent with exactly that. So the score is `ONE` where the player can
/// force a win, 0 where the opponent can, and `HALF` where neither can.
pub proof fn full_search_is_the_value_of_the_game<G: PvpGame<usize>, M: MinimaxAi<G>>(
    mm: &M,
    board: &G,
    player: usize,
    depth: nat,
)
    requires
        board.wf(),
        player < 2,
        board.status_of() is Running,
        !board.is_fresh(),
        depth > board.vacancies(),
    ensures
        search(mm, board, player, depth).0 == 0 || search(mm, board, player, depth).0 == HALF
            || search(mm, board, player, depth).0 == ONE,
        forall|action: usize| #[trigger]
            board.accepts(action, player) ==> search(
                mm,
                &board.after(action, player),
                opponent(player),
                depth,
            ).0 >= ONE - search(mm, board, player, depth).0,
        board.accepts(search(mm, board, player, depth).1, player),
        search(
            mm,
            &board.after(search(mm, board, player, depth).1, player),
            opponent(player),
            depth,
        ).0 == ONE - search(mm, board, player, depth).0,
{
    full_search_decides(mm, board, player, depth);
    running_has_vacancy(board, player);
    found_move_is_worth_its_value(mm, board, player, depth);
    let found = search(mm, board, player, depth);
    board.accepted_move_fills(found.1, player);
    search_ignores_spare_depth(
        mm,
        &board.after(found.1, player),
        opponent(player),
        (depth - 1) as nat,
        depth,
    );
    assert forall|action: usize| #[trigger] board.accepts(action, player) implies search(
        mm,
        &board.after(action, player),
        opponent(player),
        depth,
    ).0 >= ONE - search(mm, board, player, depth).0 by {
        no_move_beats_the_value(mm, board, player, depth, action);
        board.accepted_move_fills(action, player);
        search_ignores_spare_depth(
            mm,
            &board.after(action, player),
            opponent(player),
            (depth - 1) as nat,
            depth,
        );
    }
}

/// A full search never gives ground. Where the search, deep enough to reach
/// the end of every game, values a running board at `HALF` or more, its move
/// does not hand the game to the opponent; and whatever the opponent replies,
/// the opponent has not won and the search values the board after the reply
/// at least as high as before.
pub proof fn full_search_never_loses<G: PvpGame<usize>, M: MinimaxAi<G>>(
    mm: &M,
    board: &G,
    player: usize,
    depth: nat,
    reply: usize,
)
    requires
        board.wf(),
        player < 2,
        board.status_of() is Running,
        !board.is_fresh(),
        depth > board.vacancies(),
        search(mm, board, player, depth).0 >= HALF,
    ensures
        ({
            let found = search(mm, board, player, depth);
            let next = board.after(found.1, player);
            let then = next.after(reply, opponent(player));
            &&& board.accepts(found.1, player)
            &&& next.status_of() != GameState::Win(opponent(player))
            &&& next.status_of() is Running && next.accepts(reply, opponent(player)) ==> {
                &&& then.status_of() != GameState::Win(opponent(player))
                &&& search(mm, &then, player, depth).0 >= found.0
            }
        }),
{
    let found = search(mm, board, player, depth);
    let other = opponent(player);
    running_has_vacancy(board, player);
    found_move_is_worth_its_value(mm, board, player, depth);
    let next = board.after(found.1, player);
    board.accepted_move_fills(found.1, player);
    assert(search(mm, &next, other, (depth - 1) as nat).0 == ONE - found.0);
    if next.status_of() is Running && next.accepts(reply, other) {
        running_has_vacancy(&next, other);
        let then = next.after(reply, other);
        next.accepted_move_fills(reply, other);
        no_move_beats_the_value(mm, &next, other, (depth - 1) as nat, reply);
        assert(opponent(other) == player);
        search_ignores_spare_depth(mm, &then, player, (depth - 2) as nat, depth);
        assert(search(mm, &then, player, depth).0 >= found.0);
    }
}

/// Play in which `seat` makes the move that the search finds whenever it is
/// to move, and the opponent answers with any move that the board accepts:
/// `now` is the board after `rounds` such pairs of moves from `start`.
pub open spec fn guided<G: PvpGame<usize>, M: MinimaxAi<G>>(
    mm: &M,
    seat: usize,
    depth: nat,
    start: G,
    now: G,
    rounds: nat,
) -> bool
    decreases rounds,
{
    if rounds == 0 {
        now == start
    } else {
        exists|before: G, reply: usize|
            {
                &&& guided(mm, seat, depth, start, before, (rounds - 1) as nat)
                &&& before.status_of() is Running
                &&& answered(mm, seat, depth, before, reply)
                &&& now == #[trigger] after_round(mm, seat, depth, before, reply)
            }
    }
}

/// The board after the move that the search finds for `seat` and the answer
/// `reply` of the opponent.
pub open spec fn after_round<G: PvpGame<usize>, M: MinimaxAi<G>>(
    mm: &M,
    seat: usize,
    depth: nat,
    before: G,
    reply: usize,
) -> G {
    before.after(search(mm, &before, seat, depth).1, seat).after(reply, opponent(seat))
}

/// The move that the search finds for `seat` leaves the game running, and
/// the board after it accepts the answer `reply` of the opponent.
pub open spec fn answered<G: PvpGame<usize>, M: MinimaxAi<G>>(
    mm: &M,
    seat: usize,
    depth: nat,
    before: G,
    reply: usize,
) -> bool {
    &&& before.after(search(mm, &before, seat, depth).1, seat).status_of() is Running
    &&& before.after(search(mm, &before, seat, depth).1, seat).accepts(reply, opponent(seat))
}

/// A full search does not lose a game that it need not lose. Where the
/// search, deep enough to reach the end of every game, values a running board
/// at `HALF` or more, then however the opponent answers and however long the
/// game goes on, the opponent never wins, the search never values a later
/// board less, and its move is always one that the board accepts.
pub proof fn full_search_holds_its_ground<G: PvpGame<usize>, M: MinimaxAi<G>>(
    mm: &M,
    seat: usize,
    depth: nat,
    start: G,
    now: G,
    rounds: nat,
)
    requires
        start.wf(),
        seat < 2,
        start.status_of() is Running,
        !start.is_fresh(),
        depth > start.vacancies(),
        search(mm, &start, seat, depth).0 >= HALF,
        guided(mm, seat, depth, start, now, rounds),
    ensures
        now.wf(),
        !now.is_fresh(),
        depth > now.vacancies(),
        now.status_of() != GameState::Win(opponent(seat)),
        now.status_of() is Running ==> {
            &&& search(mm, &now, seat, depth).0 >= search(mm, &start, seat, depth).0
            &&& now.accepts(search(mm, &now, seat, depth).1, seat)
            &&& now.after(search(mm, &now, seat, depth).1, seat).status_of() != GameState::Win(
                opponent(seat),
            )
        },
    decreases rounds,
{
    if rounds == 0 {
        full_search_never_loses(mm, &start, seat, depth, 0);
    } else {
        let (before, reply) = choose|before: G, reply: usize|
            {
                &&& guided(mm, seat, depth, start, before, (rounds - 1) as nat)
                &&& before.status_of() is Running
                &&& answered(mm, seat, depth, before, reply)
                &&& now == #[trigger] after_round(mm, seat, depth, before, reply)
            };
        full_search_holds_its_ground(mm, seat, depth, start, before, (rounds - 1) as nat);
        full_search_never_loses(mm, &before, seat, depth, reply);
        let found = search(mm, &before, seat, depth).1;
        let next = before.after(found, seat);
        before.accepted_move_fills(found, seat);
        next.accepted_move_fills(reply, opponent(seat));
        if now.status_of() is Running {
            full_search_never_loses(mm, &now, seat, depth, 0);
        }
    }
}

/// Searches the board for `player` to the given depth, trying every listed
/// move on a copy of the board.
pub fn minimax<G: PvpGame<usize>, M: MinimaxAi<G>>(
    mm: &M,
    board: &G,
    player: usize,
    depth: usize,
) -> (found: (i64, usize))
    requires
        player < 2,
    ensures
        found.0 == search(mm, board, player, depth as nat).0,
        found.1 == search(mm, board, player, depth as nat).1,
        ONE - i64::MAX <= found.0,
    decreases depth,
{
    if board.is_empty() {
        return (HALF, mm.default_move());
    }
    let status: GameState = board.status();
    match status {
        GameState::Win(winner) => {
            if winner == player {
                (ONE, 0)
            } else {
                (0, 0)
            }
        },
        GameState::Tie => (HALF, 0),
        _ => {
            if depth == 0 {
                (mm.rate(board, player), 0)
            } else {
                let moves: Vec<usize> = board.possible_moves(player);
                let mut max: i64 = 0;
                let mut best_move: usize = 0;
                let mut i: usize = 0;
                while i < moves.len()
                    invariant
                        player < 2,
                        depth > 0,
                        i <= moves.len(),
                        moves@ == board.moves_of(player),
                        ONE - i64::MAX <= max,
                        max == best_of(mm, board, player, depth as nat, i as nat).0,
                        best_move == best_of(mm, board, player, depth as nat, i as nat).1,
                    decreases moves.len() - i,
                {
                    let mov: usize = moves[i];
                    proof {
                        board.moves_are_the_accepted(player);
                        assert(board.moves_of(player).contains(mov));
                    }
                    let (eboard, state) = preview(board, mov, player);
                    proof {
                        assert(board.accepts(mov, player));
                        assert(eboard == board.after(mov, player));
                        assert(move_value(mm, board, player, depth as nat, mov) == ONE - search(
                            mm,
                            &board.after(mov, player),
                            opponent(player),
                            (depth - 1) as nat,
                        ).0);
                        assert(board.moves_of(player)[i as int] == mov);
                    }
                    if state != GameState::Invalid {
                        let reply: (i64, usize) = minimax(mm, &eboard, 1 - player, depth - 1);
                        let score: i64 = ONE - reply.0;
                        if i == 0 || score > max {
                            max = score;
                            best_move = mov;
                        }
                    } else {
                        proof {
                            eboard.status_is_settled();
                        }
                    }
                    i = i + 1;
                }
                (max, best_move)
            }
        },
    }
}

/// The opponent that searches with the evaluator `M`.
pub struct Minimax<M>(pub M);

/// The depth to which `Minimax` searches: one more than the evaluator's.
pub open spec fn search_depth(depth: usize) -> nat {
    if depth < usize::MAX {
        (depth + 1) as nat
    } else {
        depth as nat
    }
}

impl<G: PvpGame<usize>, M: MinimaxAi<G> + Send + Sync> AiPlayer<usize, G> for Minimax<M> {
    /// The search leaves no choice: it plays the move that it finds, one ply
    /// deeper than the evaluator asks for.
    open spec fn may_play(&self, game: &G, player: usize, action: usize) -> bool {
        action == search(&self.0, game, player, search_depth(self.0.depth_of())).1
    }

    /// Plays the move that the search finds.
    fn make_move(&mut self, board: &G, id: usize) -> (action: usize)
        ensures
            action == search(&old(self).0, board, id, search_depth(old(self).0.depth_of())).1,
            *final(self) == *old(self),
    {
        let depth: usize = self.0.depth();
        let deeper: usize = if depth < usize::MAX {
            depth + 1
        } else {
            depth
        };
        minimax(&self.0, board, id, deeper).1
    }
}

} // verus!
