//! What every board game offers, and what an artificial opponent offers.

use vstd::prelude::*;
use crate::state::GameState;

verus! {

/// A two-player board game whose moves have type `T`.
///
/// The spec functions are the mathematical model of a board; the executable
/// methods are stated against them. Players are numbered 0 and 1.
pub trait PvpGame<T>: Sized + Clone {
    /// The board holds only marks of the two players, and what it keeps
    /// beside its places agrees with them.
    spec fn wf(&self) -> bool;

    /// The state of the board at rest: never `Invalid`.
    spec fn status_of(&self) -> GameState;

    /// The move is within bounds and targets a free place.
    spec fn accepts(&self, action: T, person: usize) -> bool;

    /// The board after an accepted move.
    spec fn after(&self, action: T, person: usize) -> Self;

    /// The accepted moves, in the order in which they are listed.
    spec fn moves_of(&self, player: usize) -> Seq<T>;

    /// The board is the initial board.
    spec fn is_fresh(&self) -> bool;

    /// The number of places that are still free.
    spec fn vacancies(&self) -> nat;

    /// Display name of the game.
    spec fn title_of() -> Seq<char>;

    /// The symbol of a player.
    spec fn figure_of(player: int) -> Seq<char>;

    /// The rendering of the board.
    spec fn drawing(&self) -> Seq<char>;

    /// Title of the game.
    fn title() -> (name: &'static str)
        ensures
            name@ == Self::title_of(),
    ;

    /// Renders the board as text.
    fn draw(&self) -> (out: String)
        requires
            self.wf(),
        ensures
            out@ == self.drawing(),
    ;

    /// Applies a move for `person`. A move that is not accepted leaves the
    /// board as it was and yields `Invalid`; an accepted one yields the state
    /// of the new board.
    fn make_move(&mut self, action: T, person: usize) -> (state: GameState)
        ensures
            old(self).accepts(action, person) ==> *final(self) == old(self).after(action, person)
                && state == final(self).status_of(),
            !old(self).accepts(action, person) ==> *final(self) == *old(self) && state
                == GameState::Invalid,
    ;

    /// The state of the board.
    fn status(&self) -> (state: GameState)
        ensures
            state == self.status_of(),
    ;

    /// The winner, if the game is won.
    fn winner(&self) -> (who: Option<usize>)
        ensures
            who == self.status_of().winner_of(),
    {
        match self.status() {
            GameState::Win(winner) => Some(winner),
            _ => None,
        }
    }

    /// All moves that `make_move` would accept.
    fn possible_moves(&self, player: usize) -> (moves: Vec<T>)
        ensures
            moves@ == self.moves_of(player),
    ;

    /// The symbols of player 0 and player 1.
    fn figures() -> (symbols: Vec<String>)
        ensures
            symbols@.len() == 2,
            forall|p: int| 0 <= p < 2 ==> (#[trigger] symbols@[p])@ == Self::figure_of(p),
    ;

    /// Tells whether no move has been made yet.
    fn is_empty(&self) -> (fresh: bool)
        ensures
            fresh == self.is_fresh(),
    ;

    /// A copy made by `clone` is the same board.
    proof fn clone_is_exact(&self, copy: &Self)
        requires
            cloned(*self, *copy),
        ensures
            *copy == *self,
    ;

    /// A board at rest is never `Invalid`.
    proof fn status_is_settled(&self)
        ensures
            !(self.status_of() is Invalid),
    ;

    /// The listed moves are exactly the accepted ones, each listed once.
    proof fn moves_are_the_accepted(&self, player: usize)
        ensures
            forall|action: T|
                self.moves_of(player).contains(action) <==> self.accepts(action, player),
            self.moves_of(player).no_duplicates(),
    ;

    /// An accepted move of a player keeps the board well formed and takes up
    /// a free place; the board after it is no longer the initial board.
    proof fn accepted_move_fills(&self, action: T, person: usize)
        requires
            self.wf(),
            person < 2,
            self.accepts(action, person),
        ensures
            self.after(action, person).wf(),
            self.after(action, person).vacancies() < self.vacancies(),
            !self.after(action, person).is_fresh(),
    ;

    /// While the game is running, there is a move to make.
    proof fn running_has_moves(&self, player: usize)
        requires
            self.wf(),
            self.status_of() is Running,
        ensures
            self.moves_of(player).len() > 0,
    ;

    /// On a well-formed board only a player wins.
    proof fn winner_is_a_player(&self)
        requires
            self.wf(),
        ensures
            self.status_of() matches GameState::Win(p) ==> p < 2,
    ;
}

/// An artificial opponent for the game `G`.
pub trait AiPlayer<T, G: PvpGame<T>>: Send + Sync {
    /// The way the opponent plays: `action` is a move that it may choose for
    /// `player` on the board `game`. An opponent that says nothing of its play
    /// may choose any move.
    open spec fn may_play(&self, game: &G, player: usize, action: T) -> bool {
        true
    }

    /// Chooses a move for `player_id` on a running, well-formed board: one
    /// of the moves that the opponent may choose there. The opponent plays
    /// the same way afterwards.
    fn make_move(&mut self, game: &G, player_id: usize) -> (action: T)
        requires
            player_id < 2,
            game.wf(),
            game.status_of() is Running,
        ensures
            old(self).may_play(game, player_id, action),
            forall|board: G, player: usize, choice: T|
                #[trigger] final(self).may_play(&board, player, choice) == old(self).may_play(
                    &board,
                    player,
                    choice,
                ),
    ;
}

/// Tries a move on a copy of the board: the board itself stays as it is,
/// whatever becomes of the copy. The result is the copy after the move and
/// what the move yielded.
pub fn preview<T, G: PvpGame<T>>(board: &G, action: T, person: usize) -> (outcome: (G, GameState))
    ensures
        outcome.0 == preview_board(*board, action, person),
        outcome.1 == preview_state(*board, action, person),
{
    let mut copy: G = board.clone();
    proof {
        board.clone_is_exact(&copy);
    }
    let state: GameState = copy.make_move(action, person);
    (copy, state)
}

/// The state of a board is a function of the board: however often `status`
/// is asked, it gives the same answer.
pub proof fn status_is_repeatable<T, G: PvpGame<T>>(board: G, first: GameState, second: GameState)
    requires
        call_ensures(<G as PvpGame<T>>::status, (&board,), first),
        call_ensures(<G as PvpGame<T>>::status, (&board,), second),
    ensures
        first == second,
        first == board.status_of(),
{
}

/// A rejected move changes nothing: whatever `make_move` does with a move
/// that the board does not accept, the board afterwards is the board before
/// and the answer is `Invalid`.
pub proof fn rejected_move_changes_nothing<T, G: PvpGame<T>>(
    board: &mut G,
    action: T,
    person: usize,
    state: GameState,
)
    requires
        !old(board).accepts(action, person),
        call_ensures(<G as PvpGame<T>>::make_move, (board, action, person), state),
    ensures
        *final(board) == *old(board),
        state == GameState::Invalid,
{
}

/// The board that a move leaves behind: the board after the move where the
/// move is accepted, and the board itself where it is not.
pub open spec fn preview_board<T, G: PvpGame<T>>(board: G, action: T, person: usize) -> G {
    if board.accepts(action, person) {
        board.after(action, person)
    } else {
        board
    }
}

/// The answer to a move: the state of the new board, or `Invalid`.
pub open spec fn preview_state<T, G: PvpGame<T>>(board: G, action: T, person: usize) -> GameState {
    if board.accepts(action, person) {
        board.after(action, person).status_of()
    } else {
        GameState::Invalid
    }
}

/// A move on a copy of a board does to the copy what it would do to the
/// board. The board is no party to that move: a search may try moves on
/// copies without touching the board of the match.
pub proof fn copy_is_isolated<T, G: PvpGame<T>>(
    board: G,
    copy: &mut G,
    action: T,
    person: usize,
    state: GameState,
)
    requires
        cloned(board, *old(copy)),
        call_ensures(<G as PvpGame<T>>::make_move, (copy, action, person), state),
    ensures
        *old(copy) == board,
        *final(copy) == preview_board(board, action, person),
        state == preview_state(board, action, person),
{
    board.clone_is_exact(&*old(copy));
}

/// The seat opposite to `player`.
pub open spec fn opponent(player: usize) -> usize {
    (1 - player) as usize
}

/// The seat that is to move after `steps` moves of a game that `first`
/// began.
pub open spec fn mover_after(first: usize, steps: nat) -> usize {
    if steps % 2 == 0 {
        first
    } else {
        opponent(first)
    }
}

/// Play leads from `start`, where `first` is to move, to `now` in `steps`
/// moves: each move is accepted by the board before it, which is running,
/// and the players move in turn.
pub open spec fn reached<T, G: PvpGame<T>>(start: G, first: usize, now: G, steps: nat) -> bool
    decreases steps,
{
    if steps == 0 {
        now == start
    } else {
        exists|before: G, action: T|
            {
                &&& reached(start, first, before, (steps - 1) as nat)
                &&& before.status_of() is Running
                &&& before.accepts(action, mover_after(first, (steps - 1) as nat))
                &&& now == #[trigger] before.after(
                    action,
                    mover_after(first, (steps - 1) as nat),
                )
            }
    }
}

/// One more move extends a play.
pub proof fn play_goes_on<T, G: PvpGame<T>>(
    start: G,
    first: usize,
    now: G,
    steps: nat,
    action: T,
)
    requires
        reached(start, first, now, steps),
        now.status_of() is Running,
        now.accepts(action, mover_after(first, steps)),
    ensures
        reached(start, first, now.after(action, mover_after(first, steps)), steps + 1),
{
    let next = now.after(action, mover_after(first, steps));
    assert(reached(start, first, now, ((steps + 1) - 1) as nat));
}

/// A move at the beginning extends a play.
pub proof fn play_begins<T, G: PvpGame<T>>(start: G, first: usize, action: T, end: G, steps: nat)
    requires
        first < 2,
        start.status_of() is Running,
        start.accepts(action, first),
        reached(start.after(action, first), opponent(first), end, steps),
    ensures
        reached(start, first, end, steps + 1),
    decreases steps,
{
    let next = start.after(action, first);
    if steps == 0 {
        assert(reached(start, first, start, 0));
        assert(mover_after(first, 0) == first);
        play_goes_on(start, first, start, 0, action);
    } else {
        let (before, reply) = choose|before: G, reply: T|
            {
                &&& reached(next, opponent(first), before, (steps - 1) as nat)
                &&& before.status_of() is Running
                &&& before.accepts(reply, mover_after(opponent(first), (steps - 1) as nat))
                &&& end == #[trigger] before.after(
                    reply,
                    mover_after(opponent(first), (steps - 1) as nat),
                )
            };
        play_begins(start, first, action, before, (steps - 1) as nat);
        assert(mover_after(first, steps) == mover_after(opponent(first), (steps - 1) as nat));
        play_goes_on(start, first, before, steps, reply);
    }
}

/// Play from well-formed boards leads to well-formed boards.
pub proof fn play_stays_well_formed<T, G: PvpGame<T>>(start: G, first: usize, now: G, steps: nat)
    requires
        start.wf(),
        first < 2,
        reached(start, first, now, steps),
    ensures
        now.wf(),
    decreases steps,
{
    if steps > 0 {
        let (before, action) = choose|before: G, action: T|
            {
                &&& reached(start, first, before, (steps - 1) as nat)
                &&& before.status_of() is Running
                &&& before.accepts(action, mover_after(first, (steps - 1) as nat))
                &&& now == #[trigger] before.after(
                    action,
                    mover_after(first, (steps - 1) as nat),
                )
            };
        play_stays_well_formed(start, first, before, (steps - 1) as nat);
        before.accepted_move_fills(action, mover_after(first, (steps - 1) as nat));
    }
}

/// No play leads away from a board that is not running.
pub proof fn decided_board_stays<T, G: PvpGame<T>>(start: G, first: usize, now: G, steps: nat)
    requires
        !(start.status_of() is Running),
        reached(start, first, now, steps),
    ensures
        now == start,
        steps == 0,
    decreases steps,
{
    if steps > 0 {
        let (before, action) = choose|before: G, action: T|
            {
                &&& reached(start, first, before, (steps - 1) as nat)
                &&& before.status_of() is Running
                &&& before.accepts(action, mover_after(first, (steps - 1) as nat))
                &&& now == #[trigger] before.after(
                    action,
                    mover_after(first, (steps - 1) as nat),
                )
            };
        decided_board_stays(start, first, before, (steps - 1) as nat);
    }
}

/// A game that may bring an opponent of its own.
pub trait BuiltinAi<T>: PvpGame<T> {
    /// The game brings an opponent.
    spec fn has_ai() -> bool;

    /// The way the opponent of the game plays: `action` is a move that it
    /// may choose for `player` on the board `game`.
    spec fn ai_plays(game: &Self, player: usize, action: T) -> bool;

    /// The built-in opponent of the game, which plays as `ai_plays` says;
    /// `None` where the game has none.
    fn ai() -> (player: Option<Box<dyn AiPlayer<T, Self>>>)
        ensures
            player is Some <==> Self::has_ai(),
            player matches Some(opponent) ==> forall|game: Self, seat: usize, action: T|
                #[trigger] opponent.may_play(&game, seat, action) == Self::ai_plays(
                    &game,
                    seat,
                    action,
                ),
    ;
}

/// The ascending indices below `n` that `ok` admits.
pub open spec fn indices_where(n: nat, ok: spec_fn(int) -> bool) -> Seq<usize>
    decreases n,
{
    if n == 0 {
        Seq::empty()
    } else if ok(n - 1) {
        indices_where((n - 1) as nat, ok).push((n - 1) as usize)
    } else {
        indices_where((n - 1) as nat, ok)
    }
}

/// `indices_where` lists exactly the admitted indices, in ascending order.
pub proof fn indices_where_lists(n: nat, ok: spec_fn(int) -> bool)
    requires
        n <= usize::MAX,
    ensures
        forall|i: usize| indices_where(n, ok).contains(i) <==> (i < n && ok(i as int)),
        forall|a: int, b: int|
            0 <= a < b < indices_where(n, ok).len() ==> indices_where(n, ok)[a] < indices_where(
                n,
                ok,
            )[b],
        indices_where(n, ok).no_duplicates(),
        indices_where(n, ok).len() <= n,
    decreases n,
{
    if n > 0 {
        let rest = indices_where((n - 1) as nat, ok);
        indices_where_lists((n - 1) as nat, ok);
        let all = indices_where(n, ok);
        if ok(n - 1) {
            assert(all == rest.push((n - 1) as usize));
            assert forall|i: usize| all.contains(i) <==> (i < n && ok(i as int)) by {
                if all.contains(i) {
                    let k = choose|k: int| 0 <= k < all.len() && all[k] == i;
                    if k < rest.len() {
                        assert(rest[k] == i);
                        assert(rest.contains(i));
                    }
                }
                if i < n && ok(i as int) {
                    if i == n - 1 {
                        assert(all[rest.len() as int] == i);
                    } else {
                        assert(rest.contains(i));
                        let k = choose|k: int| 0 <= k < rest.len() && rest[k] == i;
                        assert(all[k] == i);
                    }
                }
            }
            assert forall|a: int, b: int| 0 <= a < b < all.len() implies all[a] < all[b] by {
                assert(rest.contains(rest[a]));
            }
        } else {
            assert(all == rest);
        }
    } else {
        assert forall|i: usize| !indices_where(n, ok).contains(i) by {}
    }
}

/// Taking one admitted index away shortens the list by one.
pub proof fn indices_where_drop(n: nat, ok: spec_fn(int) -> bool, less: spec_fn(int) -> bool, k: int)
    requires
        0 <= k < n,
        ok(k),
        !less(k),
        forall|i: int| 0 <= i < n && i != k ==> #[trigger] ok(i) == less(i),
    ensures
        indices_where(n, less).len() + 1 == indices_where(n, ok).len(),
    decreases n,
{
    if k == n - 1 {
        indices_where_same((n - 1) as nat, ok, less);
    } else {
        indices_where_drop((n - 1) as nat, ok, less, k);
    }
}

/// Predicates that agree below `n` admit the same indices.
pub proof fn indices_where_same(n: nat, ok: spec_fn(int) -> bool, other: spec_fn(int) -> bool)
    requires
        forall|i: int| 0 <= i < n ==> #[trigger] ok(i) == other(i),
    ensures
        indices_where(n, ok) == indices_where(n, other),
    decreases n,
{
    if n > 0 {
        indices_where_same((n - 1) as nat, ok, other);
    }
}

} // verus!
