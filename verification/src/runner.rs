//! The course of one match: whose turn it is, how long the player may still
//! think, which moves were made and how the match ended.
//!
//! The runner decides; its caller does what takes time. The caller asks with
//! `prompt` what is due, waits for a person's move or lets the runner ask
//! the artificial opponent, hands the move to `apply`, and goes on until the
//! match is over. Moments are counted in milliseconds from any fixed start.

use vstd::prelude::*;
use crate::game::{
    mover_after, opponent, play_goes_on, reached, AiPlayer, BuiltinAi, PvpGame,
};
use crate::state::GameState;

verus! {

/// The longest wait for a person's move before the caller asks again, in
/// milliseconds.
pub const POLL_MS: u64 = 10_000;

/// Whether a match counts for the ratings.
#[derive(Copy, Clone, Debug, PartialEq, Eq, Structural)]
pub enum GameMode {
    Casual,
    Competitive,
}

impl GameMode {
    pub open spec fn name(self) -> Seq<char> {
        match self {
            GameMode::Casual => "casual"@,
            GameMode::Competitive => "competitive"@,
        }
    }

    pub fn as_str(&self) -> (text: &'static str)
        ensures
            text@ == self.name(),
    {
        match self {
            GameMode::Casual => "casual",
            GameMode::Competitive => "competitive",
        }
    }
}

/// Who sits at a seat: a person, known by a number, or an artificial
/// opponent of the kind `A`.
pub enum Seat<A> {
    Person(u64),
    Ai(A),
}

/// A seat at the game `G`: a person or any artificial opponent for that
/// game.
pub type Player<T, G> = Seat<Box<dyn AiPlayer<T, G>>>;

impl<T, G: PvpGame<T>> Seat<Box<dyn AiPlayer<T, G>>> {
    pub open spec fn artificial(&self) -> bool {
        self is Ai
    }

    /// `action` is a move that the player at the seat may make for `seat` on
    /// the board `game`: any move, where a person plays, and a move that the
    /// opponent may play, where an opponent sits.
    pub open spec fn may_play(&self, game: &G, seat: usize, action: T) -> bool {
        match self {
            Seat::Person(_) => true,
            Seat::Ai(ai) => ai.may_play(game, seat, action),
        }
    }

    pub fn is_ai(&self) -> (artificial: bool)
        ensures
            artificial == self.artificial(),
    {
        match self {
            Seat::Ai(_) => true,
            _ => false,
        }
    }

    /// The mode of a match between two seats: competitive exactly when two
    /// different persons play.
    pub open spec fn mode_with(&self, other: &Self) -> GameMode {
        if self is Person && other is Person && self->Person_0 != other->Person_0 {
            GameMode::Competitive
        } else {
            GameMode::Casual
        }
    }

    /// Tells in which mode a match against `other` is played.
    pub fn mode_against(&self, other: &Self) -> (mode: GameMode)
        ensures
            mode == self.mode_with(other),
    {
        match (self, other) {
            (Seat::Person(a), Seat::Person(b)) => if *a != *b {
                GameMode::Competitive
            } else {
                GameMode::Casual
            },
            _ => GameMode::Casual,
        }
    }

    /// Two seats hold the same player only where both hold the same person.
    pub fn same_person(&self, other: &Self) -> (same: bool)
        ensures
            same == (self matches Seat::Person(me) && other matches Seat::Person(you) && me
                == you),
    {
        match (self, other) {
            (Seat::Person(me), Seat::Person(other)) => *me == *other,
            _ => false,
        }
    }
}

/// The seat of the player who was challenged. Who challenges the host of
/// the games plays against the opponent that the game brings; there is no
/// seat where the game brings none. Anyone else takes the seat in person.
pub fn seat_for<T, G: BuiltinAi<T>>(challenged: u64, host: u64) -> (seat: Option<Player<T, G>>)
    ensures
        challenged != host ==> seat == Some(Player::<T, G>::Person(challenged)),
        challenged == host ==> (seat is Some <==> G::has_ai()),
        challenged == host ==> (seat matches Some(player) ==> player is Ai),
        challenged == host ==> (seat matches Some(player) ==> forall|
            game: G,
            place: usize,
            action: T,
        | #[trigger]
            player.may_play(&game, place, action) == G::ai_plays(&game, place, action)),
{
    if challenged == host {
        match G::ai() {
            Some(ai) => {
                let seat = Seat::Ai(ai);
                Some(seat)
            },
            None => None,
        }
    } else {
        Some(Seat::Person(challenged))
    }
}

/// How a match ended. `Forfeit` names the seat whose time ran out; the other
/// seat has won.
#[derive(Copy, Clone, Debug, PartialEq, Eq, Structural)]
pub enum MatchResult {
    Win(usize),
    Tie,
    Forfeit(usize),
}

/// What is due in a match.
#[derive(Copy, Clone, Debug, PartialEq, Eq, Structural)]
pub enum Prompt {
    /// The match is over.
    Over(MatchResult),
    /// The person `id` is to move; wait for at most `wait` milliseconds, then
    /// ask again.
    Person { id: u64, wait: u64 },
    /// The artificial opponent is to move.
    Ai,
}

/// What became of a move that was handed in.
#[derive(Copy, Clone, Debug, PartialEq, Eq, Structural)]
pub enum Reply {
    /// The board rejected a person's move: the same player is asked again.
    Retry,
    /// The board rejected the move of the artificial opponent: the match
    /// cannot go on.
    Fault,
    /// The move was made and the other player is to move.
    Next,
    /// The move was made and ended the match.
    Done(MatchResult),
    /// The match was over before: nothing was done.
    Over,
}

/// What the status line under a board says.
#[derive(Copy, Clone, Debug, PartialEq, Eq, Structural)]
pub enum StatusLine {
    /// `winner` won because `loser` did not move in time.
    Inactivity { winner: usize, loser: usize },
    Won(usize),
    Tie,
    /// `turn` plays next and has `seconds` whole seconds left.
    Next { turn: usize, seconds: u64 },
}

/// The time that has passed between two moments, 0 where the clock went
/// back.
pub open spec fn passed(since: u64, now: u64) -> u64 {
    if now >= since {
        (now - since) as u64
    } else {
        0
    }
}

/// The time left of `timeout` after `spent`.
pub open spec fn left_of(timeout: u64, spent: u64) -> u64 {
    if timeout >= spent {
        (timeout - spent) as u64
    } else {
        0
    }
}

/// The end that a prompt tells of, if it tells of one.
pub open spec fn ending(due: Prompt) -> Option<MatchResult> {
    match due {
        Prompt::Over(ended) => Some(ended),
        _ => None,
    }
}

/// The winner that a result names.
pub open spec fn winner_of(result: Option<MatchResult>) -> Option<usize> {
    match result {
        Some(MatchResult::Win(p)) => Some(p),
        Some(MatchResult::Forfeit(loser)) => Some(opponent(loser)),
        _ => None,
    }
}

/// The result that the state of a board stands for.
pub open spec fn result_of(state: GameState) -> Option<MatchResult> {
    match state {
        GameState::Win(p) => Some(MatchResult::Win(p)),
        GameState::Tie => Some(MatchResult::Tie),
        _ => None,
    }
}

/// A match between two seats on the board `game`.
#[verifier::reject_recursive_types(T)]
#[verifier::reject_recursive_types(G)]
pub struct GameRunner<T, G: PvpGame<T>> {
    pub game: G,
    pub mode: GameMode,
    pub players: Vec<Player<T, G>>,
    /// The time a player has for a move, in milliseconds.
    pub timeout: u64,
    /// The seat that is to move.
    pub turn: usize,
    /// The moment at which the present turn began.
    pub last_turn: u64,
    /// The moves made so far.
    pub moves: Vec<T>,
    /// How the match ended, once it has.
    pub result: Option<MatchResult>,
}

impl<T: Copy, G: PvpGame<T>> GameRunner<T, G> {
    /// Two seats, one of them to move, on a well-formed board; the match is
    /// over exactly when the board is decided or a player has forfeited.
    pub open spec fn wf(&self) -> bool {
        &&& self.players@.len() == 2
        &&& self.turn < 2
        &&& self.game.wf()
        &&& match self.result {
            None => self.game.status_of() is Running,
            Some(MatchResult::Forfeit(loser)) => loser < 2,
            Some(ended) => result_of(self.game.status_of()) == Some(ended),
        }
    }

    /// The player to move has used up more than the time for a move.
    pub open spec fn out_of_time(&self, now: u64) -> bool {
        passed(self.last_turn, now) > self.timeout
    }

    /// Sets up a match in which `first` moves first, beginning at the moment
    /// `now`. The match is competitive exactly when two different persons
    /// play.
    pub fn new(game: G, first: Player<T, G>, second: Player<T, G>, timeout: u64, now: u64) -> (runner:
        Self)
        requires
            game.wf(),
        ensures
            runner.wf(),
            runner.game == game,
            runner.timeout == timeout,
            runner.turn == 0,
            runner.last_turn == now,
            runner.moves@.len() == 0,
            runner.result == result_of(game.status_of()),
            runner.players@ == seq![first, second],
            runner.mode == first.mode_with(&second),
    {
        let mode: GameMode = first.mode_against(&second);
        let result: Option<MatchResult> = match game.status() {
            GameState::Win(p) => Some(MatchResult::Win(p)),
            GameState::Tie => Some(MatchResult::Tie),
            _ => None,
        };
        proof {
            game.status_is_settled();
        }
        let mut players: Vec<Player<T, G>> = Vec::new();
        players.push(first);
        players.push(second);
        GameRunner { game, mode, players, timeout, turn: 0, last_turn: now, moves: Vec::new(), result }
    }

    /// How much time is left for the present move, in milliseconds.
    pub fn time_left(&self, now: u64) -> (left: u64)
        ensures
            left == left_of(self.timeout, passed(self.last_turn, now)),
    {
        let spent: u64 = if now >= self.last_turn {
            now - self.last_turn
        } else {
            0
        };
        if self.timeout >= spent {
            self.timeout - spent
        } else {
            0
        }
    }

    /// Tells whether the present move has taken too long.
    pub fn forfeit(&self, now: u64) -> (late: bool)
        ensures
            late == self.out_of_time(now),
    {
        let spent: u64 = if now >= self.last_turn {
            now - self.last_turn
        } else {
            0
        };
        spent > self.timeout
    }

    /// What is due at the moment `now`: the end, where the match is over or the
    /// player to move has used up the time; else a move of the player to move,
    /// for which a person is given the time left, at most `POLL_MS`.
    pub open spec fn due(&self, now: u64) -> Prompt {
        match self.result {
            Some(ended) => Prompt::Over(ended),
            None => if self.out_of_time(now) {
                Prompt::Over(MatchResult::Forfeit(self.turn))
            } else {
                match self.players@[self.turn as int] {
                    Seat::Person(id) => Prompt::Person {
                        id,
                        wait: if left_of(self.timeout, passed(self.last_turn, now)) < POLL_MS {
                            left_of(self.timeout, passed(self.last_turn, now))
                        } else {
                            POLL_MS
                        },
                    },
                    Seat::Ai(_) => Prompt::Ai,
                }
            },
        }
    }

    /// Tells what is due at the moment `now`. A match that is over stays
    /// over. In a running match the player to move forfeits once the time
    /// for the move is used up; otherwise that player is asked for a move.
    pub fn prompt(&mut self, now: u64) -> (due: Prompt)
        requires
            old(self).wf(),
        ensures
            final(self).wf(),
            final(self).game == old(self).game,
            final(self).mode == old(self).mode,
            final(self).players == old(self).players,
            final(self).timeout == old(self).timeout,
            final(self).turn == old(self).turn,
            final(self).last_turn == old(self).last_turn,
            final(self).moves == old(self).moves,
            due == old(self).due(now),
            final(self).result == ending(due),
    {
        match self.result {
            Some(ended) => Prompt::Over(ended),
            None => {
                if self.forfeit(now) {
                    let ended: MatchResult = MatchResult::Forfeit(self.turn);
                    self.result = Some(ended);
                    Prompt::Over(ended)
                } else {
                    let left: u64 = self.time_left(now);
                    let wait: u64 = if left < POLL_MS {
                        left
                    } else {
                        POLL_MS
                    };
                    match &self.players[self.turn] {
                        Seat::Person(id) => Prompt::Person { id: *id, wait },
                        Seat::Ai(_) => Prompt::Ai,
                    }
                }
            },
        }
    }

    /// What handing in the move `play` does to a running match: the state
    /// that the board reports decides.
    pub open spec fn reply_to(&self, play: T) -> Reply {
        if self.result is Some {
            Reply::Over
        } else if !self.game.accepts(play, self.turn) {
            if self.players@[self.turn as int].artificial() {
                Reply::Fault
            } else {
                Reply::Retry
            }
        } else {
            match result_of(self.game.after(play, self.turn).status_of()) {
                Some(ended) => Reply::Done(ended),
                None => Reply::Next,
            }
        }
    }

    /// Hands in the move of the player to move, at the moment `now`.
    ///
    /// A rejected move changes nothing. An accepted move is made on the board
    /// and written to the log; if it ends the game the match is over, and
    /// otherwise the turn of the other player begins.
    pub fn apply(&mut self, play: T, now: u64) -> (reply: Reply)
        requires
            old(self).wf(),
        ensures
            final(self).wf(),
            reply == old(self).reply_to(play),
            final(self).mode == old(self).mode,
            final(self).players == old(self).players,
            final(self).timeout == old(self).timeout,
            match reply {
                Reply::Next => {
                    &&& final(self).game == old(self).game.after(play, old(self).turn)
                    &&& final(self).moves@ == old(self).moves@.push(play)
                    &&& final(self).turn == opponent(old(self).turn)
                    &&& final(self).last_turn == now
                    &&& final(self).result is None
                },
                Reply::Done(ended) => {
                    &&& final(self).game == old(self).game.after(play, old(self).turn)
                    &&& final(self).moves@ == old(self).moves@.push(play)
                    &&& final(self).turn == old(self).turn
                    &&& final(self).last_turn == old(self).last_turn
                    &&& final(self).result == Some(ended)
                },
                _ => {
                    &&& final(self).game == old(self).game
                    &&& final(self).moves == old(self).moves
                    &&& final(self).turn == old(self).turn
                    &&& final(self).last_turn == old(self).last_turn
                    &&& final(self).result == old(self).result
                },
            },
    {
        if self.result.is_some() {
            return Reply::Over;
        }
        proof {
            if self.game.accepts(play, self.turn) {
                self.game.accepted_move_fills(play, self.turn);
                self.game.after(play, self.turn).status_is_settled();
            }
        }
        let state: GameState = self.game.make_move(play, self.turn);
        if state != GameState::Invalid {
            self.moves.push(play);
            match state {
                GameState::Win(p) => {
                    let ended: MatchResult = MatchResult::Win(p);
                    self.result = Some(ended);
                    Reply::Done(ended)
                },
                GameState::Tie => {
                    self.result = Some(MatchResult::Tie);
                    Reply::Done(MatchResult::Tie)
                },
                _ => {
                    self.turn = 1 - self.turn;
                    self.last_turn = now;
                    Reply::Next
                },
            }
        } else if self.players[self.turn].is_ai() {
            // the artificial opponent is the one that made the invalid move
            Reply::Fault
        } else {
            Reply::Retry
        }
    }

    /// Lets the artificial opponent at the seat to move choose its move and
    /// hands that move in. Nothing is done where a person is to move or the
    /// match is over; the result is then `None`.
    pub fn ai_turn(&mut self, now: u64) -> (done: Option<(T, Reply)>)
        requires
            old(self).wf(),
        ensures
            final(self).wf(),
            final(self).mode == old(self).mode,
            final(self).timeout == old(self).timeout,
            final(self).players@.len() == 2,
            forall|i: int|
                0 <= i < 2 ==> (#[trigger] final(self).players@[i]).artificial() == old(self).players@[i].artificial(),
            forall|i: int|
                0 <= i < 2 && !(#[trigger] old(self).players@[i]).artificial() ==> final(self).players@[i] == old(self).players@[i],
            forall|i: int, board: G, seat: usize, action: T|
                0 <= i < 2 ==> #[trigger] final(self).players@[i].may_play(&board, seat, action)
                    == old(self).players@[i].may_play(&board, seat, action),
            done is Some <==> old(self).result is None && old(self).players@[old(self).turn as int].artificial(),
            done is None ==> *final(self) == *old(self),
            done matches Some((play, reply)) ==> {
                &&& old(self).players@[old(self).turn as int].may_play(
                    &old(self).game,
                    old(self).turn,
                    play,
                )
                &&& reply == old(self).reply_to(play)
                &&& reply != Reply::Retry && reply != Reply::Over
                &&& match reply {
                    Reply::Next => {
                        &&& final(self).game == old(self).game.after(play, old(self).turn)
                        &&& final(self).moves@ == old(self).moves@.push(play)
                        &&& final(self).turn == opponent(old(self).turn)
                        &&& final(self).last_turn == now
                        &&& final(self).result is None
                    },
                    Reply::Done(ended) => {
                        &&& final(self).game == old(self).game.after(play, old(self).turn)
                        &&& final(self).moves@ == old(self).moves@.push(play)
                        &&& final(self).turn == old(self).turn
                        &&& final(self).result == Some(ended)
                    },
                    _ => {
                        &&& final(self).game == old(self).game
                        &&& final(self).moves == old(self).moves
                        &&& final(self).turn == old(self).turn
                        &&& final(self).result == old(self).result
                    },
                }
            },
    {
        if self.result.is_some() {
            return None;
        }
        let turn: usize = self.turn;
        if !self.players[turn].is_ai() {
            return None;
        }
        let play: T = match &mut self.players[turn] {
            Seat::Person(_) => {
                return None;
            },
            Seat::Ai(ai) => ai.make_move(&self.game, turn),
        };
        let reply: Reply = self.apply(play, now);
        Some((play, reply))
    }

    /// Plays on, at the moment `now`, for as long as the artificial opponent
    /// is to move. It stops with what is due then: a person's move or the end
    /// of the match. It stops with `None` where the board rejected a move of
    /// the artificial opponent: the match cannot go on.
    pub fn run(&mut self, now: u64) -> (stop: Option<Prompt>)
        requires
            old(self).wf(),
        ensures
            final(self).wf(),
            final(self).mode == old(self).mode,
            final(self).timeout == old(self).timeout,
            old(self).moves@.is_prefix_of(final(self).moves@),
            reached(
                old(self).game,
                old(self).turn,
                final(self).game,
                (final(self).moves@.len() - old(self).moves@.len()) as nat,
            ),
            forall|i: int|
                0 <= i < 2 && !(#[trigger] old(self).players@[i]).artificial() ==> final(
                    self
                ).players@[i] == old(self).players@[i],
            forall|i: int, board: G, seat: usize, action: T|
                0 <= i < 2 ==> #[trigger] final(self).players@[i].may_play(&board, seat, action)
                    == old(self).players@[i].may_play(&board, seat, action),
            final(self).result is None ==> final(self).turn == mover_after(
                old(self).turn,
                (final(self).moves@.len() - old(self).moves@.len()) as nat,
            ),
            !(old(self).due(now) is Ai) ==> {
                &&& stop == Some(old(self).due(now))
                &&& final(self).game == old(self).game
                &&& final(self).moves == old(self).moves
                &&& final(self).turn == old(self).turn
                &&& final(self).last_turn == old(self).last_turn
                &&& final(self).players == old(self).players
            },
            match stop {
                Some(due) => {
                    &&& !(due is Ai)
                    &&& due == final(self).due(now)
                    &&& final(self).result == ending(due)
                },
                None => {
                    &&& final(self).result is None
                    &&& final(self).players@[final(self).turn as int].artificial()
                    &&& exists|play: T|
                        {
                            &&& #[trigger] final(self).players@[final(self).turn as int].may_play(
                                &final(self).game,
                                final(self).turn,
                                play,
                            )
                            &&& !final(self).game.accepts(play, final(self).turn)
                        }
                },
            },
    {
        loop
            invariant
                self.wf(),
                self.mode == old(self).mode,
                self.timeout == old(self).timeout,
                old(self).moves@.is_prefix_of(self.moves@),
                reached(
                    old(self).game,
                    old(self).turn,
                    self.game,
                    (self.moves@.len() - old(self).moves@.len()) as nat,
                ),
                old(self).turn < 2,
                self.result is None ==> self.turn == mover_after(
                    old(self).turn,
                    (self.moves@.len() - old(self).moves@.len()) as nat,
                ),
                forall|i: int|
                    0 <= i < 2 ==> (#[trigger] self.players@[i]).artificial() == old(
                        self
                    ).players@[i].artificial(),
                forall|i: int|
                    0 <= i < 2 && !(#[trigger] old(self).players@[i]).artificial()
                        ==> self.players@[i] == old(self).players@[i],
                forall|i: int, board: G, seat: usize, action: T|
                    0 <= i < 2 ==> #[trigger] self.players@[i].may_play(&board, seat, action)
                        == old(self).players@[i].may_play(&board, seat, action),
                old(self).due(now) is Ai || *self == *old(self),
            decreases self.game.vacancies(),
        {
            let due: Prompt = self.prompt(now);
            match due {
                Prompt::Ai => {
                    let ghost before = *self;
                    match self.ai_turn(now) {
                        Some((play, Reply::Next)) => {
                            proof {
                                before.game.accepted_move_fills(play, before.turn);
                                play_goes_on(
                                    old(self).game,
                                    old(self).turn,
                                    before.game,
                                    (before.moves@.len() - old(self).moves@.len()) as nat,
                                    play,
                                );
                            }
                        },
                        Some((play, Reply::Done(_))) => {
                            proof {
                                before.game.accepted_move_fills(play, before.turn);
                                play_goes_on(
                                    old(self).game,
                                    old(self).turn,
                                    before.game,
                                    (before.moves@.len() - old(self).moves@.len()) as nat,
                                    play,
                                );
                            }
                        },
                        Some((play, _)) => {
                            assert(self.players@[self.turn as int].may_play(
                                &self.game,
                                self.turn,
                                play,
                            ));
                            return None;
                        },
                        None => {
                            return None;
                        },
                    }
                },
                _ => {
                    return Some(due);
                },
            }
        }
    }

    /// The seat that has won, if one has.
    pub fn winner(&self) -> (seat: Option<usize>)
        requires
            self.wf(),
        ensures
            seat == winner_of(self.result),
            seat matches Some(s) ==> s < 2,
    {
        proof {
            self.game.winner_is_a_player();
        }
        match self.result {
            Some(MatchResult::Win(p)) => Some(p),
            Some(MatchResult::Forfeit(loser)) => Some(1 - loser),
            _ => None,
        }
    }

    /// Tells whether the match counts for the ratings.
    pub fn is_competitive(&self) -> (rated: bool)
        ensures
            rated == (self.mode == GameMode::Competitive),
    {
        self.mode == GameMode::Competitive
    }

    /// What the status line says at the moment `now`.
    pub fn status_line(&self, now: u64) -> (line: StatusLine)
        requires
            self.wf(),
        ensures
            line == (match self.result {
                Some(MatchResult::Forfeit(loser)) => StatusLine::Inactivity {
                    winner: opponent(loser),
                    loser,
                },
                Some(MatchResult::Win(p)) => StatusLine::Won(p),
                Some(MatchResult::Tie) => StatusLine::Tie,
                None => StatusLine::Next {
                    turn: self.turn,
                    seconds: (left_of(self.timeout, passed(self.last_turn, now)) / 1000) as u64,
                },
            }),
    {
        match self.result {
            Some(MatchResult::Forfeit(loser)) => StatusLine::Inactivity { winner: 1 - loser, loser },
            Some(MatchResult::Win(p)) => StatusLine::Won(p),
            Some(MatchResult::Tie) => StatusLine::Tie,
            None => StatusLine::Next { turn: self.turn, seconds: self.time_left(now) / 1000 },
        }
    }
}

} // verus!
