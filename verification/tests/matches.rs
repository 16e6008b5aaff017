use board_games::connect4::Connect4;
use board_games::elo::{process_game, result_code, DEFAULT_ELO, K, POINT};
use board_games::game::{BuiltinAi, PvpGame};
use board_games::minimax::Minimax;
use board_games::pentago::{PMove, Pentago};
use board_games::ranks::{decimal, rank_string, split_into_fields, FIELD_LIMIT};
use board_games::runner::{
    seat_for, GameMode, GameRunner, MatchResult, Player, Prompt, Reply, StatusLine, POLL_MS,
};
use board_games::state::GameState;
use board_games::tictactoe::{TTTField, TTTAI};
use board_games::ultimate::UltimateGame;

fn people(timeout: u64, now: u64) -> GameRunner<usize, TTTField> {
    GameRunner::new([None; 9], Player::Person(10), Player::Person(20), timeout, now)
}

#[test]
fn game_mode_names() {
    assert_eq!(GameMode::Casual.as_str(), "casual");
    assert_eq!(GameMode::Competitive.as_str(), "competitive");
}

#[test]
fn only_different_persons_play_competitively() {
    assert_eq!(people(60_000, 0).mode, GameMode::Competitive);
    assert!(people(60_000, 0).is_competitive());
    let alone: GameRunner<usize, TTTField> =
        GameRunner::new([None; 9], Player::Person(10), Player::Person(10), 60_000, 0);
    assert_eq!(alone.mode, GameMode::Casual);
    let against_ai: GameRunner<usize, TTTField> = GameRunner::new(
        [None; 9],
        Player::Person(10),
        Player::Ai(Box::new(Minimax(TTTAI))),
        60_000,
        0,
    );
    assert_eq!(against_ai.mode, GameMode::Casual);
    assert!(!against_ai.is_competitive());
}

#[test]
fn seats_are_people_or_the_built_in_opponent() {
    let person: Option<Player<usize, TTTField>> = seat_for(5, 99);
    assert!(matches!(person, Some(Player::Person(5))));
    let ai: Option<Player<usize, TTTField>> = seat_for(99, 99);
    assert!(matches!(ai, Some(Player::Ai(_))));
    assert!(ai.unwrap().is_ai());
    let ai: Option<Player<usize, UltimateGame>> = seat_for(99, 99);
    assert!(ai.is_some());
    let none: Option<Player<usize, Connect4>> = seat_for(99, 99);
    assert!(none.is_none());
    let none: Option<Player<PMove, Pentago>> = seat_for(99, 99);
    assert!(none.is_none());
    assert!(<Connect4 as BuiltinAi<usize>>::ai().is_none());
}

#[test]
fn players_compare_by_person() {
    let a: Player<usize, TTTField> = Player::Person(1);
    let b: Player<usize, TTTField> = Player::Person(1);
    let c: Player<usize, TTTField> = Player::Person(2);
    let ai: Player<usize, TTTField> = Player::Ai(Box::new(Minimax(TTTAI)));
    let other_ai: Player<usize, TTTField> = Player::Ai(Box::new(Minimax(TTTAI)));
    assert!(a.same_person(&b));
    assert!(!a.same_person(&c));
    assert!(!a.same_person(&ai));
    assert!(!ai.same_person(&other_ai));
    assert!(!a.is_ai());
    assert!(ai.is_ai());
}

#[test]
fn a_silent_player_forfeits() {
    let mut runner = people(1_000, 5_000);
    assert_eq!(runner.prompt(5_000), Prompt::Person { id: 10, wait: 1_000 });
    assert_eq!(runner.prompt(5_400), Prompt::Person { id: 10, wait: 600 });
    assert_eq!(runner.time_left(5_400), 600);
    assert!(!runner.forfeit(6_000));
    assert_eq!(runner.prompt(6_000), Prompt::Person { id: 10, wait: 0 });
    assert!(runner.forfeit(6_001));
    assert_eq!(runner.time_left(6_001), 0);
    assert_eq!(runner.prompt(6_001), Prompt::Over(MatchResult::Forfeit(0)));
    assert_eq!(runner.result, Some(MatchResult::Forfeit(0)));
    assert_eq!(runner.winner(), Some(1));
    assert_eq!(runner.status_line(6_001), StatusLine::Inactivity { winner: 1, loser: 0 });
    // the match stays over
    assert_eq!(runner.prompt(0), Prompt::Over(MatchResult::Forfeit(0)));
    assert_eq!(runner.apply(4, 6_002), Reply::Over);
    assert!(runner.moves.is_empty());
    assert!(runner.game.is_empty());
}

#[test]
fn waits_are_capped() {
    let mut runner = people(60_000, 0);
    assert_eq!(runner.prompt(0), Prompt::Person { id: 10, wait: POLL_MS });
    assert_eq!(runner.prompt(49_999), Prompt::Person { id: 10, wait: POLL_MS });
    assert_eq!(runner.prompt(50_001), Prompt::Person { id: 10, wait: 9_999 });
    assert_eq!(runner.status_line(1_500), StatusLine::Next { turn: 0, seconds: 58 });
    // a clock that goes back counts as no time passed
    let mut late = people(60_000, 1_000);
    assert_eq!(late.time_left(0), 60_000);
    assert_eq!(late.prompt(0), Prompt::Person { id: 10, wait: POLL_MS });
}

#[test]
fn moves_alternate_and_are_logged() {
    let mut runner = people(60_000, 0);
    assert_eq!(runner.apply(0, 100), Reply::Next);
    assert_eq!(runner.turn, 1);
    assert_eq!(runner.last_turn, 100);
    assert_eq!(runner.prompt(200), Prompt::Person { id: 20, wait: POLL_MS });
    // an occupied place: the same player is asked again and nothing changes
    assert_eq!(runner.apply(0, 300), Reply::Retry);
    assert_eq!(runner.turn, 1);
    assert_eq!(runner.last_turn, 100);
    assert_eq!(runner.moves, vec![0]);
    assert_eq!(runner.apply(4, 400), Reply::Next);
    assert_eq!(runner.apply(1, 500), Reply::Next);
    assert_eq!(runner.apply(3, 600), Reply::Next);
    assert_eq!(runner.apply(2, 700), Reply::Done(MatchResult::Win(0)));
    assert_eq!(runner.moves, vec![0, 4, 1, 3, 2]);
    assert_eq!(runner.turn, 0);
    assert_eq!(runner.result, Some(MatchResult::Win(0)));
    assert_eq!(runner.winner(), Some(0));
    assert_eq!(runner.game.status(), GameState::Win(0));
    assert_eq!(runner.status_line(800), StatusLine::Won(0));
    assert_eq!(runner.prompt(900_000), Prompt::Over(MatchResult::Win(0)));
    assert_eq!(runner.apply(5, 900), Reply::Over);
    assert_eq!(runner.moves.len(), 5);
}

#[test]
fn a_match_can_end_tied() {
    let mut runner = people(60_000, 0);
    let order = [0usize, 1, 2, 4, 3, 5, 7, 6];
    for (i, m) in order.iter().enumerate() {
        assert_eq!(runner.apply(*m, i as u64), Reply::Next);
    }
    assert_eq!(runner.apply(8, 9), Reply::Done(MatchResult::Tie));
    assert_eq!(runner.winner(), None);
    assert_eq!(runner.status_line(10), StatusLine::Tie);
    assert_eq!(result_code(runner.winner()), 0);
}

#[test]
fn the_artificial_opponent_moves_on_its_turn() {
    let mut runner: GameRunner<usize, TTTField> = GameRunner::new(
        [None; 9],
        Player::Person(10),
        Player::Ai(Box::new(Minimax(TTTAI))),
        60_000,
        0,
    );
    // a person is to move: the opponent is not asked
    assert_eq!(runner.ai_turn(0), None);
    assert_eq!(runner.apply(0, 10), Reply::Next);
    assert_eq!(runner.prompt(20), Prompt::Ai);
    let (play, reply) = runner.ai_turn(30).unwrap();
    assert_eq!(reply, Reply::Next);
    assert_eq!(play, 4);
    assert_eq!(runner.moves, vec![0, 4]);
    assert_eq!(runner.turn, 0);
    assert_eq!(runner.last_turn, 30);
}

struct Stubborn;

impl board_games::game::AiPlayer<usize, TTTField> for Stubborn {
    fn make_move(&mut self, _: &TTTField, _: usize) -> usize {
        0
    }
}

#[test]
fn a_wrong_move_of_the_artificial_opponent_is_a_fault() {
    let mut runner: GameRunner<usize, TTTField> =
        GameRunner::new([None; 9], Player::Person(10), Player::Ai(Box::new(Stubborn)), 60_000, 0);
    assert_eq!(runner.apply(0, 10), Reply::Next);
    let before = runner.game;
    assert_eq!(runner.ai_turn(20), Some((0, Reply::Fault)));
    assert_eq!(runner.game, before);
    assert_eq!(runner.moves, vec![0]);
    assert_eq!(runner.turn, 1);
    assert_eq!(runner.result, None);
}

#[test]
fn a_decided_board_starts_no_match() {
    let won: TTTField = [Some(1), Some(1), Some(1), None, None, None, None, None, None];
    let mut runner: GameRunner<usize, TTTField> =
        GameRunner::new(won, Player::Person(1), Player::Person(2), 1_000, 0);
    assert_eq!(runner.prompt(0), Prompt::Over(MatchResult::Win(1)));
    assert_eq!(runner.winner(), Some(1));
    assert_eq!(result_code(runner.winner()), 2);
}

#[test]
fn ratings_move_by_the_surprise() {
    assert_eq!(K, 40);
    assert_eq!(DEFAULT_ELO, 1200 * POINT);
    let start = (DEFAULT_ELO, DEFAULT_ELO);
    assert_eq!(
        process_game(start, POINT / 2, Some(0)),
        Some((1220 * POINT, 1180 * POINT))
    );
    assert_eq!(
        process_game(start, POINT / 2, Some(1)),
        Some((1180 * POINT, 1220 * POINT))
    );
    assert_eq!(process_game(start, POINT / 2, None), Some(start));
    // expected 0.75 and a tie: 40 * (0.5 - 0.75) = -10
    assert_eq!(
        process_game((1400 * POINT, 1200 * POINT), 750_000, None),
        Some((1390 * POINT, 1210 * POINT))
    );
    // expected 0.240253 and a win: 40 * 0.759747 = 30.38988
    assert_eq!(
        process_game((1000 * POINT, 1200 * POINT), 240_253, Some(0)),
        Some((1_030_389_880, 1_169_610_120))
    );
}

#[test]
fn ratings_are_conserved() {
    let cases = [
        ((1200 * POINT, 1200 * POINT), 500_000, Some(0)),
        ((900 * POINT, 2100 * POINT), 1_000, Some(0)),
        ((900 * POINT, 2100 * POINT), 999_000, Some(1)),
        ((-5 * POINT, 3 * POINT), 123_456, None),
        ((0, 0), 0, Some(1)),
        ((0, 0), POINT, Some(0)),
    ];
    for (elo, expected, winner) in cases.iter() {
        let (r0, r1) = process_game(*elo, *expected, *winner).unwrap();
        assert_eq!(r0 - elo.0, -(r1 - elo.1));
        assert_eq!(r0 + r1, elo.0 + elo.1);
    }
}

#[test]
fn ratings_may_become_negative() {
    assert_eq!(process_game((10 * POINT, 0), POINT, Some(1)), Some((-30 * POINT, 40 * POINT)));
}

#[test]
fn ratings_reject_bad_input() {
    let start = (DEFAULT_ELO, DEFAULT_ELO);
    assert_eq!(process_game(start, POINT / 2, Some(2)), None);
    assert_eq!(process_game(start, -1, Some(0)), None);
    assert_eq!(process_game(start, POINT + 1, Some(0)), None);
    assert_eq!(process_game((i64::MAX, 0), 0, Some(0)), None);
    assert_eq!(process_game((0, i64::MIN), 0, Some(0)), None);
    assert_eq!(process_game((i64::MAX, 0), 0, Some(1)), Some((i64::MAX, 0)));
}

#[test]
fn result_codes() {
    assert_eq!(result_code(None), 0);
    assert_eq!(result_code(Some(0)), 1);
    assert_eq!(result_code(Some(1)), 2);
}

#[test]
fn run_plays_the_artificial_turns() {
    // two searches against each other play the match to its end
    let mut runner: GameRunner<usize, TTTField> = GameRunner::new(
        [None; 9],
        Player::Ai(Box::new(Minimax(TTTAI))),
        Player::Ai(Box::new(Minimax(TTTAI))),
        60_000,
        0,
    );
    assert_eq!(runner.run(0), Some(Prompt::Over(MatchResult::Tie)));
    assert_eq!(runner.moves.len(), 9);
    assert_eq!(runner.winner(), None);
    // against a person the run stops when the person is to move
    let mut mixed: GameRunner<usize, TTTField> = GameRunner::new(
        [None; 9],
        Player::Ai(Box::new(Minimax(TTTAI))),
        Player::Person(3),
        60_000,
        0,
    );
    assert_eq!(mixed.run(100), Some(Prompt::Person { id: 3, wait: POLL_MS }));
    assert_eq!(mixed.moves, vec![0]);
    assert_eq!(mixed.turn, 1);
    // a person who is out of time forfeits
    assert_eq!(mixed.run(70_000), Some(Prompt::Over(MatchResult::Forfeit(1))));
    assert_eq!(mixed.winner(), Some(0));
    // an artificial opponent whose time is up forfeits without being asked
    let mut slow: GameRunner<usize, TTTField> =
        GameRunner::new([None; 9], Player::Ai(Box::new(Stubborn)), Player::Person(3), 1_000, 0);
    assert_eq!(slow.run(1_001), Some(Prompt::Over(MatchResult::Forfeit(0))));
    assert!(slow.moves.is_empty());
    assert!(slow.game.is_empty());
    assert_eq!(slow.winner(), Some(1));
    // a wrong move of the artificial opponent stops the match
    let mut faulty: GameRunner<usize, TTTField> =
        GameRunner::new([None; 9], Player::Person(10), Player::Ai(Box::new(Stubborn)), 60_000, 0);
    assert_eq!(faulty.apply(0, 10), Reply::Next);
    assert_eq!(faulty.run(20), None);
    assert_eq!(faulty.moves, vec![0]);
}

#[test]
fn ranks_are_written_out() {
    assert_eq!(rank_string(1), "  1st");
    assert_eq!(rank_string(2), "  2nd");
    assert_eq!(rank_string(3), "  3rd");
    assert_eq!(rank_string(4), "  4th");
    assert_eq!(rank_string(11), " 11th");
    assert_eq!(rank_string(12), " 12th");
    assert_eq!(rank_string(13), " 13th");
    assert_eq!(rank_string(21), " 21st");
    assert_eq!(rank_string(102), "102nd");
    assert_eq!(rank_string(113), "113th");
    assert_eq!(rank_string(1000), "1000th");
    assert_eq!(rank_string(0), "  0th");
    assert_eq!(decimal(0), "0");
    assert_eq!(decimal(907), "907");
    assert_eq!(decimal(usize::MAX), usize::MAX.to_string());
}

#[test]
fn lines_are_packed_into_fields() {
    assert_eq!(FIELD_LIMIT, 2000);
    assert_eq!(split_into_fields(&vec![], "nothing"), vec![String::from("nothing")]);
    assert_eq!(
        split_into_fields(&vec![String::new(), String::new()], "nothing"),
        vec![String::from("nothing")]
    );
    let parts = vec![String::from("a\n"), String::from("b\n")];
    assert_eq!(split_into_fields(&parts, "nothing"), vec![String::from("a\nb\n")]);
    // 1500 + 500 bytes fit into one field, one byte more begins the next
    let parts = vec!["x".repeat(1500), "y".repeat(500), String::from("z")];
    assert_eq!(
        split_into_fields(&parts, ""),
        vec![format!("{}{}", "x".repeat(1500), "y".repeat(500)), String::from("z")]
    );
    // bytes count, not characters: a keycap takes seven bytes
    let keycap = String::from("1\u{fe0f}\u{20e3}");
    assert_eq!(keycap.len(), 7);
    let parts = vec!["x".repeat(1994), keycap.clone()];
    assert_eq!(split_into_fields(&parts, ""), vec!["x".repeat(1994), keycap]);
    // a part that is too long by itself closes the empty field before it
    let parts = vec!["x".repeat(2001)];
    assert_eq!(split_into_fields(&parts, ""), vec![String::new(), "x".repeat(2001)]);
}
