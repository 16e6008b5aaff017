use board_games::connect4::Connect4;
use board_games::game::{preview, BuiltinAi, PvpGame};
use board_games::grid::n_in_a_row;
use board_games::pentago::{PMove, Pentago, Rotation};
use board_games::state::GameState;
use board_games::symbols::{circle, number_emoji, square, Color};
use board_games::tictactoe::{flatten_xy, line_owner, TTTField};
use board_games::ultimate::UltimateGame;

fn keycap(n: usize) -> String {
    format!("{}\u{fe0f}\u{20e3}", n)
}

#[test]
fn game_state_is_finished_only_when_tied_or_won() {
    assert!(GameState::Tie.is_finished());
    assert!(GameState::Win(1).is_finished());
    assert!(!GameState::Running.is_finished());
    assert!(!GameState::Invalid.is_finished());
}

#[test]
fn tictactoe_top_row_wins() {
    let mut board: TTTField = [None; 9];
    let moves = [0usize, 4, 1, 3, 2];
    let mut last = GameState::Running;
    for (i, m) in moves.iter().enumerate() {
        if i + 1 < moves.len() {
            assert_eq!(last, GameState::Running);
        }
        last = board.make_move(*m, i % 2);
    }
    assert_eq!(last, GameState::Win(0));
    assert_eq!(board.status(), GameState::Win(0));
    assert_eq!(board.winner(), Some(0));
}

#[test]
fn tictactoe_rejects_occupied_and_out_of_range() {
    let mut board: TTTField = [None; 9];
    assert_eq!(board.make_move(4, 0), GameState::Running);
    let before = board;
    assert_eq!(board.make_move(4, 1), GameState::Invalid);
    assert_eq!(board, before);
    assert_eq!(board.make_move(9, 1), GameState::Invalid);
    assert_eq!(board, before);
    assert_eq!(board.make_move(usize::MAX, 1), GameState::Invalid);
    assert_eq!(board, before);
}

#[test]
fn tictactoe_status_is_repeatable() {
    let mut board: TTTField = [None; 9];
    board.make_move(0, 0);
    board.make_move(8, 1);
    let before = board;
    let first = board.status();
    let second = board.status();
    let third = board.status();
    assert_eq!(first, second);
    assert_eq!(second, third);
    assert_eq!(board, before);
}

#[test]
fn tictactoe_clone_is_isolated() {
    let mut board: TTTField = [None; 9];
    board.make_move(0, 0);
    let original = board;
    let mut copy = board.clone();
    assert_eq!(copy.make_move(1, 1), GameState::Running);
    assert_eq!(board, original);
    assert_ne!(copy, board);
}

#[test]
fn tictactoe_tie_and_possible_moves() {
    // 0 1 0
    // 0 1 1
    // 1 0 0
    let mut board: TTTField = [None; 9];
    let order = [(0usize, 0usize), (1, 1), (2, 0), (4, 1), (3, 0), (5, 1), (7, 0), (6, 1)];
    for (m, p) in order.iter() {
        assert_eq!(board.make_move(*m, *p), GameState::Running);
    }
    assert_eq!(board.possible_moves(0), vec![8]);
    assert!(!board.is_empty());
    assert_eq!(board.make_move(8, 0), GameState::Tie);
    assert_eq!(board.possible_moves(1), Vec::<usize>::new());
    assert_eq!(board.winner(), None);
}

#[test]
fn tictactoe_win_is_checked_before_tie() {
    // the last free place completes a line on a board that is then full
    let mut board: TTTField = [
        Some(0), Some(1), Some(0),
        Some(1), Some(0), Some(1),
        Some(1), Some(0), None,
    ];
    assert_eq!(board.make_move(8, 0), GameState::Win(0));
}

#[test]
fn tictactoe_lines_are_examined_in_order() {
    // both diagonals cannot be owned by different marks, so take a column
    // and a row: column 0 comes before row 2
    let board: TTTField = [
        Some(1), None, None,
        Some(1), None, None,
        Some(1), None, None,
    ];
    assert_eq!(line_owner(&board), Some(1));
    let both: TTTField = [
        Some(0), Some(0), Some(0),
        Some(1), Some(1), Some(1),
        None, None, None,
    ];
    // row 0 is examined before row 1
    assert_eq!(both.status(), GameState::Win(0));
    let none: TTTField = [None; 9];
    assert_eq!(line_owner(&none), None);
}

#[test]
fn tictactoe_fresh_board() {
    let board: TTTField = [None; 9];
    assert!(board.is_empty());
    assert_eq!(board.status(), GameState::Running);
    assert_eq!(board.possible_moves(0), vec![0, 1, 2, 3, 4, 5, 6, 7, 8]);
    assert_eq!(<TTTField as PvpGame<usize>>::title(), "Tic Tac Toe");
    assert_eq!(
        <TTTField as PvpGame<usize>>::figures(),
        vec![String::from("\u{1f7e5}"), String::from("\u{1f7e8}")]
    );
    assert!(<TTTField as BuiltinAi<usize>>::ai().is_some());
}

#[test]
fn tictactoe_draws_blocks() {
    let e = "\u{2b1b}";
    let b = "\u{2b1c}";
    let board: TTTField = [None; 9];
    let mut expected = String::new();
    for y in 0..3 {
        for iy in 0..3 {
            for x in 0..3 {
                let idx = 3 * y + x;
                for ix in 0..3 {
                    if ix == 1 && iy == 1 {
                        expected += &keycap(idx + 1);
                    } else {
                        expected += e;
                    }
                }
                expected += if x < 2 { b } else { "\n" };
            }
        }
        if y < 2 {
            expected += &b.repeat(11);
            expected += "\n";
        }
    }
    assert_eq!(board.draw(), expected);
    let first_line = format!("{e}{e}{e}{b}{e}{e}{e}{b}{e}{e}{e}\n");
    assert!(board.draw().starts_with(&first_line));
    assert_eq!(board.draw().lines().count(), 11);

    let mut marked: TTTField = [None; 9];
    marked.make_move(0, 0);
    marked.make_move(8, 1);
    let drawing = marked.draw();
    let red = "\u{1f7e5}";
    let yellow = "\u{1f7e8}";
    assert!(drawing.starts_with(&format!("{red}{red}{red}{b}")));
    assert!(drawing.ends_with(&format!("{b}{yellow}{yellow}{yellow}\n")));
}

#[test]
fn flatten_xy_is_row_major() {
    assert_eq!(flatten_xy(0, 0), 0);
    assert_eq!(flatten_xy(2, 0), 2);
    assert_eq!(flatten_xy(0, 1), 3);
    assert_eq!(flatten_xy(2, 2), 8);
}

#[test]
fn connect4_column_of_four_wins() {
    let mut board = Connect4::default();
    assert!(board.is_empty());
    assert_eq!(board.make_move(3, 0), GameState::Running);
    assert_eq!(board.make_move(3, 0), GameState::Running);
    assert_eq!(board.make_move(3, 0), GameState::Running);
    assert_eq!(board.make_move(3, 0), GameState::Win(0));
    assert_eq!(board.status(), GameState::Win(0));
    assert!(!board.is_empty());
}

#[test]
fn connect4_full_column_is_invalid() {
    let mut board = Connect4::default();
    for i in 0..6 {
        // alternate so that nobody gets four
        let who = if i % 4 < 2 { 0 } else { 1 };
        assert_ne!(board.make_move(2, who), GameState::Invalid);
    }
    let before = board.clone();
    assert_eq!(board.make_move(2, 0), GameState::Invalid);
    assert_eq!(board, before);
    assert_eq!(board.possible_moves(0), vec![0, 1, 3, 4, 5, 6]);
}

#[test]
fn connect4_out_of_range_is_invalid() {
    let mut board = Connect4::default();
    let before = board.clone();
    assert_eq!(board.make_move(7, 0), GameState::Invalid);
    assert_eq!(board.make_move(usize::MAX, 1), GameState::Invalid);
    assert_eq!(board, before);
}

#[test]
fn connect4_row_and_diagonal_win() {
    let mut row = Connect4::default();
    for x in 0..3 {
        assert_eq!(row.make_move(x, 1), GameState::Running);
    }
    assert_eq!(row.make_move(3, 1), GameState::Win(1));

    let mut diag = Connect4::default();
    // build a staircase for player 0
    let plays = [
        (0usize, 0usize),
        (1, 1), (1, 0),
        (2, 1), (2, 1), (2, 0),
        (3, 1), (3, 1), (3, 1),
    ];
    for (x, p) in plays.iter() {
        assert_eq!(diag.make_move(*x, *p), GameState::Running);
    }
    assert_eq!(diag.make_move(3, 0), GameState::Win(0));
}

#[test]
fn connect4_fills_to_a_tie() {
    // alternating columns that swap colours every second row avoid any four
    let mut board = Connect4::default();
    let mut last = GameState::Running;
    for y in 0..6 {
        for x in 0..7 {
            assert_eq!(last, GameState::Running);
            assert!(!board.filled());
            let who = (x + y / 2) % 2;
            last = board.make_move(x, who);
        }
    }
    assert!(board.filled());
    assert_eq!(last, GameState::Tie);
    assert_eq!(board.status(), GameState::Tie);
    assert_eq!(board.possible_moves(0), Vec::<usize>::new());
}

#[test]
fn connect4_draws_top_row_first() {
    let e = "\u{2b1b}";
    let mut board = Connect4::default();
    let numbers: String = (0..7).map(keycap).collect();
    let empty_row = format!("{}\n", e.repeat(7));
    assert_eq!(board.draw(), format!("{}{}", empty_row.repeat(6), numbers));
    board.make_move(0, 0);
    board.make_move(0, 1);
    let expected = format!(
        "{}{}{}\n{}{}\n{}",
        empty_row.repeat(4),
        "\u{1f7e8}",
        e.repeat(6),
        "\u{1f7e5}",
        e.repeat(6),
        numbers
    );
    assert_eq!(board.draw(), expected);
    assert_eq!(<Connect4 as PvpGame<usize>>::title(), "Connect Four");
    assert!(<Connect4 as BuiltinAi<usize>>::ai().is_none());
}

#[test]
fn n_in_a_row_scans_columns_first() {
    // 3 columns, 2 rows; both players own a line of two
    let field = [[Some(1usize), None], [Some(0), Some(0)], [Some(1), None]];
    let index = |x: usize, y: usize| field[x][y];
    // column 1 holds two of player 0 vertically, but the scan meets (0, 0) of
    // player 1 first, which has no neighbour of its own
    assert_eq!(n_in_a_row(2, 3, &index, 2), GameState::Win(0));
    assert_eq!(n_in_a_row(2, 3, &index, 3), GameState::Running);
    // with one in a row the first owned cell wins
    assert_eq!(n_in_a_row(2, 3, &index, 1), GameState::Win(1));
    assert_eq!(n_in_a_row(2, 3, &index, 0), GameState::Win(1));
    let full = [[Some(0usize), Some(1)], [Some(1), Some(0)]];
    let index = |x: usize, y: usize| full[x][y];
    assert_eq!(n_in_a_row(2, 2, &index, 3), GameState::Tie);
    // diagonals count
    assert_eq!(n_in_a_row(2, 2, &index, 2), GameState::Win(0));
    let empty = |_: usize, _: usize| None;
    assert_eq!(n_in_a_row(6, 7, &empty, 4), GameState::Running);
    assert_eq!(n_in_a_row(0, 0, &empty, 4), GameState::Tie);
}

#[test]
fn pentago_places_and_turns() {
    let mut board = Pentago::default();
    assert!(board.is_empty());
    // a marble in the top left corner, quadrant 0 turned against the clock:
    // the corner moves to the bottom left of the quadrant
    let state = board.make_move(PMove::new(0, 0, 0, Rotation::AntiClockwise), 0);
    assert_eq!(state, GameState::Running);
    let mut expected = Pentago::default();
    expected.make_move(PMove::new(0, 2, 1, Rotation::Clockwise), 0);
    assert_eq!(board, expected);
    // with the clock the corner moves to the top right of the quadrant
    let mut clockwise = Pentago::default();
    clockwise.make_move(PMove::new(0, 0, 0, Rotation::Clockwise), 0);
    let mut expected = Pentago::default();
    expected.make_move(PMove::new(2, 0, 3, Rotation::Clockwise), 0);
    assert_eq!(clockwise, expected);
    // the middle of a quadrant stays
    let mut middle = Pentago::default();
    middle.make_move(PMove::new(4, 4, 3, Rotation::Clockwise), 1);
    let mut expected = Pentago::default();
    expected.make_move(PMove::new(4, 4, 0, Rotation::Clockwise), 1);
    assert_eq!(middle, expected);
}

#[test]
fn pentago_rejects_bad_moves() {
    let mut board = Pentago::default();
    board.make_move(PMove::new(1, 1, 3, Rotation::Clockwise), 0);
    let before = board.clone();
    assert_eq!(board.make_move(PMove::new(1, 1, 3, Rotation::Clockwise), 1), GameState::Invalid);
    assert_eq!(board.make_move(PMove::new(6, 0, 0, Rotation::Clockwise), 1), GameState::Invalid);
    assert_eq!(board.make_move(PMove::new(0, 6, 0, Rotation::Clockwise), 1), GameState::Invalid);
    assert_eq!(board.make_move(PMove::new(0, 0, 4, Rotation::Clockwise), 1), GameState::Invalid);
    assert_eq!(board, before);
}

#[test]
fn pentago_five_in_a_row_wins_before_the_turn() {
    let mut board = Pentago::default();
    // player 0 fills the middle row of the board from the left; the turns
    // are made in the bottom right quadrant, whose cells stay empty
    for x in 0..4 {
        assert_eq!(
            board.make_move(PMove::new(x, 1, 3, Rotation::Clockwise), 0),
            GameState::Running
        );
    }
    // the fifth marble wins although the move would turn quadrant 0 away
    let state = board.make_move(PMove::new(4, 1, 0, Rotation::Clockwise), 0);
    assert_eq!(state, GameState::Win(0));
    assert_eq!(board.status(), GameState::Win(0));
}

#[test]
fn pentago_lists_all_moves() {
    let mut board = Pentago::default();
    let moves = board.possible_moves(0);
    assert_eq!(moves.len(), 288);
    assert_eq!(moves[0], PMove::new(0, 0, 0, Rotation::AntiClockwise));
    assert_eq!(moves[1], PMove::new(0, 0, 0, Rotation::Clockwise));
    assert_eq!(moves[2], PMove::new(0, 0, 1, Rotation::AntiClockwise));
    assert_eq!(moves[8], PMove::new(0, 1, 0, Rotation::AntiClockwise));
    assert_eq!(moves[287], PMove::new(5, 5, 3, Rotation::Clockwise));
    board.make_move(PMove::new(4, 4, 3, Rotation::Clockwise), 1);
    let moves = board.possible_moves(0);
    assert_eq!(moves.len(), 280);
    for m in moves.iter() {
        let mut trial = board.clone();
        assert_ne!(trial.make_move(*m, 0), GameState::Invalid);
    }
    assert!(!moves.iter().any(|m| m.x == 4 && m.y == 4));
}

#[test]
fn pentago_parses_typed_moves() {
    assert_eq!(PMove::parse("314A"), Some(PMove::new(2, 0, 3, Rotation::AntiClockwise)));
    assert_eq!(PMove::parse("314a"), Some(PMove::new(2, 0, 3, Rotation::AntiClockwise)));
    assert_eq!(PMove::parse("314C"), Some(PMove::new(2, 0, 3, Rotation::Clockwise)));
    assert_eq!(PMove::parse("661x and more"), Some(PMove::new(5, 5, 0, Rotation::Clockwise)));
    assert_eq!(PMove::parse("31A"), None);
    assert_eq!(PMove::parse(""), None);
    assert_eq!(PMove::parse("a14C"), None);
    assert_eq!(PMove::parse("3b4C"), None);
    assert_eq!(PMove::parse("31cC"), None);
    // the digit 0 names no place: the board rejects the move
    let zero = PMove::parse("014A").unwrap();
    assert_eq!(zero.x, usize::MAX);
    let mut board = Pentago::default();
    assert_eq!(board.make_move(zero, 0), GameState::Invalid);
}

#[test]
fn pentago_draws_board_and_legend() {
    let black = square(Color::Black);
    let blue = square(Color::Blue);
    let board = Pentago::default();
    let mut border = String::from(blue);
    for x in 1..=6 {
        border += &keycap(x);
        border += blue;
    }
    border += "\n";
    let mut expected = border.clone();
    for y in 0..6 {
        expected += &keycap(y + 1);
        for x in 0..6 {
            expected += black;
            if x == 2 {
                expected += blue;
            } else if x != 5 {
                expected += black;
            }
        }
        expected += &keycap(y + 1);
        expected += "\n";
        if y != 5 {
            expected += blue;
            for x in 0..11 {
                expected += if y == 2 || x == 5 { blue } else { black };
            }
            expected += blue;
            expected += "\n";
        }
    }
    expected += &border;
    expected += "\n\nSubfield layout:\n";
    expected += &keycap(1);
    expected += &keycap(2);
    expected += "\n";
    expected += &keycap(3);
    expected += &keycap(4);
    assert_eq!(board.draw(), expected);

    let mut marked = Pentago::default();
    marked.make_move(PMove::new(0, 0, 3, Rotation::Clockwise), 0);
    marked.make_move(PMove::new(5, 0, 3, Rotation::Clockwise), 1);
    let drawing = marked.draw();
    let second_line = drawing.lines().nth(1).unwrap();
    assert!(second_line.starts_with(&format!("{}{}{}", keycap(1), circle(Color::Yellow), black)));
    assert!(second_line.ends_with(&format!("{}{}", circle(Color::Red), keycap(1))));
    assert_eq!(
        <Pentago as PvpGame<PMove>>::figures(),
        vec![String::from("\u{1f7e1}"), String::from("\u{1f534}")]
    );
    assert_eq!(<Pentago as PvpGame<PMove>>::title(), "Pentago");
}

#[test]
fn ultimate_move_selects_next_board() {
    let mut game = UltimateGame::new();
    assert!(game.is_empty());
    assert_eq!(game.cell(), 0);
    assert_eq!(game.make_move(4, 0), GameState::Running);
    assert_eq!(game.cell(), 4);
    assert!(!game.is_empty());
    assert_eq!(game.make_move(4, 1), GameState::Running);
    assert_eq!(game.cell(), 4);
    let before = game.clone();
    assert_eq!(game.make_move(4, 0), GameState::Invalid);
    assert_eq!(game.make_move(9, 0), GameState::Invalid);
    assert_eq!(game, before);
    assert_eq!(game.possible_moves(0), vec![0, 1, 2, 3, 5, 6, 7, 8]);
}

#[test]
fn ultimate_skips_decided_boards() {
    let mut game = UltimateGame::new();
    // player 1 wins board 0 by its middle row
    assert_eq!(game.make_move(0, 0), GameState::Running); // board 0 -> board 0
    assert_eq!(game.make_move(4, 1), GameState::Running); // board 0 -> board 4
    assert_eq!(game.make_move(0, 0), GameState::Running); // board 4 -> board 0
    assert_eq!(game.make_move(8, 1), GameState::Running); // board 0 -> board 8
    assert_eq!(game.make_move(0, 0), GameState::Running); // board 8 -> board 0
    assert_eq!(game.cell(), 0);
    assert_eq!(game.make_move(3, 1), GameState::Running); // board 0 -> board 3
    assert_eq!(game.make_move(0, 0), GameState::Running); // board 3 -> board 0
    assert_eq!(game.cell(), 0);
    assert_eq!(game.make_move(5, 1), GameState::Running); // player 1 wins board 0
    // the move points at board 5; board 0 is decided now
    assert_eq!(game.cell(), 5);
    assert_eq!(game.make_move(0, 0), GameState::Running); // board 5 -> board 0, decided
    // the next undecided board in index order is board 1
    assert_eq!(game.cell(), 1);
}

#[test]
fn ultimate_big_line_wins() {
    let mut game = UltimateGame::new();
    let mut player = 0;
    let mut state = GameState::Running;
    let mut count = 0;
    // both players always take the first listed move
    while state == GameState::Running {
        let moves = game.possible_moves(player);
        assert!(!moves.is_empty());
        state = game.make_move(moves[0], player);
        assert_ne!(state, GameState::Invalid);
        player = 1 - player;
        count += 1;
        assert!(count <= 81);
    }
    assert!(state.is_finished());
    assert_eq!(game.status(), state);
    assert_eq!(game.cell(), 10);
    assert_eq!(game.possible_moves(0), Vec::<usize>::new());
    let before = game.clone();
    assert_eq!(game.make_move(0, 0), GameState::Invalid);
    assert_eq!(game, before);
    match state {
        GameState::Win(p) => assert!(p < 2),
        GameState::Tie => {}
        _ => unreachable!(),
    }
}

#[test]
fn ultimate_draws_selection_numbers() {
    let e = "\u{2b1b}";
    let b = "\u{2b1c}";
    let game = UltimateGame::new();
    let drawing = game.draw();
    let lines: Vec<&str> = drawing.split('\n').collect();
    // 3 * 3 board lines, 2 border lines, and an empty line at the end
    assert_eq!(lines.len(), 13);
    assert_eq!(
        lines[0],
        format!("{}{}{}{b}{e}{e}{e}{b}{e}{e}{e}", keycap(1), keycap(2), keycap(3))
    );
    assert_eq!(
        lines[1],
        format!("{}{}{}{b}{e}{e}{e}{b}{e}{e}{e}", keycap(4), keycap(5), keycap(6))
    );
    assert_eq!(lines[3], b.repeat(11));
    assert_eq!(lines[4], format!("{e}{e}{e}{b}{e}{e}{e}{b}{e}{e}{e}"));
    assert_eq!(lines[11], "");
    assert_eq!(lines[12], "");
    assert_eq!(<UltimateGame as PvpGame<usize>>::title(), "Ultimate Tic Tac Toe");
    assert!(<UltimateGame as BuiltinAi<usize>>::ai().is_some());
}

#[test]
fn symbols_are_single_emoji() {
    assert_eq!(square(Color::White), "\u{2b1c}");
    assert_eq!(square(Color::Black), "\u{2b1b}");
    assert_eq!(square(Color::Red), "\u{1f7e5}");
    assert_eq!(square(Color::Brown), "\u{1f7eb}");
    assert_eq!(circle(Color::White), "\u{26aa}\u{fe0f}");
    assert_eq!(circle(Color::Red), "\u{1f534}");
    assert_eq!(circle(Color::Blue), "\u{1f535}");
    assert_eq!(circle(Color::Yellow), "\u{1f7e1}");
    for n in 0..10 {
        assert_eq!(number_emoji(n), keycap(n));
    }
}

#[test]
fn preview_leaves_the_board_alone() {
    let mut board: TTTField = [None; 9];
    board.make_move(4, 0);
    let before = board;
    let (next, state) = preview(&board, 0, 1);
    assert_eq!(state, GameState::Running);
    assert_eq!(next[0], Some(1));
    assert_eq!(board, before);
    let (same, state) = preview(&board, 4, 1);
    assert_eq!(state, GameState::Invalid);
    assert_eq!(same, before);

    let game = Connect4::default();
    let (next, state) = preview(&game, 3, 0);
    assert_eq!(state, GameState::Running);
    assert!(game.is_empty());
    assert!(!next.is_empty());

    let mut penta = Pentago::default();
    penta.make_move(PMove::new(1, 1, 0, Rotation::Clockwise), 0);
    let copy = penta.clone();
    let (_, state) = preview(&penta, PMove::new(0, 0, 0, Rotation::Clockwise), 1);
    assert_eq!(state, GameState::Running);
    assert_eq!(penta, copy);

    let ult = UltimateGame::new();
    let (next, _) = preview(&ult, 8, 0);
    assert_eq!(next.cell(), 8);
    assert_eq!(ult.cell(), 0);
    assert!(ult.is_empty());
}

#[test]
fn status_never_changes_a_board() {
    let mut game = Connect4::default();
    game.make_move(1, 0);
    game.make_move(1, 1);
    let before = game.clone();
    assert_eq!(game.status(), game.status());
    assert_eq!(game, before);

    let mut penta = Pentago::default();
    penta.make_move(PMove::new(2, 3, 1, Rotation::AntiClockwise), 1);
    let before = penta.clone();
    assert_eq!(penta.status(), penta.status());
    assert_eq!(penta, before);

    let mut ult = UltimateGame::new();
    ult.make_move(3, 0);
    let before = ult.clone();
    assert_eq!(ult.status(), ult.status());
    assert_eq!(ult, before);
}
