use board_games::connect4::Connect4;
use board_games::game::{AiPlayer, PvpGame};
use board_games::mcts::{
    best_child, first_max, rated_above, roll_out, tally, Child, Stat, Tree, TreeSearchAi,
    Valuation,
};
use board_games::minimax::{minimax, Minimax, MinimaxAi, HALF, ONE};
use board_games::random_ai::RandomPlayer;
use board_games::state::GameState;
use board_games::tictactoe::{TTTField, TTTAI};
use board_games::ultimate::{UltimateGame, UltimateMMAI};
use rand::rngs::StdRng;
use rand::SeedableRng;

fn ucb(stat: &Stat, rollouts: usize) -> i64 {
    let (win, loss, tie) = (stat.win as f64, stat.loss as f64, stat.tie as f64);
    let n = win + loss + tie + 1.0;
    let x = (win - loss) / n;
    let r = ((rollouts.max(1) as f64).ln() / n).sqrt();
    ((x + 0.5 * r) * 1_000_000.0) as i64
}

fn by_losses(stat: &Stat, _: usize) -> i64 {
    stat.loss as i64
}

fn board(marks: &str) -> TTTField {
    let mut field: TTTField = [None; 9];
    for (i, c) in marks.chars().filter(|c| !c.is_whitespace()).enumerate() {
        field[i] = match c {
            'x' => Some(0),
            'o' => Some(1),
            _ => None,
        };
    }
    field
}

#[test]
fn minimax_opens_with_the_default_move() {
    let empty: TTTField = [None; 9];
    assert_eq!(minimax(&TTTAI, &empty, 0, 10), (HALF, 0));
    assert_eq!(minimax(&TTTAI, &empty, 1, 0), (HALF, 0));
}

#[test]
fn minimax_rates_decided_boards() {
    let won = board("xxx oo. ...");
    assert_eq!(minimax(&TTTAI, &won, 0, 9), (ONE, 0));
    assert_eq!(minimax(&TTTAI, &won, 1, 9), (0, 0));
    let tied = board("xox xoo oxx");
    assert_eq!(tied.status(), GameState::Tie);
    assert_eq!(minimax(&TTTAI, &tied, 0, 9), (HALF, 0));
}

#[test]
fn minimax_takes_the_win() {
    // x to move can complete the top row at 2
    let field = board("xx. oo. ...");
    assert_eq!(minimax(&TTTAI, &field, 0, 9), (ONE, 2));
    // o to move can complete the middle column at 1
    let field = board("x.x .o. .o.");
    assert_eq!(minimax(&TTTAI, &field, 1, 9), (ONE, 1));
    // among moves of equal value the first listed one is kept: blocking at 2
    // leaves x without a defence and is listed before the win at 5
    let field = board("xx. oo. ...");
    assert_eq!(minimax(&TTTAI, &field, 1, 9), (ONE, 2));
}

#[test]
fn minimax_blocks_to_draw() {
    // o threatens the middle row; x must block at 5 and then draws at best
    let field = board("x.. oo. ..x");
    let (score, action) = minimax(&TTTAI, &field, 0, 9);
    assert_eq!(action, 5);
    assert!(score >= HALF);
}

#[test]
fn minimax_at_depth_zero_asks_the_evaluator() {
    let field = board("x.. ... ...");
    assert_eq!(minimax(&TTTAI, &field, 1, 0), (0, 0));
    // one ply deep every reply is rated ONE - 0 by the evaluator, the first wins
    assert_eq!(minimax(&TTTAI, &field, 1, 1), (ONE, 1));
}

#[test]
fn minimax_keeps_the_first_move_when_everything_loses() {
    // o has two open lines; whatever x does, o wins: the value is 0 and the
    // move is the first listed one
    let field = board("o.o xo. x..");
    assert_eq!(field.possible_moves(0), vec![1, 5, 7, 8]);
    assert_eq!(minimax(&TTTAI, &field, 0, 9), (0, 1));
    // x threatens both 6 and 8: o loses whatever it does
    let field = board("xox ox. ...");
    assert_eq!(field.possible_moves(1), vec![5, 6, 7, 8]);
    assert_eq!(minimax(&TTTAI, &field, 1, 9), (0, 5));
    // the move of a lost position is one that the board accepts
    let mut next = field;
    assert_ne!(next.make_move(5, 1), GameState::Invalid);
}

#[test]
fn minimax_against_itself_ties() {
    let mut field: TTTField = [None; 9];
    let mut players = [Minimax(TTTAI), Minimax(TTTAI)];
    let mut turn = 0;
    let mut state = GameState::Running;
    let mut plies = 0;
    while state == GameState::Running {
        let action = players[turn].make_move(&field, turn);
        state = field.make_move(action, turn);
        assert_ne!(state, GameState::Invalid);
        turn = 1 - turn;
        plies += 1;
        assert!(plies <= 9);
    }
    assert_eq!(state, GameState::Tie);
}

#[test]
fn minimax_never_loses_to_any_opponent() {
    // the search sits at seat 1; the opponent tries every sequence of moves
    fn explore(field: TTTField, ai: &mut Minimax<TTTAI>) {
        for action in field.possible_moves(0) {
            let mut next = field;
            match next.make_move(action, 0) {
                GameState::Running => {
                    let reply = ai.make_move(&next, 1);
                    let state = next.make_move(reply, 1);
                    assert_ne!(state, GameState::Invalid);
                    assert_ne!(state, GameState::Win(0));
                    if state == GameState::Running {
                        explore(next, ai);
                    }
                }
                GameState::Win(p) => assert_ne!(p, 0, "the opponent won"),
                _ => {}
            }
        }
    }
    let mut ai = Minimax(TTTAI);
    explore([None; 9], &mut ai);
}

#[test]
fn evaluators_report_their_settings() {
    let field = board("x.. ... ...");
    assert_eq!(TTTAI.rate(&field, 0), 0);
    assert_eq!(TTTAI.depth(), 9);
    assert_eq!(TTTAI.default_move(), 0);
    assert_eq!(UltimateMMAI.depth(), 0);
    assert_eq!(UltimateMMAI.default_move(), 0);
}

#[test]
fn ultimate_rating_sums_the_small_boards() {
    // nine empty small boards are worth HALF each
    let game = UltimateGame::new();
    assert_eq!(UltimateMMAI.rate(&game, 0), 9 * HALF);
    let mut played = UltimateGame::new();
    played.make_move(4, 0);
    // board 0 with x in the middle is a draw for o with best play, the
    // others are empty
    assert_eq!(UltimateMMAI.rate(&played, 1), 9 * HALF);
    // the search of the big board at depth 1 starts with the opening move
    assert_eq!(minimax(&UltimateMMAI, &game, 0, 1), (HALF, 0));
    let (score, action) = minimax(&UltimateMMAI, &played, 1, 1);
    assert!(played.possible_moves(1).contains(&action) || score == 0);
}

#[test]
fn random_player_plays_listed_moves() {
    let mut player: RandomPlayer<TTTField> = RandomPlayer::new(StdRng::seed_from_u64(7));
    let field = board("xo. ... ...");
    let mut seen = [false; 9];
    for _ in 0..200 {
        let action = player.make_move(&field, 0);
        assert!(field.possible_moves(0).contains(&action));
        seen[action] = true;
    }
    // a shuffle reaches more than the first listed move
    assert!(seen.iter().filter(|s| **s).count() > 1);
    assert!(!seen[0] && !seen[1]);
}

#[test]
fn random_player_from_entropy_plays() {
    let mut player: RandomPlayer<UltimateGame> = RandomPlayer::from_entropy();
    let game = UltimateGame::new();
    let action = player.make_move(&game, 0);
    assert!(action < 9);
}

#[test]
fn stat_inverts_and_accumulates() {
    let stat = Stat { win: 3, loss: 1, tie: 2 };
    assert_eq!(stat.invert(), Stat { win: 1, loss: 3, tie: 2 });
    let mut sum = Stat::zero();
    sum.accumulate(&stat);
    sum.accumulate(&stat.invert());
    assert_eq!(sum, Stat { win: 4, loss: 4, tie: 4 });
    assert_eq!(tally(GameState::Win(1), 1), Stat { win: 1, loss: 0, tie: 0 });
    assert_eq!(tally(GameState::Win(0), 1), Stat { win: 0, loss: 1, tie: 0 });
    assert_eq!(tally(GameState::Tie, 0), Stat { win: 0, loss: 0, tie: 1 });
    assert_eq!(tally(GameState::Running, 0), Stat::zero());
}

#[test]
fn ratings_compare_exactly() {
    let zero = Stat::zero();
    let good = Stat { win: 3, loss: 1, tie: 0 }; // 2 / 5
    let better = Stat { win: 1, loss: 0, tie: 0 }; // 1 / 2
    let bad = Stat { win: 0, loss: 1, tie: 5 }; // -1 / 7
    assert!(rated_above(&good, &zero));
    assert!(rated_above(&better, &good));
    assert!(!rated_above(&good, &better));
    assert!(rated_above(&zero, &bad));
    assert!(!rated_above(&zero, &zero));
    // 1 / 3 against 2 / 6: equal ratings are not above each other
    let a = Stat { win: 1, loss: 0, tie: 1 };
    let b = Stat { win: 2, loss: 0, tie: 3 };
    assert!(!rated_above(&a, &b));
    assert!(!rated_above(&b, &a));
}

#[test]
fn first_max_prefers_the_earliest() {
    assert_eq!(first_max(&vec![]), 0);
    assert_eq!(first_max(&vec![5]), 0);
    assert_eq!(first_max(&vec![1, 7, 3, 7]), 1);
    assert_eq!(first_max(&vec![i64::MIN, i64::MIN]), 0);
    assert_eq!(first_max(&vec![-3, -2, -2]), 1);
}

#[test]
fn tree_starts_with_the_listed_moves() {
    let field = board("xo. ... ...");
    let tree = Tree::new(&field, 0);
    assert_eq!(tree.stat, Stat::zero());
    let moves: Vec<usize> = tree.children.iter().map(|c| c.0).collect();
    assert_eq!(moves, field.possible_moves(0));
    assert!(tree.children.iter().all(|c| c.1.is_none()));
    assert!(!tree.expanded());
    assert!(!tree.visited());
    assert_eq!(tree.child_stat(0), Stat::zero());
}

#[test]
fn roll_out_counts_one_game() {
    let mut rng = StdRng::seed_from_u64(11);
    let field: TTTField = [None; 9];
    let mut sum = Stat::zero();
    for _ in 0..50 {
        let stat = roll_out(&mut rng, &field, 0);
        assert_eq!(stat.win + stat.loss + stat.tie, 1);
        sum.accumulate(&stat);
    }
    assert_eq!(sum.win + sum.loss + sum.tie, 50);
    // a decided board counts as it stands
    let won = board("xxx oo. ...");
    assert_eq!(roll_out(&mut rng, &won, 0), Stat { win: 1, loss: 0, tie: 0 });
    assert_eq!(roll_out(&mut rng, &won, 1), Stat { win: 0, loss: 1, tie: 0 });
}

fn count_nodes(tree: &Tree) -> usize {
    1 + tree
        .children
        .iter()
        .map(|c| c.1.as_ref().map_or(0, count_nodes))
        .sum::<usize>()
}

fn check_counts(tree: &Tree) {
    // every playout through a child went through its parent
    let below: usize = tree
        .children
        .iter()
        .map(|c| c.1.as_ref().map_or(0, |t| t.stat.win + t.stat.loss + t.stat.tie))
        .sum();
    assert!(below <= tree.stat.win + tree.stat.loss + tree.stat.tie);
    for child in tree.children.iter() {
        if let Some(t) = &child.1 {
            check_counts(t);
        }
    }
}

#[test]
fn improve_counts_every_playout_once() {
    let mut rng = StdRng::seed_from_u64(3);
    let select = Valuation::new(ucb);
    let field = board("x.. .o. ...");
    let mut tree = Tree::new(&field, 0);
    let mut expansions = 0;
    for rollouts in 0..300 {
        let nodes = count_nodes(&tree);
        let before = tree.stat;
        let back = tree.improve(rollouts, &mut rng, &select, field, 0);
        assert_eq!(back.win + back.loss + back.tie, 1);
        assert_eq!(tree.stat.win, before.win + back.loss);
        assert_eq!(tree.stat.loss, before.loss + back.win);
        assert_eq!(tree.stat.tie, before.tie + back.tie);
        let grown = count_nodes(&tree) - nodes;
        assert!(grown <= 1);
        expansions += grown;
    }
    assert_eq!(tree.stat.win + tree.stat.loss + tree.stat.tie, 300);
    // some steps expand a child and some play out from the node itself
    assert!(expansions > 0 && expansions < 300);
    assert!(tree.visited());
    assert!(tree.expanded());
    check_counts(&tree);
    let moves: Vec<usize> = tree.children.iter().map(|c| c.0).collect();
    assert_eq!(moves, field.possible_moves(0));
}

#[test]
fn best_child_takes_the_best_rating() {
    let field = board("x.. ... ...");
    let mut tree = Tree::new(&field, 1);
    // untouched: every child is rated 0, the first one wins
    assert_eq!(best_child(&tree, &field, 1), Some(0));
    tree.children[3].1 = Some(Tree { stat: Stat { win: 4, loss: 1, tie: 0 }, children: vec![] });
    tree.children[5].1 = Some(Tree { stat: Stat { win: 4, loss: 1, tie: 0 }, children: vec![] });
    tree.children[1].1 = Some(Tree { stat: Stat { win: 0, loss: 3, tie: 0 }, children: vec![] });
    assert_eq!(best_child(&tree, &field, 1), Some(3));
    // a child whose move the board rejects is passed over
    let stale = Tree {
        stat: Stat::zero(),
        children: vec![
            Child(0, Some(Tree { stat: Stat { win: 9, loss: 0, tie: 0 }, children: vec![] })),
            Child(2, None),
            Child(4, Some(Tree { stat: Stat { win: 1, loss: 0, tie: 0 }, children: vec![] })),
        ],
    };
    assert_eq!(best_child(&stale, &field, 1), Some(2));
    let none = Tree { stat: Stat::zero(), children: vec![Child(0, None), Child(9, None)] };
    assert_eq!(best_child(&none, &field, 1), None);
}

#[test]
fn tree_search_plays_an_accepted_move() {
    let mut ai: TreeSearchAi<TTTField, _> =
        TreeSearchAi::new(30, StdRng::seed_from_u64(5), Valuation::new(ucb));
    let field = board("xx. oo. ...");
    let action = ai.make_move(&field, 0);
    assert!(field.possible_moves(0).contains(&action));
    // without time to think the first listed move is played
    let mut hasty: TreeSearchAi<TTTField, _> =
        TreeSearchAi::new(0, StdRng::seed_from_u64(5), Valuation::new(ucb));
    assert_eq!(hasty.make_move(&field, 0), 2);
}

#[test]
fn tree_search_plays_connect_four() {
    let mut ai: TreeSearchAi<Connect4, _> =
        TreeSearchAi::new(20, StdRng::seed_from_u64(1), Valuation::new(ucb));
    let mut game = Connect4::default();
    let mut turn = 0;
    let mut state = GameState::Running;
    let mut plies = 0;
    while state == GameState::Running && plies < 6 {
        let action = ai.make_move(&game, turn);
        state = game.make_move(action, turn);
        assert_ne!(state, GameState::Invalid);
        turn = 1 - turn;
        plies += 1;
    }
}

#[test]
fn grow_follows_the_given_draws() {
    let mut rng = StdRng::seed_from_u64(21);
    let select = Valuation::new(ucb);
    let field = board("x.. .o. ...");
    let mut tree = Tree::new(&field, 0);
    assert_eq!(tree.children.len(), 7);
    // without the coin no child is expanded and the node itself is played out
    let back = tree.grow(0, &mut rng, &select, field, 0, false, 5);
    assert!(tree.children.iter().all(|c| c.1.is_none()));
    assert_eq!(back.win + back.loss + back.tie, 1);
    assert_eq!(tree.stat, back.invert());
    // with the coin the draw picks among the unexpanded children: 9 % 7 = 2
    let before = tree.stat;
    let back = tree.grow(1, &mut rng, &select, field, 0, true, 9);
    for (i, child) in tree.children.iter().enumerate() {
        assert_eq!(child.1.is_some(), i == 2);
    }
    let opened = tree.children[2].1.as_ref().unwrap();
    assert_eq!(opened.stat, back);
    assert!(opened.children.iter().all(|c| c.1.is_none()));
    assert_eq!(tree.stat.win, before.win + back.loss);
    assert_eq!(tree.stat.loss, before.loss + back.win);
    assert_eq!(tree.stat.tie, before.tie + back.tie);
    // the next draw counts round the six that are left: 2 % 6 = 2, the third
    // of them, which is the child at 3
    tree.grow(2, &mut rng, &select, field, 0, true, 2);
    assert!(tree.children[3].1.is_some());
    assert_eq!(tree.children.iter().filter(|c| c.1.is_some()).count(), 2);
}

#[test]
fn grow_descends_into_the_most_valued_child() {
    let mut rng = StdRng::seed_from_u64(4);
    // a node for a finished game has no children
    let field = board("xox oxo o.x");
    assert_eq!(field.status(), GameState::Win(0));
    let leaf = Tree::new(&field, 1);
    assert!(leaf.children.is_empty());

    let field = board("xox oxo o..");
    let mut tree = Tree::new(&field, 0);
    assert_eq!(tree.children.len(), 2);
    let prefer_losses = Valuation::new(by_losses);
    tree.grow(0, &mut rng, &prefer_losses, field, 0, true, 0);
    tree.grow(1, &mut rng, &prefer_losses, field, 0, true, 0);
    assert!(tree.expanded());
    let counts: Vec<Stat> = (0..2).map(|i| tree.child_stat(i)).collect();
    // x at 7 leaves a tie at best, x at 8 wins: the child after 8 holds a loss
    // for o, and the valuation by losses prefers it
    assert_eq!(counts[1], Stat { win: 0, loss: 1, tie: 0 });
    let back = tree.grow(2, &mut rng, &prefer_losses, field, 0, false, 0);
    assert_eq!(tree.child_stat(0), counts[0]);
    assert_eq!(tree.child_stat(1), Stat { win: 0, loss: 2, tie: 0 });
    assert_eq!(back, Stat { win: 0, loss: 1, tie: 0 });
}

#[test]
fn the_search_values_its_first_boards_at_half_or_more() {
    // at seat 1: whatever the opponent opens with
    for first in 0..9 {
        let mut field: TTTField = [None; 9];
        assert_eq!(field.make_move(first, 0), GameState::Running);
        let (score, action) = minimax(&TTTAI, &field, 1, 10);
        assert!(score >= HALF);
        assert!(field.possible_moves(1).contains(&action));
    }
    // at seat 0: after its opening move and whatever the opponent answers
    let empty: TTTField = [None; 9];
    let (_, opening) = minimax(&TTTAI, &empty, 0, 10);
    for reply in 0..9 {
        let mut field: TTTField = [None; 9];
        assert_eq!(field.make_move(opening, 0), GameState::Running);
        if field.make_move(reply, 1) == GameState::Invalid {
            continue;
        }
        let (score, action) = minimax(&TTTAI, &field, 0, 10);
        assert!(score >= HALF);
        assert!(field.possible_moves(0).contains(&action));
    }
}
