//! Ultimate Tic Tac Toe: a 3×3 board of 3×3 boards. Where a player moves in a
//! small board decides in which small board the opponent moves next; a small
//! board that is won counts as a mark on the big board.

use vstd::prelude::*;
use crate::game::{indices_where_drop, indices_where_lists, AiPlayer, BuiltinAi, PvpGame};
use crate::minimax::{minimax, search, search_is_bounded, MinimaxAi, ONE};
use crate::random_ai::RandomPlayer;
use crate::state::GameState;
use crate::symbols::{
    border_str, border_symbol, empty_str, empty_symbol, number_str, number_symbol, tie_str,
    tie_symbol,
};
use crate::tictactoe::{
    border_run, draw_border_run, field_state, first_owner, first_owner_is_mark, free_places,
    line_cell, line_owner, marks_are_players, none_marked, square_figure, square_figures, TTTAI,
    TTTField,
};

verus! {

/// The nine small boards, numbered row by row like the places of one board.
pub type Boards = Seq<Seq<Option<usize>>>;

/// The big board and the number of the small board in which the next move is
/// made; once the game is over that number is 10.
#[derive(Debug, PartialEq, Eq)]
pub struct UltimateGame {
    field: [TTTField; 9],
    cell: usize,
}

/// The marks on the big board: a small board that a player has won is that
/// player's mark; a small board that is running or tied is nobody's.
pub open spec fn big_marks(boards: Boards) -> Seq<Option<usize>> {
    Seq::new(9, |i: int| field_state(boards[i]).winner_of())
}

/// Every small board is won or tied.
pub open spec fn all_decided(boards: Boards) -> bool {
    forall|i: int| 0 <= i < 9 ==> (#[trigger] field_state(boards[i])).finished()
}

/// Won by the player whose small boards fill a line of the big board; else
/// tied when every small board is decided; else running.
pub open spec fn big_state(boards: Boards) -> GameState {
    match first_owner(big_marks(boards), 0) {
        Some(p) => GameState::Win(p),
        None => if all_decided(boards) {
            GameState::Tie
        } else {
            GameState::Running
        },
    }
}

/// The small board to play in after a move onto the place `pos`: the first
/// running one among the boards `pos + i`, `pos + i + 1`, ... counted round
/// the nine boards, and `pos` itself where none is running.
pub open spec fn next_target(boards: Boards, pos: int, i: int) -> int
    decreases 9 - i,
{
    if i < 0 || i >= 9 {
        pos
    } else if field_state(boards[(pos + i) % 9]) is Running {
        (pos + i) % 9
    } else {
        next_target(boards, pos, i + 1)
    }
}

/// What is drawn for the place `i` of the small board `o`: the winner's
/// symbol all over a won board, the tie symbol all over a tied one;
/// otherwise the mark of the place, or on a free place its number if the
/// board is the one to play in, and the empty symbol if it is not.
#[verifier::opaque]
pub open spec fn small_symbol(boards: Boards, cell: int, o: int, i: int) -> Seq<char> {
    match field_state(boards[o]) {
        GameState::Win(p) => square_figure(p as int),
        GameState::Tie => tie_symbol(),
        _ => match boards[o][i] {
            Some(p) => square_figure(p as int),
            None => if o == cell {
                number_symbol(i + 1)
            } else {
                empty_symbol()
            },
        },
    }
}

/// The row `iy` of the small board in column `x` of the big row `y`, and
/// behind all but the last a border.
#[verifier::opaque]
pub open spec fn small_line(boards: Boards, cell: int, x: int, y: int, iy: int) -> Seq<char> {
    small_symbol(boards, cell, 3 * y + x, 3 * iy) + small_symbol(
        boards,
        cell,
        3 * y + x,
        3 * iy + 1,
    ) + small_symbol(boards, cell, 3 * y + x, 3 * iy + 2) + (if x < 2 {
        border_symbol()
    } else {
        Seq::empty()
    })
}

/// One text line across the three small boards of the big row `y`.
#[verifier::opaque]
pub open spec fn big_line(boards: Boards, cell: int, y: int, iy: int) -> Seq<char> {
    small_line(boards, cell, 0, y, iy) + small_line(boards, cell, 1, y, iy) + small_line(
        boards,
        cell,
        2,
        y,
        iy,
    ) + "\n"@
}

/// The three text lines of the big row `y`; below rows 0 and 1 follows a line
/// of eleven borders, below row 2 an empty line.
#[verifier::opaque]
pub open spec fn big_band(boards: Boards, cell: int, y: int) -> Seq<char> {
    big_line(boards, cell, y, 0) + big_line(boards, cell, y, 1) + big_line(boards, cell, y, 2)
        + (if y < 2 {
        border_run(11)
    } else {
        Seq::empty()
    }) + "\n"@
}

pub open spec fn big_drawing(boards: Boards, cell: int) -> Seq<char> {
    big_band(boards, cell, 0) + big_band(boards, cell, 1) + big_band(boards, cell, 2)
}

/// Where some small board is running, `next_target` finds a running one.
pub proof fn next_target_finds(boards: Boards, pos: int, i: int, j: int)
    requires
        0 <= pos < 9,
        0 <= i <= j < 9,
        field_state(boards[(pos + j) % 9]) is Running,
    ensures
        0 <= next_target(boards, pos, i) < 9,
        field_state(boards[next_target(boards, pos, i)]) is Running,
    decreases 9 - i,
{
    if !(field_state(boards[(pos + i) % 9]) is Running) {
        next_target_finds(boards, pos, i + 1, j);
    }
}

impl UltimateGame {
    /// The nine small boards.
    pub closed spec fn boards(&self) -> Boards {
        Seq::new(9, |i: int| self.field[i]@)
    }

    /// The small board in which the next move is made.
    pub closed spec fn target(&self) -> int {
        self.cell as int
    }

    /// The board with `mark` on the place `pos` of the small board `o`, and
    /// `cell` as the board to play in.
    pub closed spec fn with_mark(&self, o: int, pos: int, mark: usize, cell: usize) -> Self {
        UltimateGame {
            field: vstd::array::spec_array_update(
                self.field,
                o,
                vstd::array::spec_array_update(self.field[o], pos, Some(mark)),
            ),
            cell,
        }
    }

    /// A mark changes the one place it is put on.
    pub proof fn with_mark_changes_one(&self, o: int, pos: int, mark: usize, cell: usize)
        requires
            0 <= o < 9,
            0 <= pos < 9,
        ensures
            self.with_mark(o, pos, mark, cell).target() == cell,
            self.with_mark(o, pos, mark, cell).boards() == self.boards().update(
                o,
                self.boards()[o].update(pos, Some(mark)),
            ),
            self.boards().len() == 9,
            forall|i: int| 0 <= i < 9 ==> (#[trigger] self.boards()[i]).len() == 9,
    {
        assert(self.with_mark(o, pos, mark, cell).boards() =~= self.boards().update(
            o,
            self.boards()[o].update(pos, Some(mark)),
        ));
    }

    pub fn new() -> (game: Self)
        ensures
            game.is_fresh(),
            game.wf(),
    {
        let free: Option<usize> = None;
        let game = UltimateGame { field: [[free; 9]; 9], cell: 0 };
        proof {
            assert forall|i: int| 0 <= i < 9 implies none_marked(#[trigger] game.boards()[i]) by {}
            fresh_field_is_running(game.boards()[0]);
            assert forall|i: int| 0 <= i < 9 implies !(#[trigger] field_state(
                game.boards()[i],
            )).finished() by {
                fresh_field_is_running(game.boards()[i]);
            }
            assert(big_marks(game.boards()) =~= Seq::new(9, |i: int| None::<usize>));
            assert(!all_decided(game.boards())) by {
                assert(!field_state(game.boards()[0]).finished());
            }
            fresh_field_is_running(big_marks(game.boards()));
        }
        game
    }

    /// The small board in which the next move is made, or 10 once the game
    /// is over.
    pub fn cell(&self) -> (cell: usize)
        ensures
            cell == self.target(),
    {
        self.cell
    }

    /// The number of the small board to play in after a move onto `pos`.
    fn next_playable(&self, pos: usize) -> (cell: usize)
        requires
            pos < 9,
        ensures
            cell == next_target(self.boards(), pos as int, 0),
            cell < 9,
    {
        let mut i: usize = 0;
        while i < 9
            invariant
                i <= 9,
                pos < 9,
                next_target(self.boards(), pos as int, 0) == next_target(
                    self.boards(),
                    pos as int,
                    i as int,
                ),
            decreases 9 - i,
        {
            let cell_i: usize = (pos + i) % 9;
            assert(self.boards()[cell_i as int] == self.field[cell_i as int]@);
            if self.field[cell_i].status() == GameState::Running {
                return cell_i;
            }
            i = i + 1;
        }
        pos
    }
}

impl UltimateGame {
    /// Every mark on the small boards is a player's.
    pub open spec fn marks_ok(&self) -> bool {
        forall|i: int| 0 <= i < 9 ==> marks_are_players(#[trigger] self.boards()[i])
    }

    /// Appends the symbol of the place `i` of the small board `o`.
    fn draw_symbol(&self, fig: &Vec<String>, o: usize, i: usize, out: &mut String)
        requires
            o < 9,
            i < 9,
            self.marks_ok(),
            fig@.len() == 2,
            forall|p: int| 0 <= p < 2 ==> (#[trigger] fig@[p])@ == square_figure(p),
        ensures
            final(out)@ == old(out)@ + small_symbol(
                self.boards(),
                self.target(),
                o as int,
                i as int,
            ),
    {
        assert(self.boards()[o as int] == self.field[o as int]@);
        assert(marks_are_players(self.boards()[o as int]));
        proof {
            reveal(small_symbol);
            self.field[o as int].winner_is_a_player();
        }
        match self.field[o].status() {
            GameState::Win(p) => {
                out.append(fig[p].as_str());
            },
            GameState::Tie => {
                out.append(tie_str());
            },
            _ => match self.field[o][i] {
                Some(p) => {
                    assert(self.boards()[o as int][i as int] == Some(p));
                    out.append(fig[p].as_str());
                },
                None => {
                    if o == self.cell {
                        out.append(number_str(i + 1));
                    } else {
                        out.append(empty_str());
                    }
                },
            },
        }
    }

    /// Appends one row of one small board.
    fn draw_small_line(&self, fig: &Vec<String>, x: usize, y: usize, iy: usize, out: &mut String)
        requires
            x < 3,
            y < 3,
            iy < 3,
            self.marks_ok(),
            fig@.len() == 2,
            forall|p: int| 0 <= p < 2 ==> (#[trigger] fig@[p])@ == square_figure(p),
        ensures
            final(out)@ == old(out)@ + small_line(
                self.boards(),
                self.target(),
                x as int,
                y as int,
                iy as int,
            ),
    {
        let o: usize = 3 * y + x;
        proof {
            reveal(small_line);
        }
        self.draw_symbol(fig, o, 3 * iy, out);
        self.draw_symbol(fig, o, 3 * iy + 1, out);
        self.draw_symbol(fig, o, 3 * iy + 2, out);
        if x < 2 {
            out.append(border_str());
        }
        assert(out@ =~= old(out)@ + small_line(
            self.boards(),
            self.target(),
            x as int,
            y as int,
            iy as int,
        ));
    }

    /// Appends one text line across the three small boards of a big row.
    fn draw_big_line(&self, fig: &Vec<String>, y: usize, iy: usize, out: &mut String)
        requires
            y < 3,
            iy < 3,
            self.marks_ok(),
            fig@.len() == 2,
            forall|p: int| 0 <= p < 2 ==> (#[trigger] fig@[p])@ == square_figure(p),
        ensures
            final(out)@ == old(out)@ + big_line(
                self.boards(),
                self.target(),
                y as int,
                iy as int,
            ),
    {
        proof {
            reveal(big_line);
        }
        self.draw_small_line(fig, 0, y, iy, out);
        self.draw_small_line(fig, 1, y, iy, out);
        self.draw_small_line(fig, 2, y, iy, out);
        out.append("\n");
        assert(out@ =~= old(out)@ + big_line(self.boards(), self.target(), y as int, iy as int));
    }

    /// Appends the three text lines of a big row and the line below them.
    fn draw_band(&self, fig: &Vec<String>, y: usize, out: &mut String)
        requires
            y < 3,
            self.marks_ok(),
            fig@.len() == 2,
            forall|p: int| 0 <= p < 2 ==> (#[trigger] fig@[p])@ == square_figure(p),
        ensures
            final(out)@ == old(out)@ + big_band(self.boards(), self.target(), y as int),
    {
        proof {
            reveal(big_band);
        }
        self.draw_big_line(fig, y, 0, out);
        self.draw_big_line(fig, y, 1, out);
        self.draw_big_line(fig, y, 2, out);
        if y < 2 {
            draw_border_run(out, 11);
        }
        out.append("\n");
        assert(out@ =~= old(out)@ + big_band(self.boards(), self.target(), y as int));
    }
}

/// A player's mark on a board of players leaves a board of players.
pub proof fn marking_keeps_players(boards: Boards, o: int, pos: int, person: usize)
    requires
        0 <= o < 9,
        0 <= pos < 9,
        person < 2,
        boards.len() == 9,
        boards[o].len() == 9,
        forall|i: int| 0 <= i < 9 ==> marks_are_players(#[trigger] boards[i]),
    ensures
        forall|i: int|
            0 <= i < 9 ==> marks_are_players(
                #[trigger] boards.update(o, boards[o].update(pos, Some(person)))[i],
            ),
{
    let cells = boards[o];
    let fuller = cells.update(pos, Some(person));
    assert(marks_are_players(cells));
    assert forall|j: int| 0 <= j < 9 implies ((#[trigger] fuller[j]) matches Some(p) ==> p
        < 2) by {
        if j != pos {
            assert(fuller[j] == cells[j]);
        }
    }
    assert forall|i: int| 0 <= i < 9 implies marks_are_players(
        #[trigger] boards.update(o, fuller)[i],
    ) by {
        if i != o {
            assert(marks_are_players(boards[i]));
        }
    }
}

/// While the big board is running, the board to play in after a move is a
/// running one.
pub proof fn target_is_playable(boards: Boards, pos: int)
    requires
        0 <= pos < 9,
        !big_state(boards).finished(),
    ensures
        0 <= next_target(boards, pos, 0) < 9,
        field_state(boards[next_target(boards, pos, 0)]) is Running,
{
    let j = choose|j: int| 0 <= j < 9 && !(#[trigger] field_state(boards[j])).finished();
    let i = (j - pos + 9) % 9;
    assert((pos + i) % 9 == j);
    next_target_finds(boards, pos, 0, i);
}

/// The number of free places on all nine small boards.
pub open spec fn free_on(boards: Boards) -> nat {
    free_places(boards[0]).len() + free_places(boards[1]).len() + free_places(boards[2]).len()
        + free_places(boards[3]).len() + free_places(boards[4]).len() + free_places(
        boards[5],
    ).len() + free_places(boards[6]).len() + free_places(boards[7]).len() + free_places(
        boards[8],
    ).len()
}

/// A mark on a free place leaves one free place less.
pub proof fn marking_takes_a_place(boards: Boards, o: int, pos: int, person: usize)
    requires
        0 <= o < 9,
        0 <= pos < 9,
        boards.len() == 9,
        boards[o].len() == 9,
        boards[o][pos] is None,
    ensures
        free_on(boards.update(o, boards[o].update(pos, Some(person)))) + 1 == free_on(boards),
{
    let cells = boards[o];
    let fuller = cells.update(pos, Some(person));
    indices_where_drop(9, |i: int| cells[i] is None, |i: int| fuller[i] is None, pos);
    assert(free_places(fuller).len() + 1 == free_places(cells).len());
    let after = boards.update(o, fuller);
    assert forall|i: int| 0 <= i < 9 && i != o implies #[trigger] after[i] == boards[i] by {}
}

/// A board without a mark is running.
pub proof fn fresh_field_is_running(cells: Seq<Option<usize>>)
    requires
        none_marked(cells),
    ensures
        field_state(cells) is Running,
{
    first_owner_of_fresh(cells, 0);
    assert(cells[0] is None);
}

proof fn first_owner_of_fresh(cells: Seq<Option<usize>>, k: int)
    requires
        none_marked(cells),
        0 <= k <= 8,
    ensures
        first_owner(cells, k) is None,
    decreases 8 - k,
{
    if k < 8 {
        assert(0 <= line_cell(k, 0) < 9);
        assert(cells[line_cell(k, 0)] is None);
        first_owner_of_fresh(cells, k + 1);
    }
}

impl Clone for UltimateGame {
    fn clone(&self) -> (copy: Self)
        ensures
            copy == *self,
    {
        UltimateGame { field: self.field, cell: self.cell }
    }
}

impl Default for UltimateGame {
    fn default() -> (game: Self)
        ensures
            game.is_fresh(),
            game.wf(),
    {
        UltimateGame::new()
    }
}

impl PvpGame<usize> for UltimateGame {
    open spec fn wf(&self) -> bool {
        &&& forall|i: int| 0 <= i < 9 ==> marks_are_players(#[trigger] self.boards()[i])
        &&& if big_state(self.boards()).finished() {
            self.target() == 10
        } else {
            0 <= self.target() < 9 && field_state(self.boards()[self.target()]) is Running
        }
    }

    open spec fn status_of(&self) -> GameState {
        big_state(self.boards())
    }

    open spec fn accepts(&self, action: usize, person: usize) -> bool {
        0 <= self.target() < 9 && action < 9 && self.boards()[self.target()][action as int] is None
    }

    open spec fn after(&self, action: usize, person: usize) -> Self {
        let marked = self.with_mark(self.target(), action as int, person, 0);
        self.with_mark(
            self.target(),
            action as int,
            person,
            if big_state(marked.boards()).finished() {
                10
            } else {
                next_target(marked.boards(), action as int, 0) as usize
            },
        )
    }

    open spec fn moves_of(&self, player: usize) -> Seq<usize> {
        if 0 <= self.target() < 9 {
            free_places(self.boards()[self.target()])
        } else {
            Seq::empty()
        }
    }

    open spec fn is_fresh(&self) -> bool {
        self.target() == 0 && forall|i: int| 0 <= i < 9 ==> none_marked(#[trigger] self.boards()[i])
    }

    open spec fn vacancies(&self) -> nat {
        free_on(self.boards())
    }

    open spec fn title_of() -> Seq<char> {
        "Ultimate Tic Tac Toe"@
    }

    open spec fn figure_of(player: int) -> Seq<char> {
        square_figure(player)
    }

    open spec fn drawing(&self) -> Seq<char> {
        big_drawing(self.boards(), self.target())
    }

    fn title() -> (name: &'static str) {
        "Ultimate Tic Tac Toe"
    }

    fn figures() -> (symbols: Vec<String>) {
        square_figures()
    }

    fn possible_moves(&self, player: usize) -> (moves: Vec<usize>) {
        if self.cell < 9 {
            assert(self.boards()[self.cell as int] == self.field[self.cell as int]@);
            self.field[self.cell].possible_moves(player)
        } else {
            Vec::new()
        }
    }

    fn is_empty(&self) -> (fresh: bool) {
        if self.cell != 0 {
            return false;
        }
        let mut i: usize = 0;
        while i < 9
            invariant
                i <= 9,
                forall|j: int| 0 <= j < i ==> none_marked(#[trigger] self.boards()[j]),
            decreases 9 - i,
        {
            assert(self.boards()[i as int] == self.field[i as int]@);
            if !self.field[i].is_empty() {
                return false;
            }
            i = i + 1;
        }
        true
    }

    fn status(&self) -> (state: GameState) {
        let free: Option<usize> = None;
        let mut wins: TTTField = [free; 9];
        let mut decided: bool = true;
        let mut i: usize = 0;
        while i < 9
            invariant
                i <= 9,
                forall|j: int|
                    0 <= j < i ==> #[trigger] wins@[j] == field_state(self.boards()[j]).winner_of(),
                decided <==> forall|j: int|
                    0 <= j < i ==> (#[trigger] field_state(self.boards()[j])).finished(),
            decreases 9 - i,
        {
            assert(self.boards()[i as int] == self.field[i as int]@);
            let ghost before = decided;
            match self.field[i].status() {
                GameState::Win(p) => {
                    wins[i] = Some(p);
                },
                GameState::Tie => {
                    wins[i] = None;
                },
                _ => {
                    wins[i] = None;
                    decided = false;
                },
            }
            assert(decided <==> before && field_state(self.boards()[i as int]).finished());
            i = i + 1;
        }
        assert(wins@ =~= big_marks(self.boards()));
        match line_owner(&wins) {
            Some(p) => GameState::Win(p),
            None => if decided {
                GameState::Tie
            } else {
                GameState::Running
            },
        }
    }

    fn make_move(&mut self, pos: usize, player: usize) -> (state: GameState) {
        if self.cell >= 9 || pos >= 9 {
            return GameState::Invalid;
        }
        let o: usize = self.cell;
        assert(self.boards()[o as int] == self.field[o as int]@);
        if self.field[o][pos].is_some() {
            return GameState::Invalid;
        }
        self.field[o][pos] = Some(player);
        self.cell = 0;
        assert(self.field =~~= old(self).with_mark(o as int, pos as int, player, 0).field);
        assert(*self == old(self).with_mark(o as int, pos as int, player, 0));

        // find next playable field
        let next: usize = self.next_playable(pos);
        // don't display a selection box if the game is finished
        if self.status().is_finished() {
            self.cell = 10;
        } else {
            self.cell = next;
        }
        assert(self.field == old(self).after(pos, player).field);
        assert(self.boards() == old(self).with_mark(o as int, pos as int, player, 0).boards());
        assert(*self == old(self).after(pos, player));
        self.status()
    }

    fn draw(&self) -> (out: String) {
        let fig: Vec<String> = square_figures();
        let mut out: String = String::new();
        self.draw_band(&fig, 0, &mut out);
        self.draw_band(&fig, 1, &mut out);
        self.draw_band(&fig, 2, &mut out);
        assert(out@ =~= big_drawing(self.boards(), self.target()));
        out
    }

    proof fn clone_is_exact(&self, copy: &Self) {
    }

    proof fn status_is_settled(&self) {
    }

    proof fn moves_are_the_accepted(&self, player: usize) {
        if 0 <= self.target() < 9 {
            let cells = self.boards()[self.target()];
            indices_where_lists(9, |i: int| cells[i] is None);
        } else {
            assert forall|action: usize| !self.moves_of(player).contains(action) by {}
        }
    }

    proof fn accepted_move_fills(&self, action: usize, person: usize) {
        let o = self.target();
        let next = self.after(action, person);
        self.with_mark_changes_one(o, action as int, person, 0);
        self.with_mark_changes_one(o, action as int, person, next.target() as usize);
        let before = self.boards();
        let fuller = before[o].update(action as int, Some(person));
        let boards = before.update(o, fuller);
        assert(next.boards() == boards);
        assert(next.boards()[o][action as int] == Some(person));
        marking_keeps_players(before, o, action as int, person);
        if !big_state(boards).finished() {
            target_is_playable(boards, action as int);
        }
        marking_takes_a_place(before, o, action as int, person);
    }

    proof fn running_has_moves(&self, player: usize) {
        let cells = self.boards()[self.target()];
        let i = choose|i: int| 0 <= i < 9 && !((#[trigger] cells[i]) is Some);
        indices_where_lists(9, |i: int| cells[i] is None);
        assert(free_places(cells).contains(i as usize));
    }

    proof fn winner_is_a_player(&self) {
        let marks = big_marks(self.boards());
        first_owner_is_mark(marks, 0);
        if let GameState::Win(p) = big_state(self.boards()) {
            let i = choose|i: int| 0 <= i < 9 && #[trigger] marks[i] == Some(p);
            assert(field_state(self.boards()[i]) == GameState::Win(p));
            first_owner_is_mark(self.boards()[i], 0);
            assert(marks_are_players(self.boards()[i]));
        }
    }
}

impl BuiltinAi<usize> for UltimateGame {
    open spec fn has_ai() -> bool {
        true
    }

    /// The opponent plays any of the listed moves.
    open spec fn ai_plays(game: &Self, player: usize, action: usize) -> bool {
        game.moves_of(player).contains(action)
    }

    /// The big board is played by chance.
    fn ai() -> (player: Option<Box<dyn AiPlayer<usize, Self>>>) {
        Some(Box::new(RandomPlayer::<Self>::from_entropy()))
    }
}

/// The evaluator that rates a big board by its small boards.
pub struct UltimateMMAI;

/// The sum of the scores of the first `upto` small boards, each searched to
/// the end.
pub open spec fn small_scores(boards: Seq<TTTField>, id: usize, upto: nat) -> int
    decreases upto,
{
    if upto == 0 {
        0
    } else {
        small_scores(boards, id, (upto - 1) as nat) + search(&TTTAI, &boards[upto - 1], id, 9).0
    }
}

impl UltimateGame {
    /// The small boards as boards of their own.
    pub closed spec fn fields(&self) -> Seq<TTTField> {
        self.field@
    }
}

impl MinimaxAi<UltimateGame> for UltimateMMAI {
    open spec fn rating(&self, board: &UltimateGame, player: usize) -> i64 {
        small_scores(board.fields(), player, 9) as i64
    }

    open spec fn depth_of(&self) -> usize {
        0
    }

    open spec fn opening(&self) -> usize {
        0
    }

    fn rate(&self, board: &UltimateGame, id: usize) -> (score: i64) {
        let mut sum: i64 = 0;
        let mut i: usize = 0;
        while i < 9
            invariant
                i <= 9,
                id < 2,
                sum == small_scores(board.fields(), id, i as nat),
                0 <= sum <= i * ONE,
            decreases 9 - i,
        {
            proof {
                search_is_bounded(&TTTAI, &board.fields()[i as int], id, 9);
            }
            let found: (i64, usize) = minimax(&TTTAI, &board.field[i], id, 9);
            sum = sum + found.0;
            i = i + 1;
        }
        sum
    }

    fn depth(&self) -> (depth: usize) {
        0
    }

    fn default_move(&self) -> (action: usize) {
        0
    }
}

} // verus!
