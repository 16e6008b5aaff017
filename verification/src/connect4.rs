//! Connect Four: discs dropped into seven columns of six places; four in a
//! row, column or diagonal win.

use vstd::prelude::*;
use crate::game::{indices_where, indices_where_lists, AiPlayer, BuiltinAi, PvpGame};
use crate::grid::{
    covers, free_in, free_in_update, full, inside, line_state, n_in_a_row,
    owned_at, reads, winner_owns_a_cell, Cells,
};
use crate::state::GameState;
use crate::symbols::{empty_str, empty_symbol, number_str, number_symbol};
use crate::tictactoe::{square_figure, square_figures};

verus! {

pub const ROWS: usize = 6;

pub const COLS: usize = 7;

/// The board: `field[x][y]` is the place in column `x` at height `y`, counted
/// from the bottom.
#[derive(Debug, PartialEq, Eq)]
pub struct Connect4 {
    field: [[Option<usize>; 6]; 7],
}

/// The height of the lowest free place of a column at or above `from`, or 6
/// where the column is filled from there on.
pub open spec fn lowest_free(col: Seq<Option<usize>>, from: int) -> int
    decreases 6 - from,
{
    if from < 0 || from >= 6 {
        6
    } else if col[from] is None {
        from
    } else {
        lowest_free(col, from + 1)
    }
}

pub open spec fn disc_symbol(place: Option<usize>) -> Seq<char> {
    match place {
        Some(p) => square_figure(p as int),
        None => empty_symbol(),
    }
}

/// The first `upto` places of the row at height `y`, from left to right.
pub open spec fn row_text(cells: Cells, y: int, upto: nat) -> Seq<char>
    decreases upto,
{
    if upto == 0 {
        Seq::empty()
    } else {
        row_text(cells, y, (upto - 1) as nat) + disc_symbol(cells(upto - 1, y))
    }
}

/// The `done` topmost rows, each followed by a line break.
pub open spec fn rows_text(cells: Cells, done: nat) -> Seq<char>
    decreases done,
{
    if done == 0 {
        Seq::empty()
    } else {
        rows_text(cells, (done - 1) as nat) + row_text(cells, 6 - done, 7) + "\n"@
    }
}

/// The numbers of the first `upto` columns.
pub open spec fn numbers_text(upto: nat) -> Seq<char>
    decreases upto,
{
    if upto == 0 {
        Seq::empty()
    } else {
        numbers_text((upto - 1) as nat) + number_symbol(upto - 1)
    }
}

impl Connect4 {
    /// The places of the board as a grid; outside the board nothing is owned.
    pub closed spec fn cells(&self) -> Cells {
        |x: int, y: int|
            if 0 <= x < 7 && 0 <= y < 6 {
                self.field[x][y]
            } else {
                None
            }
    }

    /// The column `x` from the bottom up.
    pub closed spec fn column(&self, x: int) -> Seq<Option<usize>> {
        self.field[x]@
    }

    /// The board on which the place at height `y` of column `x` holds `mark`.
    pub closed spec fn with_disc(&self, x: int, y: int, mark: usize) -> Self {
        Connect4 {
            field: vstd::array::spec_array_update(
                self.field,
                x,
                vstd::array::spec_array_update(self.field[x], y, Some(mark)),
            ),
        }
    }

    /// The columns hold what the grid holds: the place at height `y` of the
    /// column `x` is the cell `(x, y)`.
    pub proof fn column_holds_cells(&self, x: int)
        requires
            0 <= x < 7,
        ensures
            self.column(x).len() == 6,
            forall|y: int| 0 <= y < 6 ==> #[trigger] self.column(x)[y] == (self.cells())(x, y),
    {
    }

    /// A disc changes the one place it is put on.
    pub proof fn with_disc_changes_one(&self, x: int, y: int, mark: usize)
        requires
            0 <= x < 7,
            0 <= y < 6,
        ensures
            self.with_disc(x, y, mark).column(x) == self.column(x).update(y, Some(mark)),
            forall|x2: int| 0 <= x2 < 7 && x2 != x ==> self.with_disc(x, y, mark).column(x2)
                == self.column(x2),
            forall|x2: int, y2: int| #[trigger]
                (self.with_disc(x, y, mark).cells())(x2, y2) == (if x2 == x && y2 == y {
                    Some(mark)
                } else {
                    (self.cells())(x2, y2)
                }),
    {
    }

    /// Every place of the board has an owner.
    pub fn filled(&self) -> (all: bool)
        ensures
            all == full(self.cells(), 6, 7),
    {
        let mut x: usize = 0;
        while x < 7
            invariant
                x <= 7,
                forall|x2: int, y2: int|
                    0 <= x2 < x && 0 <= y2 < 6 ==> #[trigger] owned_at(self.cells(), x2, y2),
            decreases 7 - x,
        {
            let mut y: usize = 0;
            while y < 6
                invariant
                    x < 7,
                    y <= 6,
                    forall|x2: int, y2: int|
                        0 <= x2 < x && 0 <= y2 < 6 ==> #[trigger] owned_at(self.cells(), x2, y2),
                    forall|y2: int| 0 <= y2 < y ==> #[trigger] owned_at(self.cells(), x as int, y2),
                decreases 6 - y,
            {
                if self.field[x][y].is_none() {
                    assert(!owned_at(self.cells(), x as int, y as int));
                    assert(inside(6, 7, x as int, y as int));
                    return false;
                }
                y = y + 1;
            }
            x = x + 1;
        }
        true
    }

    /// The height at which a disc dropped into column `x` comes to rest.
    fn landing(&self, x: usize) -> (y: usize)
        requires
            x < 7,
        ensures
            y == lowest_free(self.column(x as int), 0),
            y <= 6,
    {
        let mut y: usize = 0;
        while y < 6
            invariant
                x < 7,
                y <= 6,
                lowest_free(self.column(x as int), 0) == lowest_free(self.column(x as int), y as int),
            decreases 6 - y,
        {
            if self.field[x][y].is_none() {
                return y;
            }
            y = y + 1;
        }
        6
    }
}

impl Clone for Connect4 {
    fn clone(&self) -> (copy: Self)
        ensures
            copy == *self,
    {
        Connect4 { field: self.field }
    }
}

impl Default for Connect4 {
    /// The board without a disc.
    fn default() -> (board: Self)
        ensures
            board.is_fresh(),
            board.wf(),
            forall|x: int| 0 <= x < 7 ==> lowest_free(#[trigger] board.column(x), 0) == 0,
    {
        let free: Option<usize> = None;
        let board = Connect4 { field: [[free; 6]; 7] };
        assert forall|x: int, y: int| #[trigger] (board.cells())(x, y) is None by {}
        assert forall|x: int| 0 <= x < 7 implies lowest_free(#[trigger] board.column(x), 0)
            == 0 by {
            assert((board.cells())(x, 0) is None);
        }
        board
    }
}

impl PvpGame<usize> for Connect4 {
    open spec fn wf(&self) -> bool {
        forall|x: int, y: int| (#[trigger] (self.cells())(x, y)) matches Some(p) ==> p < 2
    }

    open spec fn status_of(&self) -> GameState {
        line_state(self.cells(), 6, 7, 4)
    }

    open spec fn accepts(&self, action: usize, person: usize) -> bool {
        action < 7 && lowest_free(self.column(action as int), 0) < 6
    }

    open spec fn after(&self, action: usize, person: usize) -> Self {
        self.with_disc(action as int, lowest_free(self.column(action as int), 0), person)
    }

    open spec fn moves_of(&self, player: usize) -> Seq<usize> {
        indices_where(7, |x: int| lowest_free(self.column(x), 0) < 6)
    }

    open spec fn is_fresh(&self) -> bool {
        forall|x: int, y: int| (#[trigger] (self.cells())(x, y)) is None
    }

    open spec fn vacancies(&self) -> nat {
        free_in(self.column(0), 6) + free_in(self.column(1), 6) + free_in(self.column(2), 6)
            + free_in(self.column(3), 6) + free_in(self.column(4), 6) + free_in(
            self.column(5),
            6,
        ) + free_in(self.column(6), 6)
    }

    open spec fn title_of() -> Seq<char> {
        "Connect Four"@
    }

    open spec fn figure_of(player: int) -> Seq<char> {
        square_figure(player)
    }

    open spec fn drawing(&self) -> Seq<char> {
        rows_text(self.cells(), 6) + numbers_text(7)
    }

    fn title() -> (name: &'static str) {
        "Connect Four"
    }

    fn draw(&self) -> (out: String) {
        let figs: Vec<String> = square_figures();
        let mut out: String = String::new();
        let mut done: usize = 0;
        while done < 6
            invariant
                done <= 6,
                self.wf(),
                figs@.len() == 2,
                forall|p: int| 0 <= p < 2 ==> (#[trigger] figs@[p])@ == square_figure(p),
                out@ == rows_text(self.cells(), done as nat),
            decreases 6 - done,
        {
            let y: usize = 5 - done;
            let ghost start = out@;
            let mut x: usize = 0;
            while x < 7
                invariant
                    x <= 7,
                    y < 6,
                    self.wf(),
                    figs@.len() == 2,
                    forall|p: int| 0 <= p < 2 ==> (#[trigger] figs@[p])@ == square_figure(p),
                    out@ == start + row_text(self.cells(), y as int, x as nat),
                decreases 7 - x,
            {
                match self.field[x][y] {
                    Some(player) => {
                        assert((self.cells())(x as int, y as int) == Some(player));
                        out.append(figs[player].as_str());
                    },
                    None => {
                        out.append(empty_str());
                    },
                }
                assert(out@ =~= start + row_text(self.cells(), y as int, (x + 1) as nat));
                x = x + 1;
            }
            out.append("\n");
            assert(out@ =~= rows_text(self.cells(), (done + 1) as nat));
            done = done + 1;
        }
        let ghost rows = out@;
        let mut x: usize = 0;
        while x < 7
            invariant
                x <= 7,
                out@ == rows + numbers_text(x as nat),
            decreases 7 - x,
        {
            out.append(number_str(x));
            assert(out@ =~= rows + numbers_text((x + 1) as nat));
            x = x + 1;
        }
        out
    }

    fn make_move(&mut self, idx: usize, person: usize) -> (state: GameState) {
        if idx >= 7 {
            return GameState::Invalid;
        }
        let y: usize = self.landing(idx);
        if y >= 6 {
            // this column is already filled to the top
            return GameState::Invalid;
        }
        self.field[idx][y] = Some(person);
        assert(self.field =~~= old(self).after(idx, person).field);
        self.status()
    }

    fn status(&self) -> (state: GameState) {
        let look = |x: usize, y: usize| -> (place: Option<usize>)
            requires
                x < 7 && y < 6,
            ensures
                place == self.field[x as int][y as int],
            { self.field[x][y] };
        assert(covers(&look, 6, 7));
        assert(reads(&look, 6, 7, self.cells()));
        n_in_a_row(6, 7, &look, 4)
    }

    fn possible_moves(&self, player: usize) -> (moves: Vec<usize>) {
        let mut moves: Vec<usize> = Vec::new();
        let ghost open_column = |x: int| lowest_free(self.column(x), 0) < 6;
        let mut x: usize = 0;
        while x < 7
            invariant
                x <= 7,
                open_column == (|x: int| lowest_free(self.column(x), 0) < 6),
                moves@ == indices_where(x as nat, open_column),
            decreases 7 - x,
        {
            if self.landing(x) < 6 {
                moves.push(x);
            }
            x = x + 1;
        }
        moves
    }

    fn figures() -> (symbols: Vec<String>) {
        square_figures()
    }

    fn is_empty(&self) -> (fresh: bool) {
        let mut x: usize = 0;
        while x < 7
            invariant
                x <= 7,
                forall|x2: int, y2: int|
                    0 <= x2 < x && 0 <= y2 < 6 ==> (#[trigger] (self.cells())(x2, y2)) is None,
            decreases 7 - x,
        {
            let mut y: usize = 0;
            while y < 6
                invariant
                    x < 7,
                    y <= 6,
                    forall|x2: int, y2: int|
                        0 <= x2 < x && 0 <= y2 < 6 ==> (#[trigger] (self.cells())(x2, y2)) is None,
                    forall|y2: int| 0 <= y2 < y ==> (#[trigger] (self.cells())(x as int, y2)) is None,
                decreases 6 - y,
            {
                if self.field[x][y].is_some() {
                    assert((self.cells())(x as int, y as int) is Some);
                    return false;
                }
                y = y + 1;
            }
            x = x + 1;
        }
        true
    }

    proof fn clone_is_exact(&self, copy: &Self) {
    }

    proof fn status_is_settled(&self) {
        winner_owns_a_cell(self.cells(), 6, 7, 4);
    }

    proof fn moves_are_the_accepted(&self, player: usize) {
        indices_where_lists(7, |x: int| lowest_free(self.column(x), 0) < 6);
    }

    proof fn accepted_move_fills(&self, action: usize, person: usize) {
        let x = action as int;
        let y = lowest_free(self.column(x), 0);
        lowest_free_is_free(self.column(x), 0);
        let next = self.after(action, person);
        self.with_disc_changes_one(x, y, person);
        free_in_update(self.column(x), 6, y, person);
        assert((next.cells())(x, y) == Some(person));
    }

    proof fn running_has_moves(&self, player: usize) {
        winner_owns_a_cell(self.cells(), 6, 7, 4);
        let (x, y) = choose|x: int, y: int|
            inside(6, 7, x, y) && !#[trigger] owned_at(self.cells(), x, y);
        lowest_free_finds(self.column(x), 0, y);
        indices_where_lists(7, |x: int| lowest_free(self.column(x), 0) < 6);
        assert(self.moves_of(player).contains(x as usize));
    }

    proof fn winner_is_a_player(&self) {
        winner_owns_a_cell(self.cells(), 6, 7, 4);
    }
}

impl BuiltinAi<usize> for Connect4 {
    open spec fn has_ai() -> bool {
        false
    }

    open spec fn ai_plays(game: &Self, player: usize, action: usize) -> bool {
        false
    }

    /// This game has no opponent of its own.
    fn ai() -> (player: Option<Box<dyn AiPlayer<usize, Self>>>) {
        None
    }
}

/// Below 6, `lowest_free` is the height of a free place.
pub proof fn lowest_free_is_free(col: Seq<Option<usize>>, from: int)
    requires
        0 <= from <= 6,
    ensures
        from <= lowest_free(col, from) <= 6,
        lowest_free(col, from) < 6 ==> col[lowest_free(col, from)] is None,
        forall|y: int| from <= y < lowest_free(col, from) ==> (#[trigger] col[y]) is Some,
    decreases 6 - from,
{
    if from < 6 && !(col[from] is None) {
        lowest_free_is_free(col, from + 1);
    }
}

/// A column with a free place has a lowest one.
pub proof fn lowest_free_finds(col: Seq<Option<usize>>, from: int, y: int)
    requires
        0 <= from <= y < 6,
        col[y] is None,
    ensures
        lowest_free(col, from) <= y,
    decreases 6 - from,
{
    if from < y && !(col[from] is None) {
        lowest_free_finds(col, from + 1, y);
    }
}

} // verus!
