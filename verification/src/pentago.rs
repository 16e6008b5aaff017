//! Pentago: a 6×6 board of four 3×3 quadrants. A move places a marble and
//! then turns one quadrant by a quarter; five in a row win.

use vstd::prelude::*;
use crate::game::{AiPlayer, BuiltinAi, PvpGame};
use crate::grid::{
    covers, inside, line_state, n_in_a_row, owned_at, reads, winner_owns_a_cell, Cells,
};
use crate::state::GameState;
use crate::symbols::{
    circle, circle_symbol, number_str, number_symbol, square, square_symbol, Color,
};

verus! {

/// The board: `field[x][y]` is the place in column `x` of row `y`, rows
/// counted from the top.
#[derive(Debug, PartialEq, Eq)]
pub struct Pentago {
    field: [[Option<usize>; 6]; 6],
}

/// The direction in which a quadrant is turned.
#[derive(Clone, Copy, Debug, PartialEq, Eq, Structural)]
pub enum Rotation {
    AntiClockwise,
    Clockwise,
}

/// A move: the place of the marble, the quadrant to turn (0 top left, 1 top
/// right, 2 bottom left, 3 bottom right) and the direction of the turn.
#[derive(Clone, Copy, Debug, PartialEq, Eq, Structural)]
pub struct PMove {
    pub x: usize,
    pub y: usize,
    pub sel: usize,
    pub dir: Rotation,
}

/// The grid after the quadrant `sel` was turned by a quarter: inside the
/// quadrant every marble moves along its ring, outside nothing changes.
pub open spec fn turned_cells(grid: Cells, sel: int, dir: Rotation) -> Cells {
    |x: int, y: int|
        {
            let ox = 3 * (sel % 2);
            let oy = 3 * (sel / 2);
            if ox <= x < ox + 3 && oy <= y < oy + 3 {
                match dir {
                    Rotation::AntiClockwise => grid(ox + 2 - (y - oy), oy + (x - ox)),
                    Rotation::Clockwise => grid(ox + (y - oy), oy + 2 - (x - ox)),
                }
            } else {
                grid(x, y)
            }
        }
}

/// The grid with `mark` on the place `(x, y)`.
pub open spec fn marked_cells(grid: Cells, x: int, y: int, mark: usize) -> Cells {
    |x2: int, y2: int|
        if x2 == x && y2 == y {
            Some(mark)
        } else {
            grid(x2, y2)
        }
}

/// The grid after a move: the marble is placed; unless that wins the game,
/// the quadrant is turned.
pub open spec fn moved_cells(grid: Cells, action: PMove, person: usize) -> Cells {
    let placed = marked_cells(grid, action.x as int, action.y as int, person);
    if line_state(placed, 6, 6, 5) is Win {
        placed
    } else {
        turned_cells(placed, action.sel as int, action.dir)
    }
}

/// Two grids hold the same on the board.
pub open spec fn same_board(a: Cells, b: Cells) -> bool {
    forall|x: int, y: int| 0 <= x < 6 && 0 <= y < 6 ==> #[trigger] a(x, y) == b(x, y)
}

pub open spec fn free_at(grid: Cells, x: int, y: int) -> nat {
    if grid(x, y) is None {
        1
    } else {
        0
    }
}

/// The number of free places of the quadrant whose top left place is
/// `(ox, oy)`.
pub open spec fn quadrant_free(grid: Cells, ox: int, oy: int) -> nat {
    free_at(grid, ox, oy) + free_at(grid, ox + 1, oy) + free_at(grid, ox + 2, oy) + free_at(
        grid,
        ox,
        oy + 1,
    ) + free_at(grid, ox + 1, oy + 1) + free_at(grid, ox + 2, oy + 1) + free_at(
        grid,
        ox,
        oy + 2,
    ) + free_at(grid, ox + 1, oy + 2) + free_at(grid, ox + 2, oy + 2)
}

pub open spec fn board_free(grid: Cells) -> nat {
    quadrant_free(grid, 0, 0) + quadrant_free(grid, 3, 0) + quadrant_free(grid, 0, 3)
        + quadrant_free(grid, 3, 3)
}

/// The `k`-th move of the list of all moves: places column by column, for
/// each place the quadrants in order, for each quadrant first the turn
/// against the clock.
pub open spec fn nth_move(k: int) -> PMove {
    PMove {
        x: (k / 48) as usize,
        y: ((k / 8) % 6) as usize,
        sel: ((k / 2) % 4) as usize,
        dir: if k % 2 == 0 {
            Rotation::AntiClockwise
        } else {
            Rotation::Clockwise
        },
    }
}

/// The position of a move in the list of all moves.
pub open spec fn move_rank(action: PMove) -> int {
    48 * action.x + 8 * action.y + 2 * action.sel + (if action.dir == Rotation::AntiClockwise {
        0int
    } else {
        1int
    })
}

/// Those among the first `k` moves whose place is free.
pub open spec fn listed_moves(grid: Cells, k: nat) -> Seq<PMove>
    decreases k,
{
    if k == 0 {
        Seq::empty()
    } else if grid(nth_move(k - 1).x as int, nth_move(k - 1).y as int) is None {
        listed_moves(grid, (k - 1) as nat).push(nth_move(k - 1))
    } else {
        listed_moves(grid, (k - 1) as nat)
    }
}

/// The `k`-th move has the rank `k`.
pub proof fn nth_move_has_rank(k: int)
    requires
        0 <= k < 288,
    ensures
        move_rank(nth_move(k)) == k,
        nth_move(k).x < 6,
        nth_move(k).y < 6,
        nth_move(k).sel < 4,
{
    let x = k / 48;
    let r = k % 48;
    let y = r / 8;
    let q = r % 8;
    assert(k / 8 == 6 * x + y);
    assert((k / 8) % 6 == y);
    assert(k / 2 == 24 * x + 4 * y + q / 2);
    assert((k / 2) % 4 == q / 2);
    assert(k % 2 == q % 2);
}

/// A move on the board is the move of its rank.
pub proof fn rank_names_move(action: PMove)
    requires
        action.x < 6,
        action.y < 6,
        action.sel < 4,
    ensures
        0 <= move_rank(action) < 288,
        nth_move(move_rank(action)) == action,
{
    let k = move_rank(action);
    let bit = if action.dir == Rotation::AntiClockwise {
        0int
    } else {
        1int
    };
    assert(k == 48 * action.x + 8 * action.y + 2 * action.sel + bit);
    assert(k / 48 == action.x);
    assert(k / 8 == 6 * action.x + action.y);
    assert((k / 8) % 6 == action.y);
    assert(k / 2 == 24 * action.x + 4 * action.y + action.sel);
    assert((k / 2) % 4 == action.sel);
    assert(k % 2 == bit);
}

/// The list holds the moves of rank below `k` onto free places, each once.
pub proof fn listed_moves_lists(grid: Cells, k: nat)
    requires
        k <= 288,
    ensures
        forall|action: PMove|
            listed_moves(grid, k).contains(action) <==> (action.x < 6 && action.y < 6
                && action.sel < 4 && move_rank(action) < k && grid(
                action.x as int,
                action.y as int,
            ) is None),
        listed_moves(grid, k).no_duplicates(),
    decreases k,
{
    let all = listed_moves(grid, k);
    if k > 0 {
        let rest = listed_moves(grid, (k - 1) as nat);
        listed_moves_lists(grid, (k - 1) as nat);
        let last = nth_move(k - 1);
        nth_move_has_rank(k - 1);
        assert forall|action: PMove|
            action.x < 6 && action.y < 6 && action.sel < 4 && move_rank(action) == k
                - 1 implies action == last by {
            rank_names_move(action);
        }
        if grid(last.x as int, last.y as int) is None {
            assert(all == rest.push(last));
            assert forall|action: PMove|
                all.contains(action) <==> (action.x < 6 && action.y < 6 && action.sel < 4
                    && move_rank(action) < k && grid(action.x as int, action.y as int) is None) by {
                if all.contains(action) {
                    let i = choose|i: int| 0 <= i < all.len() && all[i] == action;
                    if i < rest.len() {
                        assert(rest[i] == action);
                        assert(rest.contains(action));
                    }
                }
                if action.x < 6 && action.y < 6 && action.sel < 4 && move_rank(action) < k
                    && grid(action.x as int, action.y as int) is None {
                    if move_rank(action) == k - 1 {
                        assert(all[rest.len() as int] == action);
                    } else {
                        assert(rest.contains(action));
                        let i = choose|i: int| 0 <= i < rest.len() && rest[i] == action;
                        assert(all[i] == action);
                    }
                }
            }
            assert(!rest.contains(last));
            assert forall|i: int, j: int|
                0 <= i < all.len() && 0 <= j < all.len() && i != j implies all[i] != all[j] by {
                if i < rest.len() {
                    assert(rest.contains(rest[i]));
                }
                if j < rest.len() {
                    assert(rest.contains(rest[j]));
                }
            }
        } else {
            assert(all == rest);
        }
    } else {
        assert forall|action: PMove| !all.contains(action) by {}
    }
}

pub open spec fn marble_symbol(player: int) -> Seq<char> {
    if player == 0 {
        circle_symbol(Color::Yellow)
    } else {
        circle_symbol(Color::Red)
    }
}

pub open spec fn blue() -> Seq<char> {
    square_symbol(Color::Blue)
}

pub open spec fn black() -> Seq<char> {
    square_symbol(Color::Black)
}

/// The first `upto` column numbers of the border line, each followed by a
/// blue square.
pub open spec fn border_numbers(upto: nat) -> Seq<char>
    decreases upto,
{
    if upto == 0 {
        Seq::empty()
    } else {
        border_numbers((upto - 1) as nat) + number_symbol(upto as int) + blue()
    }
}

/// The line above and below the board.
pub open spec fn border_line() -> Seq<char> {
    blue() + border_numbers(6) + "\n"@
}

/// What is drawn for the place `(x, y)`: the marble or a black square, and
/// behind it the gap to the next place, which is blue between the quadrants.
pub open spec fn place_text(grid: Cells, x: int, y: int) -> Seq<char> {
    (match grid(x, y) {
        None => black(),
        Some(p) => marble_symbol(p as int),
    }) + (if x == 2 {
        blue()
    } else if x != 5 {
        black()
    } else {
        Seq::empty()
    })
}

/// The first `upto` places of the row `y`.
pub open spec fn places_text(grid: Cells, y: int, upto: nat) -> Seq<char>
    decreases upto,
{
    if upto == 0 {
        Seq::empty()
    } else {
        places_text(grid, y, (upto - 1) as nat) + place_text(grid, upto - 1, y)
    }
}

/// The first `upto` squares of the gap below the row `y`: blue below the
/// upper quadrants and in the middle column, black elsewhere.
pub open spec fn gap_text(y: int, upto: nat) -> Seq<char>
    decreases upto,
{
    if upto == 0 {
        Seq::empty()
    } else {
        gap_text(y, (upto - 1) as nat) + (if y == 2 || upto - 1 == 5 {
            blue()
        } else {
            black()
        })
    }
}

/// The row `y` between its numbers, and below every row but the last the gap
/// to the next one.
pub open spec fn row_block(grid: Cells, y: int) -> Seq<char> {
    number_symbol(y + 1) + places_text(grid, y, 6) + number_symbol(y + 1) + "\n"@ + (if y != 5 {
        blue() + gap_text(y, 11) + blue() + "\n"@
    } else {
        Seq::empty()
    })
}

/// The first `upto` rows.
pub open spec fn rows_block(grid: Cells, upto: nat) -> Seq<char>
    decreases upto,
{
    if upto == 0 {
        Seq::empty()
    } else {
        rows_block(grid, (upto - 1) as nat) + row_block(grid, upto - 1)
    }
}

/// The legend that shows how the quadrants are numbered.
pub open spec fn legend() -> Seq<char> {
    "\n\nSubfield layout:\n"@ + number_symbol(1) + number_symbol(2) + "\n"@ + number_symbol(3)
        + number_symbol(4)
}

/// The decimal value of a digit character.
pub open spec fn digit_value(c: char) -> Option<usize> {
    if c == '0' {
        Some(0usize)
    } else if c == '1' {
        Some(1usize)
    } else if c == '2' {
        Some(2usize)
    } else if c == '3' {
        Some(3usize)
    } else if c == '4' {
        Some(4usize)
    } else if c == '5' {
        Some(5usize)
    } else if c == '6' {
        Some(6usize)
    } else if c == '7' {
        Some(7usize)
    } else if c == '8' {
        Some(8usize)
    } else if c == '9' {
        Some(9usize)
    } else {
        None
    }
}

/// The coordinate that a typed digit stands for: players count from 1. The
/// digit 0 stands for no place at all.
pub open spec fn typed_coordinate(digit: usize) -> usize {
    if digit == 0 {
        usize::MAX
    } else {
        (digit - 1) as usize
    }
}

/// The move that a text stands for: three digits for column, row and
/// quadrant, then a letter, `a` or `A` for a turn against the clock and
/// anything else for a turn with it. What follows is ignored.
pub open spec fn typed_move(text: Seq<char>) -> Option<PMove> {
    if text.len() < 4 {
        None
    } else if digit_value(text[0]) is None || digit_value(text[1]) is None || digit_value(
        text[2],
    ) is None {
        None
    } else {
        Some(
            PMove {
                x: typed_coordinate(digit_value(text[0]).unwrap()),
                y: typed_coordinate(digit_value(text[1]).unwrap()),
                sel: typed_coordinate(digit_value(text[2]).unwrap()),
                dir: if text[3] == 'a' || text[3] == 'A' {
                    Rotation::AntiClockwise
                } else {
                    Rotation::Clockwise
                },
            },
        )
    }
}

fn digit_of(c: char) -> (digit: Option<usize>)
    ensures
        digit == digit_value(c),
{
    if c == '0' {
        Some(0)
    } else if c == '1' {
        Some(1)
    } else if c == '2' {
        Some(2)
    } else if c == '3' {
        Some(3)
    } else if c == '4' {
        Some(4)
    } else if c == '5' {
        Some(5)
    } else if c == '6' {
        Some(6)
    } else if c == '7' {
        Some(7)
    } else if c == '8' {
        Some(8)
    } else if c == '9' {
        Some(9)
    } else {
        None
    }
}

fn coordinate_of(digit: usize) -> (at: usize)
    ensures
        at == typed_coordinate(digit),
{
    if digit == 0 {
        usize::MAX
    } else {
        digit - 1
    }
}

impl PMove {
    pub fn new(x: usize, y: usize, sel: usize, dir: Rotation) -> (action: PMove)
        ensures
            action == (PMove { x, y, sel, dir }),
    {
        PMove { x, y, sel, dir }
    }

    /// Reads a move as a player types it, such as `314A`.
    pub fn parse(text: &str) -> (action: Option<PMove>)
        ensures
            action == typed_move(text@),
    {
        if text.unicode_len() < 4 {
            return None;
        }
        let x: Option<usize> = digit_of(text.get_char(0));
        let y: Option<usize> = digit_of(text.get_char(1));
        let s: Option<usize> = digit_of(text.get_char(2));
        let turn: char = text.get_char(3);
        match (x, y, s) {
            (Some(x), Some(y), Some(s)) => {
                let dir: Rotation = if turn == 'a' || turn == 'A' {
                    Rotation::AntiClockwise
                } else {
                    Rotation::Clockwise
                };
                Some(PMove { x: coordinate_of(x), y: coordinate_of(y), sel: coordinate_of(s), dir })
            },
            _ => None,
        }
    }
}

impl Pentago {
    /// The places of the board as a grid; outside the board nothing is owned.
    pub closed spec fn cells(&self) -> Cells {
        |x: int, y: int|
            if 0 <= x < 6 && 0 <= y < 6 {
                self.field[x][y]
            } else {
                None
            }
    }

    /// The board that holds what the grid holds.
    pub closed spec fn of_cells(grid: Cells) -> Self {
        choose|board: Pentago| same_board(board.cells(), grid)
    }

    /// Boards that hold the same are the same board.
    pub proof fn same_cells_same_board(&self, other: &Self)
        requires
            same_board(self.cells(), other.cells()),
        ensures
            *self == *other,
    {
        assert forall|x: int| 0 <= x < 6 implies self.field[x] == other.field[x] by {
            assert forall|y: int| 0 <= y < 6 implies self.field[x][y] == other.field[x][y] by {
                assert((self.cells())(x, y) == (other.cells())(x, y));
            }
            assert(self.field[x] =~= other.field[x]);
        }
        assert(self.field =~= other.field);
    }

    /// A board that holds what a grid holds is the board of that grid.
    pub proof fn is_board_of(&self, grid: Cells)
        requires
            same_board(self.cells(), grid),
        ensures
            *self == Self::of_cells(grid),
            forall|x: int, y: int| !(0 <= x < 6 && 0 <= y < 6) ==> (#[trigger] (self.cells())(
                x,
                y,
            )) is None,
    {
        let chosen = Self::of_cells(grid);
        assert(same_board(chosen.cells(), grid));
        assert forall|x: int, y: int| 0 <= x < 6 && 0 <= y < 6 implies #[trigger] (self.cells())(
            x,
            y,
        ) == (chosen.cells())(x, y) by {
            assert((self.cells())(x, y) == grid(x, y));
            assert((chosen.cells())(x, y) == grid(x, y));
        }
        self.same_cells_same_board(&chosen);
    }

    /// Moves the marbles of four places one place on: what lay on the fourth
    /// comes to the first, what lay on the first to the second, and so on.
    fn cycle(
        &mut self,
        x0: usize,
        y0: usize,
        x1: usize,
        y1: usize,
        x2: usize,
        y2: usize,
        x3: usize,
        y3: usize,
    )
        requires
            x0 < 6 && y0 < 6 && x1 < 6 && y1 < 6 && x2 < 6 && y2 < 6 && x3 < 6 && y3 < 6,
            (x0, y0) != (x1, y1) && (x0, y0) != (x2, y2) && (x0, y0) != (x3, y3),
            (x1, y1) != (x2, y2) && (x1, y1) != (x3, y3) && (x2, y2) != (x3, y3),
        ensures
            forall|x: int, y: int| #[trigger]
                (final(self).cells())(x, y) == (if x == x0 && y == y0 {
                    (old(self).cells())(x3 as int, y3 as int)
                } else if x == x1 && y == y1 {
                    (old(self).cells())(x0 as int, y0 as int)
                } else if x == x2 && y == y2 {
                    (old(self).cells())(x1 as int, y1 as int)
                } else if x == x3 && y == y3 {
                    (old(self).cells())(x2 as int, y2 as int)
                } else {
                    (old(self).cells())(x, y)
                }),
    {
        let mut last: Option<usize> = self.field[x3][y3];
        let first: Option<usize> = self.field[x0][y0];
        self.field[x0][y0] = last;
        last = first;
        let second: Option<usize> = self.field[x1][y1];
        self.field[x1][y1] = last;
        last = second;
        let third: Option<usize> = self.field[x2][y2];
        self.field[x2][y2] = last;
        last = third;
        self.field[x3][y3] = last;
    }

    /// Turns the quadrant `sel` by a quarter against the clock.
    fn turn_once(&mut self, sel: usize)
        requires
            sel < 4,
        ensures
            forall|x: int, y: int| #[trigger]
                (final(self).cells())(x, y) == turned_cells(
                    old(self).cells(),
                    sel as int,
                    Rotation::AntiClockwise,
                )(x, y),
    {
        let ox: usize = 3 * (sel % 2);
        let oy: usize = 3 * (sel / 2);
        self.cycle(ox + 1, oy, ox, oy + 1, ox + 1, oy + 2, ox + 2, oy + 1);
        self.cycle(ox, oy, ox, oy + 2, ox + 2, oy + 2, ox + 2, oy);
    }

    /// Turns the quadrant `sel` by a quarter.
    fn turn(&mut self, sel: usize, dir: Rotation)
        requires
            sel < 4,
        ensures
            forall|x: int, y: int| #[trigger]
                (final(self).cells())(x, y) == turned_cells(old(self).cells(), sel as int, dir)(
                    x,
                    y,
                ),
    {
        self.turn_once(sel);
        match dir {
            Rotation::AntiClockwise => {},
            Rotation::Clockwise => {
                self.turn_once(sel);
                self.turn_once(sel);
            },
        }
    }
}

impl Clone for Pentago {
    fn clone(&self) -> (copy: Self)
        ensures
            copy == *self,
    {
        Pentago { field: self.field }
    }
}

impl Default for Pentago {
    /// The board without a marble.
    fn default() -> (board: Self)
        ensures
            board.is_fresh(),
            board.wf(),
    {
        let free: Option<usize> = None;
        let board = Pentago { field: [[free; 6]; 6] };
        assert forall|x: int, y: int| #[trigger] (board.cells())(x, y) is None by {}
        board
    }
}

impl PvpGame<PMove> for Pentago {
    open spec fn wf(&self) -> bool {
        forall|x: int, y: int| (#[trigger] (self.cells())(x, y)) matches Some(p) ==> p < 2
    }

    open spec fn status_of(&self) -> GameState {
        line_state(self.cells(), 6, 6, 5)
    }

    open spec fn accepts(&self, action: PMove, person: usize) -> bool {
        action.sel < 4 && action.x < 6 && action.y < 6 && (self.cells())(
            action.x as int,
            action.y as int,
        ) is None
    }

    open spec fn after(&self, action: PMove, person: usize) -> Self {
        Self::of_cells(moved_cells(self.cells(), action, person))
    }

    open spec fn moves_of(&self, player: usize) -> Seq<PMove> {
        listed_moves(self.cells(), 288)
    }

    open spec fn is_fresh(&self) -> bool {
        forall|x: int, y: int| (#[trigger] (self.cells())(x, y)) is None
    }

    open spec fn vacancies(&self) -> nat {
        board_free(self.cells())
    }

    open spec fn title_of() -> Seq<char> {
        "Pentago"@
    }

    open spec fn figure_of(player: int) -> Seq<char> {
        marble_symbol(player)
    }

    open spec fn drawing(&self) -> Seq<char> {
        border_line() + rows_block(self.cells(), 6) + border_line() + legend()
    }

    fn title() -> (name: &'static str) {
        "Pentago"
    }

    fn draw(&self) -> (out: String) {
        let figs: Vec<String> = Self::figures();
        let black_sq: &'static str = square(Color::Black);
        let blue_sq: &'static str = square(Color::Blue);

        let mut hor_border: String = String::from_str(blue_sq);
        let mut n: usize = 1;
        while n <= 6
            invariant
                1 <= n <= 7,
                blue_sq@ == blue(),
                hor_border@ == blue() + border_numbers((n - 1) as nat),
            decreases 7 - n,
        {
            hor_border.append(number_str(n));
            hor_border.append(blue_sq);
            assert(hor_border@ =~= blue() + border_numbers(n as nat));
            n = n + 1;
        }
        hor_border.append("\n");
        assert(hor_border@ == border_line());

        let mut out: String = String::new();
        out.append(hor_border.as_str());
        assert(out@ =~= border_line() + rows_block(self.cells(), 0));

        let mut y: usize = 0;
        while y < 6
            invariant
                y <= 6,
                self.wf(),
                black_sq@ == black(),
                blue_sq@ == blue(),
                hor_border@ == border_line(),
                figs@.len() == 2,
                forall|p: int| 0 <= p < 2 ==> (#[trigger] figs@[p])@ == marble_symbol(p),
                out@ == border_line() + rows_block(self.cells(), y as nat),
            decreases 6 - y,
        {
            let ghost start = out@;
            out.append(number_str(y + 1));
            let ghost numbered = out@;
            let mut x: usize = 0;
            while x < 6
                invariant
                    x <= 6,
                    y < 6,
                    self.wf(),
                    black_sq@ == black(),
                    blue_sq@ == blue(),
                    figs@.len() == 2,
                    forall|p: int| 0 <= p < 2 ==> (#[trigger] figs@[p])@ == marble_symbol(p),
                    out@ == numbered + places_text(self.cells(), y as int, x as nat),
                decreases 6 - x,
            {
                match self.field[x][y] {
                    None => {
                        out.append(black_sq);
                    },
                    Some(p) => {
                        assert((self.cells())(x as int, y as int) == Some(p));
                        out.append(figs[p].as_str());
                    },
                }
                if x == 2 {
                    out.append(blue_sq);
                } else if x != 5 {
                    out.append(black_sq);
                }
                assert(out@ =~= numbered + places_text(self.cells(), y as int, (x + 1) as nat));
                x = x + 1;
            }
            out.append(number_str(y + 1));
            out.append("\n");
            if y != 5 {
                out.append(blue_sq);
                let ghost gap_start = out@;
                let mut g: usize = 0;
                while g < 11
                    invariant
                        g <= 11,
                        black_sq@ == black(),
                        blue_sq@ == blue(),
                        out@ == gap_start + gap_text(y as int, g as nat),
                    decreases 11 - g,
                {
                    if y == 2 || g == 5 {
                        out.append(blue_sq);
                    } else {
                        out.append(black_sq);
                    }
                    assert(out@ =~= gap_start + gap_text(y as int, (g + 1) as nat));
                    g = g + 1;
                }
                out.append(blue_sq);
                out.append("\n");
            }
            assert(out@ =~= start + row_block(self.cells(), y as int));
            assert(out@ =~= border_line() + rows_block(self.cells(), (y + 1) as nat));
            y = y + 1;
        }
        out.append(hor_border.as_str());
        out.append("\n\nSubfield layout:\n");
        out.append(number_str(1));
        out.append(number_str(2));
        out.append("\n");
        out.append(number_str(3));
        out.append(number_str(4));
        assert(out@ =~= self.drawing());
        out
    }

    fn make_move(&mut self, mov: PMove, person: usize) -> (state: GameState) {
        if mov.sel >= 4 || mov.x >= 6 || mov.y >= 6 {
            return GameState::Invalid;
        }
        if self.field[mov.x][mov.y].is_some() {
            return GameState::Invalid;
        }
        self.field[mov.x][mov.y] = Some(person);
        let ghost placed = marked_cells(old(self).cells(), mov.x as int, mov.y as int, person);
        assert(same_board(self.cells(), placed));
        let placed_state: GameState = self.status();
        proof {
            same_board_same_state(self.cells(), placed, 5);
        }
        if let GameState::Win(_) = placed_state {
            proof {
                self.is_board_of(moved_cells(old(self).cells(), mov, person));
            }
            return placed_state;
        }
        self.turn(mov.sel, mov.dir);
        proof {
            assert(same_board(self.cells(), moved_cells(old(self).cells(), mov, person)));
            self.is_board_of(moved_cells(old(self).cells(), mov, person));
        }
        self.status()
    }

    fn status(&self) -> (state: GameState) {
        let look = |x: usize, y: usize| -> (place: Option<usize>)
            requires
                x < 6 && y < 6,
            ensures
                place == self.field[x as int][y as int],
            { self.field[x][y] };
        assert(covers(&look, 6, 6));
        assert(reads(&look, 6, 6, self.cells()));
        n_in_a_row(6, 6, &look, 5)
    }

    fn possible_moves(&self, player: usize) -> (moves: Vec<PMove>) {
        let mut moves: Vec<PMove> = Vec::new();
        let mut k: usize = 0;
        while k < 288
            invariant
                k <= 288,
                moves@ == listed_moves(self.cells(), k as nat),
            decreases 288 - k,
        {
            let x: usize = k / 48;
            let y: usize = (k / 8) % 6;
            if self.field[x][y].is_none() {
                let dir: Rotation = if k % 2 == 0 {
                    Rotation::AntiClockwise
                } else {
                    Rotation::Clockwise
                };
                moves.push(PMove { x, y, sel: (k / 2) % 4, dir });
            }
            k = k + 1;
        }
        moves
    }

    fn figures() -> (symbols: Vec<String>) {
        let mut symbols: Vec<String> = Vec::new();
        symbols.push(String::from_str(circle(Color::Yellow)));
        symbols.push(String::from_str(circle(Color::Red)));
        symbols
    }

    fn is_empty(&self) -> (fresh: bool) {
        let mut x: usize = 0;
        while x < 6
            invariant
                x <= 6,
                forall|x2: int, y2: int|
                    0 <= x2 < x && 0 <= y2 < 6 ==> (#[trigger] (self.cells())(x2, y2)) is None,
            decreases 6 - x,
        {
            let mut y: usize = 0;
            while y < 6
                invariant
                    x < 6,
                    y <= 6,
                    forall|x2: int, y2: int|
                        0 <= x2 < x && 0 <= y2 < 6 ==> (#[trigger] (self.cells())(x2, y2)) is None,
                    forall|y2: int| 0 <= y2 < y ==> (#[trigger] (self.cells())(x as int, y2)) is None,
                decreases 6 - y,
            {
                if self.field[x][y].is_some() {
                    assert((self.cells())(x as int, y as int) is Some);
                    return false;
                }
                y = y + 1;
            }
            x = x + 1;
        }
        true
    }

    proof fn clone_is_exact(&self, copy: &Self) {
    }

    proof fn status_is_settled(&self) {
        winner_owns_a_cell(self.cells(), 6, 6, 5);
    }

    proof fn moves_are_the_accepted(&self, player: usize) {
        listed_moves_lists(self.cells(), 288);
    }

    proof fn accepted_move_fills(&self, action: PMove, person: usize) {
        let target = moved_cells(self.cells(), action, person);
        let next = self.after(action, person);
        self.board_exists(target);
        next.is_board_of(target);
        moving_keeps_players(self.cells(), action, person);
        assert forall|x: int, y: int| (#[trigger] (next.cells())(x, y)) is Some implies (
        next.cells())(x, y).unwrap() < 2 by {
            if 0 <= x < 6 && 0 <= y < 6 {
                assert((next.cells())(x, y) == target(x, y));
            }
        }
        let placed = marked_cells(self.cells(), action.x as int, action.y as int, person);
        marking_fills(self.cells(), action.x as int, action.y as int, person);
        turning_keeps_free(placed, action.sel as int, action.dir);
        same_board_same_free(next.cells(), target);
        free_count_is_bounded(self.cells());
        if next.is_fresh() {
            fresh_board_is_free(next.cells());
        }
    }

    proof fn running_has_moves(&self, player: usize) {
        winner_owns_a_cell(self.cells(), 6, 6, 5);
        let (x, y) = choose|x: int, y: int|
            inside(6, 6, x, y) && !#[trigger] owned_at(self.cells(), x, y);
        listed_moves_lists(self.cells(), 288);
        let action = PMove { x: x as usize, y: y as usize, sel: 0, dir: Rotation::AntiClockwise };
        assert(self.moves_of(player).contains(action));
    }

    proof fn winner_is_a_player(&self) {
        winner_owns_a_cell(self.cells(), 6, 6, 5);
    }
}

impl Pentago {
    /// Every grid is held by some board.
    pub proof fn board_exists(&self, grid: Cells)
        ensures
            same_board(Self::of_cells(grid).cells(), grid),
    {
        let field = Self::field_of(grid);
        let board = Pentago { field };
        assert(same_board(board.cells(), grid));
    }

    spec fn column_of(grid: Cells, x: int) -> [Option<usize>; 6] {
        [grid(x, 0), grid(x, 1), grid(x, 2), grid(x, 3), grid(x, 4), grid(x, 5)]
    }

    spec fn field_of(grid: Cells) -> [[Option<usize>; 6]; 6] {
        [
            Self::column_of(grid, 0),
            Self::column_of(grid, 1),
            Self::column_of(grid, 2),
            Self::column_of(grid, 3),
            Self::column_of(grid, 4),
            Self::column_of(grid, 5),
        ]
    }
}

impl BuiltinAi<PMove> for Pentago {
    open spec fn has_ai() -> bool {
        false
    }

    open spec fn ai_plays(game: &Self, player: usize, action: PMove) -> bool {
        false
    }

    /// This game has no opponent of its own.
    fn ai() -> (player: Option<Box<dyn AiPlayer<PMove, Self>>>) {
        None
    }
}

/// The state of a grid depends on the places of the board alone.
pub proof fn same_board_same_state(a: Cells, b: Cells, n: int)
    requires
        same_board(a, b),
    ensures
        line_state(a, 6, 6, n) == line_state(b, 6, 6, n),
{
    crate::grid::line_state_is_local(a, b, 6, 6, n);
}

/// Grids that hold the same on the board have as many free places.
pub proof fn same_board_same_free(a: Cells, b: Cells)
    requires
        same_board(a, b),
    ensures
        board_free(a) == board_free(b),
{
    assert forall|x: int, y: int| 0 <= x < 6 && 0 <= y < 6 implies free_at(a, x, y) == free_at(
        b,
        x,
        y,
    ) by {
        assert(a(x, y) == b(x, y));
    }
}

/// After a player's move on a board of players every marble on the board is
/// a player's.
pub proof fn moving_keeps_players(grid: Cells, action: PMove, person: usize)
    requires
        person < 2,
        action.sel < 4,
        forall|x: int, y: int| (#[trigger] grid(x, y)) matches Some(p) ==> p < 2,
    ensures
        forall|x: int, y: int|
            (#[trigger] moved_cells(grid, action, person)(x, y)) matches Some(p) ==> p < 2,
{
    let placed = marked_cells(grid, action.x as int, action.y as int, person);
    assert forall|x: int, y: int| (#[trigger] placed(x, y)) is Some implies placed(
        x,
        y,
    ).unwrap() < 2 by {
        if !(x == action.x && y == action.y) {
            assert(placed(x, y) == grid(x, y));
        }
    }
    let turned = turned_cells(placed, action.sel as int, action.dir);
    let ox = 3 * (action.sel as int % 2);
    let oy = 3 * (action.sel as int / 2);
    assert forall|x: int, y: int| (#[trigger] turned(x, y)) is Some implies turned(
        x,
        y,
    ).unwrap() < 2 by {
        if ox <= x < ox + 3 && oy <= y < oy + 3 {
            match action.dir {
                Rotation::AntiClockwise => {
                    assert(turned(x, y) == placed(ox + 2 - (y - oy), oy + (x - ox)));
                },
                Rotation::Clockwise => {
                    assert(turned(x, y) == placed(ox + (y - oy), oy + 2 - (x - ox)));
                },
            }
        } else {
            assert(turned(x, y) == placed(x, y));
        }
    }
}

/// A board has at most 36 free places.
pub proof fn free_count_is_bounded(grid: Cells)
    ensures
        board_free(grid) <= 36,
{
}

/// Every place of a board without a marble is free.
pub proof fn fresh_board_is_free(grid: Cells)
    requires
        forall|x: int, y: int| (#[trigger] grid(x, y)) is None,
    ensures
        board_free(grid) == 36,
{
    assert forall|x: int, y: int| #[trigger] free_at(grid, x, y) == 1 by {
        assert(grid(x, y) is None);
    }
}

/// A marble on a free place leaves one free place less in the quadrant of
/// that place and as many as before in every other.
pub proof fn marking_fills_quadrant(grid: Cells, ox: int, oy: int, x: int, y: int, mark: usize)
    requires
        grid(x, y) is None,
    ensures
        quadrant_free(marked_cells(grid, x, y, mark), ox, oy) + (if ox <= x < ox + 3 && oy <= y
            < oy + 3 {
            1nat
        } else {
            0nat
        }) == quadrant_free(grid, ox, oy),
{
    let next = marked_cells(grid, x, y, mark);
    assert forall|x2: int, y2: int| #[trigger]
        free_at(next, x2, y2) == (if x2 == x && y2 == y {
            0nat
        } else {
            free_at(grid, x2, y2)
        }) by {}
    assert(free_at(grid, x, y) == 1);
}

/// A marble on a free place leaves one free place less.
pub proof fn marking_fills(grid: Cells, x: int, y: int, mark: usize)
    requires
        0 <= x < 6,
        0 <= y < 6,
        grid(x, y) is None,
    ensures
        board_free(marked_cells(grid, x, y, mark)) + 1 == board_free(grid),
{
    marking_fills_quadrant(grid, 0, 0, x, y, mark);
    marking_fills_quadrant(grid, 3, 0, x, y, mark);
    marking_fills_quadrant(grid, 0, 3, x, y, mark);
    marking_fills_quadrant(grid, 3, 3, x, y, mark);
}

/// Turning a quadrant keeps the number of free places.
pub proof fn turning_keeps_free(grid: Cells, sel: int, dir: Rotation)
    requires
        0 <= sel < 4,
    ensures
        board_free(turned_cells(grid, sel, dir)) == board_free(grid),
{
    let next = turned_cells(grid, sel, dir);
    let ox = 3 * (sel % 2);
    let oy = 3 * (sel / 2);
    assert forall|x: int, y: int| #[trigger]
        free_at(next, x, y) == (if ox <= x < ox + 3 && oy <= y < oy + 3 {
            match dir {
                Rotation::AntiClockwise => free_at(grid, ox + 2 - (y - oy), oy + (x - ox)),
                Rotation::Clockwise => free_at(grid, ox + (y - oy), oy + 2 - (x - ox)),
            }
        } else {
            free_at(grid, x, y)
        }) by {}
    if sel == 0 {
        assert(quadrant_free(next, 0, 0) == quadrant_free(grid, 0, 0));
    } else if sel == 1 {
        assert(quadrant_free(next, 3, 0) == quadrant_free(grid, 3, 0));
    } else if sel == 2 {
        assert(quadrant_free(next, 0, 3) == quadrant_free(grid, 0, 3));
    } else {
        assert(quadrant_free(next, 3, 3) == quadrant_free(grid, 3, 3));
    }
}

} // verus!
