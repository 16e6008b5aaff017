//! The classic game on a 3×3 board, whose places are numbered row by row.

use vstd::prelude::*;
use crate::game::{indices_where, indices_where_drop, indices_where_lists, AiPlayer, BuiltinAi, PvpGame};
use crate::minimax::{search, Minimax, MinimaxAi};
use crate::state::GameState;
use crate::symbols::{border_str, border_symbol, empty_str, empty_symbol, number_str, number_symbol};

verus! {

/// The nine places of a board, each free or marked by a player.
pub type TTTField = [Option<usize>; 9];

/// The `j`-th place of the `k`-th winning line. The lines come in the order in
/// which they are examined: the two diagonals, then column and row 0, column
/// and row 1, column and row 2.
pub open spec fn line_cell(k: int, j: int) -> int {
    if k == 0 {
        4 * j
    } else if k == 1 {
        2 + 2 * j
    } else if k % 2 == 0 {
        (k - 2) / 2 + 3 * j
    } else {
        3 * ((k - 3) / 2) + j
    }
}

/// One mark fills the whole `k`-th line.
pub open spec fn line_owned(cells: Seq<Option<usize>>, k: int) -> bool {
    &&& cells[line_cell(k, 0)] is Some
    &&& cells[line_cell(k, 1)] == cells[line_cell(k, 0)]
    &&& cells[line_cell(k, 2)] == cells[line_cell(k, 0)]
}

/// The mark of the first owned line among the lines `k..8`.
pub open spec fn first_owner(cells: Seq<Option<usize>>, k: int) -> Option<usize>
    decreases 8 - k,
{
    if k < 0 || k >= 8 {
        None
    } else if line_owned(cells, k) {
        cells[line_cell(k, 0)]
    } else {
        first_owner(cells, k + 1)
    }
}

pub open spec fn all_marked(cells: Seq<Option<usize>>) -> bool {
    forall|i: int| 0 <= i < 9 ==> (#[trigger] cells[i]) is Some
}

pub open spec fn none_marked(cells: Seq<Option<usize>>) -> bool {
    forall|i: int| 0 <= i < 9 ==> (#[trigger] cells[i]) is None
}

pub open spec fn marks_are_players(cells: Seq<Option<usize>>) -> bool {
    forall|i: int| 0 <= i < 9 ==> ((#[trigger] cells[i]) matches Some(p) ==> p < 2)
}

/// Won by the mark of the first owned line; else tied when every place is
/// marked; else running.
pub open spec fn field_state(cells: Seq<Option<usize>>) -> GameState {
    match first_owner(cells, 0) {
        Some(p) => GameState::Win(p),
        None => if all_marked(cells) {
            GameState::Tie
        } else {
            GameState::Running
        },
    }
}

/// The free places in ascending order.
pub open spec fn free_places(cells: Seq<Option<usize>>) -> Seq<usize> {
    indices_where(9, |i: int| cells[i] is None)
}

pub open spec fn title_text() -> Seq<char> {
    "Tic Tac Toe"@
}

/// The symbols of the two players on all boards made of squares.
pub open spec fn square_figure(player: int) -> Seq<char> {
    if player == 0 {
        "\u{1f7e5}"@
    } else {
        "\u{1f7e8}"@
    }
}

/// What is drawn in column `ix`, row `iy` of the 3×3 block that stands for the
/// place `idx`: the player's symbol, or on a free place its number in the
/// middle and the empty symbol around it.
#[verifier::opaque]
pub open spec fn place_symbol(cells: Seq<Option<usize>>, idx: int, ix: int, iy: int) -> Seq<char> {
    match cells[idx] {
        Some(p) => square_figure(p as int),
        None => if ix == 1 && iy == 1 {
            number_symbol(idx + 1)
        } else {
            empty_symbol()
        },
    }
}

/// One text line of a block: three symbols, then a border or the line's end.
#[verifier::opaque]
pub open spec fn block_line(cells: Seq<Option<usize>>, x: int, y: int, iy: int) -> Seq<char> {
    place_symbol(cells, 3 * y + x, 0, iy) + place_symbol(cells, 3 * y + x, 1, iy) + place_symbol(
        cells,
        3 * y + x,
        2,
        iy,
    ) + (if x < 2 {
        border_symbol()
    } else {
        "\n"@
    })
}

/// One text line across the three blocks of the board row `y`.
#[verifier::opaque]
pub open spec fn text_line(cells: Seq<Option<usize>>, y: int, iy: int) -> Seq<char> {
    block_line(cells, 0, y, iy) + block_line(cells, 1, y, iy) + block_line(cells, 2, y, iy)
}

/// `count` border symbols.
pub open spec fn border_run(count: nat) -> Seq<char>
    decreases count,
{
    if count == 0 {
        Seq::empty()
    } else {
        border_run((count - 1) as nat) + border_symbol()
    }
}

/// The three text lines of the board row `y`, followed below rows 0 and 1 by a
/// line of eleven borders.
#[verifier::opaque]
pub open spec fn band(cells: Seq<Option<usize>>, y: int) -> Seq<char> {
    text_line(cells, y, 0) + text_line(cells, y, 1) + text_line(cells, y, 2) + (if y < 2 {
        border_run(11) + "\n"@
    } else {
        Seq::empty()
    })
}

/// The whole drawing: the three bands from top to bottom.
pub open spec fn field_drawing(cells: Seq<Option<usize>>) -> Seq<char> {
    band(cells, 0) + band(cells, 1) + band(cells, 2)
}

/// The place in column `x` of row `y`.
pub fn flatten_xy(x: usize, y: usize) -> (idx: usize)
    requires
        3 * y + x <= usize::MAX,
    ensures
        idx == 3 * y + x,
{
    3 * y + x
}

fn line_cell_at(k: usize, j: usize) -> (idx: usize)
    requires
        k < 8,
        j < 3,
    ensures
        idx == line_cell(k as int, j as int),
        idx < 9,
{
    if k == 0 {
        4 * j
    } else if k == 1 {
        2 + 2 * j
    } else if k % 2 == 0 {
        (k - 2) / 2 + 3 * j
    } else {
        3 * ((k - 3) / 2) + j
    }
}

fn same_mark(a: Option<usize>, b: Option<usize>) -> (same: bool)
    ensures
        same == (a == b),
{
    match (a, b) {
        (Some(p), Some(q)) => p == q,
        (None, None) => true,
        _ => false,
    }
}

/// The mark of the first winning line that one mark fills, if there is one.
pub fn line_owner(field: &TTTField) -> (owner: Option<usize>)
    ensures
        owner == first_owner(field@, 0),
{
    let mut k: usize = 0;
    while k < 8
        invariant
            k <= 8,
            first_owner(field@, 0) == first_owner(field@, k as int),
        decreases 8 - k,
    {
        let a: usize = line_cell_at(k, 0);
        let b: usize = line_cell_at(k, 1);
        let c: usize = line_cell_at(k, 2);
        match field[a] {
            Some(p) => {
                if same_mark(field[b], field[a]) && same_mark(field[c], field[a]) {
                    return Some(p);
                }
            },
            None => {},
        }
        k = k + 1;
    }
    None
}

/// The symbols of the two players on all boards made of squares.
pub fn square_figures() -> (symbols: Vec<String>)
    ensures
        symbols@.len() == 2,
        forall|p: int| 0 <= p < 2 ==> (#[trigger] symbols@[p])@ == square_figure(p),
{
    let mut symbols: Vec<String> = Vec::new();
    symbols.push(String::from_str("\u{1f7e5}"));
    symbols.push(String::from_str("\u{1f7e8}"));
    symbols
}

/// Appends `count` border symbols.
pub fn draw_border_run(out: &mut String, count: usize)
    ensures
        final(out)@ == old(out)@ + border_run(count as nat),
{
    let mut b: usize = 0;
    while b < count
        invariant
            b <= count,
            out@ == old(out)@ + border_run(b as nat),
        decreases count - b,
    {
        out.append(border_str());
        assert(out@ =~= old(out)@ + border_run((b + 1) as nat));
        b = b + 1;
    }
}

/// Appends what is drawn in column `ix`, row `iy` of the block of a place.
fn draw_place(field: &TTTField, fig: &Vec<String>, idx: usize, ix: usize, iy: usize, out: &mut String)
    requires
        idx < 9,
        marks_are_players(field@),
        fig@.len() == 2,
        forall|p: int| 0 <= p < 2 ==> (#[trigger] fig@[p])@ == square_figure(p),
    ensures
        final(out)@ == old(out)@ + place_symbol(field@, idx as int, ix as int, iy as int),
{
    proof {
        reveal(place_symbol);
    }
    match field[idx] {
        Some(p) => {
            assert(field@[idx as int] == Some(p));
            out.append(fig[p].as_str());
        },
        None => {
            if ix == iy && ix == 1 {
                out.append(number_str(idx + 1));
            } else {
                out.append(empty_str());
            }
        },
    }
}

/// Appends one text line of the block of the place in column `x`, row `y`.
fn draw_block_line(field: &TTTField, fig: &Vec<String>, x: usize, y: usize, iy: usize, out: &mut String)
    requires
        x < 3,
        y < 3,
        marks_are_players(field@),
        fig@.len() == 2,
        forall|p: int| 0 <= p < 2 ==> (#[trigger] fig@[p])@ == square_figure(p),
    ensures
        final(out)@ == old(out)@ + block_line(field@, x as int, y as int, iy as int),
{
    let idx: usize = flatten_xy(x, y);
    proof {
        reveal(block_line);
    }
    draw_place(field, fig, idx, 0, iy, out);
    draw_place(field, fig, idx, 1, iy, out);
    draw_place(field, fig, idx, 2, iy, out);
    if x < 2 {
        out.append(border_str());
    } else {
        out.append("\n");
    }
    assert(out@ =~= old(out)@ + block_line(field@, x as int, y as int, iy as int));
}

/// Appends one text line across the three blocks of a board row.
fn draw_text_line(field: &TTTField, fig: &Vec<String>, y: usize, iy: usize, out: &mut String)
    requires
        y < 3,
        marks_are_players(field@),
        fig@.len() == 2,
        forall|p: int| 0 <= p < 2 ==> (#[trigger] fig@[p])@ == square_figure(p),
    ensures
        final(out)@ == old(out)@ + text_line(field@, y as int, iy as int),
{
    proof {
        reveal(text_line);
    }
    draw_block_line(field, fig, 0, y, iy, out);
    draw_block_line(field, fig, 1, y, iy, out);
    draw_block_line(field, fig, 2, y, iy, out);
    assert(out@ =~= old(out)@ + text_line(field@, y as int, iy as int));
}

/// Appends the three text lines of a board row and the border below it.
fn draw_band(field: &TTTField, fig: &Vec<String>, y: usize, out: &mut String)
    requires
        y < 3,
        marks_are_players(field@),
        fig@.len() == 2,
        forall|p: int| 0 <= p < 2 ==> (#[trigger] fig@[p])@ == square_figure(p),
    ensures
        final(out)@ == old(out)@ + band(field@, y as int),
{
    proof {
        reveal(band);
    }
    draw_text_line(field, fig, y, 0, out);
    draw_text_line(field, fig, y, 1, out);
    draw_text_line(field, fig, y, 2, out);
    if y < 2 {
        draw_border_run(out, 11);
        out.append("\n");
    }
    assert(out@ =~= old(out)@ + band(field@, y as int));
}

/// A line that is owned on a board of players is owned by a player.
pub proof fn first_owner_is_mark(cells: Seq<Option<usize>>, k: int)
    requires
        cells.len() == 9,
        0 <= k <= 8,
    ensures
        first_owner(cells, k) matches Some(p) ==> exists|i: int|
            0 <= i < 9 && #[trigger] cells[i] == Some(p),
    decreases 8 - k,
{
    if k < 8 {
        if line_owned(cells, k) {
            assert(0 <= line_cell(k, 0) < 9);
            assert(cells[line_cell(k, 0)] == first_owner(cells, k));
        } else {
            first_owner_is_mark(cells, k + 1);
        }
    }
}

impl PvpGame<usize> for TTTField {
    open spec fn wf(&self) -> bool {
        marks_are_players(self@)
    }

    open spec fn status_of(&self) -> GameState {
        field_state(self@)
    }

    open spec fn accepts(&self, action: usize, person: usize) -> bool {
        action < 9 && self@[action as int] is None
    }

    open spec fn after(&self, action: usize, person: usize) -> Self {
        vstd::array::spec_array_update(*self, action as int, Some(person))
    }

    open spec fn moves_of(&self, player: usize) -> Seq<usize> {
        free_places(self@)
    }

    open spec fn is_fresh(&self) -> bool {
        none_marked(self@)
    }

    open spec fn vacancies(&self) -> nat {
        free_places(self@).len()
    }

    open spec fn title_of() -> Seq<char> {
        title_text()
    }

    open spec fn figure_of(player: int) -> Seq<char> {
        square_figure(player)
    }

    open spec fn drawing(&self) -> Seq<char> {
        field_drawing(self@)
    }

    fn title() -> (name: &'static str) {
        "Tic Tac Toe"
    }

    fn is_empty(&self) -> (fresh: bool) {
        let mut i: usize = 0;
        while i < 9
            invariant
                i <= 9,
                forall|j: int| 0 <= j < i ==> (#[trigger] self@[j]) is None,
            decreases 9 - i,
        {
            if self[i].is_some() {
                return false;
            }
            i = i + 1;
        }
        true
    }

    fn status(&self) -> (state: GameState) {
        match line_owner(self) {
            Some(p) => {
                return GameState::Win(p);
            },
            None => {},
        }
        let mut i: usize = 0;
        while i < 9
            invariant
                i <= 9,
                first_owner(self@, 0) is None,
                forall|j: int| 0 <= j < i ==> (#[trigger] self@[j]) is Some,
            decreases 9 - i,
        {
            if self[i].is_none() {
                return GameState::Running;
            }
            i = i + 1;
        }
        GameState::Tie
    }

    fn make_move(&mut self, idx: usize, person: usize) -> (state: GameState) {
        if idx >= 9 {
            GameState::Invalid
        } else if self[idx].is_some() {
            GameState::Invalid
        } else {
            self[idx] = Some(person);
            assert(*self =~= old(self).after(idx, person));
            self.status()
        }
    }

    fn possible_moves(&self, player: usize) -> (moves: Vec<usize>) {
        let mut moves: Vec<usize> = Vec::new();
        let ghost free = |i: int| self@[i] is None;
        let mut i: usize = 0;
        while i < 9
            invariant
                i <= 9,
                free == (|i: int| self@[i] is None),
                moves@ == indices_where(i as nat, free),
            decreases 9 - i,
        {
            if self[i].is_none() {
                moves.push(i);
            }
            i = i + 1;
        }
        moves
    }

    fn figures() -> (symbols: Vec<String>) {
        square_figures()
    }

    fn draw(&self) -> (out: String) {
        let fig: Vec<String> = square_figures();
        let mut out: String = String::new();
        draw_band(self, &fig, 0, &mut out);
        draw_band(self, &fig, 1, &mut out);
        draw_band(self, &fig, 2, &mut out);
        assert(out@ =~= field_drawing(self@));
        out
    }

    proof fn clone_is_exact(&self, copy: &Self) {
        assert(copy@ =~= self@);
        assert(*copy =~= *self);
    }

    proof fn status_is_settled(&self) {
    }

    proof fn moves_are_the_accepted(&self, player: usize) {
        indices_where_lists(9, |i: int| self@[i] is None);
    }

    proof fn accepted_move_fills(&self, action: usize, person: usize) {
        let next = self.after(action, person);
        assert(next@ == self@.update(action as int, Some(person)));
        indices_where_drop(
            9,
            |i: int| self@[i] is None,
            |i: int| next@[i] is None,
            action as int,
        );
    }

    proof fn running_has_moves(&self, player: usize) {
        let i = choose|i: int| 0 <= i < 9 && !((#[trigger] self@[i]) is Some);
        indices_where_lists(9, |i: int| self@[i] is None);
        assert(free_places(self@).contains(i as usize));
    }

    proof fn winner_is_a_player(&self) {
        first_owner_is_mark(self@, 0);
    }
}

impl BuiltinAi<usize> for TTTField {
    open spec fn has_ai() -> bool {
        true
    }

    /// The opponent plays the move that a search to the end of the game
    /// finds.
    open spec fn ai_plays(game: &Self, player: usize, action: usize) -> bool {
        action == search(&TTTAI, game, player, 10).1
    }

    /// The 3×3 board is played by a full search.
    fn ai() -> (player: Option<Box<dyn AiPlayer<usize, Self>>>) {
        Some(Box::new(Minimax(TTTAI)))
    }
}

/// The evaluator with which the 3×3 board is searched to the end.
pub struct TTTAI;

impl MinimaxAi<TTTField> for TTTAI {
    open spec fn rating(&self, board: &TTTField, player: usize) -> i64 {
        0
    }

    open spec fn depth_of(&self) -> usize {
        9
    }

    open spec fn opening(&self) -> usize {
        0
    }

    fn rate(&self, board: &TTTField, player: usize) -> (score: i64) {
        0
    }

    fn default_move(&self) -> (action: usize) {
        0
    }

    fn depth(&self) -> (depth: usize) {
        9
    }
}

} // verus!
