//! Line detection on rectangular grids.
//!
//! A grid is read through a function from a column `x` and a row `y` to the
//! owner of that cell, if it has one. Cells are scanned column by column, and
//! inside a column row by row; the first cell from which `n` equal marks run
//! in one of the eight directions decides the winner.

use vstd::prelude::*;
use crate::state::GameState;

verus! {

/// A grid as contracts see it: the owner of the cell in column `x`, row `y`.
pub type Cells = spec_fn(int, int) -> Option<usize>;

/// How far the `i`-th cell of a run lies from its start along one axis.
pub open spec fn step(d: int, i: int) -> int {
    if d < 0 {
        -i
    } else if d > 0 {
        i
    } else {
        0
    }
}

pub open spec fn inside(rows: int, cols: int, x: int, y: int) -> bool {
    0 <= x < cols && 0 <= y < rows
}

pub open spec fn is_direction(dx: int, dy: int) -> bool {
    -1 <= dx <= 1 && -1 <= dy <= 1 && (dx != 0 || dy != 0)
}

/// The `i`-th cell from `(x, y)` in direction `(dx, dy)` is on the grid and
/// holds what `(x, y)` holds.
pub open spec fn same_at(
    grid: Cells,
    rows: int,
    cols: int,
    x: int,
    y: int,
    dx: int,
    dy: int,
    i: int,
) -> bool {
    &&& inside(rows, cols, x + step(dx, i), y + step(dy, i))
    &&& grid(x + step(dx, i), y + step(dy, i)) == grid(x, y)
}

/// The `len - 1` cells that follow `(x, y)` in direction `(dx, dy)` all hold
/// what `(x, y)` holds.
pub open spec fn run_of(
    grid: Cells,
    rows: int,
    cols: int,
    x: int,
    y: int,
    dx: int,
    dy: int,
    len: int,
) -> bool {
    forall|i: int| 1 <= i < len ==> #[trigger] same_at(grid, rows, cols, x, y, dx, dy, i)
}

/// Some direction carries a run of `n` from `(x, y)`.
pub open spec fn some_run(grid: Cells, rows: int, cols: int, x: int, y: int, n: int) -> bool {
    exists|dx: int, dy: int|
        is_direction(dx, dy) && #[trigger] run_of(grid, rows, cols, x, y, dx, dy, n)
}

/// An owned cell of the grid from which a line of `n` equal marks starts.
pub open spec fn line_from(grid: Cells, rows: int, cols: int, x: int, y: int, n: int) -> bool {
    &&& inside(rows, cols, x, y)
    &&& grid(x, y) is Some
    &&& some_run(grid, rows, cols, x, y, n)
}

/// The scan reaches `(x1, y1)` before `(x2, y2)`.
pub open spec fn before(x1: int, y1: int, x2: int, y2: int) -> bool {
    x1 < x2 || (x1 == x2 && y1 < y2)
}

pub open spec fn no_line_before(grid: Cells, rows: int, cols: int, n: int, x: int, y: int) -> bool {
    forall|x2: int, y2: int|
        before(x2, y2, x, y) ==> !#[trigger] line_from(grid, rows, cols, x2, y2, n)
}

/// `(x, y)` is the first cell of the scan from which a line starts.
pub open spec fn first_line(grid: Cells, rows: int, cols: int, n: int, x: int, y: int) -> bool {
    line_from(grid, rows, cols, x, y, n) && no_line_before(grid, rows, cols, n, x, y)
}

pub open spec fn any_line(grid: Cells, rows: int, cols: int, n: int) -> bool {
    exists|x: int, y: int| #[trigger] line_from(grid, rows, cols, x, y, n)
}

pub open spec fn owned_at(grid: Cells, x: int, y: int) -> bool {
    grid(x, y) is Some
}

pub open spec fn full_before(grid: Cells, rows: int, cols: int, x: int, y: int) -> bool {
    forall|x2: int, y2: int|
        inside(rows, cols, x2, y2) && before(x2, y2, x, y) ==> #[trigger] owned_at(grid, x2, y2)
}

/// Every cell of the grid has an owner.
pub open spec fn full(grid: Cells, rows: int, cols: int) -> bool {
    forall|x: int, y: int| inside(rows, cols, x, y) ==> #[trigger] owned_at(grid, x, y)
}

/// The state of a grid on which `n` in a row wins: won by the owner of the
/// first cell that starts a line, else tied when full, else still running.
pub open spec fn line_state(grid: Cells, rows: int, cols: int, n: int) -> GameState {
    if any_line(grid, rows, cols, n) {
        let (x, y) = choose|x: int, y: int| first_line(grid, rows, cols, n, x, y);
        GameState::Win(grid(x, y).unwrap())
    } else if full(grid, rows, cols) {
        GameState::Tie
    } else {
        GameState::Running
    }
}

/// Whatever `index` returns for a cell of the grid is what `grid` holds there.
pub open spec fn reads<F: Fn(usize, usize) -> Option<usize>>(
    index: &F,
    rows: usize,
    cols: usize,
    grid: Cells,
) -> bool {
    forall|x: usize, y: usize, c: Option<usize>|
        x < cols && y < rows && #[trigger] call_ensures(*index, (x, y), c) ==> c == grid(
            x as int,
            y as int,
        )
}

/// `index` may be called on every cell of the grid.
pub open spec fn covers<F: Fn(usize, usize) -> Option<usize>>(
    index: &F,
    rows: usize,
    cols: usize,
) -> bool {
    forall|x: usize, y: usize| x < cols && y < rows ==> call_requires(*index, (x, y))
}

/// Two cells that both start the first line are the same cell.
pub proof fn first_line_is_unique(
    grid: Cells,
    rows: int,
    cols: int,
    n: int,
    x1: int,
    y1: int,
    x2: int,
    y2: int,
)
    requires
        first_line(grid, rows, cols, n, x1, y1),
        first_line(grid, rows, cols, n, x2, y2),
    ensures
        x1 == x2,
        y1 == y2,
{
    if before(x1, y1, x2, y2) {
        assert(!line_from(grid, rows, cols, x1, y1, n));
    }
    if before(x2, y2, x1, y1) {
        assert(!line_from(grid, rows, cols, x2, y2, n));
    }
}

/// A grid whose first line starts at `(x, y)` is won by the owner of that cell.
pub proof fn first_line_wins(grid: Cells, rows: int, cols: int, n: int, x: int, y: int)
    requires
        first_line(grid, rows, cols, n, x, y),
    ensures
        line_state(grid, rows, cols, n) == GameState::Win(grid(x, y).unwrap()),
{
    assert(line_from(grid, rows, cols, x, y, n));
    let (cx, cy) = choose|cx: int, cy: int| first_line(grid, rows, cols, n, cx, cy);
    first_line_is_unique(grid, rows, cols, n, x, y, cx, cy);
}

/// Where a line starts somewhere, some cell is the first from which one
/// starts.
pub proof fn first_line_exists(grid: Cells, rows: int, cols: int, n: int, x: int, y: int)
    requires
        line_from(grid, rows, cols, x, y, n),
    ensures
        exists|fx: int, fy: int| first_line(grid, rows, cols, n, fx, fy),
    decreases x, y,
{
    if no_line_before(grid, rows, cols, n, x, y) {
        assert(first_line(grid, rows, cols, n, x, y));
    } else {
        let (x2, y2) = choose|x2: int, y2: int|
            before(x2, y2, x, y) && #[trigger] line_from(grid, rows, cols, x2, y2, n);
        first_line_exists(grid, rows, cols, n, x2, y2);
    }
}

/// A grid is won only by the owner of one of its cells.
pub proof fn winner_owns_a_cell(grid: Cells, rows: int, cols: int, n: int)
    ensures
        !(line_state(grid, rows, cols, n) is Invalid),
        line_state(grid, rows, cols, n) matches GameState::Win(c) ==> exists|x: int, y: int|
            inside(rows, cols, x, y) && #[trigger] grid(x, y) == Some(c),
        line_state(grid, rows, cols, n) is Running ==> exists|x: int, y: int|
            inside(rows, cols, x, y) && !#[trigger] owned_at(grid, x, y),
{
    if any_line(grid, rows, cols, n) {
        let (x, y) = choose|x: int, y: int| #[trigger] line_from(grid, rows, cols, x, y, n);
        first_line_exists(grid, rows, cols, n, x, y);
        let (fx, fy) = choose|fx: int, fy: int| first_line(grid, rows, cols, n, fx, fy);
        assert(line_from(grid, rows, cols, fx, fy, n));
        assert(inside(rows, cols, fx, fy) && grid(fx, fy) == Some(grid(fx, fy).unwrap()));
    }
}

/// The state of a grid depends only on the cells inside it.
pub proof fn line_state_is_local(a: Cells, b: Cells, rows: int, cols: int, n: int)
    requires
        forall|x: int, y: int| inside(rows, cols, x, y) ==> #[trigger] a(x, y) == b(x, y),
    ensures
        line_state(a, rows, cols, n) == line_state(b, rows, cols, n),
{
    assert forall|x: int, y: int|
        line_from(a, rows, cols, x, y, n) == line_from(b, rows, cols, x, y, n) by {
        if inside(rows, cols, x, y) {
            assert(a(x, y) == b(x, y));
            assert forall|dx: int, dy: int|
                run_of(a, rows, cols, x, y, dx, dy, n) == run_of(b, rows, cols, x, y, dx, dy, n) by {
                assert forall|i: int|
                    same_at(a, rows, cols, x, y, dx, dy, i) == same_at(
                        b,
                        rows,
                        cols,
                        x,
                        y,
                        dx,
                        dy,
                        i,
                    ) by {
                    if inside(rows, cols, x + step(dx, i), y + step(dy, i)) {
                        assert(a(x + step(dx, i), y + step(dy, i)) == b(
                            x + step(dx, i),
                            y + step(dy, i),
                        ));
                    }
                }
            }
        }
    }
    assert forall|x: int, y: int| inside(rows, cols, x, y) implies owned_at(a, x, y) == owned_at(
        b,
        x,
        y,
    ) by {
        assert(a(x, y) == b(x, y));
    }
    if any_line(a, rows, cols, n) {
        let (x, y) = choose|x: int, y: int| #[trigger] line_from(a, rows, cols, x, y, n);
        first_line_exists(a, rows, cols, n, x, y);
        let (fx, fy) = choose|fx: int, fy: int| first_line(a, rows, cols, n, fx, fy);
        assert(line_from(b, rows, cols, fx, fy, n));
        assert(first_line(b, rows, cols, n, fx, fy));
        first_line_wins(a, rows, cols, n, fx, fy);
        first_line_wins(b, rows, cols, n, fx, fy);
        assert(a(fx, fy) == b(fx, fy));
    } else {
        assert(!any_line(b, rows, cols, n)) by {
            if any_line(b, rows, cols, n) {
                let (x, y) = choose|x: int, y: int| #[trigger] line_from(b, rows, cols, x, y, n);
                assert(line_from(a, rows, cols, x, y, n));
            }
        }
        assert(full(a, rows, cols) == full(b, rows, cols));
    }
}

/// The number of free places among the first `upto` of a column.
pub open spec fn free_in(col: Seq<Option<usize>>, upto: nat) -> nat
    decreases upto,
{
    if upto == 0 {
        0
    } else {
        free_in(col, (upto - 1) as nat) + if col[upto - 1] is None {
            1nat
        } else {
            0nat
        }
    }
}

/// Marking a free place of a column leaves one free place less.
pub proof fn free_in_update(col: Seq<Option<usize>>, upto: nat, y: int, mark: usize)
    requires
        0 <= y < col.len(),
        upto <= col.len(),
        col[y] is None,
    ensures
        free_in(col.update(y, Some(mark)), upto) + (if y < upto {
            1nat
        } else {
            0nat
        }) == free_in(col, upto),
    decreases upto,
{
    if upto > 0 {
        free_in_update(col, (upto - 1) as nat, y, mark);
    }
}

/// Follows one direction from `(x, y)` and tells whether `n` equal marks run
/// there.
fn run_holds<F: Fn(usize, usize) -> Option<usize>>(
    rows: usize,
    cols: usize,
    index: &F,
    n: usize,
    x: usize,
    y: usize,
    dx: i8,
    dy: i8,
    color: usize,
) -> (ok: bool)
    requires
        covers(index, rows, cols),
        x < cols,
        y < rows,
        -1 <= dx <= 1,
        -1 <= dy <= 1,
    ensures
        forall|grid: Cells| #[trigger]
            reads(index, rows, cols, grid) && grid(x as int, y as int) == Some(color) ==> ok
                == run_of(grid, rows as int, cols as int, x as int, y as int, dx as int, dy as int, n as int),
{
    let mut cx: usize = x;
    let mut cy: usize = y;
    let mut i: usize = 1;
    while i < n
        invariant
            covers(index, rows, cols),
            x < cols,
            y < rows,
            -1 <= dx <= 1,
            -1 <= dy <= 1,
            i >= 1,
            cx < cols,
            cy < rows,
            cx == x + step(dx as int, i - 1),
            cy == y + step(dy as int, i - 1),
            forall|grid: Cells| #[trigger]
                reads(index, rows, cols, grid) && grid(x as int, y as int) == Some(color)
                    ==> run_of(
                    grid,
                    rows as int,
                    cols as int,
                    x as int,
                    y as int,
                    dx as int,
                    dy as int,
                    i as int,
                ),
        decreases n - i,
    {
        let mut off: bool = false;
        if dx < 0 {
            if cx == 0 {
                off = true;
            } else {
                cx = cx - 1;
            }
        } else if dx > 0 {
            if cx + 1 >= cols {
                off = true;
            } else {
                cx = cx + 1;
            }
        }
        if !off {
            if dy < 0 {
                if cy == 0 {
                    off = true;
                } else {
                    cy = cy - 1;
                }
            } else if dy > 0 {
                if cy + 1 >= rows {
                    off = true;
                } else {
                    cy = cy + 1;
                }
            }
        }
        if off {
            proof {
                assert forall|grid: Cells| #[trigger]
                    reads(index, rows, cols, grid) && grid(x as int, y as int) == Some(
                        color,
                    ) implies !run_of(
                    grid,
                    rows as int,
                    cols as int,
                    x as int,
                    y as int,
                    dx as int,
                    dy as int,
                    n as int,
                ) by {
                    assert(!same_at(
                        grid,
                        rows as int,
                        cols as int,
                        x as int,
                        y as int,
                        dx as int,
                        dy as int,
                        i as int,
                    ));
                }
            }
            return false;
        }
        let there: Option<usize> = index(cx, cy);
        let same: bool = match there {
            Some(c) => c == color,
            None => false,
        };
        if !same {
            proof {
                assert forall|grid: Cells| #[trigger]
                    reads(index, rows, cols, grid) && grid(x as int, y as int) == Some(
                        color,
                    ) implies !run_of(
                    grid,
                    rows as int,
                    cols as int,
                    x as int,
                    y as int,
                    dx as int,
                    dy as int,
                    n as int,
                ) by {
                    assert(!same_at(
                        grid,
                        rows as int,
                        cols as int,
                        x as int,
                        y as int,
                        dx as int,
                        dy as int,
                        i as int,
                    ));
                }
            }
            return false;
        }
        proof {
            assert forall|grid: Cells| #[trigger]
                reads(index, rows, cols, grid) && grid(x as int, y as int) == Some(
                    color,
                ) implies run_of(
                grid,
                rows as int,
                cols as int,
                x as int,
                y as int,
                dx as int,
                dy as int,
                i as int + 1,
            ) by {
                assert(same_at(
                    grid,
                    rows as int,
                    cols as int,
                    x as int,
                    y as int,
                    dx as int,
                    dy as int,
                    i as int,
                ));
                assert(run_of(
                    grid,
                    rows as int,
                    cols as int,
                    x as int,
                    y as int,
                    dx as int,
                    dy as int,
                    i as int,
                ));
            }
        }
        i = i + 1;
    }
    true
}

/// Tries the eight directions from `(x, y)`.
fn line_starts_at<F: Fn(usize, usize) -> Option<usize>>(
    rows: usize,
    cols: usize,
    index: &F,
    n: usize,
    x: usize,
    y: usize,
    color: usize,
) -> (found: bool)
    requires
        covers(index, rows, cols),
        x < cols,
        y < rows,
    ensures
        forall|grid: Cells| #[trigger]
            reads(index, rows, cols, grid) && grid(x as int, y as int) == Some(color) ==> found
                == some_run(grid, rows as int, cols as int, x as int, y as int, n as int),
{
    let mut dx: i8 = -1;
    while dx <= 1
        invariant
            covers(index, rows, cols),
            x < cols,
            y < rows,
            -1 <= dx <= 2,
            forall|grid: Cells| #[trigger]
                reads(index, rows, cols, grid) && grid(x as int, y as int) == Some(color)
                    ==> forall|ex: int, ey: int|
                    is_direction(ex, ey) && ex < dx ==> !#[trigger] run_of(
                        grid,
                        rows as int,
                        cols as int,
                        x as int,
                        y as int,
                        ex,
                        ey,
                        n as int,
                    ),
        decreases 2 - dx,
    {
        let mut dy: i8 = -1;
        while dy <= 1
            invariant
                covers(index, rows, cols),
                x < cols,
                y < rows,
                -1 <= dx <= 1,
                -1 <= dy <= 2,
                forall|grid: Cells| #[trigger]
                    reads(index, rows, cols, grid) && grid(x as int, y as int) == Some(color)
                        ==> forall|ex: int, ey: int|
                        is_direction(ex, ey) && (ex < dx || (ex == dx && ey < dy))
                            ==> !#[trigger] run_of(
                            grid,
                            rows as int,
                            cols as int,
                            x as int,
                            y as int,
                            ex,
                            ey,
                            n as int,
                        ),
            decreases 2 - dy,
        {
            if dx != 0 || dy != 0 {
                if run_holds(rows, cols, index, n, x, y, dx, dy, color) {
                    proof {
                        assert forall|grid: Cells| #[trigger]
                            reads(index, rows, cols, grid) && grid(x as int, y as int) == Some(
                                color,
                            ) implies some_run(
                            grid,
                            rows as int,
                            cols as int,
                            x as int,
                            y as int,
                            n as int,
                        ) by {
                            assert(is_direction(dx as int, dy as int));
                            assert(run_of(
                                grid,
                                rows as int,
                                cols as int,
                                x as int,
                                y as int,
                                dx as int,
                                dy as int,
                                n as int,
                            ));
                        }
                    }
                    return true;
                }
            }
            dy = dy + 1;
        }
        dx = dx + 1;
    }
    false
}

/// Scans a grid of `cols` columns and `rows` rows for `n` equal marks in a
/// row, column or diagonal.
///
/// The result is `Win` with the owner of the first cell of the scan from
/// which such a line starts; without a line it is `Tie` on a full grid and
/// `Running` otherwise. With `n` at most 1 every owned cell is a line.
pub fn n_in_a_row<F: Fn(usize, usize) -> Option<usize>>(
    rows: usize,
    cols: usize,
    index: &F,
    n: usize,
) -> (state: GameState)
    requires
        covers(index, rows, cols),
    ensures
        forall|grid: Cells| #[trigger]
            reads(index, rows, cols, grid) ==> state == line_state(
                grid,
                rows as int,
                cols as int,
                n as int,
            ),
{
    let mut filled: bool = true;
    let mut x: usize = 0;
    while x < cols
        invariant
            covers(index, rows, cols),
            x <= cols,
            forall|grid: Cells| #[trigger]
                reads(index, rows, cols, grid) ==> no_line_before(
                    grid,
                    rows as int,
                    cols as int,
                    n as int,
                    x as int,
                    0,
                ) && (filled <==> full_before(grid, rows as int, cols as int, x as int, 0)),
        decreases cols - x,
    {
        let mut y: usize = 0;
        while y < rows
            invariant
                covers(index, rows, cols),
                x < cols,
                y <= rows,
                forall|grid: Cells| #[trigger]
                    reads(index, rows, cols, grid) ==> no_line_before(
                        grid,
                        rows as int,
                        cols as int,
                        n as int,
                        x as int,
                        y as int,
                    ) && (filled <==> full_before(
                        grid,
                        rows as int,
                        cols as int,
                        x as int,
                        y as int,
                    )),
            decreases rows - y,
        {
            let here: Option<usize> = index(x, y);
            match here {
                None => {
                    filled = false;
                },
                Some(color) => {
                    if line_starts_at(rows, cols, index, n, x, y, color) {
                        proof {
                            assert forall|grid: Cells| #[trigger]
                                reads(index, rows, cols, grid) implies GameState::Win(color)
                                == line_state(grid, rows as int, cols as int, n as int) by {
                                assert(grid(x as int, y as int) == Some(color));
                                first_line_wins(
                                    grid,
                                    rows as int,
                                    cols as int,
                                    n as int,
                                    x as int,
                                    y as int,
                                );
                            }
                        }
                        return GameState::Win(color);
                    }
                },
            }
            proof {
                assert forall|grid: Cells| #[trigger]
                    reads(index, rows, cols, grid) implies no_line_before(
                    grid,
                    rows as int,
                    cols as int,
                    n as int,
                    x as int,
                    y as int + 1,
                ) && (filled <==> full_before(
                    grid,
                    rows as int,
                    cols as int,
                    x as int,
                    y as int + 1,
                )) by {
                    assert(grid(x as int, y as int) == here);
                    assert(!line_from(grid, rows as int, cols as int, x as int, y as int, n as int));
                    assert(owned_at(grid, x as int, y as int) == (here is Some));
                    assert forall|x2: int, y2: int|
                        before(x2, y2, x as int, y as int + 1) implies !#[trigger] line_from(
                        grid,
                        rows as int,
                        cols as int,
                        x2,
                        y2,
                        n as int,
                    ) by {
                        if !(x2 == x && y2 == y) {
                            assert(before(x2, y2, x as int, y as int));
                        }
                    }
                    if full_before(grid, rows as int, cols as int, x as int, y as int)
                        && here is Some {
                        assert forall|x2: int, y2: int|
                            inside(rows as int, cols as int, x2, y2) && before(
                                x2,
                                y2,
                                x as int,
                                y as int + 1,
                            ) implies #[trigger] owned_at(grid, x2, y2) by {
                            if !(x2 == x && y2 == y) {
                                assert(before(x2, y2, x as int, y as int));
                            }
                        }
                    }
                    if full_before(grid, rows as int, cols as int, x as int, y as int + 1) {
                        assert(before(x as int, y as int, x as int, y as int + 1));
                        assert(owned_at(grid, x as int, y as int));
                        assert forall|x2: int, y2: int|
                            inside(rows as int, cols as int, x2, y2) && before(
                                x2,
                                y2,
                                x as int,
                                y as int,
                            ) implies #[trigger] owned_at(grid, x2, y2) by {
                            assert(before(x2, y2, x as int, y as int + 1));
                        }
                    }
                }
            }
            y = y + 1;
        }
        proof {
            assert forall|grid: Cells| #[trigger]
                reads(index, rows, cols, grid) implies no_line_before(
                grid,
                rows as int,
                cols as int,
                n as int,
                x as int + 1,
                0,
            ) && (filled <==> full_before(grid, rows as int, cols as int, x as int + 1, 0)) by {
                assert forall|x2: int, y2: int|
                    before(x2, y2, x as int + 1, 0) implies !#[trigger] line_from(
                    grid,
                    rows as int,
                    cols as int,
                    x2,
                    y2,
                    n as int,
                ) by {
                    if inside(rows as int, cols as int, x2, y2) {
                        assert(before(x2, y2, x as int, y as int));
                    }
                }
                if full_before(grid, rows as int, cols as int, x as int, y as int) {
                    assert forall|x2: int, y2: int|
                        inside(rows as int, cols as int, x2, y2) && before(
                            x2,
                            y2,
                            x as int + 1,
                            0,
                        ) implies #[trigger] owned_at(grid, x2, y2) by {
                        assert(before(x2, y2, x as int, y as int));
                    }
                }
                if full_before(grid, rows as int, cols as int, x as int + 1, 0) {
                    assert forall|x2: int, y2: int|
                        inside(rows as int, cols as int, x2, y2) && before(
                            x2,
                            y2,
                            x as int,
                            y as int,
                        ) implies #[trigger] owned_at(grid, x2, y2) by {
                        assert(before(x2, y2, x as int + 1, 0));
                    }
                }
            }
        }
        x = x + 1;
    }
    proof {
        assert forall|grid: Cells| #[trigger] reads(index, rows, cols, grid) implies (if filled {
            GameState::Tie
        } else {
            GameState::Running
        }) == line_state(grid, rows as int, cols as int, n as int) by {
            assert forall|x2: int, y2: int|
                !line_from(grid, rows as int, cols as int, x2, y2, n as int) by {
                if inside(rows as int, cols as int, x2, y2) {
                    assert(before(x2, y2, x as int, 0));
                }
            }
            if full_before(grid, rows as int, cols as int, x as int, 0) {
                assert forall|x2: int, y2: int|
                    inside(rows as int, cols as int, x2, y2) implies #[trigger] owned_at(
                    grid,
                    x2,
                    y2,
                ) by {
                    assert(before(x2, y2, x as int, 0));
                }
            }
            if full(grid, rows as int, cols as int) {
                assert(full_before(grid, rows as int, cols as int, x as int, 0));
            }
        }
    }
    if filled {
        GameState::Tie
    } else {
        GameState::Running
    }
}

} // verus!
