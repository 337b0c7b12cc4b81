//! The win detector: from a grid and the move just made, the new status.
use vstd::prelude::*;
use crate::entities::{Player, Cell, Grid, Win, mark_at, in_range, grid_full, other};

verus! {

/// Column of the `i`-th cell of line `k`: rows are lines 0 to 2, columns 3 to
/// 5, the main diagonal 6 and the anti-diagonal 7.
pub open spec fn line_col(k: int, i: int) -> int {
    if k < 3 {
        i
    } else if k < 6 {
        k - 3
    } else if k == 6 {
        i
    } else {
        2 - i
    }
}

/// Row of the `i`-th cell of line `k`.
pub open spec fn line_row(k: int, i: int) -> int {
    if k < 3 {
        k
    } else {
        i
    }
}

/// All three cells of line `k` hold `p`.
pub open spec fn line_won(g: Grid, k: int, p: Player) -> bool {
    &&& mark_at(g, line_col(k, 0), line_row(k, 0)) == Some(p)
    &&& mark_at(g, line_col(k, 1), line_row(k, 1)) == Some(p)
    &&& mark_at(g, line_col(k, 2), line_row(k, 2)) == Some(p)
}

/// Some line of the grid is held whole by `p`.
pub open spec fn any_line_won(g: Grid, p: Player) -> bool {
    exists|k: int| 0 <= k < 8 && #[trigger] line_won(g, k, p)
}

/// A line that a move at (`col`, `row`) can complete is held whole by `p`:
/// its row, its column, and a diagonal that passes through it.
pub open spec fn checked_line_won(g: Grid, col: int, row: int, p: Player) -> bool {
    ||| line_won(g, row, p)
    ||| line_won(g, 3 + col, p)
    ||| (col == row && line_won(g, 6, p))
    ||| (col == 2 - row && line_won(g, 7, p))
}

/// The status after `mover` has played at (`col`, `row`).
pub open spec fn evaluate_spec(g: Grid, col: int, row: int, mover: Player) -> Win {
    if checked_line_won(g, col, row, mover) {
        Win::Complete(Some(mover))
    } else if grid_full(g) {
        Win::Complete(None)
    } else {
        Win::Playing
    }
}

/// Whether the cell at (`col`, `row`) holds `p`.
pub fn check_cell(g: &Grid, col: usize, row: usize, p: Player) -> (r: bool)
    requires
        col < 3,
        row < 3,
    ensures
        r == (mark_at(*g, col as int, row as int) == Some(p)),
{
    let cell: Cell = g[row][col];
    match cell.content {
        Some(q) => q == p,
        None => false,
    }
}

/// Whether the three cells (`c0`, `r0`), (`c1`, `r1`), (`c2`, `r2`) all hold `p`.
fn check_line(g: &Grid, c0: usize, r0: usize, c1: usize, r1: usize, c2: usize, r2: usize, p: Player) -> (r: bool)
    requires
        c0 < 3 && r0 < 3 && c1 < 3 && r1 < 3 && c2 < 3 && r2 < 3,
    ensures
        r == (mark_at(*g, c0 as int, r0 as int) == Some(p) && mark_at(*g, c1 as int, r1 as int)
            == Some(p) && mark_at(*g, c2 as int, r2 as int) == Some(p)),
{
    let a = check_cell(g, c0, r0, p);
    let b = check_cell(g, c1, r1, p);
    let c = check_cell(g, c2, r2, p);
    a && b && c
}

/// Whether every cell of the grid is occupied.
pub fn grid_is_full(g: &Grid) -> (r: bool)
    ensures
        r == grid_full(*g),
{
    let mut row: usize = 0;
    while row < 3
        invariant
            row <= 3,
            forall|c: int, r: int| 0 <= r < row && 0 <= c <= 2 ==> mark_at(*g, c, r) is Some,
        decreases 3 - row,
    {
        let mut col: usize = 0;
        while col < 3
            invariant
                row < 3,
                col <= 3,
                forall|c: int, r: int| 0 <= r < row && 0 <= c <= 2 ==> mark_at(*g, c, r) is Some,
                forall|c: int| 0 <= c < col ==> mark_at(*g, c, row as int) is Some,
            decreases 3 - col,
        {
            if g[row][col].content.is_none() {
                assert(mark_at(*g, col as int, row as int) is None);
                assert(in_range(col as int, row as int));
                return false;
            }
            col = col + 1;
        }
        row = row + 1;
    }
    true
}

/// The status after `mover` has played at (`col`, `row`) on `g`. The four
/// lines through the cell are each tested, with no short cut from one to the
/// next.
pub fn evaluate(g: &Grid, col: usize, row: usize, mover: Player) -> (r: Win)
    requires
        col < 3,
        row < 3,
    ensures
        r == evaluate_spec(*g, col as int, row as int, mover),
{
    let row_won = check_line(g, 0, row, 1, row, 2, row, mover);
    let col_won = check_line(g, col, 0, col, 1, col, 2, mover);
    let diag_won = if col == row {
        check_line(g, 0, 0, 1, 1, 2, 2, mover)
    } else {
        false
    };
    let anti_won = if col == 2 - row {
        check_line(g, 2, 0, 1, 1, 0, 2, mover)
    } else {
        false
    };
    if row_won || col_won || diag_won || anti_won {
        Win::Complete(Some(mover))
    } else if grid_is_full(g) {
        Win::Complete(None)
    } else {
        Win::Playing
    }
}

/// `g` is `g0` with `p` written at (`col`, `row`) and no other cell changed.
pub open spec fn placed(g0: Grid, g: Grid, col: int, row: int, p: Player) -> bool {
    forall|c: int, r: int|
        in_range(c, r) ==> #[trigger] mark_at(g, c, r) == if c == col && r == row {
            Some(p)
        } else {
            mark_at(g0, c, r)
        }
}

/// No line of the grid is held whole by either mark.
pub open spec fn no_line_won(g: Grid) -> bool {
    !any_line_won(g, Player::Circle) && !any_line_won(g, Player::Cross)
}

/// A line held whole after a move on a grid with no such line passes through
/// the cell just played, and is held by the mover.
proof fn lemma_won_line_through(g0: Grid, g: Grid, col: int, row: int, p: Player, k: int, q: Player)
    requires
        in_range(col, row),
        no_line_won(g0),
        placed(g0, g, col, row, p),
        0 <= k < 8,
        line_won(g, k, q),
    ensures
        q == p,
        k == row || k == 3 + col || (k == 6 && col == row) || (k == 7 && col == 2 - row),
{
    assert(in_range(line_col(k, 0), line_row(k, 0)));
    assert(in_range(line_col(k, 1), line_row(k, 1)));
    assert(in_range(line_col(k, 2), line_row(k, 2)));
    assert(mark_at(g, col, row) == Some(p));
    if !(k == row || k == 3 + col || (k == 6 && col == row) || (k == 7 && col == 2 - row)) {
        assert(line_won(g0, k, q));
        if q == Player::Circle {
            assert(any_line_won(g0, Player::Circle));
        } else {
            assert(any_line_won(g0, Player::Cross));
        }
    }
}

/// On a grid reached by legal play (no line held whole before the move, the
/// cell empty before it), the detector reports a win for a mark exactly when
/// some row, column or diagonal is held whole by that mark, and a tie exactly
/// when the grid is full and no line is held whole by either mark.
pub proof fn lemma_detector_exact(g0: Grid, g: Grid, col: int, row: int, p: Player)
    requires
        in_range(col, row),
        mark_at(g0, col, row) is None,
        no_line_won(g0),
        placed(g0, g, col, row, p),
    ensures
        forall|q: Player|
            evaluate_spec(g, col, row, p) == Win::Complete(Some(q)) <==> any_line_won(g, q),
        evaluate_spec(g, col, row, p) == Win::Complete(None) <==> (grid_full(g) && no_line_won(g)),
{
    assert forall|k: int, q: Player| 0 <= k < 8 && #[trigger] line_won(g, k, q) implies q == p
        && checked_line_won(g, col, row, p) by {
        lemma_won_line_through(g0, g, col, row, p, k, q);
    }
    if checked_line_won(g, col, row, p) {
        if line_won(g, row, p) {
        } else if line_won(g, 3 + col, p) {
        } else if col == row && line_won(g, 6, p) {
        } else {
        }
        assert(any_line_won(g, p));
    }
}

} // verus!
