//! Marks, cells, the 3×3 grid and the status of a match.
use vstd::prelude::*;

verus! {

/// The mark a participant places on a cell.
#[derive(Clone, Copy, Debug, PartialEq, Eq, Structural)]
pub enum Player {
    Circle,
    Cross,
}

/// The other mark.
pub open spec fn other(p: Player) -> Player {
    match p {
        Player::Circle => Player::Cross,
        Player::Cross => Player::Circle,
    }
}

impl Player {
    /// The complement of a mark: each mark maps to the other one.
    pub fn not(self) -> (r: Player)
        ensures
            r == other(self),
            r != self,
    {
        match self {
            Player::Circle => Player::Cross,
            Player::Cross => Player::Circle,
        }
    }
}

/// One slot of the grid: empty, or holding a mark.
#[derive(Clone, Copy, Debug, PartialEq, Eq, Structural)]
pub struct Cell {
    pub content: Option<Player>,
}

/// The board, indexed as `grid[row][col]`.
pub type Grid = [[Cell; 3]; 3];

/// What is at column `col`, row `row`.
pub open spec fn mark_at(g: Grid, col: int, row: int) -> Option<Player> {
    g@[row]@[col].content
}

/// Both coordinates lie in `[0, 2]`.
pub open spec fn in_range(col: int, row: int) -> bool {
    0 <= col <= 2 && 0 <= row <= 2
}

/// Every cell of the grid is empty.
pub open spec fn grid_empty(g: Grid) -> bool {
    forall|c: int, r: int| in_range(c, r) ==> mark_at(g, c, r) is None
}

/// No cell of the grid is empty.
pub open spec fn grid_full(g: Grid) -> bool {
    forall|c: int, r: int| in_range(c, r) ==> mark_at(g, c, r) is Some
}

/// The grid after writing `p` at (`col`, `row`).
pub open spec fn grid_with(g: Grid, col: int, row: int, p: Player) -> Grid {
    vstd::array::spec_array_update(
        g,
        row,
        vstd::array::spec_array_update(g@[row], col, Cell { content: Some(p) }),
    )
}

/// A cell designated by column and row; a valid one has both in `[0, 2]`.
#[derive(Clone, Copy, Debug, PartialEq, Eq, Structural)]
pub struct Move {
    pub col: i32,
    pub row: i32,
}

/// What the session hands to the game: the peer is ready, or the peer's move.
#[derive(Clone, Copy, Debug, PartialEq, Eq, Structural)]
pub enum Inbound {
    Ready,
    Move(Move),
}

/// Status of a match. `Complete(None)` is a tie.
#[derive(Clone, Copy, Debug, PartialEq, Eq, Structural)]
pub enum Win {
    Complete(Option<Player>),
    Playing,
    Waiting,
}

/// Position of a status in the order `Waiting < Playing < Complete`.
pub open spec fn status_rank(w: Win) -> int {
    match w {
        Win::Waiting => 0,
        Win::Playing => 1,
        Win::Complete(_) => 2,
    }
}

/// A grid of nine empty cells.
pub fn empty_grid() -> (g: Grid)
    ensures
        grid_empty(g),
{
    let e = Cell { content: None };
    let row: [Cell; 3] = [e, e, e];
    let g: Grid = [row, row, row];
    assert(forall|i: int| 0 <= i < 3 ==> row@[i] == e);
    g
}

/// Writes `p` at (`col`, `row`).
pub fn set_mark(g: &mut Grid, col: usize, row: usize, p: Player)
    requires
        col < 3,
        row < 3,
    ensures
        *final(g) == grid_with(*old(g), col as int, row as int, p),
{
    let mut line = g[row];
    line[col] = Cell { content: Some(p) };
    g[row] = line;
}

} // verus!
