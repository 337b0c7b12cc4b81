//! The game state machine: board, turn and status of one match, and the
//! moves and events that change them.
use vstd::prelude::*;
use crate::entities::{
    Player, Grid, Win, Move, Inbound, mark_at, in_range, grid_empty, grid_with, other,
    status_rank, empty_grid, set_mark,
};
use crate::detector::{
    evaluate, evaluate_spec, placed, no_line_won, any_line_won, lemma_detector_exact,
};
use crate::entities::grid_full;

verus! {

/// One match as one peer holds it.
#[derive(Clone, Copy, Debug)]
pub struct State {
    pub turn: Player,
    pub grid: Grid,
    pub win: Win,
}

/// The move of the mark whose turn it is at (`col`, `row`) may be placed.
pub open spec fn can_place(s: State, col: int, row: int) -> bool {
    s.win == Win::Playing && in_range(col, row) && mark_at(s.grid, col, row) is None
}

/// The state after the mark whose turn it is has been placed at (`col`, `row`):
/// the status evaluated, the turn passed on.
pub open spec fn play_spec(s: State, col: int, row: int) -> State {
    let g = grid_with(s.grid, col, row, s.turn);
    State { turn: other(s.turn), grid: g, win: evaluate_spec(g, col, row, s.turn) }
}

/// The state and the answer after the local peer, playing `me`, asks for a
/// move at (`col`, `row`).
pub open spec fn local_spec(s: State, me: Player, col: int, row: int) -> (State, bool) {
    if s.turn == me && can_place(s, col, row) {
        (play_spec(s, col, row), true)
    } else {
        (s, false)
    }
}

/// The state and the answer after an event from the session reaches the
/// peer playing `me`.
pub open spec fn remote_spec(s: State, me: Player, ev: Inbound) -> (State, bool) {
    match ev {
        Inbound::Ready => if s.win == Win::Waiting {
            (State { win: Win::Playing, ..s }, true)
        } else {
            (s, false)
        },
        Inbound::Move(m) => if s.turn == other(me) && can_place(s, m.col as int, m.row as int) {
            (play_spec(s, m.col as int, m.row as int), true)
        } else {
            (s, false)
        },
    }
}

/// Writing a mark changes that cell and no other.
pub proof fn lemma_grid_with_placed(g: Grid, col: int, row: int, p: Player)
    requires
        in_range(col, row),
    ensures
        placed(g, grid_with(g, col, row, p), col, row, p),
{
    broadcast use vstd::array::group_array_axioms;

}

impl State {
    /// A new match: empty grid, `Circle` to move, waiting for the peer.
    pub fn init() -> (s: State)
        ensures
            s.turn == Player::Circle,
            grid_empty(s.grid),
            s.win == Win::Waiting,
    {
        State { turn: Player::Circle, grid: empty_grid(), win: Win::Waiting }
    }

    /// A copy of the match for display; changing it leaves the match as it is.
    pub fn current_snapshot(&self) -> (r: State)
        ensures
            r == *self,
    {
        *self
    }

    /// Whether the peer playing `me` takes an event from the session now:
    /// while waiting for the peer, or during play on the peer's turn.
    pub fn awaits_remote(&self, me: Player) -> (r: bool)
        ensures
            r == (self.win == Win::Waiting || (self.win == Win::Playing && self.turn == other(me))),
    {
        match self.win {
            Win::Waiting => true,
            Win::Playing => self.turn == me.not(),
            Win::Complete(_) => false,
        }
    }
}

/// Places the mark whose turn it is at (`x`, `y`) when that cell exists and
/// is empty; answers whether it did. Turn and status are left as they are.
pub fn create_shape(state: &mut State, x: i32, y: i32) -> (r: bool)
    ensures
        r == (in_range(x as int, y as int) && mark_at(old(state).grid, x as int, y as int) is None),
        final(state).grid == if r {
            grid_with(old(state).grid, x as int, y as int, old(state).turn)
        } else {
            old(state).grid
        },
        final(state).turn == old(state).turn,
        final(state).win == old(state).win,
{
    if x < 0 || x > 2 || y < 0 || y > 2 {
        return false;
    }
    let (col, row) = (x as usize, y as usize);
    match state.grid[row][col].content {
        Some(_) => false,
        None => {
            let p = state.turn;
            set_mark(&mut state.grid, col, row, p);
            true
        },
    }
}

/// Sets the status from the move just made by the mark whose turn it is at
/// (`new_cx`, `new_cy`).
pub fn check_victory(state: &mut State, new_cx: i32, new_cy: i32)
    requires
        in_range(new_cx as int, new_cy as int),
    ensures
        final(state).win == evaluate_spec(old(state).grid, new_cx as int, new_cy as int, old(state).turn),
        final(state).grid == old(state).grid,
        final(state).turn == old(state).turn,
{
    state.win = evaluate(&state.grid, new_cx as usize, new_cy as usize, state.turn);
}

impl State {
    /// Places the mark whose turn it is at (`col`, `row`), evaluates the
    /// status and passes the turn on. Requires that the move be allowed.
    fn play(&mut self, col: i32, row: i32)
        requires
            can_place(*old(self), col as int, row as int),
        ensures
            *final(self) == play_spec(*old(self), col as int, row as int),
    {
        create_shape(self, col, row);
        check_victory(self, col, row);
        self.turn = self.turn.not();
    }

    /// A move asked for by the local peer, who plays `me`. It is accepted
    /// when the match is being played, it is `me`'s turn and the cell exists
    /// and is empty; a refused move changes nothing.
    pub fn apply_local_move(&mut self, me: Player, col: i32, row: i32) -> (accepted: bool)
        ensures
            (*final(self), accepted) == local_spec(*old(self), me, col as int, row as int),
            in_range(col as int, row as int) && mark_at(old(self).grid, col as int, row as int) is Some
                ==> !accepted && *final(self) == *old(self),
            status_rank(old(self).win) <= status_rank(final(self).win),
    {
        let ok = self.turn == me && self.win == Win::Playing && 0 <= col && col <= 2 && 0 <= row
            && row <= 2 && self.grid[row as usize][col as usize].content.is_none();
        if ok {
            self.play(col, row);
        }
        ok
    }

    /// An event from the session, at the peer playing `me`: `Ready` starts a
    /// match that waits for the peer; a move of the peer is applied as a
    /// local one would be, on the peer's turn. Anything else changes nothing.
    pub fn apply_remote(&mut self, me: Player, ev: Inbound) -> (applied: bool)
        ensures
            (*final(self), applied) == remote_spec(*old(self), me, ev),
            status_rank(old(self).win) <= status_rank(final(self).win),
    {
        match ev {
            Inbound::Ready => {
                if self.win == Win::Waiting {
                    self.win = Win::Playing;
                    true
                } else {
                    false
                }
            },
            Inbound::Move(m) => {
                let ok = self.turn == me.not() && self.win == Win::Playing && 0 <= m.col && m.col
                    <= 2 && 0 <= m.row && m.row <= 2
                    && self.grid[m.row as usize][m.col as usize].content.is_none();
                if ok {
                    self.play(m.col, m.row);
                }
                ok
            },
        }
    }
}

/// An input to one peer's match: a move asked for locally, or an event
/// handed over by the session.
#[derive(Clone, Copy, Debug)]
pub enum GameInput {
    Local(Move),
    Remote(Inbound),
}

/// The state after one input at the peer playing `me`.
pub open spec fn input_spec(s: State, me: Player, x: GameInput) -> State {
    match x {
        GameInput::Local(m) => local_spec(s, me, m.col as int, m.row as int).0,
        GameInput::Remote(ev) => remote_spec(s, me, ev).0,
    }
}

/// The state after the inputs `xs`, in order, at the peer playing `me`.
pub open spec fn run_inputs(s: State, me: Player, xs: Seq<GameInput>) -> State
    decreases xs.len(),
{
    if xs.len() == 0 {
        s
    } else {
        input_spec(run_inputs(s, me, xs.drop_last()), me, xs.last())
    }
}

/// One input never moves the status back.
proof fn lemma_input_monotone(s: State, me: Player, x: GameInput)
    ensures
        status_rank(s.win) <= status_rank(input_spec(s, me, x).win),
{
}

/// The status of a match never moves back in the order
/// `Waiting < Playing < Complete`: along any sequence of inputs, the status
/// after a prefix is no later than the status after a longer prefix.
pub proof fn lemma_status_monotone(s: State, me: Player, xs: Seq<GameInput>)
    ensures
        forall|i: int, j: int|
            0 <= i <= j <= xs.len() ==> status_rank(
                #[trigger] run_inputs(s, me, xs.take(i)).win,
            ) <= status_rank(#[trigger] run_inputs(s, me, xs.take(j)).win),
    decreases xs.len(),
{
    if xs.len() > 0 {
        let ys = xs.drop_last();
        lemma_status_monotone(s, me, ys);
        assert(xs.take(xs.len() as int) =~= xs);
        lemma_input_monotone(run_inputs(s, me, ys), me, xs.last());
        assert forall|i: int| 0 <= i < xs.len() implies #[trigger] xs.take(i) == ys.take(i) by {
            assert(xs.take(i) =~= ys.take(i));
        }
        assert(ys.take(ys.len() as int) =~= ys);
    }
}

/// A move allowed on a grid where no line is held whole ends the match
/// with a win for a mark exactly when that mark holds some line afterwards,
/// and in a tie exactly when the grid is then full with no line held whole.
pub proof fn lemma_play_status_exact(s: State, col: int, row: int)
    requires
        can_place(s, col, row),
        no_line_won(s.grid),
    ensures
        forall|q: Player|
            play_spec(s, col, row).win == Win::Complete(Some(q)) <==> any_line_won(
                play_spec(s, col, row).grid,
                q,
            ),
        play_spec(s, col, row).win == Win::Complete(None) <==> (grid_full(play_spec(s, col, row).grid)
            && no_line_won(play_spec(s, col, row).grid)),
{
    lemma_grid_with_placed(s.grid, col, row, s.turn);
    lemma_detector_exact(s.grid, grid_with(s.grid, col, row, s.turn), col, row, s.turn);
}

} // verus!
