use tictactoe::detector::{check_cell, evaluate, grid_is_full};
use tictactoe::entities::{empty_grid, set_mark, Cell, Inbound, Move, Player, Win};
use tictactoe::game::{check_victory, create_shape, State};
use tictactoe::layout::{get_cell_from_pixel, get_center_from_cell, CELL_H, CELL_W};

fn rank(w: Win) -> u8 {
    match w {
        Win::Waiting => 0,
        Win::Playing => 1,
        Win::Complete(_) => 2,
    }
}

fn started() -> State {
    let mut s = State::init();
    assert!(s.apply_remote(Player::Circle, Inbound::Ready));
    s
}

#[test]
fn not_toggles_marks() {
    assert_eq!(Player::Circle.not(), Player::Cross);
    assert_eq!(Player::Cross.not(), Player::Circle);
    assert_eq!(Player::Circle.not().not(), Player::Circle);
}

#[test]
fn init_is_empty_and_waiting() {
    let s = State::init();
    assert_eq!(s.turn, Player::Circle);
    assert_eq!(s.win, Win::Waiting);
    for r in 0..3 {
        for c in 0..3 {
            assert_eq!(s.grid[r][c], Cell { content: None });
        }
    }
}

#[test]
fn ready_starts_play_once() {
    let mut s = State::init();
    assert!(s.apply_remote(Player::Cross, Inbound::Ready));
    assert_eq!(s.win, Win::Playing);
    assert!(!s.apply_remote(Player::Cross, Inbound::Ready));
    assert_eq!(s.win, Win::Playing);
}

#[test]
fn no_move_before_ready() {
    let mut s = State::init();
    assert!(!s.apply_local_move(Player::Circle, 0, 0));
    assert_eq!(s.grid[0][0].content, None);
    assert_eq!(s.win, Win::Waiting);
}

#[test]
fn diagonal_win_scenario() {
    // Circle plays here; Cross is the remote peer.
    let mut s = started();
    assert!(s.apply_local_move(Player::Circle, 0, 0));
    assert!(s.apply_remote(Player::Circle, Inbound::Move(Move { col: 1, row: 0 })));
    assert!(s.apply_local_move(Player::Circle, 1, 1));
    assert!(s.apply_remote(Player::Circle, Inbound::Move(Move { col: 2, row: 0 })));
    assert_eq!(s.win, Win::Playing);
    assert!(s.apply_local_move(Player::Circle, 2, 2));
    assert_eq!(s.win, Win::Complete(Some(Player::Circle)));
    // A finished match takes no more moves.
    assert!(!s.apply_remote(Player::Circle, Inbound::Move(Move { col: 0, row: 2 })));
}

#[test]
fn full_board_without_line_is_tie() {
    let mut s = started();
    let moves = [(0, 0), (1, 0), (2, 0), (1, 1), (0, 1), (2, 1), (1, 2), (0, 2), (2, 2)];
    for (k, &(c, r)) in moves.iter().enumerate() {
        let ok = if k % 2 == 0 {
            s.apply_local_move(Player::Circle, c, r)
        } else {
            s.apply_remote(Player::Circle, Inbound::Move(Move { col: c, row: r }))
        };
        assert!(ok);
        if k < 8 {
            assert_eq!(s.win, Win::Playing);
        }
    }
    assert_eq!(s.win, Win::Complete(None));
}

#[test]
fn occupied_cell_is_refused_and_changes_nothing() {
    let mut s = started();
    assert!(s.apply_local_move(Player::Circle, 1, 1));
    assert!(s.apply_remote(Player::Circle, Inbound::Move(Move { col: 0, row: 0 })));
    let before = s.current_snapshot();
    assert!(!s.apply_local_move(Player::Circle, 1, 1));
    assert!(!s.apply_local_move(Player::Circle, 0, 0));
    assert_eq!(s.turn, before.turn);
    assert_eq!(s.win, before.win);
    assert_eq!(s.grid, before.grid);
    assert_eq!(s.grid[1][1].content, Some(Player::Circle));
    assert_eq!(s.grid[0][0].content, Some(Player::Cross));
}

#[test]
fn out_of_range_and_wrong_turn_are_refused() {
    let mut s = started();
    assert!(!s.apply_local_move(Player::Circle, 3, 0));
    assert!(!s.apply_local_move(Player::Circle, 0, -1));
    assert!(!s.apply_local_move(Player::Cross, 0, 0));
    assert!(!s.apply_remote(Player::Circle, Inbound::Move(Move { col: 0, row: 0 })));
    assert_eq!(s.turn, Player::Circle);
    assert_eq!(s.grid[0][0].content, None);
}

#[test]
fn status_never_moves_back() {
    let mut s = State::init();
    let mut last = rank(s.win);
    let inputs: [(bool, i32, i32); 9] = [
        (false, -1, -1),
        (true, 0, 0),
        (true, 0, 0),
        (false, 1, 0),
        (true, 0, 1),
        (false, 1, 1),
        (true, 0, 2),
        (false, 2, 2),
        (true, 2, 0),
    ];
    for &(local, c, r) in inputs.iter() {
        if local {
            s.apply_local_move(Player::Circle, c, r);
        } else if c < 0 {
            s.apply_remote(Player::Circle, Inbound::Ready);
        } else {
            s.apply_remote(Player::Circle, Inbound::Move(Move { col: c, row: r }));
        }
        assert!(rank(s.win) >= last);
        last = rank(s.win);
    }
    assert_eq!(s.win, Win::Complete(Some(Player::Circle)));
    s.apply_remote(Player::Circle, Inbound::Ready);
    assert_eq!(s.win, Win::Complete(Some(Player::Circle)));
}

#[test]
fn snapshot_is_a_copy() {
    let s = started();
    let mut snap = s.current_snapshot();
    snap.grid[0][0].content = Some(Player::Cross);
    snap.win = Win::Complete(None);
    assert_eq!(s.grid[0][0].content, None);
    assert_eq!(s.win, Win::Playing);
}

#[test]
fn awaits_remote_follows_turn() {
    let mut s = State::init();
    assert!(s.awaits_remote(Player::Circle));
    s.apply_remote(Player::Circle, Inbound::Ready);
    assert!(!s.awaits_remote(Player::Circle));
    assert!(s.awaits_remote(Player::Cross));
}

#[test]
fn create_shape_marks_empty_cell_only() {
    let mut s = State::init();
    assert!(create_shape(&mut s, 2, 1));
    assert_eq!(s.grid[1][2].content, Some(Player::Circle));
    assert_eq!(s.turn, Player::Circle);
    assert!(!create_shape(&mut s, 2, 1));
    assert!(!create_shape(&mut s, 5, 1));
}

#[test]
fn check_victory_sees_column() {
    let mut s = State::init();
    s.win = Win::Playing;
    create_shape(&mut s, 1, 0);
    create_shape(&mut s, 1, 1);
    create_shape(&mut s, 1, 2);
    check_victory(&mut s, 1, 2);
    assert_eq!(s.win, Win::Complete(Some(Player::Circle)));
}

#[test]
fn evaluate_checks_anti_diagonal_and_rows() {
    let mut g = empty_grid();
    set_mark(&mut g, 2, 0, Player::Cross);
    set_mark(&mut g, 1, 1, Player::Cross);
    assert_eq!(evaluate(&g, 1, 1, Player::Cross), Win::Playing);
    set_mark(&mut g, 0, 2, Player::Cross);
    assert_eq!(evaluate(&g, 0, 2, Player::Cross), Win::Complete(Some(Player::Cross)));
    assert_eq!(evaluate(&g, 0, 2, Player::Circle), Win::Playing);
    let mut h = empty_grid();
    set_mark(&mut h, 0, 2, Player::Circle);
    set_mark(&mut h, 1, 2, Player::Circle);
    set_mark(&mut h, 2, 2, Player::Circle);
    assert_eq!(evaluate(&h, 1, 2, Player::Circle), Win::Complete(Some(Player::Circle)));
    assert!(check_cell(&h, 2, 2, Player::Circle));
    assert!(!check_cell(&h, 2, 2, Player::Cross));
    assert!(!check_cell(&h, 0, 0, Player::Circle));
}

#[test]
fn grid_fullness() {
    let mut g = empty_grid();
    assert!(!grid_is_full(&g));
    for r in 0..3 {
        for c in 0..3 {
            set_mark(&mut g, c, r, if (r + c) % 2 == 0 { Player::Circle } else { Player::Cross });
        }
    }
    assert!(grid_is_full(&g));
}

#[test]
fn pixel_and_cell_geometry() {
    assert_eq!(get_cell_from_pixel(0, 0), (0, 0));
    assert_eq!(get_cell_from_pixel(300, 500), (1, 2));
    assert_eq!(get_cell_from_pixel(212, 213), (0, 1));
    assert_eq!(get_center_from_cell(0, 0), (CELL_W / 2, CELL_H / 2));
    assert_eq!(get_center_from_cell(2, 1), (532, 319));
}
