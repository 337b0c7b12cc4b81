//! A two-player tic-tac-toe match kept in step between two peers: the board
//! and its rules, the win detector, the wire framing and the session that
//! exchanges moves.
pub mod entities;
pub mod detector;
pub mod game;
pub mod frame;
pub mod session;
pub mod layout;
