//! A two-player patch-laying board game: the patch catalog, the transform that
//! places a patch on a board, the legality of a placement, and the bookkeeping
//! of money, track positions and turn order.

pub mod direction;
pub mod transform;
pub mod patches;
pub mod chessboard;
pub mod game_state;
pub mod interaction;
pub mod event;
pub mod identity;
pub mod login;
pub mod ui;
