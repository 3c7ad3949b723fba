//! A push-block puzzle engine on a discrete grid.
//!
//! A level is a rectangular grid of characters. Its board holds one player, and boxes,
//! goals and walls, each on a cell of the grid. One step moves the player to the next
//! cell, pushes the one box before the player, or is rejected and moves nothing. The
//! puzzle is solved when the boxes cover exactly the goals. A game plays the levels of
//! a pack in order and counts the moves made on the current one.
//!
//! Every executable function states what it returns and changes over the models in
//! `board`, `session` and `game`, and the rules of play are proved of those models.

pub mod grid;
pub mod level;
pub mod board;
pub mod motion;
pub mod session;
pub mod game;
pub mod frame;
pub mod menu;
