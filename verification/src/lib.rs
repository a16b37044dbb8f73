//! Simulation core of a falling-block puzzle game: the playing field, the
//! falling piece, the bag of upcoming shapes, the hold slot, the score and the
//! session that drives them, all as plain state transitions.

pub mod action;
pub mod bag;
pub mod event;
pub mod game;
pub mod gameplay;
pub mod holder;
pub mod matrix;
pub mod piece;
pub mod replay;
pub mod score;
pub mod shape;
