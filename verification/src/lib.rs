//! A grid chase: a player square moves over a wrapping grid and leaves a
//! trail that grows more opaque with every visit, while adversaries spawn on
//! the grid's edges and pursue the player until one of them reaches it.
//!
//! Everything here is plain data and verified logic. Drawing, the keyboard and
//! the frame loop belong to the program around the library.

pub mod colour;
pub mod constants;
pub mod direction;
pub mod game;
pub mod position;
mod random;
pub mod trail;
