//! The per-tick simulation of a 2D arcade shooter: exact motion in eighths of a pixel,
//! hit points, bullets, enemies that fire in turn, the player, and the tick
//! that moves them, resolves their collisions and removes what is spent.

pub mod bullets;
pub mod enemies;
pub mod health;
pub mod motion;
pub mod player;
pub mod state;
pub mod ui;
pub mod units;
