//! Core of a small falling-enemies arcade shooter: moving shapes, the sets
//! that own them, collision detection and reactions, score keeping and the
//! game-state machine. Rendering, audio, input and storage live outside.
//!
//! Lengths and positions are integers in sub-pixel units (`SUBPIXELS` per
//! pixel), speeds are in pixels per second and frame times in microseconds,
//! so that a move of `speed * dt` sub-pixels is exact.

pub mod shape;
pub mod draw;
pub mod members;
pub mod bullets;
pub mod enemies;
pub mod buildings;
pub mod fires;
pub mod explosions;
pub mod score;
pub mod ship;
pub mod game;
pub mod collisions;
