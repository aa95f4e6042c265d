//! A two-player snake arena: the simulation of both snakes on a bounded
//! grid, and the messages by which one peer streams that simulation to the
//! other.
//!
//! The crate draws nothing and opens no socket. Every function that the game
//! would answer with a change on screen returns the cells to redraw, and the
//! protocol functions work on byte vectors.
#![allow(non_camel_case_types)]

pub mod geometry;
pub mod render;
pub mod snake;
pub mod game;
mod random;
pub mod wire;
pub mod protocol;
pub mod control;
pub mod session;
