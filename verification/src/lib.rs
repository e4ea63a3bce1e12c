//! Core of a grid-puzzle game: a robot walks a board of coloured tiles and
//! collects stars by running a small player-written program of movement,
//! turning, colour-gated conditionals and bounded recursive function calls.
//!
//! The crate holds the data model (tiles, grid, robot, instructions), the
//! level-file parser, the timer-driven execution engine with its explicit
//! call stack, and the per-level progress tracker. Rendering, input devices
//! and file access live outside and talk to this crate through plain values.

pub mod edit;
pub mod engine;
pub mod grid;
pub mod instruction;
pub mod interp;
pub mod level;
pub mod loader;
pub mod manager;
pub mod player;
pub mod problem;
pub mod robot;
pub mod text;
pub mod tile;
pub mod timer;
