//! A cellular automaton on a bounded hexagonal grid: a hexagonal analogue of
//! the Game of Life.
//!
//! The crate is organised leaf first:
//!
//! * [`axial`] is the mathematical model of the hexagonal plane: cells, the
//!   hex metric, the six directions, rings, and the laws that relate them.
//! * [`disk`] is the model of a grid's domain and of the order of its cells.
//! * [`coordinate`] is the executable coordinate type; its geometry is
//!   computed by the `hex2d` crate.
//! * [`grid`] is the grid itself: the state of every cell of a disk.
//! * [`engine`] is the generation step.
//! * [`render`] computes the lines that a renderer draws between live cells.
//! * [`control`] is the state of the control loop and what each input does
//!   to it.
//!
//! Conversion between cells and pixels, drawing, and the drawing of random
//! numbers are left to the program that owns the window.

pub mod axial;
pub mod control;
pub mod coordinate;
pub mod disk;
pub mod engine;
pub mod grid;
pub mod render;
