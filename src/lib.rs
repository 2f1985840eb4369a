//! Simulation and placement engine for grid-based digital logic circuits.
//!
//! - `geometry`: grid vectors and the four- and eight-way directions.
//! - `transform`: rotation and flip of a circuit's footprint, positions and
//!   pin directions, with the proof that the inverse undoes it.
//! - `gates`: gate evaluation as a fold over the inputs that can settle
//!   early, with its value stated over the count of `true` inputs.
//! - `blueprint`: circuit types (footprint, occupied quarters, pins) and
//!   their transformed pin layouts.
//! - `board`: the live board, its structural edits, the propagation wave,
//!   placement checks, saving and restoring.
//! - `io`: the saved layout of a design.
//! - `text`: shared string handles.

pub mod geometry;
pub mod transform;
pub mod gates;
pub mod text;
pub mod blueprint;
pub mod board;
pub mod io;
