//! The persisted layout of a design: boards with their wires, placed
//! circuits and saved simulation states.

use vstd::prelude::*;

use crate::blueprint::CircuitImplBox;
use crate::board::Logic;
use crate::geometry::{Direction4, Vec2isize, Vec2usize};

verus! {

/// Every board of a design.
pub struct Simulation {
    pub boards: Vec<Board>,
}

/// A saved board.
pub struct Board {
    pub uid: u128,
    pub wires: Vec<Wire>,
    pub circuits: Vec<CircuitSavestate>,
    pub states: Vec<BoardStateSavestate>,
}

/// A saved wire: its id and its grid points, each with the four-direction
/// connectivity mask of the segment through it.
pub struct Wire {
    pub id: usize,
    pub points: Vec<(Vec2isize, [bool; 4])>,
}

/// A saved circuit: type, placement, logic and pin attachments.
pub struct CircuitSavestate {
    pub id: usize,
    pub imp: CircuitImplBox,
    pub pos: Vec2usize,
    pub dir: Direction4,
    pub flip: bool,
    pub logic: Logic,
    pub inputs: Vec<Option<usize>>,
    pub output: Option<usize>,
}

/// A saved simulation state: circuit outputs and wire states by id, and
/// the circuits waiting to be evaluated.
pub struct BoardStateSavestate {
    pub outs: Vec<bool>,
    pub wires: Vec<bool>,
    pub queue: Vec<usize>,
}

} // verus!
