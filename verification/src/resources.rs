use vstd::prelude::*;
use std::collections::VecDeque;
use crate::components::Position;

verus! {

/// The snake's body cells, head first: element 0 is the head's cell and
/// the last element is the tail's.  The chain grows at the tail end and
/// never shrinks.
pub struct SnakeSegments(pub VecDeque<Position>);

impl Default for SnakeSegments {
    fn default() -> (r: Self)
        ensures
            r.0@.len() == 0,
    {
        SnakeSegments(VecDeque::new())
    }
}

/// The play field's dimensions in cells.
#[derive(Clone, Copy, Debug, PartialEq, Eq, Structural)]
pub struct GridSize {
    pub x: u32,
    pub y: u32,
}

impl Default for GridSize {
    fn default() -> (r: Self)
        ensures
            r.x == 20 && r.y == 20,
    {
        GridSize { x: 20, y: 20 }
    }
}

/// The player's score: raised by exactly one per food collected, never
/// lowered.
#[derive(Clone, Copy, Debug, PartialEq, Eq, Structural)]
pub struct Score {
    pub value: u32,
}

impl Default for Score {
    fn default() -> (r: Self)
        ensures
            r.value == 0,
    {
        Score { value: 0 }
    }
}

/// The tail's cell as it was before the latest movement step, if any
/// step has fired yet; a newly grown segment appears there.
#[derive(Clone, Copy, Debug)]
pub struct LastTailPosition(pub Option<Position>);

impl Default for LastTailPosition {
    fn default() -> (r: Self)
        ensures
            r.0 is None,
    {
        LastTailPosition(None)
    }
}

} // verus!
