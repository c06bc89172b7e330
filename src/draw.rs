use vstd::prelude::*;

use crate::direction::Direction;
use crate::map::GridPos;

verus! {

/// What became of one robot's step, for the presentation to play back.
#[derive(Debug, Clone, Copy, PartialEq, Eq, Structural)]
pub enum Step {
    Idle,
    Move(GridPos, GridPos),
    MoveFail,
    UpdateDir(Direction, Direction),
}

/// The events of the ticks not yet played back, one list per robot turn,
/// each event tagged with the entity it happened to.
#[derive(Debug)]
pub struct DrawUpdates {
    pub data: std::collections::VecDeque<Vec<(usize, Step)>>,
}

impl DrawUpdates {
    pub fn empty() -> (r: DrawUpdates)
        ensures
            r.data@.len() == 0,
    {
        DrawUpdates { data: std::collections::VecDeque::new() }
    }
}

} // verus!
