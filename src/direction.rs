use vstd::prelude::*;

verus! {

/// A compass direction on the grid, used both for a robot's facing and
/// for the downhill orientation of a ramp. `Up` decreases `y`, `Right`
/// increases `x`.
#[derive(Debug, Clone, Copy, PartialEq, Eq, Structural)]
pub enum Direction {
    Up,
    Down,
    Left,
    Right,
}

/// The direction a quarter turn counter-clockwise from `d`.
pub open spec fn left_of(d: Direction) -> Direction {
    match d {
        Direction::Up => Direction::Left,
        Direction::Down => Direction::Right,
        Direction::Left => Direction::Down,
        Direction::Right => Direction::Up,
    }
}

/// The direction a quarter turn clockwise from `d`.
pub open spec fn right_of(d: Direction) -> Direction {
    match d {
        Direction::Up => Direction::Right,
        Direction::Down => Direction::Left,
        Direction::Left => Direction::Up,
        Direction::Right => Direction::Down,
    }
}

/// The direction pointing the other way from `d`.
pub open spec fn opposite_of(d: Direction) -> Direction {
    match d {
        Direction::Up => Direction::Down,
        Direction::Down => Direction::Up,
        Direction::Left => Direction::Right,
        Direction::Right => Direction::Left,
    }
}

impl Direction {
    pub fn turn_left(self) -> (r: Direction)
        ensures
            r == left_of(self),
    {
        match self {
            Direction::Up => Direction::Left,
            Direction::Down => Direction::Right,
            Direction::Left => Direction::Down,
            Direction::Right => Direction::Up,
        }
    }

    pub fn turn_right(self) -> (r: Direction)
        ensures
            r == right_of(self),
    {
        match self {
            Direction::Up => Direction::Right,
            Direction::Down => Direction::Left,
            Direction::Left => Direction::Up,
            Direction::Right => Direction::Down,
        }
    }

    pub fn turn_around(self) -> (r: Direction)
        ensures
            r == opposite_of(self),
    {
        match self {
            Direction::Up => Direction::Down,
            Direction::Down => Direction::Up,
            Direction::Left => Direction::Right,
            Direction::Right => Direction::Left,
        }
    }
}

/// Whether `d1` and `d2` point in opposite ways.
pub fn is_dirs_opposite(d1: Direction, d2: Direction) -> (r: bool)
    ensures
        r == (d2 == opposite_of(d1)),
{
    match (d1, d2) {
        (Direction::Up, Direction::Down)
        | (Direction::Down, Direction::Up)
        | (Direction::Left, Direction::Right)
        | (Direction::Right, Direction::Left) => true,
        _ => false,
    }
}

/// Four left turns bring any facing back to where it started.
pub proof fn lemma_four_left_turns(d: Direction)
    ensures
        left_of(left_of(left_of(left_of(d)))) == d,
{
}

} // verus!
