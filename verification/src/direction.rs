//! The heading of the snake and the steering input.

use vstd::prelude::*;

verus! {

/// One of the four headings: a unit step along one axis.
#[derive(Clone, Copy, Debug, PartialEq, Eq, Hash, Structural)]
pub enum Direction {
    /// The step `(-1, 0)`.
    Left,
    /// The step `(1, 0)`.
    Right,
    /// The step `(0, -1)`.
    Down,
    /// The step `(0, 1)`.
    Up,
}

impl Direction {
    /// The step along the x axis.
    pub open spec fn dx(self) -> int {
        match self {
            Direction::Left => -1,
            Direction::Right => 1,
            Direction::Down => 0,
            Direction::Up => 0,
        }
    }

    /// The step along the y axis.
    pub open spec fn dy(self) -> int {
        match self {
            Direction::Left => 0,
            Direction::Right => 0,
            Direction::Down => -1,
            Direction::Up => 1,
        }
    }

    /// The heading whose step is the negated step of `self`.
    pub open spec fn reversed(self) -> Direction {
        match self {
            Direction::Left => Direction::Right,
            Direction::Right => Direction::Left,
            Direction::Down => Direction::Up,
            Direction::Up => Direction::Down,
        }
    }

    /// The heading that the index `index` selects, for `index < 4`.
    pub open spec fn of_index(index: int) -> Direction {
        if index == 0 {
            Direction::Left
        } else if index == 1 {
            Direction::Right
        } else if index == 2 {
            Direction::Down
        } else {
            Direction::Up
        }
    }

    /// The step of the heading as a vector.
    pub fn delta(&self) -> (step: (i32, i32))
        ensures
            step.0 == self.dx(),
            step.1 == self.dy(),
    {
        match self {
            Direction::Left => (-1, 0),
            Direction::Right => (1, 0),
            Direction::Down => (0, -1),
            Direction::Up => (0, 1),
        }
    }

    /// The opposite heading.
    pub fn opposite(&self) -> (back: Direction)
        ensures
            back == self.reversed(),
            back.dx() == -self.dx(),
            back.dy() == -self.dy(),
    {
        match self {
            Direction::Left => Direction::Right,
            Direction::Right => Direction::Left,
            Direction::Down => Direction::Up,
            Direction::Up => Direction::Down,
        }
    }

    /// The heading for an index below four: left, right, down, up.
    pub fn from_index(index: u64) -> (direction: Direction)
        requires
            index < 4,
        ensures
            direction == Direction::of_index(index as int),
    {
        if index == 0 {
            Direction::Left
        } else if index == 1 {
            Direction::Right
        } else if index == 2 {
            Direction::Down
        } else {
            Direction::Up
        }
    }
}

/// The head of the snake: it owns the current heading.
#[derive(Clone, Copy, Debug, PartialEq, Eq, Hash, Structural)]
pub struct SnakeHead(pub Direction);

/// The movement keys that are held down at one moment.
#[derive(Clone, Copy, Debug, PartialEq, Eq, Hash, Structural)]
pub struct PressedKeys {
    /// The key for `Direction::Up`.
    pub up: bool,
    /// The key for `Direction::Down`.
    pub down: bool,
    /// The key for `Direction::Left`.
    pub left: bool,
    /// The key for `Direction::Right`.
    pub right: bool,
}

impl PressedKeys {
    /// The heading that is asked for: that of the one key held down, and none
    /// if no key or more than one key is held down.
    pub open spec fn requested(self) -> Option<Direction> {
        if self.up && !self.down && !self.left && !self.right {
            Some(Direction::Up)
        } else if !self.up && self.down && !self.left && !self.right {
            Some(Direction::Down)
        } else if !self.up && !self.down && self.left && !self.right {
            Some(Direction::Left)
        } else if !self.up && !self.down && !self.left && self.right {
            Some(Direction::Right)
        } else {
            None
        }
    }

    /// The heading that the keys ask for, if exactly one key is held down.
    pub fn request(&self) -> (asked: Option<Direction>)
        ensures
            asked == self.requested(),
    {
        let mut count: u8 = 0;
        let mut asked = Direction::Up;
        if self.up {
            count = count + 1;
            asked = Direction::Up;
        }
        if self.down {
            count = count + 1;
            asked = Direction::Down;
        }
        if self.left {
            count = count + 1;
            asked = Direction::Left;
        }
        if self.right {
            count = count + 1;
            asked = Direction::Right;
        }
        if count == 1 {
            Some(asked)
        } else {
            None
        }
    }
}

/// The heading after the keys were read: the one asked for, unless none is
/// asked for or the one asked for is the reverse of `current`.
pub open spec fn steered(current: Direction, keys: PressedKeys) -> Direction {
    match keys.requested() {
        Some(asked) => if asked == current.reversed() {
            current
        } else {
            asked
        },
        None => current,
    }
}

/// Reads the keys and turns the head. The head never turns round in one
/// step: a request for the reverse of the current heading is dropped.
pub fn process_input(snake_head: &mut SnakeHead, input: &PressedKeys)
    ensures
        final(snake_head).0 == steered(old(snake_head).0, *input),
        final(snake_head).0 != old(snake_head).0.reversed(),
{
    match input.request() {
        Some(asked) => {
            if asked != snake_head.0.opposite() {
                snake_head.0 = asked;
            }
        },
        None => {},
    }
}

} // verus!
