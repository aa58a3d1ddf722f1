//! Headings, and the keys that ask for them.
use vstd::prelude::*;
use vstd::string::StringExecFns;

verus! {

/// The four headings a snake can take.
#[derive(Debug, Clone, Copy, PartialEq, Eq, Structural)]
pub enum Direction {
    Up,
    Right,
    Down,
    Left,
}

impl Direction {
    /// The heading that points the other way.
    pub open spec fn reverse(self) -> Direction {
        match self {
            Direction::Up => Direction::Down,
            Direction::Right => Direction::Left,
            Direction::Down => Direction::Up,
            Direction::Left => Direction::Right,
        }
    }

    /// Two headings share an axis when they are equal or point opposite ways.
    pub open spec fn shares_axis(self, other: Direction) -> bool {
        other == self || other == self.reverse()
    }

    /// The heading that points the other way.
    pub fn opposite(self) -> (r: Direction)
        ensures
            r == self.reverse(),
    {
        match self {
            Direction::Up => Direction::Down,
            Direction::Right => Direction::Left,
            Direction::Down => Direction::Up,
            Direction::Left => Direction::Right,
        }
    }

    /// Whether `other` lies on the same axis as `self`.
    pub fn same_axis(self, other: Direction) -> (r: bool)
        ensures
            r == self.shares_axis(other),
    {
        other == self || other == self.opposite()
    }

    /// The heading that a key's name stands for, if it stands for one.
    pub open spec fn of_key(key: Seq<char>) -> Option<Direction> {
        if key == "ArrowUp"@ {
            Some(Direction::Up)
        } else if key == "ArrowRight"@ {
            Some(Direction::Right)
        } else if key == "ArrowDown"@ {
            Some(Direction::Down)
        } else if key == "ArrowLeft"@ {
            Some(Direction::Left)
        } else {
            None
        }
    }

    /// Maps the name of a pressed key to a heading: the four arrow keys give
    /// one, every other key gives `None`.
    pub fn from_key(key: &str) -> (r: Option<Direction>)
        ensures
            r == Direction::of_key(key@),
    {
        let pressed = String::from_str(key);
        if pressed == String::from_str("ArrowUp") {
            Some(Direction::Up)
        } else if pressed == String::from_str("ArrowRight") {
            Some(Direction::Right)
        } else if pressed == String::from_str("ArrowDown") {
            Some(Direction::Down)
        } else if pressed == String::from_str("ArrowLeft") {
            Some(Direction::Left)
        } else {
            None
        }
    }
}

} // verus!
