//! Observation stations and the assignment value handed to a scout.

use vstd::prelude::*;

verus! {

/// One of the six fixed observation stations of a match: three per alliance
/// side.  The enumeration is closed: there are exactly six values, and the
/// order below (red side first, station one first) is the order in which
/// empty stations are handed out.
#[derive(Debug, Clone, Copy, PartialEq, Eq, Structural)]
pub enum Position {
    RED1,
    RED2,
    RED3,
    BLUE1,
    BLUE2,
    BLUE3,
}

impl Position {
    /// The discriminant of this station in enumeration order, from 0 to 5.
    pub fn index(&self) -> (i: usize)
        ensures
            i == self.spec_index(),
            i < 6,
    {
        match self {
            Position::RED1 => 0,
            Position::RED2 => 1,
            Position::RED3 => 2,
            Position::BLUE1 => 3,
            Position::BLUE2 => 4,
            Position::BLUE3 => 5,
        }
    }

    /// The station with the given discriminant, inverse of `index`.
    pub fn from_index(i: usize) -> (p: Position)
        requires
            i < 6,
        ensures
            p == Self::spec_from_index(i as int),
            p.spec_index() == i,
    {
        if i == 0 {
            Position::RED1
        } else if i == 1 {
            Position::RED2
        } else if i == 2 {
            Position::RED3
        } else if i == 3 {
            Position::BLUE1
        } else if i == 4 {
            Position::BLUE2
        } else {
            Position::BLUE3
        }
    }

    pub open spec fn spec_index(self) -> int {
        match self {
            Position::RED1 => 0,
            Position::RED2 => 1,
            Position::RED3 => 2,
            Position::BLUE1 => 3,
            Position::BLUE2 => 4,
            Position::BLUE3 => 5,
        }
    }

    pub open spec fn spec_from_index(i: int) -> Position {
        if i == 0 {
            Position::RED1
        } else if i == 1 {
            Position::RED2
        } else if i == 2 {
            Position::RED3
        } else if i == 3 {
            Position::BLUE1
        } else if i == 4 {
            Position::BLUE2
        } else {
            Position::BLUE3
        }
    }
}

/// Round-tripping a station through its discriminant gives the station back,
/// and distinct stations have distinct discriminants.
pub proof fn lemma_position_index_bijective(p: Position, q: Position)
    ensures
        Position::spec_from_index(p.spec_index()) == p,
        0 <= p.spec_index() < 6,
        p != q ==> p.spec_index() != q.spec_index(),
{
}

/// A station assignment handed back to the requesting scout.
#[derive(Debug, Clone, Copy, PartialEq, Eq, Structural)]
pub struct Assignment {
    pub position: Position,
    pub team_number: u32,
}

} // verus!
