//! The closed set of axis directions used by Cartesian grids, with the
//! opposite pairing and the rotation basis around each axis.

use vstd::prelude::*;

verus! {

/// Index of a direction within a coordinate system.
pub type DirectionIndex = usize;

/// Enumerates the six primary axes used by Cartesian grids.
#[derive(Clone, Copy, Debug, PartialEq, Eq, Structural, Hash, Default)]
pub enum Direction {
    /// X+ axis
    #[default]
    XForward,
    /// Y+ axis
    YForward,
    /// X- axis
    XBackward,
    /// Y- axis
    YBackward,
    /// Z+ axis
    ZForward,
    /// Z- axis
    ZBackward,
}

/// The direction whose index is `j`, in the fixed enumeration order.
pub open spec fn direction_from_index(j: int) -> Direction {
    if j == 0 {
        Direction::XForward
    } else if j == 1 {
        Direction::YForward
    } else if j == 2 {
        Direction::XBackward
    } else if j == 3 {
        Direction::YBackward
    } else if j == 4 {
        Direction::ZForward
    } else {
        Direction::ZBackward
    }
}

impl Direction {
    /// The fixed index of this direction.
    pub open spec fn spec_index(self) -> int {
        match self {
            Direction::XForward => 0,
            Direction::YForward => 1,
            Direction::XBackward => 2,
            Direction::YBackward => 3,
            Direction::ZForward => 4,
            Direction::ZBackward => 5,
        }
    }

    /// The direction pointing the opposite way.
    pub open spec fn spec_opposite(self) -> Direction {
        match self {
            Direction::XForward => Direction::XBackward,
            Direction::XBackward => Direction::XForward,
            Direction::YForward => Direction::YBackward,
            Direction::YBackward => Direction::YForward,
            Direction::ZForward => Direction::ZBackward,
            Direction::ZBackward => Direction::ZForward,
        }
    }

    /// The four directions swept, in order, when rotating by successive 90
    /// degree steps around this axis (right-handed).
    pub open spec fn spec_rotation_basis(self) -> Seq<Direction> {
        match self {
            Direction::XForward => seq![
                Direction::YForward,
                Direction::ZForward,
                Direction::YBackward,
                Direction::ZBackward,
            ],
            Direction::XBackward => seq![
                Direction::ZForward,
                Direction::YForward,
                Direction::ZBackward,
                Direction::YBackward,
            ],
            Direction::YForward => seq![
                Direction::ZForward,
                Direction::XForward,
                Direction::ZBackward,
                Direction::XBackward,
            ],
            Direction::YBackward => seq![
                Direction::XForward,
                Direction::ZForward,
                Direction::XBackward,
                Direction::ZBackward,
            ],
            Direction::ZForward => seq![
                Direction::XForward,
                Direction::YForward,
                Direction::XBackward,
                Direction::YBackward,
            ],
            Direction::ZBackward => seq![
                Direction::YForward,
                Direction::XForward,
                Direction::YBackward,
                Direction::XBackward,
            ],
        }
    }
}

/// Trait implemented by direction enums.
pub trait DirectionTrait: Sized + Copy {
    /// The index of this direction within the full direction set.
    spec fn index_spec(&self) -> int;

    /// The direction pointing the opposite way.
    spec fn opposite_spec(&self) -> Self;

    /// Returns the index of this direction.
    fn index(&self) -> (i: DirectionIndex)
        ensures
            i == self.index_spec(),
    ;

    /// Returns the opposite direction.
    fn opposite(&self) -> (r: Self)
        ensures
            r == self.opposite_spec(),
    ;
}

impl DirectionTrait for Direction {
    open spec fn index_spec(&self) -> int {
        self.spec_index()
    }

    open spec fn opposite_spec(&self) -> Direction {
        self.spec_opposite()
    }

    fn index(&self) -> (i: DirectionIndex) {
        match self {
            Direction::XForward => 0,
            Direction::YForward => 1,
            Direction::XBackward => 2,
            Direction::YBackward => 3,
            Direction::ZForward => 4,
            Direction::ZBackward => 5,
        }
    }

    fn opposite(&self) -> (r: Direction) {
        match self {
            Direction::XForward => Direction::XBackward,
            Direction::XBackward => Direction::XForward,
            Direction::YForward => Direction::YBackward,
            Direction::YBackward => Direction::YForward,
            Direction::ZForward => Direction::ZBackward,
            Direction::ZBackward => Direction::ZForward,
        }
    }
}

impl Direction {
    /// Returns the rotation basis for this direction (right-handed): the four
    /// directions cycled through when rotating around this axis.
    pub fn rotation_basis(&self) -> (r: [Direction; 4])
        ensures
            r@ == self.spec_rotation_basis(),
    {
        match self {
            Direction::XForward => [
                Direction::YForward,
                Direction::ZForward,
                Direction::YBackward,
                Direction::ZBackward,
            ],
            Direction::XBackward => [
                Direction::ZForward,
                Direction::YForward,
                Direction::ZBackward,
                Direction::YBackward,
            ],
            Direction::YForward => [
                Direction::ZForward,
                Direction::XForward,
                Direction::ZBackward,
                Direction::XBackward,
            ],
            Direction::YBackward => [
                Direction::XForward,
                Direction::ZForward,
                Direction::XBackward,
                Direction::ZBackward,
            ],
            Direction::ZForward => [
                Direction::XForward,
                Direction::YForward,
                Direction::XBackward,
                Direction::YBackward,
            ],
            Direction::ZBackward => [
                Direction::YForward,
                Direction::XForward,
                Direction::YBackward,
                Direction::XBackward,
            ],
        }
    }
}

/// Returns the direction whose index is `j`.
pub fn direction_at(j: usize) -> (d: Direction)
    requires
        j < 6,
    ensures
        d == direction_from_index(j as int),
{
    match j {
        0 => Direction::XForward,
        1 => Direction::YForward,
        2 => Direction::XBackward,
        3 => Direction::YBackward,
        4 => Direction::ZForward,
        _ => Direction::ZBackward,
    }
}

/// Taking the opposite never leaves the first four directions, nor the six.
pub proof fn lemma_opposite_index_bound(j: int)
    requires
        0 <= j < 6,
    ensures
        0 <= direction_from_index(j).spec_opposite().spec_index() < 6,
        j < 4 ==> direction_from_index(j).spec_opposite().spec_index() < 4,
        direction_from_index(direction_from_index(j).spec_opposite().spec_index())
            == direction_from_index(j).spec_opposite(),
        direction_from_index(j).spec_opposite().spec_opposite() == direction_from_index(j),
{
}

/// A direction's index matches its position in the fixed enumeration.
pub proof fn lemma_direction_index_roundtrip(j: int)
    requires
        0 <= j < 6,
    ensures
        direction_from_index(j).spec_index() == j,
{
}

/// Looking a direction's index back up returns the direction.
pub proof fn lemma_index_direction_roundtrip(d: Direction)
    ensures
        direction_from_index(d.spec_index()) == d,
{
}

/// Opposites pair up: taking the opposite twice returns the starting
/// direction, and a direction is never its own opposite.
pub proof fn lemma_opposite_involutive(d: Direction)
    ensures
        d.spec_opposite().spec_opposite() == d,
        d.spec_opposite() != d,
{
}

} // verus!
