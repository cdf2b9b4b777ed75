//! Concrete Cartesian coordinate systems (2D and 3D), grid displacements and
//! grid positions.

use vstd::prelude::*;

use crate::coordinate_system::CoordinateSystem;
use crate::direction::Direction;

verus! {

/// Right-handed 2D Cartesian coordinate system with four directions.
#[derive(Default, Debug, Clone, Copy, PartialEq, Eq, Structural)]
pub struct Cartesian2D;

/// Right-handed 3D Cartesian coordinate system with six directions.
#[derive(Default, Debug, Clone, Copy, PartialEq, Eq, Structural)]
pub struct Cartesian3D;

impl CoordinateSystem for Cartesian2D {
    open spec fn spec_directions(&self) -> Seq<Direction> {
        seq![
            Direction::XForward,
            Direction::YForward,
            Direction::XBackward,
            Direction::YBackward,
        ]
    }

    fn directions(&self) -> (r: Vec<Direction>) {
        let r: Vec<Direction> = vec![
            Direction::XForward,
            Direction::YForward,
            Direction::XBackward,
            Direction::YBackward,
        ];
        assert(r@ =~= self.spec_directions());
        r
    }

    fn directions_count(&self) -> (n: usize) {
        4
    }

    proof fn lemma_directions_well_formed(&self) {
        let s = self.spec_directions();
        assert forall|j: int| 0 <= j < s.len() implies s[j]
            == crate::direction::direction_from_index(j) by {
        }
        assert forall|j: int| 0 <= j < s.len() implies 0 <= (#[trigger] s[j].spec_opposite()).spec_index()
            < s.len() by {
        }
    }
}

impl CoordinateSystem for Cartesian3D {
    open spec fn spec_directions(&self) -> Seq<Direction> {
        seq![
            Direction::XForward,
            Direction::YForward,
            Direction::XBackward,
            Direction::YBackward,
            Direction::ZForward,
            Direction::ZBackward,
        ]
    }

    fn directions(&self) -> (r: Vec<Direction>) {
        let r: Vec<Direction> = vec![
            Direction::XForward,
            Direction::YForward,
            Direction::XBackward,
            Direction::YBackward,
            Direction::ZForward,
            Direction::ZBackward,
        ];
        assert(r@ =~= self.spec_directions());
        r
    }

    fn directions_count(&self) -> (n: usize) {
        6
    }

    proof fn lemma_directions_well_formed(&self) {
        let s = self.spec_directions();
        assert forall|j: int| 0 <= j < s.len() implies s[j]
            == crate::direction::direction_from_index(j) by {
        }
        assert forall|j: int| 0 <= j < s.len() implies 0 <= (#[trigger] s[j].spec_opposite()).spec_index()
            < s.len() by {
        }
    }
}

/// Represents a displacement on the grid.
#[derive(Default, Debug, Clone, Copy, PartialEq, Eq, Structural)]
pub struct GridDelta {
    /// Displacement along the x axis.
    pub dx: i32,
    /// Displacement along the y axis.
    pub dy: i32,
    /// Displacement along the z axis.
    pub dz: i32,
}

impl GridDelta {
    /// Builds a displacement from its three components.
    pub fn new(dx: i32, dy: i32, dz: i32) -> (r: Self)
        ensures
            r == (GridDelta { dx, dy, dz }),
    {
        Self { dx, dy, dz }
    }

    /// Scales every component by `rhs`.
    pub fn scaled(self, rhs: i32) -> (r: GridDelta)
        requires
            i32::MIN <= self.dx * rhs <= i32::MAX,
            i32::MIN <= self.dy * rhs <= i32::MAX,
            i32::MIN <= self.dz * rhs <= i32::MAX,
        ensures
            r.dx == self.dx * rhs,
            r.dy == self.dy * rhs,
            r.dz == self.dz * rhs,
    {
        GridDelta { dx: self.dx * rhs, dy: self.dy * rhs, dz: self.dz * rhs }
    }
}

/// The unit displacement of a direction.
pub open spec fn spec_delta(d: Direction) -> GridDelta {
    match d {
        Direction::XForward => GridDelta { dx: 1, dy: 0, dz: 0 },
        Direction::YForward => GridDelta { dx: 0, dy: 1, dz: 0 },
        Direction::XBackward => GridDelta { dx: -1i32, dy: 0, dz: 0 },
        Direction::YBackward => GridDelta { dx: 0, dy: -1i32, dz: 0 },
        Direction::ZForward => GridDelta { dx: 0, dy: 0, dz: 1 },
        Direction::ZBackward => GridDelta { dx: 0, dy: 0, dz: -1i32 },
    }
}

/// Returns the unit displacement of `d`.
pub fn delta_of(d: Direction) -> (r: GridDelta)
    ensures
        r == spec_delta(d),
{
    match d {
        Direction::XForward => GridDelta { dx: 1, dy: 0, dz: 0 },
        Direction::YForward => GridDelta { dx: 0, dy: 1, dz: 0 },
        Direction::XBackward => GridDelta { dx: -1, dy: 0, dz: 0 },
        Direction::YBackward => GridDelta { dx: 0, dy: -1, dz: 0 },
        Direction::ZForward => GridDelta { dx: 0, dy: 0, dz: 1 },
        Direction::ZBackward => GridDelta { dx: 0, dy: 0, dz: -1 },
    }
}

/// Helper trait for coordinate systems that expose cartesian deltas.
pub trait CartesianCoordinates: CoordinateSystem {
    /// Returns the displacement for each direction, in direction-index order.
    fn deltas(&self) -> (r: Vec<GridDelta>)
        ensures
            r@.len() == self.spec_directions().len(),
            forall|j: int|
                0 <= j < r@.len() ==> r@[j] == spec_delta(#[trigger] self.spec_directions()[j]),
    ;
}

impl CartesianCoordinates for Cartesian2D {
    fn deltas(&self) -> (r: Vec<GridDelta>) {
        let r: Vec<GridDelta> = vec![
            GridDelta { dx: 1, dy: 0, dz: 0 },
            GridDelta { dx: 0, dy: 1, dz: 0 },
            GridDelta { dx: -1, dy: 0, dz: 0 },
            GridDelta { dx: 0, dy: -1, dz: 0 },
        ];
        assert forall|j: int| 0 <= j < r@.len() implies r@[j] == spec_delta(
            #[trigger] self.spec_directions()[j],
        ) by {
        }
        r
    }
}

impl CartesianCoordinates for Cartesian3D {
    fn deltas(&self) -> (r: Vec<GridDelta>) {
        let r: Vec<GridDelta> = vec![
            GridDelta { dx: 1, dy: 0, dz: 0 },
            GridDelta { dx: 0, dy: 1, dz: 0 },
            GridDelta { dx: -1, dy: 0, dz: 0 },
            GridDelta { dx: 0, dy: -1, dz: 0 },
            GridDelta { dx: 0, dy: 0, dz: 1 },
            GridDelta { dx: 0, dy: 0, dz: -1 },
        ];
        assert forall|j: int| 0 <= j < r@.len() implies r@[j] == spec_delta(
            #[trigger] self.spec_directions()[j],
        ) by {
        }
        r
    }
}

/// Represents a 3D position in the grid (used for both 2D and 3D grids).
#[derive(Default, Hash, Debug, Clone, Copy, PartialEq, Eq, Structural)]
pub struct CartesianPosition {
    /// Coordinate along the x axis.
    pub x: u32,
    /// Coordinate along the y axis.
    pub y: u32,
    /// Coordinate along the z axis.
    pub z: u32,
}

impl CartesianPosition {
    /// Builds a position from three coordinates.
    pub fn new(x: u32, y: u32, z: u32) -> (r: Self)
        ensures
            r == (CartesianPosition { x, y, z }),
    {
        Self { x, y, z }
    }

    /// Builds a position in the z = 0 plane.
    pub fn new_xy(x: u32, y: u32) -> (r: Self)
        ensures
            r == (CartesianPosition { x, y, z: 0 }),
    {
        Self { x, y, z: 0 }
    }

    /// Sum of the absolute coordinate differences to `other`.
    pub fn manhattan_distance(&self, other: &Self) -> (r: u32)
        requires
            abs_diff(self.x as int, other.x as int) + abs_diff(self.y as int, other.y as int)
                + abs_diff(self.z as int, other.z as int) <= u32::MAX,
        ensures
            r == abs_diff(self.x as int, other.x as int) + abs_diff(self.y as int, other.y as int)
                + abs_diff(self.z as int, other.z as int),
    {
        let dx: u32 = if self.x >= other.x {
            self.x - other.x
        } else {
            other.x - self.x
        };
        let dy: u32 = if self.y >= other.y {
            self.y - other.y
        } else {
            other.y - self.y
        };
        let dz: u32 = if self.z >= other.z {
            self.z - other.z
        } else {
            other.z - self.z
        };
        dx + dy + dz
    }

    /// The position displaced by `delta`, as unbounded signed coordinates.
    pub(crate) fn get_delta_position(&self, delta: &GridDelta) -> (r: (i64, i64, i64))
        ensures
            r.0 == self.x + delta.dx,
            r.1 == self.y + delta.dy,
            r.2 == self.z + delta.dz,
    {
        (
            self.x as i64 + delta.dx as i64,
            self.y as i64 + delta.dy as i64,
            self.z as i64 + delta.dz as i64,
        )
    }
}

/// The absolute difference of two integers.
pub open spec fn abs_diff(a: int, b: int) -> int {
    if a >= b {
        a - b
    } else {
        b - a
    }
}

} // verus!
