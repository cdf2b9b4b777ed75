//! Definition of a Cartesian grid (2D or 3D): row-major index/position
//! conversion and neighbour addressing with optional per-axis wraparound.

use vstd::arithmetic::div_mod::{
    lemma_fundamental_div_mod, lemma_fundamental_div_mod_converse_div,
    lemma_fundamental_div_mod_converse_mod, lemma_div_denominator, lemma_mod_pos_bound,
    lemma_multiply_divide_lt, lemma_small_mod, lemma_mod_bound,
};
use vstd::prelude::*;

use crate::coordinate_system::CoordinateSystem;
use crate::coordinates::{
    delta_of, spec_delta, Cartesian2D, Cartesian3D, CartesianCoordinates, CartesianPosition,
    GridDelta,
};
use crate::direction::{Direction, DirectionTrait};
use crate::grid::{Grid, GridData, GridIndex};

verus! {

/// Definition of a Cartesian grid (2D or 3D).
#[derive(Clone, Copy)]
pub struct CartesianGrid<C: CoordinateSystem> {
    /// Number of nodes along the x axis.
    pub size_x: u32,
    /// Number of nodes along the y axis.
    pub size_y: u32,
    /// Number of nodes along the z axis.
    pub size_z: u32,
    /// Whether the x axis wraps around.
    pub looping_x: bool,
    /// Whether the y axis wraps around.
    pub looping_y: bool,
    /// Whether the z axis wraps around.
    pub looping_z: bool,
    /// The coordinate system of the grid.
    pub coord_system: C,
    /// Cached product of the x and y extents.
    pub size_xy: u32,
}

/// One step along an axis: the target coordinate `t` reduced by the axis
/// rule. A looping axis reduces modulo the extent; a bounded axis yields the
/// coordinate only when it lies inside the extent.
pub open spec fn spec_axis_step(t: int, size: int, looping: bool) -> Option<int> {
    if looping {
        Some(t % size)
    } else if 0 <= t < size {
        Some(t)
    } else {
        None
    }
}

impl<C: CoordinateSystem> CartesianGrid<C> {
    /// Well-formedness: every axis has at least one node, the node count fits
    /// a `u32`, and the cached xy product is consistent.
    pub open spec fn inv_spec(&self) -> bool {
        &&& 1 <= self.size_x
        &&& 1 <= self.size_y
        &&& 1 <= self.size_z
        &&& self.size_x * self.size_y * self.size_z <= u32::MAX
        &&& self.size_xy == self.size_x * self.size_y
    }

    /// The total number of nodes.
    pub open spec fn spec_total_size(&self) -> int {
        self.size_x * self.size_y * self.size_z
    }

    /// Row-major index of the coordinates.
    pub open spec fn spec_index_from_coords(&self, x: int, y: int, z: int) -> int {
        x + y * self.size_x + z * (self.size_x * self.size_y)
    }

    /// The position encoded by a row-major index.
    pub open spec fn spec_pos_from_index(&self, i: int) -> CartesianPosition {
        CartesianPosition {
            x: (i % (self.size_x as int)) as u32,
            y: ((i / (self.size_x as int)) % (self.size_y as int)) as u32,
            z: (i / (self.size_x as int * self.size_y as int)) as u32,
        }
    }

    /// Whether the coordinates lie inside the grid extents.
    pub open spec fn valid_coords(&self, x: int, y: int, z: int) -> bool {
        &&& 0 <= x < self.size_x
        &&& 0 <= y < self.size_y
        &&& 0 <= z < self.size_z
    }

    /// Whether the position lies inside the grid extents.
    pub open spec fn spec_valid_pos(&self, p: CartesianPosition) -> bool {
        self.valid_coords(p.x as int, p.y as int, p.z as int)
    }

    /// The position one `delta` step away, axis by axis, or `None` when a
    /// bounded axis is left.
    pub open spec fn spec_next_pos(&self, p: CartesianPosition, dx: int, dy: int, dz: int) -> Option<
        CartesianPosition,
    > {
        match (
            spec_axis_step(p.x + dx, self.size_x as int, self.looping_x),
            spec_axis_step(p.y + dy, self.size_y as int, self.looping_y),
            spec_axis_step(p.z + dz, self.size_z as int, self.looping_z),
        ) {
            (Some(nx), Some(ny), Some(nz)) => Some(
                CartesianPosition { x: nx as u32, y: ny as u32, z: nz as u32 },
            ),
            _ => None,
        }
    }

    /// The index of the node reached from `p` along direction `d`, or `None`
    /// when the step leaves a bounded axis.
    pub open spec fn spec_next_index(&self, p: CartesianPosition, d: Direction) -> Option<
        GridIndex,
    > {
        match self.spec_next_pos(
            p,
            spec_delta(d).dx as int,
            spec_delta(d).dy as int,
            spec_delta(d).dz as int,
        ) {
            Some(q) => Some(self.spec_index_from_coords(q.x as int, q.y as int, q.z as int) as usize),
            None => None,
        }
    }

    /// A valid set of coordinates encodes to an index inside the grid.
    pub proof fn lemma_index_bounds(&self, x: int, y: int, z: int)
        requires
            self.inv_spec(),
            self.valid_coords(x, y, z),
        ensures
            0 <= self.spec_index_from_coords(x, y, z) < self.spec_total_size(),
    {
        let sx = self.size_x as int;
        let sy = self.size_y as int;
        let sz = self.size_z as int;
        assert(0 <= x + y * sx + z * (sx * sy) < sx * sy * sz) by (nonlinear_arith)
            requires
                0 <= x < sx,
                0 <= y < sy,
                0 <= z < sz,
        ;
    }

    /// Encoding valid coordinates to an index and decoding it again returns
    /// the same position.
    pub proof fn lemma_pos_of_index_of_coords(&self, x: int, y: int, z: int)
        requires
            self.inv_spec(),
            self.valid_coords(x, y, z),
        ensures
            self.spec_pos_from_index(self.spec_index_from_coords(x, y, z)) == (CartesianPosition {
                x: x as u32,
                y: y as u32,
                z: z as u32,
            }),
    {
        let sx = self.size_x as int;
        let sy = self.size_y as int;
        let i = self.spec_index_from_coords(x, y, z);
        assert(i == (y + z * sy) * sx + x) by (nonlinear_arith)
            requires
                i == x + y * sx + z * (sx * sy),
        ;
        lemma_fundamental_div_mod_converse_mod(i, sx, y + z * sy, x);
        lemma_fundamental_div_mod_converse_div(i, sx, y + z * sy, x);
        assert(i % sx == x);
        assert(i / sx == y + z * sy);
        lemma_fundamental_div_mod_converse_mod(y + z * sy, sy, z, y);
        assert((i / sx) % sy == y);
        assert(i == z * (sx * sy) + (y * sx + x)) by (nonlinear_arith)
            requires
                i == x + y * sx + z * (sx * sy),
        ;
        assert(0 <= y * sx + x < sx * sy) by (nonlinear_arith)
            requires
                0 <= x < sx,
                0 <= y < sy,
        ;
        lemma_fundamental_div_mod_converse_div(i, sx * sy, z, y * sx + x);
        assert(i / (sx * sy) == z);
    }

    /// Decoding a valid index to a position and encoding it again returns the
    /// same index, and the decoded position is valid.
    pub proof fn lemma_index_of_pos_of_index(&self, i: int)
        requires
            self.inv_spec(),
            0 <= i < self.spec_total_size(),
        ensures
            self.spec_valid_pos(self.spec_pos_from_index(i)),
            ({
                let p = self.spec_pos_from_index(i);
                self.spec_index_from_coords(p.x as int, p.y as int, p.z as int) == i
            }),
    {
        let sx = self.size_x as int;
        let sy = self.size_y as int;
        let sz = self.size_z as int;
        let x = i % sx;
        let q = i / sx;
        let y = q % sy;
        let z = i / (sx * sy);
        lemma_mod_pos_bound(i, sx);
        lemma_fundamental_div_mod(i, sx);
        assert(0 <= q) by (nonlinear_arith)
            requires
                i == sx * q + x,
                0 <= i,
                0 <= x < sx,
                1 <= sx,
        ;
        lemma_mod_pos_bound(q, sy);
        lemma_fundamental_div_mod(q, sy);
        lemma_div_denominator(i, sx, sy);
        assert(z == q / sy);
        assert(0 <= z) by (nonlinear_arith)
            requires
                q == sy * (q / sy) + y,
                z == q / sy,
                0 <= q,
                0 <= y < sy,
                1 <= sy,
        ;
        assert(i < (sx * sy) * sz) by (nonlinear_arith)
            requires
                i < sx * sy * sz,
        ;
        assert(0 < sx * sy) by (nonlinear_arith)
            requires
                1 <= sx,
                1 <= sy,
        ;
        lemma_multiply_divide_lt(i, sx * sy, sz);
        assert(z < sz);
        assert(i == x + y * sx + z * (sx * sy)) by (nonlinear_arith)
            requires
                i == sx * q + x,
                q == sy * z + y,
        ;
    }

    /// A neighbour index, when one exists, lies inside the grid.
    pub proof fn lemma_next_index_bounds(&self, p: CartesianPosition, d: Direction)
        requires
            self.inv_spec(),
            self.spec_valid_pos(p),
        ensures
            self.spec_next_index(p, d) matches Some(m) ==> m < self.spec_total_size(),
    {
        let dx = spec_delta(d).dx as int;
        let dy = spec_delta(d).dy as int;
        let dz = spec_delta(d).dz as int;
        lemma_mod_bound(p.x + dx, self.size_x as int);
        lemma_mod_bound(p.y + dy, self.size_y as int);
        lemma_mod_bound(p.z + dz, self.size_z as int);
        match self.spec_next_pos(p, dx, dy, dz) {
            Some(q) => {
                assert(self.spec_valid_pos(q));
                self.lemma_index_bounds(q.x as int, q.y as int, q.z as int);
            },
            None => {},
        }
    }

    /// A single-node grid without wraparound has no neighbour in any
    /// direction.
    pub proof fn lemma_single_node_no_neighbours(&self, d: Direction)
        requires
            self.inv_spec(),
            self.spec_total_size() == 1,
            !self.looping_x,
            !self.looping_y,
            !self.looping_z,
        ensures
            self.spec_next_index(self.spec_pos_from_index(0), d) is None,
    {
        assert(self.size_x == 1 && self.size_y == 1 && self.size_z == 1) by (nonlinear_arith)
            requires
                1 <= self.size_x,
                1 <= self.size_y,
                1 <= self.size_z,
                self.size_x * self.size_y * self.size_z == 1,
        ;
        let p = self.spec_pos_from_index(0);
        assert(p.x == 0 && p.y == 0 && p.z == 0);
        match d {
            Direction::XForward => {
                assert(spec_axis_step(p.x + 1, 1, false) is None);
            },
            Direction::XBackward => {
                assert(spec_axis_step(p.x - 1, 1, false) is None);
            },
            Direction::YForward => {
                assert(spec_axis_step(p.y + 1, 1, false) is None);
            },
            Direction::YBackward => {
                assert(spec_axis_step(p.y - 1, 1, false) is None);
            },
            Direction::ZForward => {
                assert(spec_axis_step(p.z + 1, 1, false) is None);
            },
            Direction::ZBackward => {
                assert(spec_axis_step(p.z - 1, 1, false) is None);
            },
        }
    }

    /// On a looping axis, one step backward from coordinate `0` wraps to the
    /// far edge `size - 1`; on a bounded axis the same step leaves the grid.
    pub proof fn lemma_wraparound(&self, p: CartesianPosition)
        requires
            self.inv_spec(),
            self.spec_valid_pos(p),
            p.x == 0,
        ensures
            self.looping_x ==> self.spec_next_pos(p, -1, 0, 0) == Some(
                CartesianPosition { x: (self.size_x - 1) as u32, y: p.y, z: p.z },
            ),
            !self.looping_x ==> self.spec_next_pos(p, -1, 0, 0) is None,
    {
        let sx = self.size_x as int;
        let sy = self.size_y as int;
        let sz = self.size_z as int;
        lemma_fundamental_div_mod_converse_mod(-1, sx, -1, sx - 1);
        assert((-1) % sx == sx - 1);
        lemma_small_mod(p.y as nat, sy as nat);
        lemma_small_mod(p.z as nat, sz as nat);
    }

    /// Builds a grid definition. Extents must be at least one node per axis
    /// and the node count must fit the index arithmetic.
    pub fn new(
        size_x: u32,
        size_y: u32,
        size_z: u32,
        looping_x: bool,
        looping_y: bool,
        looping_z: bool,
        coord_system: C,
    ) -> (r: Self)
        requires
            1 <= size_x,
            1 <= size_y,
            1 <= size_z,
            size_x * size_y * size_z <= u32::MAX,
        ensures
            r.inv_spec(),
            r == (CartesianGrid {
                size_x,
                size_y,
                size_z,
                looping_x,
                looping_y,
                looping_z,
                coord_system,
                size_xy: (size_x * size_y) as u32,
            }),
    {
        proof {
            assert(size_x * size_y <= u32::MAX) by (nonlinear_arith)
                requires
                    1 <= size_z,
                    0 <= size_x,
                    0 <= size_y,
                    size_x * size_y * size_z <= u32::MAX,
            ;
        }
        Self {
            size_x,
            size_y,
            size_z,
            looping_x,
            looping_y,
            looping_z,
            size_xy: size_x * size_y,
            coord_system,
        }
    }

    /// Returns the grid extents as `(x, y, z)`.
    pub fn size(&self) -> (r: (u32, u32, u32))
        ensures
            r == (self.size_x, self.size_y, self.size_z),
    {
        (self.size_x, self.size_y, self.size_z)
    }

    /// Returns the extent along the x axis.
    pub fn size_x(&self) -> (r: u32)
        ensures
            r == self.size_x,
    {
        self.size_x
    }

    /// Returns the extent along the y axis.
    pub fn size_y(&self) -> (r: u32)
        ensures
            r == self.size_y,
    {
        self.size_y
    }

    /// Returns the extent along the z axis.
    pub fn size_z(&self) -> (r: u32)
        ensures
            r == self.size_z,
    {
        self.size_z
    }

    /// Returns the index corresponding to the coordinates.
    pub fn index_from_coords(&self, x: u32, y: u32, z: u32) -> (i: GridIndex)
        requires
            self.inv_spec(),
            self.valid_coords(x as int, y as int, z as int),
        ensures
            i == self.spec_index_from_coords(x as int, y as int, z as int),
            i < self.spec_total_size(),
    {
        proof {
            self.lemma_index_bounds(x as int, y as int, z as int);
            assert(y * self.size_x + x <= u32::MAX && z * (self.size_x * self.size_y)
                <= u32::MAX) by (nonlinear_arith)
                requires
                    0 <= x < self.size_x,
                    0 <= y < self.size_y,
                    0 <= z < self.size_z,
                    self.size_x * self.size_y * self.size_z <= u32::MAX,
            ;
        }
        (x + y * self.size_x + z * self.size_xy) as usize
    }

    /// Returns the grid position for an index.
    pub fn pos_from_index(&self, index: GridIndex) -> (pos: CartesianPosition)
        requires
            self.inv_spec(),
            index < self.spec_total_size(),
        ensures
            pos == self.spec_pos_from_index(index as int),
            self.spec_valid_pos(pos),
    {
        proof {
            self.lemma_index_of_pos_of_index(index as int);
            assert(1 <= self.size_xy) by (nonlinear_arith)
                requires
                    self.size_xy == self.size_x * self.size_y,
                    1 <= self.size_x,
                    1 <= self.size_y,
            ;
        }
        let idx = index as u32;
        CartesianPosition {
            x: idx % self.size_x,
            y: (idx / self.size_x) % self.size_y,
            z: idx / self.size_xy,
        }
    }
}

/// One axis step over machine integers; mirrors [`spec_axis_step`].
fn step_axis(t: i64, size: u32, looping: bool) -> (r: Option<u32>)
    requires
        1 <= size,
        i64::MIN < t,
    ensures
        match r {
            Some(v) => spec_axis_step(t as int, size as int, looping) == Some(v as int),
            None => spec_axis_step(t as int, size as int, looping) is None,
        },
{
    let m = size as i64;
    if looping {
        let v: u32 = if t >= 0 {
            ((t as u64) % (size as u64)) as u32
        } else {
            let k: u64 = ((-t) as u64) % (size as u64);
            proof {
                let n = -(t as int);
                lemma_fundamental_div_mod(n, size as int);
                if k == 0 {
                    assert(t as int == (-(n / (size as int))) * (size as int)
                        + 0) by (nonlinear_arith)
                        requires
                            n == (size as int) * (n / (size as int)) + k,
                            t as int == -n,
                            k == 0,
                    ;
                    lemma_fundamental_div_mod_converse_mod(
                        t as int,
                        size as int,
                        -(n / (size as int)),
                        0,
                    );
                } else {
                    assert(t as int == (-(n / (size as int)) - 1) * (size as int) + (size as int
                        - k)) by (nonlinear_arith)
                        requires
                            n == (size as int) * (n / (size as int)) + k,
                            t as int == -n,
                    ;
                    lemma_fundamental_div_mod_converse_mod(
                        t as int,
                        size as int,
                        -(n / (size as int)) - 1,
                        (size as int) - k,
                    );
                }
            }
            if k == 0 {
                0u32
            } else {
                (size as u64 - k) as u32
            }
        };
        Some(v)
    } else {
        if t < 0 || t >= m {
            None
        } else {
            Some(t as u32)
        }
    }
}

impl<C: CartesianCoordinates> CartesianGrid<C> {
    /// Returns the position one `delta` step away, or `None` when the step
    /// leaves a bounded axis. Looping axes reduce the coordinate modulo the
    /// axis extent.
    pub fn get_next_pos(&self, grid_position: &CartesianPosition, delta: &GridDelta) -> (r: Option<
        CartesianPosition,
    >)
        requires
            self.inv_spec(),
            self.spec_valid_pos(*grid_position),
        ensures
            r == self.spec_next_pos(
                *grid_position,
                delta.dx as int,
                delta.dy as int,
                delta.dz as int,
            ),
            r matches Some(q) ==> self.spec_valid_pos(q),
    {
        let next = grid_position.get_delta_position(delta);
        let ox = step_axis(next.0, self.size_x, self.looping_x);
        let oy = step_axis(next.1, self.size_y, self.looping_y);
        let oz = step_axis(next.2, self.size_z, self.looping_z);
        proof {
            lemma_mod_bound(grid_position.x + delta.dx, self.size_x as int);
            lemma_mod_bound(grid_position.y + delta.dy, self.size_y as int);
            lemma_mod_bound(grid_position.z + delta.dz, self.size_z as int);
        }
        match (ox, oy, oz) {
            (Some(x), Some(y), Some(z)) => Some(CartesianPosition { x, y, z }),
            _ => None,
        }
    }

    /// Returns the index of the neighbour one step along `direction`, or
    /// `None` when the step leaves a bounded axis.
    pub fn get_next_index_in_direction(
        &self,
        grid_position: &CartesianPosition,
        direction: Direction,
    ) -> (r: Option<GridIndex>)
        requires
            self.inv_spec(),
            self.spec_valid_pos(*grid_position),
        ensures
            r == self.spec_next_index(*grid_position, direction),
            r matches Some(m) ==> m < self.spec_total_size(),
    {
        let delta = delta_of(direction);
        match self.get_next_pos(grid_position, &delta) {
            Some(pos) => Some(self.index_from_coords(pos.x, pos.y, pos.z)),
            None => None,
        }
    }

    /// Returns the index of the node `units` steps along `direction`, or
    /// `None` when the displacement leaves a bounded axis.
    pub fn get_index_in_direction(
        &self,
        grid_position: &CartesianPosition,
        direction: Direction,
        units: i32,
    ) -> (r: Option<GridIndex>)
        requires
            self.inv_spec(),
            self.spec_valid_pos(*grid_position),
            i32::MIN < units,
        ensures
            r matches Some(m) ==> m < self.spec_total_size(),
            ({
                let q = self.spec_next_pos(
                    *grid_position,
                    spec_delta(direction).dx * units,
                    spec_delta(direction).dy * units,
                    spec_delta(direction).dz * units,
                );
                match r {
                    Some(m) => q matches Some(p) && m == self.spec_index_from_coords(
                        p.x as int,
                        p.y as int,
                        p.z as int,
                    ),
                    None => q is None,
                }
            }),
    {
        let unit = delta_of(direction);
        proof {
            assert(i32::MIN <= unit.dx * units <= i32::MAX && i32::MIN <= unit.dy * units
                <= i32::MAX && i32::MIN <= unit.dz * units <= i32::MAX) by (nonlinear_arith)
                requires
                    -1 <= unit.dx <= 1,
                    -1 <= unit.dy <= 1,
                    -1 <= unit.dz <= 1,
                    i32::MIN < units <= i32::MAX,
            ;
        }
        let delta = unit.scaled(units);
        match self.get_next_pos(grid_position, &delta) {
            Some(pos) => Some(self.index_from_coords(pos.x, pos.y, pos.z)),
            None => None,
        }
    }

    /// The direction leading from `from` towards `to`, judged axis by axis in
    /// x, y, z order.
    pub open spec fn spec_direction_between(&self, from: int, to: int) -> Direction {
        let f = self.spec_pos_from_index(from);
        let t = self.spec_pos_from_index(to);
        if f.x < t.x {
            Direction::XForward
        } else if f.x > t.x {
            Direction::XBackward
        } else if f.y < t.y {
            Direction::YForward
        } else if f.y > t.y {
            Direction::YBackward
        } else if f.z < t.z {
            Direction::ZForward
        } else {
            Direction::ZBackward
        }
    }

    /// Returns the direction leading from node `from` towards node `to`.
    pub fn direction(&self, from: GridIndex, to: GridIndex) -> (r: Direction)
        requires
            self.inv_spec(),
            from < self.spec_total_size(),
            to < self.spec_total_size(),
        ensures
            r == self.spec_direction_between(from as int, to as int),
    {
        let from = self.pos_from_index(from);
        let to = self.pos_from_index(to);
        if from.x < to.x {
            Direction::XForward
        } else if from.x > to.x {
            Direction::XBackward
        } else if from.y < to.y {
            Direction::YForward
        } else if from.y > to.y {
            Direction::YBackward
        } else if from.z < to.z {
            Direction::ZForward
        } else {
            Direction::ZBackward
        }
    }

    /// Fills `neighbours_buffer` with the neighbour index in each direction
    /// of the coordinate system, `None` where the grid ends.
    pub fn get_neighbours_in_all_directions(
        &self,
        grid_index: GridIndex,
        neighbours_buffer: &mut Vec<Option<GridIndex>>,
    )
        requires
            self.inv_spec(),
            grid_index < self.spec_total_size(),
            old(neighbours_buffer)@.len() >= self.coord_system.spec_directions().len(),
        ensures
            final(neighbours_buffer)@.len() == old(neighbours_buffer)@.len(),
            forall|j: int|
                0 <= j < self.coord_system.spec_directions().len() ==> final(neighbours_buffer)@[j]
                    == self.spec_next_index(
                    self.spec_pos_from_index(grid_index as int),
                    #[trigger] self.coord_system.spec_directions()[j],
                ),
            forall|j: int|
                self.coord_system.spec_directions().len() <= j < old(neighbours_buffer)@.len()
                    ==> final(neighbours_buffer)@[j] == old(neighbours_buffer)@[j],
            forall|j: int|
                0 <= j < self.coord_system.spec_directions().len()
                    ==> ((#[trigger] final(neighbours_buffer)@[j]) matches Some(m)
                    ==> m < self.spec_total_size()),
    {
        let pos = self.pos_from_index(grid_index);
        let dirs = self.coord_system.directions();
        proof {
            self.coord_system.lemma_directions_well_formed();
        }
        let n = dirs.len();
        let mut j: usize = 0;
        while j < n
            invariant
                j <= n,
                n == self.coord_system.spec_directions().len(),
                dirs@ == self.coord_system.spec_directions(),
                self.inv_spec(),
                grid_index < self.spec_total_size(),
                pos == self.spec_pos_from_index(grid_index as int),
                self.spec_valid_pos(pos),
                crate::coordinate_system::directions_well_formed(
                    self.coord_system.spec_directions(),
                ),
                neighbours_buffer@.len() == old(neighbours_buffer)@.len(),
                old(neighbours_buffer)@.len() >= n,
                forall|k: int|
                    0 <= k < j ==> neighbours_buffer@[k] == self.spec_next_index(
                        self.spec_pos_from_index(grid_index as int),
                        #[trigger] self.coord_system.spec_directions()[k],
                    ),
                forall|k: int|
                    j <= k < old(neighbours_buffer)@.len() ==> neighbours_buffer@[k] == old(
                        neighbours_buffer,
                    )@[k],
                forall|k: int|
                    0 <= k < j ==> ((#[trigger] neighbours_buffer@[k]) matches Some(m) ==> m
                        < self.spec_total_size()),
            decreases n - j,
        {
            let dir = dirs[j];
            proof {
                crate::direction::lemma_direction_index_roundtrip(j as int);
            }
            let nb = self.get_next_index_in_direction(&pos, dir);
            let di = dir.index();
            neighbours_buffer.set(di, nb);
            j += 1;
        }
    }

    /// Returns a range of valid node indices.
    pub fn indexes(&self) -> (r: core::ops::Range<GridIndex>)
        requires
            self.inv_spec(),
        ensures
            r.start == 0,
            r.end == self.spec_total_size(),
    {
        0..self.total_size()
    }

    /// Builds a data store over this grid with every node set to the default
    /// value.
    pub fn default_grid_data<D: Default + Clone>(&self) -> (r: GridData<D, CartesianGrid<C>>)
        requires
            self.inv_spec(),
        ensures
            r.wf(),
            r.spec_grid() == *self,
            r.spec_data().len() == self.spec_total_size(),
            exists|d: D|
                #[trigger] call_ensures(D::default, (), d) && (forall|i: int|
                    0 <= i < r.spec_data().len() ==> cloned(d, #[trigger] r.spec_data()[i])),
    {
        let value = D::default();
        self.new_grid_data(value)
    }

    /// Builds a data store over this grid with every node set to a clone of
    /// `value`.
    pub fn new_grid_data<D: Clone>(&self, value: D) -> (r: GridData<D, CartesianGrid<C>>)
        requires
            self.inv_spec(),
        ensures
            r.wf(),
            r.spec_grid() == *self,
            r.spec_data().len() == self.spec_total_size(),
            forall|i: int|
                0 <= i < r.spec_data().len() ==> cloned(value, #[trigger] r.spec_data()[i]),
    {
        let n = self.total_size();
        let mut data: Vec<D> = Vec::new();
        while data.len() < n
            invariant
                data@.len() <= n,
                forall|e: int| 0 <= e < data@.len() ==> cloned(value, #[trigger] data@[e]),
            decreases n - data@.len(),
        {
            let c = value.clone();
            proof {
                assert(cloned(value, c));
            }
            data.push(c);
        }
        GridData::new(*self, data)
    }
}

impl CartesianGrid<Cartesian2D> {
    /// Builds a 2D grid (a single z layer).
    pub fn new_cartesian_2d(size_x: u32, size_y: u32, looping_x: bool, looping_y: bool) -> (r:
        CartesianGrid<Cartesian2D>)
        requires
            1 <= size_x,
            1 <= size_y,
            size_x * size_y <= u32::MAX,
        ensures
            r.inv_spec(),
            r == (CartesianGrid {
                size_x,
                size_y,
                size_z: 1u32,
                looping_x,
                looping_y,
                looping_z: false,
                coord_system: Cartesian2D,
                size_xy: (size_x * size_y) as u32,
            }),
    {
        Self::new(size_x, size_y, 1, looping_x, looping_y, false, Cartesian2D)
    }

    /// Returns the index of 2D coordinates (z = 0).
    pub fn get_index_2d(&self, x: u32, y: u32) -> (i: GridIndex)
        requires
            self.inv_spec(),
            x < self.size_x,
            y < self.size_y,
        ensures
            i == self.spec_index_from_coords(x as int, y as int, 0),
            i < self.spec_total_size(),
    {
        self.index_from_coords(x, y, 0)
    }

    /// Returns the index of a position, reading only its x and y coordinates.
    pub fn get_index_from_pos_2d(&self, pos: &CartesianPosition) -> (i: GridIndex)
        requires
            self.inv_spec(),
            pos.x < self.size_x,
            pos.y < self.size_y,
        ensures
            i == self.spec_index_from_coords(pos.x as int, pos.y as int, 0),
            i < self.spec_total_size(),
    {
        self.index_from_coords(pos.x, pos.y, 0)
    }
}

impl CartesianGrid<Cartesian3D> {
    /// Builds a 3D grid.
    pub fn new_cartesian_3d(
        size_x: u32,
        size_y: u32,
        size_z: u32,
        looping_x: bool,
        looping_y: bool,
        looping_z: bool,
    ) -> (r: CartesianGrid<Cartesian3D>)
        requires
            1 <= size_x,
            1 <= size_y,
            1 <= size_z,
            size_x * size_y * size_z <= u32::MAX,
        ensures
            r.inv_spec(),
            r == (CartesianGrid {
                size_x,
                size_y,
                size_z,
                looping_x,
                looping_y,
                looping_z,
                coord_system: Cartesian3D,
                size_xy: (size_x * size_y) as u32,
            }),
    {
        Self::new(size_x, size_y, size_z, looping_x, looping_y, looping_z, Cartesian3D)
    }
}

impl<C: CartesianCoordinates> crate::grid::NodeRef<CartesianGrid<C>> for CartesianPosition {
    open spec fn valid(&self, grid: &CartesianGrid<C>) -> bool {
        grid.spec_valid_pos(*self)
    }

    open spec fn spec_to_index(&self, grid: &CartesianGrid<C>) -> int {
        grid.spec_index_from_coords(self.x as int, self.y as int, self.z as int)
    }

    fn to_index(&self, grid: &CartesianGrid<C>) -> (i: GridIndex) {
        grid.index_from_coords(self.x, self.y, self.z)
    }
}

impl<C: CartesianCoordinates> crate::grid::NodeRef<CartesianGrid<C>> for (u32, u32) {
    open spec fn valid(&self, grid: &CartesianGrid<C>) -> bool {
        grid.valid_coords(self.0 as int, self.1 as int, 0)
    }

    open spec fn spec_to_index(&self, grid: &CartesianGrid<C>) -> int {
        grid.spec_index_from_coords(self.0 as int, self.1 as int, 0)
    }

    fn to_index(&self, grid: &CartesianGrid<C>) -> (i: GridIndex) {
        grid.index_from_coords(self.0, self.1, 0)
    }
}

impl<C: CartesianCoordinates> crate::grid::NodeRef<CartesianGrid<C>> for (u32, u32, u32) {
    open spec fn valid(&self, grid: &CartesianGrid<C>) -> bool {
        grid.valid_coords(self.0 as int, self.1 as int, self.2 as int)
    }

    open spec fn spec_to_index(&self, grid: &CartesianGrid<C>) -> int {
        grid.spec_index_from_coords(self.0 as int, self.1 as int, self.2 as int)
    }

    fn to_index(&self, grid: &CartesianGrid<C>) -> (i: GridIndex) {
        grid.index_from_coords(self.0, self.1, self.2)
    }
}

impl<C: CartesianCoordinates> Grid for CartesianGrid<C> {
    type Coord = C;

    type Position = CartesianPosition;

    open spec fn inv(&self) -> bool {
        self.inv_spec()
    }

    open spec fn spec_total_size(&self) -> int {
        self.size_x * self.size_y * self.size_z
    }

    open spec fn spec_directions_count(&self) -> int {
        self.coord_system.spec_directions().len() as int
    }

    open spec fn valid_pos(&self, pos: &CartesianPosition) -> bool {
        self.spec_valid_pos(*pos)
    }

    fn coord_system(&self) -> &C {
        &self.coord_system
    }

    fn directions_count(&self) -> (n: usize) {
        self.coord_system.directions_count()
    }

    fn total_size(&self) -> (n: usize) {
        proof {
            assert(self.size_xy * self.size_z == self.size_x * self.size_y
                * self.size_z) by (nonlinear_arith)
                requires
                    self.size_xy == self.size_x * self.size_y,
            ;
        }
        (self.size_xy * self.size_z) as usize
    }

    fn get_neighbours_in_all_directions(
        &self,
        grid_index: GridIndex,
        neighbours_buffer: &mut Vec<Option<GridIndex>>,
    ) {
        CartesianGrid::get_neighbours_in_all_directions(self, grid_index, neighbours_buffer)
    }

    fn index_from_pos(&self, grid_position: &CartesianPosition) -> (i: GridIndex) {
        self.index_from_coords(grid_position.x, grid_position.y, grid_position.z)
    }

    fn pos_from_index(&self, grid_index: GridIndex) -> (pos: CartesianPosition) {
        CartesianGrid::pos_from_index(self, grid_index)
    }
}

} // verus!
