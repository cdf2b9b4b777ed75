//! The grid abstraction: a trait for grid definitions, per-node data storage,
//! and references to nodes.

use vstd::prelude::*;

use crate::coordinate_system::CoordinateSystem;

verus! {

/// Index of a node within a grid.
pub type GridIndex = usize;

/// Trait implemented by grid definitions.
pub trait Grid: Sized + Clone {
    /// Coordinate system associated with this grid.
    type Coord: CoordinateSystem;

    /// Position type associated with this grid.
    type Position;

    /// Well-formedness of this grid definition.
    spec fn inv(&self) -> bool;

    /// The total number of nodes in the grid.
    spec fn spec_total_size(&self) -> int;

    /// The number of directions of the grid's coordinate system.
    spec fn spec_directions_count(&self) -> int;

    /// Whether `pos` lies inside the grid.
    spec fn valid_pos(&self, pos: &Self::Position) -> bool;

    /// Access to the underlying coordinate system.
    fn coord_system(&self) -> &Self::Coord;

    /// Returns the number of possible neighbour directions.
    fn directions_count(&self) -> (n: usize)
        ensures
            n == self.spec_directions_count(),
    ;

    /// Returns the total number of nodes in the grid.
    fn total_size(&self) -> (n: usize)
        requires
            self.inv(),
        ensures
            n == self.spec_total_size(),
    ;

    /// Fills `neighbours_buffer` with the index of the neighbour in each
    /// direction, or `None` when there is none.
    fn get_neighbours_in_all_directions(
        &self,
        grid_index: GridIndex,
        neighbours_buffer: &mut Vec<Option<GridIndex>>,
    )
        requires
            self.inv(),
            grid_index < self.spec_total_size(),
            old(neighbours_buffer)@.len() >= self.spec_directions_count(),
        ensures
            final(neighbours_buffer)@.len() == old(neighbours_buffer)@.len(),
            forall|j: int|
                0 <= j < self.spec_directions_count() ==> ((#[trigger] final(neighbours_buffer)@[j])
                    matches Some(m) ==> 0 <= m < self.spec_total_size()),
    ;

    /// Returns the index corresponding to `pos`.
    fn index_from_pos(&self, pos: &Self::Position) -> (i: GridIndex)
        requires
            self.inv(),
            self.valid_pos(pos),
        ensures
            i < self.spec_total_size(),
    ;

    /// Returns the grid position for an index.
    fn pos_from_index(&self, index: GridIndex) -> (pos: Self::Position)
        requires
            self.inv(),
            index < self.spec_total_size(),
        ensures
            self.valid_pos(&pos),
    ;
}

/// Associates a grid with data for each node.
#[derive(Clone)]
pub struct GridData<D, G> {
    /// The grid definition the data belongs to.
    pub grid: G,
    /// One stored value per node index.
    pub data: Vec<D>,
}

impl<D, G: Grid> GridData<D, G> {
    /// The stored values, one per node index.
    pub open spec fn spec_data(&self) -> Seq<D> {
        self.data@
    }

    /// The grid definition the data belongs to.
    pub open spec fn spec_grid(&self) -> G {
        self.grid
    }

    /// A data store is well formed when its grid is and it holds exactly one
    /// value per node.
    pub open spec fn wf(&self) -> bool {
        &&& self.grid.inv()
        &&& self.data@.len() == self.grid.spec_total_size()
    }

    /// Creates a new grid data store from an existing grid and backing buffer.
    pub fn new(grid: G, data: Vec<D>) -> (r: Self)
        requires
            grid.inv(),
            data@.len() == grid.spec_total_size(),
        ensures
            r.wf(),
            r.spec_grid() == grid,
            r.spec_data() == data@,
    {
        Self { grid, data }
    }

    /// Access the grid definition.
    pub fn grid(&self) -> (r: &G)
        ensures
            *r == self.spec_grid(),
    {
        &self.grid
    }

    /// Writes a value at a raw node index.
    pub fn set_raw(&mut self, index: GridIndex, value: D)
        requires
            index < old(self).spec_data().len(),
        ensures
            final(self).spec_data() == old(self).spec_data().update(index as int, value),
            final(self).spec_grid() == old(self).spec_grid(),
    {
        self.data.set(index, value);
    }

    /// Writes a value using a [`NodeRef`].
    pub fn set<N: NodeRef<G>>(&mut self, index_ref: N, value: D)
        requires
            old(self).wf(),
            index_ref.valid(&old(self).spec_grid()),
        ensures
            final(self).spec_data() == old(self).spec_data().update(
                index_ref.spec_to_index(&old(self).spec_grid()),
                value,
            ),
            final(self).spec_grid() == old(self).spec_grid(),
            final(self).wf(),
    {
        let idx = index_ref.to_index(&self.grid);
        self.data.set(idx, value);
    }

    /// Returns a reference to the value at `index`.
    pub fn get(&self, index: GridIndex) -> (r: &D)
        requires
            index < self.spec_data().len(),
        ensures
            *r == self.spec_data()[index as int],
    {
        &self.data[index]
    }

    /// Returns a mutable reference to the value at `index`.
    pub fn get_mut(&mut self, index: GridIndex) -> (r: &mut D)
        requires
            index < old(self).spec_data().len(),
        ensures
            final(self).spec_data() == old(self).spec_data().update(index as int, *final(r)),
            final(self).spec_grid() == old(self).spec_grid(),
    {
        &mut self.data[index]
    }

    /// Returns the stored values, one per node index, for mutation in
    /// place.
    pub fn iter_mut(&mut self) -> (r: &mut Vec<D>)
        ensures
            final(self).spec_data() == final(r)@,
            final(self).spec_grid() == old(self).spec_grid(),
    {
        &mut self.data
    }

    /// Returns the stored values, one per node index.
    pub fn iter(&self) -> (r: &Vec<D>)
        ensures
            r@ == self.spec_data(),
    {
        &self.data
    }

    /// Returns a range of valid node indices.
    pub fn indexes(&self) -> (r: core::ops::Range<GridIndex>)
        requires
            self.wf(),
        ensures
            r.start == 0,
            r.end == self.spec_grid().spec_total_size(),
    {
        0..self.grid.total_size()
    }
}

impl<D: Clone, G: Grid> GridData<D, G> {
    /// Resets every element to a clone of `value`.
    pub fn reset(&mut self, value: D)
        ensures
            final(self).spec_data().len() == old(self).spec_data().len(),
            final(self).spec_grid() == old(self).spec_grid(),
            old(self).wf() ==> final(self).wf(),
            forall|i: int|
                0 <= i < final(self).spec_data().len() ==> cloned(
                    value,
                    #[trigger] final(self).spec_data()[i],
                ),
    {
        let n = self.data.len();
        let mut i: usize = 0;
        while i < n
            invariant
                i <= n,
                self.data@.len() == n,
                self.grid == old(self).grid,
                forall|e: int| 0 <= e < i ==> cloned(value, #[trigger] self.data@[e]),
            decreases n - i,
        {
            let c = value.clone();
            proof {
                assert(cloned(value, c));
            }
            self.data.set(i, c);
            i += 1;
        }
    }
}

/// Represents a reference to a node in a grid.
pub trait NodeRef<G: Grid>: Sized {
    /// Whether this reference designates a node that exists in `grid`.
    spec fn valid(&self, grid: &G) -> bool;

    /// The node index this reference designates in `grid`.
    spec fn spec_to_index(&self, grid: &G) -> int;

    /// Returns the backing index for this reference.
    fn to_index(&self, grid: &G) -> (i: GridIndex)
        requires
            grid.inv(),
            self.valid(grid),
        ensures
            i == self.spec_to_index(grid),
            i < grid.spec_total_size(),
    ;
}

impl<G: Grid> NodeRef<G> for GridIndex {
    open spec fn valid(&self, grid: &G) -> bool {
        *self < grid.spec_total_size()
    }

    open spec fn spec_to_index(&self, grid: &G) -> int {
        *self as int
    }

    fn to_index(&self, _grid: &G) -> (i: GridIndex) {
        *self
    }
}

} // verus!
