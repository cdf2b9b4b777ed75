//! The coordinate-system capability: a fixed, closed set of directions whose
//! indices match their position in the set and whose opposites stay inside
//! the set.

use vstd::prelude::*;

use crate::direction::{direction_from_index, Direction, DirectionTrait};

verus! {

/// A direction set is well formed when it is a prefix of the fixed direction
/// enumeration (so a direction's index is its position in the set) and is
/// closed under taking opposites.
pub open spec fn directions_well_formed(s: Seq<Direction>) -> bool {
    &&& (s.len() == 4 || s.len() == 6)
    &&& forall|j: int| 0 <= j < s.len() ==> s[j] == direction_from_index(j)
    &&& forall|j: int|
        0 <= j < s.len() ==> 0 <= (#[trigger] s[j].spec_opposite()).spec_index() < s.len()
}

/// Represents a coordinate system used by the grid types.
pub trait CoordinateSystem: Sized + Copy {
    /// The directions available in this coordinate system, in index order.
    spec fn spec_directions(&self) -> Seq<Direction>;

    /// Returns the available directions.
    fn directions(&self) -> (r: Vec<Direction>)
        ensures
            r@ == self.spec_directions(),
    ;

    /// Returns the number of directions.
    fn directions_count(&self) -> (n: usize)
        ensures
            n == self.spec_directions().len(),
    ;

    /// Every coordinate system's direction set is well formed.
    proof fn lemma_directions_well_formed(&self)
        ensures
            directions_well_formed(self.spec_directions()),
    ;
}

} // verus!
