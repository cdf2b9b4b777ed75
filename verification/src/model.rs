//! Models: tile definitions with one socket per direction, a selection
//! weight and a set of permitted rotations, and the model instances the rule
//! compiler expands them into.

use vstd::prelude::*;

use crate::socket::Socket;

verus! {

/// A rotation around the configured up axis, in 90 degree steps.
#[derive(Clone, Copy, Debug, PartialEq, Eq, Structural, Hash, Default)]
pub enum ModelRotation {
    /// No rotation.
    #[default]
    Rot0,
    /// A quarter turn.
    Rot90,
    /// A half turn.
    Rot180,
    /// Three quarter turns.
    Rot270,
}

impl ModelRotation {
    /// The number of quarter turns of this rotation.
    pub open spec fn spec_index(self) -> int {
        match self {
            ModelRotation::Rot0 => 0,
            ModelRotation::Rot90 => 1,
            ModelRotation::Rot180 => 2,
            ModelRotation::Rot270 => 3,
        }
    }

    /// Returns the number of quarter turns of this rotation.
    pub fn index(&self) -> (i: usize)
        ensures
            i == self.spec_index(),
    {
        match self {
            ModelRotation::Rot0 => 0,
            ModelRotation::Rot90 => 1,
            ModelRotation::Rot180 => 2,
            ModelRotation::Rot270 => 3,
        }
    }

    /// Returns the rotation angle in degrees.
    pub fn angle_degrees(&self) -> (a: u32)
        ensures
            a == 90 * self.spec_index(),
    {
        match self {
            ModelRotation::Rot0 => 0,
            ModelRotation::Rot90 => 90,
            ModelRotation::Rot180 => 180,
            ModelRotation::Rot270 => 270,
        }
    }

    /// Returns all four rotations, in quarter-turn order.
    pub fn all() -> (r: Vec<ModelRotation>)
        ensures
            r@ == seq![
                ModelRotation::Rot0,
                ModelRotation::Rot90,
                ModelRotation::Rot180,
                ModelRotation::Rot270,
            ],
    {
        let r: Vec<ModelRotation> = vec![
            ModelRotation::Rot0,
            ModelRotation::Rot90,
            ModelRotation::Rot180,
            ModelRotation::Rot270,
        ];
        assert(r@ =~= seq![
            ModelRotation::Rot0,
            ModelRotation::Rot90,
            ModelRotation::Rot180,
            ModelRotation::Rot270,
        ]);
        r
    }
}

/// A tile definition: one socket per direction, a selection weight and the
/// rotations the tile may appear under. Rotation 0 is always permitted.
#[derive(Clone, Debug)]
pub struct Model {
    /// One socket per direction of the coordinate system, in direction-index
    /// order.
    pub sockets: Vec<Socket>,
    /// Relative selection weight of the tile.
    pub weight: u32,
    /// Extra rotations the tile may appear under, besides rotation 0.
    pub allowed_rotations: Vec<ModelRotation>,
}

impl Model {
    /// Builds a model from its per-direction sockets, with weight one and no
    /// rotation other than rotation 0.
    pub fn new(sockets: Vec<Socket>) -> (r: Model)
        ensures
            r.sockets@ == sockets@,
            r.weight == 1,
            r.allowed_rotations@.len() == 0,
    {
        Model { sockets, weight: 1, allowed_rotations: Vec::new() }
    }

    /// Replaces the selection weight.
    pub fn with_weight(self, weight: u32) -> (r: Model)
        ensures
            r.sockets@ == self.sockets@,
            r.weight == weight,
            r.allowed_rotations@ == self.allowed_rotations@,
    {
        Model { weight, ..self }
    }

    /// Replaces the set of permitted extra rotations.
    pub fn with_rotations(self, rotations: Vec<ModelRotation>) -> (r: Model)
        ensures
            r.sockets@ == self.sockets@,
            r.weight == self.weight,
            r.allowed_rotations@ == rotations@,
    {
        Model { allowed_rotations: rotations, ..self }
    }

    /// Permits the model under all four rotations.
    pub fn with_all_rotations(self) -> (r: Model)
        ensures
            r.sockets@ == self.sockets@,
            r.weight == self.weight,
            r.allowed_rotations@ == seq![
                ModelRotation::Rot0,
                ModelRotation::Rot90,
                ModelRotation::Rot180,
                ModelRotation::Rot270,
            ],
    {
        Model { allowed_rotations: ModelRotation::all(), ..self }
    }
}

/// A concrete (model, rotation) pairing assignable to a grid node.
#[derive(Clone, Copy, Debug, PartialEq, Eq, Structural, Hash)]
pub struct ModelInstance {
    /// Index of the model in the compiled model list.
    pub model_index: usize,
    /// The rotation the model is placed under.
    pub rotation: ModelRotation,
}

} // verus!
