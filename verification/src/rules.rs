//! The rule compiler: expands every model into one instance per permitted
//! rotation and precomputes, for every (instance, direction) pair, which
//! instances may occupy the neighbouring node in that direction.

use vstd::prelude::*;

use crate::direction::{direction_at, direction_from_index, Direction, DirectionTrait};
use crate::model::{Model, ModelInstance, ModelRotation};
use crate::socket::{Socket, SocketCollection};

verus! {

/// A configuration error found while compiling rules.
#[derive(Clone, Copy, Debug, PartialEq, Eq, Structural)]
pub enum RuleError {
    /// No model was given; nothing can be generated.
    EmptyModelSet,
    /// The rotation axis is not supported by the coordinate system: a 2D
    /// system only rotates around the Z+ axis.
    InvalidRotationAxis,
    /// A model does not declare exactly one socket per direction.
    WrongSocketCount {
        /// Index of the offending model.
        model_index: usize,
    },
    /// A model declares weight zero; weights must be positive.
    ZeroWeight {
        /// Index of the offending model.
        model_index: usize,
    },
}

/// Whether a model may appear under rotation `r`: rotation 0 always may, the
/// others when the model declares them.
pub open spec fn spec_effective(m: Model, r: ModelRotation) -> bool {
    r == ModelRotation::Rot0 || m.allowed_rotations@.contains(r)
}

/// The number of distinct rotations a model may appear under.
pub open spec fn spec_rotation_count(m: Model) -> int {
    1 + (if m.allowed_rotations@.contains(ModelRotation::Rot90) {
        1int
    } else {
        0int
    }) + (if m.allowed_rotations@.contains(ModelRotation::Rot180) {
        1int
    } else {
        0int
    }) + (if m.allowed_rotations@.contains(ModelRotation::Rot270) {
        1int
    } else {
        0int
    })
}

/// The position of direction `d` in the rotation basis of `axis` (the last
/// position when `d` does not occur in it).
pub open spec fn spec_basis_position(axis: Direction, d: Direction) -> int {
    let b = axis.spec_rotation_basis();
    if b[0] == d {
        0
    } else if b[1] == d {
        1
    } else if b[2] == d {
        2
    } else {
        3
    }
}

/// The socket shown on face `d` after rotating model `m` by `rot` around
/// `axis`: faces on the axis keep their socket, the four faces of the
/// rotation basis are permuted by the number of quarter turns.
pub open spec fn spec_rotated_socket(m: Model, rot: ModelRotation, axis: Direction, d: Direction) -> u32 {
    if d == axis || d == axis.spec_opposite() {
        m.sockets@[d.spec_index()].id
    } else {
        let b = axis.spec_rotation_basis();
        let p = spec_basis_position(axis, d);
        m.sockets@[b[(p + 4 - rot.spec_index()) % 4].spec_index()].id
    }
}

/// Whether some instance of model `mi` under rotation `r` occurs in `s`.
pub open spec fn spec_has_instance(s: Seq<ModelInstance>, mi: int, r: ModelRotation) -> bool {
    exists|i: int|
        0 <= i < s.len() && #[trigger] s[i] == (ModelInstance { model_index: mi as usize, rotation: r })
}

/// Returns whether `rots` holds `r`.
fn contains_rotation(rots: &Vec<ModelRotation>, r: ModelRotation) -> (b: bool)
    ensures
        b == rots@.contains(r),
{
    let n = rots.len();
    let mut k: usize = 0;
    while k < n
        invariant
            k <= n,
            n == rots@.len(),
            forall|j: int| 0 <= j < k ==> rots@[j] != r,
        decreases n - k,
    {
        if rots[k] == r {
            assert(rots@.contains(r));
            return true;
        }
        k += 1;
    }
    false
}

/// Returns the distinct rotations a model may appear under, rotation 0
/// first, in quarter-turn order.
fn normalize_rotations(m: &Model) -> (rots: Vec<ModelRotation>)
    ensures
        rots@.len() == spec_rotation_count(*m),
        1 <= rots@.len() <= 4,
        rots@[0] == ModelRotation::Rot0,
        forall|a: int, b: int| 0 <= a < b < rots@.len() ==> rots@[a] != rots@[b],
        forall|k: int| 0 <= k < rots@.len() ==> spec_effective(*m, #[trigger] rots@[k]),
        forall|r: ModelRotation| spec_effective(*m, r) ==> rots@.contains(r),
{
    broadcast use vstd::seq_lib::lemma_seq_contains_after_push;

    let mut rots: Vec<ModelRotation> = Vec::new();
    rots.push(ModelRotation::Rot0);
    if contains_rotation(&m.allowed_rotations, ModelRotation::Rot90) {
        rots.push(ModelRotation::Rot90);
    }
    if contains_rotation(&m.allowed_rotations, ModelRotation::Rot180) {
        rots.push(ModelRotation::Rot180);
    }
    if contains_rotation(&m.allowed_rotations, ModelRotation::Rot270) {
        rots.push(ModelRotation::Rot270);
    }
    proof {
        assert(Seq::<ModelRotation>::empty().push(ModelRotation::Rot0).contains(
            ModelRotation::Rot0,
        ));
        assert forall|r: ModelRotation| spec_effective(*m, r) implies rots@.contains(r) by {
        }
    }
    rots
}

/// Returns the socket shown on face `d` after rotating model `m` by `rot`
/// around `axis`.
fn rotated_socket(m: &Model, rot: ModelRotation, axis: Direction, d: Direction) -> (s: u32)
    requires
        m.sockets@.len() == 4 || m.sockets@.len() == 6,
        m.sockets@.len() == 4 ==> axis == Direction::ZForward && d.spec_index() < 4,
    ensures
        s == spec_rotated_socket(*m, rot, axis, d),
{
    let op = axis.opposite();
    if d == axis || d == op {
        m.sockets[d.index()].id
    } else {
        let b = axis.rotation_basis();
        let p: usize = if b[0] == d {
            0
        } else if b[1] == d {
            1
        } else if b[2] == d {
            2
        } else {
            3
        };
        let q = (p + 4 - rot.index()) % 4;
        m.sockets[b[q].index()].id
    }
}

/// Whether every model declares one socket per direction and a positive
/// weight.
pub open spec fn spec_models_ok(models: Seq<Model>, dc: int) -> bool {
    forall|m: int|
        0 <= m < models.len() ==> (#[trigger] models[m]).sockets@.len() == dc && models[m].weight
            >= 1
}

/// The compiled rule table: every model expanded into one instance per
/// permitted rotation, with the per-face sockets after rotation and, for
/// every (instance, direction) pair, which instances may sit next door.
#[derive(Clone, Debug)]
pub struct Rules {
    /// Number of directions of the coordinate system the rules were compiled
    /// for (4 in 2D, 6 in 3D).
    pub directions_count: usize,
    /// The axis models rotate around.
    pub rotation_axis: Direction,
    /// The model definitions the rules were compiled from.
    pub models: Vec<Model>,
    /// The socket compatibilities the rules were compiled from.
    pub socket_collection: SocketCollection,
    /// All model instances, grouped by model.
    pub instances: Vec<ModelInstance>,
    /// Per instance: its selection weight, the model weight split evenly
    /// over the model's rotations (scaled by twelve to stay integral).
    pub weights: Vec<u64>,
    /// Per instance and direction index: the socket shown on that face.
    pub sockets: Vec<Vec<u32>>,
    /// Per instance and direction index: which instances may occupy the
    /// neighbouring node in that direction.
    pub allowed: Vec<Vec<Vec<bool>>>,
}

impl Rules {
    /// The number of model instances.
    pub open spec fn spec_instance_count(&self) -> int {
        self.instances@.len() as int
    }

    /// The socket instance `x` shows in direction `d`.
    pub open spec fn spec_socket(&self, x: int, d: Direction) -> u32 {
        self.sockets@[x]@[d.spec_index()]
    }

    /// Whether instance `x` permits instance `y` as its neighbour in
    /// direction `d`.
    pub open spec fn spec_allowed(&self, x: int, d: Direction, y: int) -> bool {
        self.allowed@[x]@[d.spec_index()]@[y]
    }

    /// Well-formedness of a compiled rule table.
    pub open spec fn wf(&self) -> bool {
        let n = self.instances@.len() as int;
        let dc = self.directions_count as int;
        &&& (self.directions_count == 4 || self.directions_count == 6)
        &&& (self.directions_count == 4 ==> self.rotation_axis == Direction::ZForward)
        &&& 1 <= self.models@.len()
        &&& 1 <= n <= 0x1000_0000
        &&& self.weights@.len() == n
        &&& self.sockets@.len() == n
        &&& self.allowed@.len() == n
        &&& spec_models_ok(self.models@, dc)
        &&& forall|i: int|
            0 <= i < n ==> (#[trigger] self.instances@[i]).model_index < self.models@.len()
        &&& forall|i: int|
            0 <= i < n ==> spec_effective(
                self.models@[self.instances@[i].model_index as int],
                (#[trigger] self.instances@[i]).rotation,
            )
        &&& forall|i: int, j: int|
            0 <= i < n && 0 <= j < n && i != j ==> self.instances@[i] != self.instances@[j]
        &&& forall|mi: int, r: ModelRotation|
            0 <= mi < self.models@.len() && #[trigger] spec_effective(self.models@[mi], r)
                ==> spec_has_instance(self.instances@, mi, r)
        &&& forall|i: int|
            0 <= i < n ==> ((#[trigger] self.weights@[i]) as int) * spec_rotation_count(
                self.models@[self.instances@[i].model_index as int],
            ) == 12 * (self.models@[self.instances@[i].model_index as int].weight as int)
        &&& forall|i: int| 0 <= i < n ==> 1 <= (#[trigger] self.weights@[i]) <= 12 * 0xFFFF_FFFF
        &&& forall|i: int| 0 <= i < n ==> (#[trigger] self.sockets@[i])@.len() == dc
        &&& forall|i: int| 0 <= i < n ==> (#[trigger] self.allowed@[i])@.len() == dc
        &&& forall|i: int, d: int|
            0 <= i < n && 0 <= d < dc ==> (#[trigger] self.allowed@[i]@[d])@.len() == n
        &&& forall|i: int, d: int|
            0 <= i < n && 0 <= d < dc ==> (#[trigger] self.sockets@[i]@[d]) == spec_rotated_socket(
                self.models@[self.instances@[i].model_index as int],
                self.instances@[i].rotation,
                self.rotation_axis,
                direction_from_index(d),
            )
        &&& forall|x: int, d: int, y: int|
            0 <= x < n && 0 <= d < dc && 0 <= y < n ==> (#[trigger] self.allowed@[x]@[d]@[y])
                == self.socket_collection.spec_compatible(
                self.sockets@[x]@[d],
                self.sockets@[y]@[direction_from_index(d).spec_opposite().spec_index()],
            )
    }

    /// Returns the number of model instances.
    pub fn instance_count(&self) -> (n: usize)
        ensures
            n == self.spec_instance_count(),
    {
        self.instances.len()
    }

    /// Returns whether instance `x` permits instance `y` as its neighbour in
    /// direction `d`.
    pub fn is_allowed(&self, x: usize, d: Direction, y: usize) -> (r: bool)
        requires
            self.wf(),
            x < self.spec_instance_count(),
            y < self.spec_instance_count(),
            d.spec_index() < self.directions_count,
        ensures
            r == self.spec_allowed(x as int, d, y as int),
    {
        self.allowed[x][d.index()][y]
    }

    /// Whether the table permits every pair of instances in every direction.
    pub open spec fn spec_all_pairs_allowed(&self) -> bool {
        forall|x: int, d: int, y: int|
            0 <= x < self.spec_instance_count() && 0 <= d < self.directions_count && 0 <= y
                < self.spec_instance_count() ==> #[trigger] self.allowed@[x]@[d]@[y]
    }

    /// Rule symmetry: instance `x` permits `y` in direction `d` exactly when
    /// `y` permits `x` in the opposite direction.
    pub proof fn lemma_rule_symmetry(&self, x: int, d: Direction, y: int)
        requires
            self.wf(),
            0 <= x < self.spec_instance_count(),
            0 <= y < self.spec_instance_count(),
            d.spec_index() < self.directions_count,
        ensures
            self.spec_allowed(x, d, y) == self.spec_allowed(y, d.spec_opposite(), x),
    {
        let di = d.spec_index();
        let od = d.spec_opposite();
        let oi = od.spec_index();
        crate::direction::lemma_index_direction_roundtrip(d);
        crate::direction::lemma_opposite_index_bound(di);
        assert(direction_from_index(di) == d);
        assert(direction_from_index(oi) == od);
        assert(od.spec_opposite() == d);
        assert(self.spec_allowed(x, d, y) == self.socket_collection.spec_compatible(
            self.sockets@[x]@[di],
            self.sockets@[y]@[oi],
        ));
        assert(self.spec_allowed(y, od, x) == self.socket_collection.spec_compatible(
            self.sockets@[y]@[oi],
            self.sockets@[x]@[di],
        ));
        self.socket_collection.lemma_compatibility_symmetric(
            self.sockets@[x]@[di],
            self.sockets@[y]@[oi],
        );
    }
}

/// Gathers models and socket compatibilities and compiles them into rules.
#[derive(Clone, Debug)]
pub struct RulesBuilder {
    /// The model definitions to compile.
    pub models: Vec<Model>,
    /// The socket compatibilities to compile against.
    pub socket_collection: SocketCollection,
    /// Number of directions of the target coordinate system.
    pub directions_count: usize,
    /// The axis models rotate around.
    pub rotation_axis: Direction,
}

impl RulesBuilder {
    /// Starts a rule build for a 2D Cartesian grid.
    pub fn new_cartesian_2d(models: Vec<Model>, socket_collection: SocketCollection) -> (r:
        RulesBuilder)
        ensures
            r.models@ == models@,
            r.socket_collection == socket_collection,
            r.directions_count == 4,
            r.rotation_axis == Direction::ZForward,
    {
        RulesBuilder {
            models,
            socket_collection,
            directions_count: 4,
            rotation_axis: Direction::ZForward,
        }
    }

    /// Starts a rule build for a 3D Cartesian grid.
    pub fn new_cartesian_3d(models: Vec<Model>, socket_collection: SocketCollection) -> (r:
        RulesBuilder)
        ensures
            r.models@ == models@,
            r.socket_collection == socket_collection,
            r.directions_count == 6,
            r.rotation_axis == Direction::ZForward,
    {
        RulesBuilder {
            models,
            socket_collection,
            directions_count: 6,
            rotation_axis: Direction::ZForward,
        }
    }

    /// Replaces the rotation axis.
    pub fn with_rotation_axis(self, rotation_axis: Direction) -> (r: RulesBuilder)
        ensures
            r.models@ == self.models@,
            r.socket_collection == self.socket_collection,
            r.directions_count == self.directions_count,
            r.rotation_axis == rotation_axis,
    {
        RulesBuilder { rotation_axis, ..self }
    }

    /// Compiles the models and socket compatibilities into a rule table, or
    /// reports the first configuration error found.
    ///
    /// A socket with no registered compatibility is a legal way to express a
    /// closed edge, so a socket set whose pairs can never match still
    /// compiles; such a configuration surfaces only as a contradiction when
    /// generating, never as a build error.
    pub fn build(self) -> (r: Result<Rules, RuleError>)
        requires
            self.directions_count == 4 || self.directions_count == 6,
            self.models@.len() <= 0x400_0000,
        ensures
            r is Ok <==> (self.models@.len() >= 1 && (self.directions_count == 4
                ==> self.rotation_axis == Direction::ZForward) && spec_models_ok(
                self.models@,
                self.directions_count as int,
            )),
            r matches Ok(rules) ==> rules.wf() && rules.directions_count == self.directions_count
                && rules.rotation_axis == self.rotation_axis && rules.models@ == self.models@
                && rules.socket_collection == self.socket_collection,
            r == Err::<Rules, RuleError>(RuleError::EmptyModelSet) ==> self.models@.len() == 0,
            r == Err::<Rules, RuleError>(RuleError::InvalidRotationAxis)
                ==> self.directions_count == 4 && self.rotation_axis != Direction::ZForward,
            r matches Err(RuleError::WrongSocketCount { model_index }) ==> model_index
                < self.models@.len() && self.models@[model_index as int].sockets@.len()
                != self.directions_count,
            r matches Err(RuleError::ZeroWeight { model_index }) ==> model_index
                < self.models@.len() && self.models@[model_index as int].weight == 0,
    {
        let dc = self.directions_count;
        let n_models = self.models.len();
        if n_models == 0 {
            return Err(RuleError::EmptyModelSet);
        }
        if dc == 4 && self.rotation_axis != Direction::ZForward {
            return Err(RuleError::InvalidRotationAxis);
        }
        let mut m: usize = 0;
        while m < n_models
            invariant
                m <= n_models,
                n_models == self.models@.len(),
                dc == self.directions_count,
                forall|k: int|
                    0 <= k < m ==> (#[trigger] self.models@[k]).sockets@.len() == dc
                        && self.models@[k].weight >= 1,
            decreases n_models - m,
        {
            if self.models[m].sockets.len() != dc {
                return Err(RuleError::WrongSocketCount { model_index: m });
            }
            if self.models[m].weight == 0 {
                return Err(RuleError::ZeroWeight { model_index: m });
            }
            m += 1;
        }
        let mut instances: Vec<ModelInstance> = Vec::new();
        let mut weights: Vec<u64> = Vec::new();
        let mut m: usize = 0;
        while m < n_models
            invariant
                m <= n_models,
                n_models == self.models@.len() <= 0x400_0000,
                spec_models_ok(self.models@, dc as int),
                weights@.len() == instances@.len(),
                m <= instances@.len() <= 4 * m,
                forall|i: int|
                    0 <= i < instances@.len() ==> (#[trigger] instances@[i]).model_index < m,
                forall|i: int|
                    0 <= i < instances@.len() ==> spec_effective(
                        self.models@[instances@[i].model_index as int],
                        (#[trigger] instances@[i]).rotation,
                    ),
                forall|i: int, j: int|
                    0 <= i < instances@.len() && 0 <= j < instances@.len() && i != j
                        ==> instances@[i] != instances@[j],
                forall|mi: int, r: ModelRotation|
                    0 <= mi < m && #[trigger] spec_effective(self.models@[mi], r)
                        ==> spec_has_instance(instances@, mi, r),
                forall|i: int|
                    0 <= i < instances@.len() ==> ((#[trigger] weights@[i]) as int)
                        * spec_rotation_count(self.models@[instances@[i].model_index as int]) == 12
                        * (self.models@[instances@[i].model_index as int].weight as int),
                forall|i: int|
                    0 <= i < instances@.len() ==> 1 <= (#[trigger] weights@[i]) <= 12
                        * 0xFFFF_FFFF,
            decreases n_models - m,
        {
            let model = &self.models[m];
            let rots = normalize_rotations(model);
            let nrot = rots.len();
            proof {
                assert(nrot == 1 || nrot == 2 || nrot == 3 || nrot == 4);
            }
            let wfac: u64 = if nrot == 1 {
                12
            } else if nrot == 2 {
                6
            } else if nrot == 3 {
                4
            } else {
                3
            };
            proof {
                assert(*model == self.models@[m as int]);
                assert(nrot == spec_rotation_count(self.models@[m as int]));
                assert(wfac * (nrot as u64) == 12);
                assert((model.weight as u64) as int * (wfac as int) <= 0xFFFF_FFFFint
                    * 12) by (nonlinear_arith)
                    requires
                        model.weight <= 0xFFFF_FFFFu32,
                        0 <= wfac <= 12,
                ;
            }
            let w: u64 = (model.weight as u64) * wfac;
            proof {
                assert((w as int) * spec_rotation_count(self.models@[m as int]) == 12 * (
                self.models@[m as int].weight as int)) by (nonlinear_arith)
                    requires
                        w == (self.models@[m as int].weight as u64) * wfac,
                        wfac * (nrot as u64) == 12,
                        nrot == spec_rotation_count(self.models@[m as int]),
                        self.models@[m as int].weight <= 0xFFFF_FFFFu32,
                        1 <= wfac <= 12,
                        1 <= nrot <= 4,
                ;
                assert(1 <= w <= 12 * 0xFFFF_FFFF) by (nonlinear_arith)
                    requires
                        w == (self.models@[m as int].weight as u64) * wfac,
                        1 <= self.models@[m as int].weight <= 0xFFFF_FFFFu32,
                        1 <= wfac <= 12,
                ;
            }
            let ghost base = instances@;
            let ghost wbase = weights@;
            let mut t: usize = 0;
            while t < nrot
                invariant
                    t <= nrot,
                    nrot == rots@.len(),
                    m < n_models == self.models@.len(),
                    rots@.len() == spec_rotation_count(self.models@[m as int]),
                    forall|a: int, b: int| 0 <= a < b < rots@.len() ==> rots@[a] != rots@[b],
                    forall|k: int|
                        0 <= k < rots@.len() ==> spec_effective(
                            self.models@[m as int],
                            #[trigger] rots@[k],
                        ),
                    (w as int) * spec_rotation_count(self.models@[m as int]) == 12 * (
                    self.models@[m as int].weight as int),
                    1 <= w <= 12 * 0xFFFF_FFFF,
                    instances@.len() == base.len() + t,
                    weights@.len() == wbase.len() + t,
                    base.len() == wbase.len(),
                    forall|i: int| 0 <= i < base.len() ==> instances@[i] == base[i],
                    forall|i: int| 0 <= i < wbase.len() ==> weights@[i] == wbase[i],
                    forall|k: int|
                        0 <= k < t ==> #[trigger] instances@[base.len() + k] == (ModelInstance {
                            model_index: m,
                            rotation: rots@[k],
                        }),
                    forall|k: int| 0 <= k < t ==> #[trigger] weights@[wbase.len() + k] == w,
                    forall|i: int| 0 <= i < base.len() ==> (#[trigger] base[i]).model_index < m,
                decreases nrot - t,
            {
                instances.push(ModelInstance { model_index: m, rotation: rots[t] });
                weights.push(w);
                t += 1;
            }
            proof {
                assert forall|i: int, j: int|
                    0 <= i < instances@.len() && 0 <= j < instances@.len() && i != j
                        implies instances@[i] != instances@[j] by {
                    let bl = base.len() as int;
                    if i < bl && j < bl {
                        assert(instances@[i] == base[i]);
                        assert(instances@[j] == base[j]);
                    } else if i < bl && j >= bl {
                        let k = j - bl;
                        assert(instances@[bl + k] == (ModelInstance {
                            model_index: m,
                            rotation: rots@[k],
                        }));
                        assert(instances@[i] == base[i]);
                        assert(base[i].model_index < m);
                    } else if i >= bl && j < bl {
                        let k = i - bl;
                        assert(instances@[bl + k] == (ModelInstance {
                            model_index: m,
                            rotation: rots@[k],
                        }));
                        assert(instances@[j] == base[j]);
                        assert(base[j].model_index < m);
                    } else {
                        let k1 = i - bl;
                        let k2 = j - bl;
                        assert(instances@[bl + k1] == (ModelInstance {
                            model_index: m,
                            rotation: rots@[k1],
                        }));
                        assert(instances@[bl + k2] == (ModelInstance {
                            model_index: m,
                            rotation: rots@[k2],
                        }));
                        assert(rots@[k1] != rots@[k2]);
                    }
                }
                assert forall|i: int| 0 <= i < instances@.len() implies (#[trigger] instances@[i]).model_index
                    <= m by {
                    if i < base.len() {
                        assert(instances@[i] == base[i]);
                        assert(base[i].model_index < m);
                    } else {
                        let k = i - base.len();
                        assert(instances@[base.len() + k] == (ModelInstance {
                            model_index: m,
                            rotation: rots@[k],
                        }));
                    }
                }
                assert forall|i: int| 0 <= i < instances@.len() implies spec_effective(
                    self.models@[instances@[i].model_index as int],
                    (#[trigger] instances@[i]).rotation,
                ) by {
                    let bl = base.len() as int;
                    if i < bl {
                        assert(instances@[i] == base[i]);
                    } else {
                        let k = i - bl;
                        assert(instances@[bl + k] == (ModelInstance {
                            model_index: m,
                            rotation: rots@[k],
                        }));
                        assert(spec_effective(self.models@[m as int], rots@[k]));
                    }
                }
                assert forall|i: int|
                    0 <= i < weights@.len() implies ((#[trigger] weights@[i]) as int)
                        * spec_rotation_count(self.models@[instances@[i].model_index as int]) == 12
                        * (self.models@[instances@[i].model_index as int].weight as int) && 1
                        <= weights@[i] <= 12 * 0xFFFF_FFFF by {
                    let bl = base.len() as int;
                    if i < bl {
                        assert(instances@[i] == base[i]);
                        assert(weights@[i] == wbase[i]);
                    } else {
                        let k = i - bl;
                        assert(instances@[bl + k] == (ModelInstance {
                            model_index: m,
                            rotation: rots@[k],
                        }));
                        assert(weights@[bl + k] == w);
                    }
                }
                assert forall|mi: int, r: ModelRotation|
                    0 <= mi < m + 1 && #[trigger] spec_effective(self.models@[mi], r)
                        implies spec_has_instance(instances@, mi, r) by {
                    if mi < m {
                        let i = choose|i: int|
                            0 <= i < base.len() && #[trigger] base[i] == (ModelInstance {
                                model_index: mi as usize,
                                rotation: r,
                            });
                        assert(instances@[i] == base[i]);
                    } else {
                        assert(rots@.contains(r));
                        let k = choose|k: int| 0 <= k < rots@.len() && rots@[k] == r;
                        assert(instances@[base.len() + k] == (ModelInstance {
                            model_index: m,
                            rotation: r,
                        }));
                    }
                }
            }
            m += 1;
        }
        let n_inst = instances.len();
        proof {
            assert(spec_effective(self.models@[0], ModelRotation::Rot0));
            assert(spec_has_instance(instances@, 0, ModelRotation::Rot0));
            assert(n_inst >= 1);
            assert(n_inst <= 0x1000_0000);
        }
        let mut sockets: Vec<Vec<u32>> = Vec::new();
        let mut i: usize = 0;
        while i < n_inst
            invariant
                i <= n_inst,
                n_inst == instances@.len(),
                n_models == self.models@.len(),
                dc == self.directions_count,
                dc == 4 || dc == 6,
                dc == 4 ==> self.rotation_axis == Direction::ZForward,
                spec_models_ok(self.models@, dc as int),
                forall|k: int|
                    0 <= k < instances@.len() ==> (#[trigger] instances@[k]).model_index
                        < n_models,
                sockets@.len() == i,
                forall|k: int| 0 <= k < i ==> (#[trigger] sockets@[k])@.len() == dc,
                forall|k: int, d: int|
                    0 <= k < i && 0 <= d < dc ==> (#[trigger] sockets@[k]@[d])
                        == spec_rotated_socket(
                        self.models@[instances@[k].model_index as int],
                        instances@[k].rotation,
                        self.rotation_axis,
                        direction_from_index(d),
                    ),
            decreases n_inst - i,
        {
            let mi = instances[i].model_index;
            let rot = instances[i].rotation;
            let mut row: Vec<u32> = Vec::new();
            let mut d: usize = 0;
            while d < dc
                invariant
                    d <= dc,
                    dc == 4 || dc == 6,
                    dc == 4 ==> self.rotation_axis == Direction::ZForward,
                    i < n_inst == instances@.len(),
                    n_models == self.models@.len(),
                    spec_models_ok(self.models@, dc as int),
                    mi == instances@[i as int].model_index,
                    mi < n_models,
                    rot == instances@[i as int].rotation,
                    row@.len() == d,
                    forall|e: int|
                        0 <= e < d ==> (#[trigger] row@[e]) == spec_rotated_socket(
                            self.models@[mi as int],
                            rot,
                            self.rotation_axis,
                            direction_from_index(e),
                        ),
                decreases dc - d,
            {
                let dir = direction_at(d);
                proof {
                    crate::direction::lemma_direction_index_roundtrip(d as int);
                }
                let s = rotated_socket(&self.models[mi], rot, self.rotation_axis, dir);
                row.push(s);
                d += 1;
            }
            sockets.push(row);
            i += 1;
        }
        let mut allowed: Vec<Vec<Vec<bool>>> = Vec::new();
        let mut x: usize = 0;
        while x < n_inst
            invariant
                x <= n_inst,
                n_inst == instances@.len(),
                dc == self.directions_count,
                dc == 4 || dc == 6,
                sockets@.len() == n_inst,
                forall|k: int| 0 <= k < n_inst ==> (#[trigger] sockets@[k])@.len() == dc,
                allowed@.len() == x,
                forall|k: int| 0 <= k < x ==> (#[trigger] allowed@[k])@.len() == dc,
                forall|k: int, d: int|
                    0 <= k < x && 0 <= d < dc ==> (#[trigger] allowed@[k]@[d])@.len() == n_inst,
                forall|k: int, d: int, y: int|
                    0 <= k < x && 0 <= d < dc && 0 <= y < n_inst ==> (#[trigger] allowed@[k]@[d]@[y])
                        == self.socket_collection.spec_compatible(
                        sockets@[k]@[d],
                        sockets@[y]@[direction_from_index(d).spec_opposite().spec_index()],
                    ),
            decreases n_inst - x,
        {
            let mut per_dir: Vec<Vec<bool>> = Vec::new();
            let mut d: usize = 0;
            while d < dc
                invariant
                    d <= dc,
                    dc == 4 || dc == 6,
                    x < n_inst == instances@.len(),
                    sockets@.len() == n_inst,
                    forall|k: int| 0 <= k < n_inst ==> (#[trigger] sockets@[k])@.len() == dc,
                    per_dir@.len() == d,
                    forall|e: int| 0 <= e < d ==> (#[trigger] per_dir@[e])@.len() == n_inst,
                    forall|e: int, y: int|
                        0 <= e < d && 0 <= y < n_inst ==> (#[trigger] per_dir@[e]@[y])
                            == self.socket_collection.spec_compatible(
                            sockets@[x as int]@[e],
                            sockets@[y]@[direction_from_index(e).spec_opposite().spec_index()],
                        ),
                decreases dc - d,
            {
                let dir = direction_at(d);
                let od = dir.opposite();
                let oi = od.index();
                proof {
                    crate::direction::lemma_opposite_index_bound(d as int);
                }
                let mut per_y: Vec<bool> = Vec::new();
                let mut y: usize = 0;
                while y < n_inst
                    invariant
                        y <= n_inst,
                        n_inst == instances@.len(),
                        x < n_inst,
                        d < dc,
                        dc == 4 || dc == 6,
                        sockets@.len() == n_inst,
                        forall|k: int| 0 <= k < n_inst ==> (#[trigger] sockets@[k])@.len() == dc,
                        oi == direction_from_index(d as int).spec_opposite().spec_index(),
                        oi < dc,
                        per_y@.len() == y,
                        forall|e: int|
                            0 <= e < y ==> (#[trigger] per_y@[e])
                                == self.socket_collection.spec_compatible(
                                sockets@[x as int]@[d as int],
                                sockets@[e]@[oi as int],
                            ),
                    decreases n_inst - y,
                {
                    let sa = sockets[x][d];
                    let sb = sockets[y][oi];
                    let c = self.socket_collection.is_compatible(
                        Socket { id: sa },
                        Socket { id: sb },
                    );
                    per_y.push(c);
                    y += 1;
                }
                per_dir.push(per_y);
                d += 1;
            }
            allowed.push(per_dir);
            x += 1;
        }
        Ok(
            Rules {
                directions_count: dc,
                rotation_axis: self.rotation_axis,
                models: self.models,
                socket_collection: self.socket_collection,
                instances,
                weights,
                sockets,
                allowed,
            },
        )
    }
}

} // verus!
