//! The solver: holds the grid, the compiled rules, the per-node possibility
//! sets and a propagation queue, and drives the collapse-and-propagate loop
//! to either a complete consistent assignment or a reported contradiction.

use vstd::prelude::*;

use crate::cartesian_grid::CartesianGrid;
use crate::coordinate_system::CoordinateSystem;
use crate::coordinates::CartesianCoordinates;
use crate::direction::direction_from_index;
use crate::grid::{Grid, GridData};
use crate::model::ModelInstance;
use crate::rng::{fresh_entropy, spec_xorshift, RngState};
use crate::rules::Rules;

verus! {

/// The number of `true` entries of a possibility row.
pub open spec fn count_trues(s: Seq<bool>) -> int
    decreases s.len(),
{
    if s.len() == 0 {
        0
    } else {
        count_trues(s.drop_last()) + if s.last() {
            1int
        } else {
            0int
        }
    }
}

/// The sum of all per-node possibility counts.
pub open spec fn sum_counts(s: Seq<usize>) -> int
    decreases s.len(),
{
    if s.len() == 0 {
        0
    } else {
        sum_counts(s.drop_last()) + s.last()
    }
}

proof fn lemma_count_trues_bounds(s: Seq<bool>)
    ensures
        0 <= count_trues(s) <= s.len(),
    decreases s.len(),
{
    if s.len() > 0 {
        lemma_count_trues_bounds(s.drop_last());
    }
}

proof fn lemma_count_trues_push(s: Seq<bool>, b: bool)
    ensures
        count_trues(s.push(b)) == count_trues(s) + if b {
            1int
        } else {
            0int
        },
{
    assert(s.push(b).drop_last() =~= s);
    assert(s.push(b).last() == b);
}

proof fn lemma_count_subset(s1: Seq<bool>, s2: Seq<bool>)
    requires
        s1.len() == s2.len(),
        forall|y: int| 0 <= y < s2.len() ==> (#[trigger] s2[y] ==> s1[y]),
    ensures
        count_trues(s2) <= count_trues(s1),
    decreases s1.len(),
{
    if s1.len() > 0 {
        assert(forall|y: int|
            0 <= y < s2.len() - 1 ==> (#[trigger] s2.drop_last()[y] ==> s1.drop_last()[y]));
        lemma_count_subset(s1.drop_last(), s2.drop_last());
        assert(s2.last() ==> s1.last());
    }
}

proof fn lemma_count_subset_full(s1: Seq<bool>, s2: Seq<bool>)
    requires
        s1.len() == s2.len(),
        forall|y: int| 0 <= y < s2.len() ==> (#[trigger] s2[y] ==> s1[y]),
        count_trues(s1) == count_trues(s2),
    ensures
        forall|y: int| 0 <= y < s2.len() ==> #[trigger] s2[y] == s1[y],
    decreases s1.len(),
{
    if s1.len() > 0 {
        assert(forall|y: int|
            0 <= y < s2.len() - 1 ==> (#[trigger] s2.drop_last()[y] ==> s1.drop_last()[y]));
        lemma_count_subset(s1.drop_last(), s2.drop_last());
        assert(s2.last() ==> s1.last());
        if s1.last() && !s2.last() {
            assert(count_trues(s2.drop_last()) == count_trues(s1.drop_last()) + 1);
            assert(false);
        }
        lemma_count_subset_full(s1.drop_last(), s2.drop_last());
        assert forall|y: int| 0 <= y < s2.len() implies #[trigger] s2[y] == s1[y] by {
            if y < s2.len() - 1 {
                assert(s2.drop_last()[y] == s1.drop_last()[y]);
            }
        }
    }
}

proof fn lemma_count_pos_exists(s: Seq<bool>)
    requires
        count_trues(s) > 0,
    ensures
        exists|y: int| 0 <= y < s.len() && s[y],
    decreases s.len(),
{
    if s.len() > 0 {
        if s.last() {
            assert(s[s.len() - 1]);
        } else {
            lemma_count_pos_exists(s.drop_last());
            let y = choose|y: int| 0 <= y < s.len() - 1 && s.drop_last()[y];
            assert(s[y]);
        }
    }
}

proof fn lemma_sum_nonneg(s: Seq<usize>)
    ensures
        sum_counts(s) >= 0,
    decreases s.len(),
{
    if s.len() > 0 {
        lemma_sum_nonneg(s.drop_last());
    }
}

proof fn lemma_count_take_step(s: Seq<bool>, i: int)
    requires
        0 <= i < s.len(),
    ensures
        count_trues(s.take(i + 1)) == count_trues(s.take(i)) + if s[i] {
            1int
        } else {
            0int
        },
{
    assert(s.take(i + 1).drop_last() =~= s.take(i));
    assert(s.take(i + 1).last() == s[i]);
}

proof fn lemma_count_take_full(s: Seq<bool>)
    ensures
        count_trues(s.take(s.len() as int)) == count_trues(s),
{
    assert(s.take(s.len() as int) =~= s);
}

proof fn lemma_sum_update(s: Seq<usize>, i: int, v: usize)
    requires
        0 <= i < s.len(),
    ensures
        sum_counts(s.update(i, v)) == sum_counts(s) - s[i] + v,
    decreases s.len(),
{
    if i == s.len() - 1 {
        assert(s.update(i, v).drop_last() =~= s.drop_last());
        assert(s.update(i, v).last() == v);
    } else {
        assert(s.update(i, v).drop_last() =~= s.drop_last().update(i, v));
        assert(s.update(i, v).last() == s.last());
        lemma_sum_update(s.drop_last(), i, v);
    }
}

/// The summed weight of a candidate list.
pub open spec fn spec_total_weight(cands: Seq<usize>, ws: Seq<u64>) -> int
    decreases cands.len(),
{
    if cands.len() == 0 {
        0
    } else {
        ws[cands[0] as int] + spec_total_weight(cands.drop_first(), ws)
    }
}

/// The candidate a weighted draw `t` selects: the candidates' weights are
/// laid end to end and the candidate whose span holds `t` is picked.
pub open spec fn spec_weighted_pick(cands: Seq<usize>, ws: Seq<u64>, t: int) -> usize
    decreases cands.len(),
{
    if cands.len() == 0 {
        0
    } else if t < ws[cands[0] as int] {
        cands[0]
    } else {
        spec_weighted_pick(cands.drop_first(), ws, t - ws[cands[0] as int])
    }
}

proof fn lemma_weight_skip(cands: Seq<usize>, ws: Seq<u64>, e: int)
    requires
        0 <= e < cands.len(),
    ensures
        spec_total_weight(cands.skip(e), ws) == ws[cands[e] as int] + spec_total_weight(
            cands.skip(e + 1),
            ws,
        ),
        forall|t: int|
            t >= ws[cands[e] as int] ==> #[trigger] spec_weighted_pick(cands.skip(e), ws, t)
                == spec_weighted_pick(cands.skip(e + 1), ws, t - ws[cands[e] as int]),
        forall|t: int|
            0 <= t < ws[cands[e] as int] ==> #[trigger] spec_weighted_pick(cands.skip(e), ws, t)
                == cands[e],
{
    assert(cands.skip(e).drop_first() =~= cands.skip(e + 1));
    assert(cands.skip(e)[0] == cands[e]);
}

/// How the next node to collapse is picked.
#[derive(Clone, Copy, Debug, PartialEq, Eq, Structural)]
pub enum NodeSelectionHeuristic {
    /// Pick the undetermined node with the fewest remaining possibilities;
    /// ties go to the smallest node index.
    MinimumRemainingValue,
    /// Pick the first undetermined node in scan order.
    FirstInScanOrder,
}

/// How the instance assigned to a collapsed node is picked.
#[derive(Clone, Copy, Debug, PartialEq, Eq, Structural)]
pub enum ModelSelectionHeuristic {
    /// Draw proportionally to the instances' weights.
    WeightedProbability,
    /// Draw uniformly among the remaining instances.
    UniformRandom,
}

/// How the randomness source is seeded.
#[derive(Clone, Copy, Debug, PartialEq, Eq, Structural)]
pub enum RngMode {
    /// Draw a fresh seed for every generation attempt.
    RandomSeed,
    /// Pin the sequence for reproducible runs.
    FixedSeed(u64),
}

/// Summary of a completed generation attempt.
#[derive(Clone, Copy, Debug, PartialEq, Eq, Structural)]
pub struct GenInfo {
    /// Number of grid nodes committed.
    pub processed_nodes: usize,
}

/// A contradiction found during generation: the node whose possibility set
/// became empty or inconsistent.
#[derive(Clone, Copy, Debug, PartialEq, Eq, Structural)]
pub struct GeneratorError {
    /// The offending node.
    pub node_index: usize,
}

/// A configuration error found while building a generator.
#[derive(Clone, Copy, Debug, PartialEq, Eq, Structural)]
pub enum GeneratorBuilderError {
    /// No rules were given.
    NoRules,
    /// No grid was given.
    NoGrid,
    /// The grid's coordinate system does not match the one the rules were
    /// compiled for.
    CoordinateSystemMismatch,
}

/// The generation engine bound to one grid and one rule table.
pub struct Generator<C: CartesianCoordinates> {
    /// The grid being filled.
    pub grid: CartesianGrid<C>,
    /// The compiled rules, read-only.
    pub rules: Rules,
    /// Per node and direction index: the neighbouring node, if any.
    pub neighbors: Vec<Vec<Option<usize>>>,
    /// Per node: which instances are still possible.
    pub possibilities: Vec<Vec<bool>>,
    /// Per node: how many instances are still possible.
    pub counts: Vec<usize>,
    /// Nodes whose possibility set changed and whose neighbours need
    /// re-checking; the active part starts at `head`.
    pub queue: Vec<usize>,
    /// First active position of `queue`.
    pub head: usize,
    /// Per node: whether it sits in the active part of the queue.
    pub in_queue: Vec<bool>,
    /// The randomness source, reseeded at every attempt.
    pub rng: RngState,
    /// How the randomness source is seeded.
    pub rng_mode: RngMode,
    /// How the next node to collapse is picked.
    pub node_heuristic: NodeSelectionHeuristic,
    /// How the instance for a collapsed node is picked.
    pub model_heuristic: ModelSelectionHeuristic,
}

impl<C: CartesianCoordinates> Generator<C> {
    /// Well-formedness of the generator state.
    pub open spec fn wf(&self) -> bool {
        let n = self.grid.spec_total_size();
        let dc = self.rules.directions_count as int;
        let k = self.rules.spec_instance_count();
        &&& self.grid.inv_spec()
        &&& self.rules.wf()
        &&& dc == self.grid.coord_system.spec_directions().len()
        &&& self.neighbors@.len() == n
        &&& forall|i: int| 0 <= i < n ==> (#[trigger] self.neighbors@[i])@.len() == dc
        &&& forall|i: int, j: int|
            0 <= i < n && 0 <= j < dc ==> (#[trigger] self.neighbors@[i]@[j])
                == self.grid.spec_next_index(
                self.grid.spec_pos_from_index(i),
                direction_from_index(j),
            )
        &&& forall|i: int, j: int|
            0 <= i < n && 0 <= j < dc ==> ((#[trigger] self.neighbors@[i]@[j]) matches Some(m)
                ==> m < n)
        &&& self.possibilities@.len() == n
        &&& forall|i: int| 0 <= i < n ==> (#[trigger] self.possibilities@[i])@.len() == k
        &&& self.counts@.len() == n
        &&& forall|i: int|
            0 <= i < n ==> (#[trigger] self.counts@[i]) as int == count_trues(
                self.possibilities@[i]@,
            )
        &&& self.in_queue@.len() == n
        &&& self.head <= self.queue@.len()
        &&& forall|qi: int|
            self.head <= qi < self.queue@.len() ==> (#[trigger] self.queue@[qi]) < n
        &&& forall|q1: int, q2: int|
            self.head <= q1 < q2 < self.queue@.len() ==> self.queue@[q1] != self.queue@[q2]
        &&& forall|i: int|
            0 <= i < n ==> ((#[trigger] self.in_queue@[i]) <==> exists|qi: int|
                self.head <= qi < self.queue@.len() && self.queue@[qi] == i)
    }

    /// Whether every node still has at least one possibility.
    pub open spec fn all_nonempty(&self) -> bool {
        forall|i: int|
            0 <= i < self.counts@.len() ==> (#[trigger] self.counts@[i]) >= 1
    }

    /// Whether instance `y` at the neighbour is supported by some remaining
    /// possibility of `node` across direction index `j`.
    pub open spec fn spec_supported(&self, node: int, j: int, y: int) -> bool {
        exists|x: int|
            0 <= x < self.rules.spec_instance_count() && #[trigger] self.possibilities@[node]@[x]
                && self.rules.allowed@[x]@[j]@[y]
    }

    /// Access to the grid the generator fills.
    pub fn grid(&self) -> (r: &CartesianGrid<C>)
        ensures
            *r == self.grid,
    {
        &self.grid
    }

    /// Resets every possibility set to the full instance set, clears the
    /// propagation queue, and reseeds the randomness source according to the
    /// configured mode.
    fn reset(&mut self)
        requires
            old(self).wf(),
        ensures
            final(self).wf(),
            final(self).all_nonempty(),
            final(self).grid == old(self).grid,
            final(self).rules == old(self).rules,
            final(self).neighbors == old(self).neighbors,
            final(self).rng_mode == old(self).rng_mode,
            final(self).node_heuristic == old(self).node_heuristic,
            final(self).model_heuristic == old(self).model_heuristic,
            final(self).head == 0,
            final(self).queue@.len() == 0,
            forall|i: int|
                0 <= i < final(self).counts@.len() ==> (#[trigger] final(self).counts@[i]) as int
                    == final(self).rules.spec_instance_count(),
    {
        match self.rng_mode {
            RngMode::FixedSeed(s) => {
                self.rng = RngState::new(s);
            },
            RngMode::RandomSeed => {
                let e = fresh_entropy();
                self.rng = RngState::new(e);
            },
        }
        let n = self.grid.total_size();
        let k = self.rules.instance_count();
        let mut possibilities: Vec<Vec<bool>> = Vec::new();
        let mut counts: Vec<usize> = Vec::new();
        let mut in_queue: Vec<bool> = Vec::new();
        let mut i: usize = 0;
        while i < n
            invariant
                i <= n,
                k == self.rules.spec_instance_count(),
                1 <= k,
                possibilities@.len() == i,
                counts@.len() == i,
                in_queue@.len() == i,
                forall|e: int| 0 <= e < i ==> (#[trigger] possibilities@[e])@.len() == k,
                forall|e: int|
                    0 <= e < i ==> (#[trigger] counts@[e]) as int == count_trues(
                        possibilities@[e]@,
                    ),
                forall|e: int| 0 <= e < i ==> (#[trigger] counts@[e]) == k,
                forall|e: int| 0 <= e < i ==> !(#[trigger] in_queue@[e]),
            decreases n - i,
        {
            let mut row: Vec<bool> = Vec::new();
            let mut y: usize = 0;
            while y < k
                invariant
                    y <= k,
                    row@.len() == y,
                    count_trues(row@) == y,
                decreases k - y,
            {
                proof {
                    lemma_count_trues_push(row@, true);
                }
                row.push(true);
                y += 1;
            }
            possibilities.push(row);
            counts.push(k);
            in_queue.push(false);
            i += 1;
        }
        self.possibilities = possibilities;
        self.counts = counts;
        self.in_queue = in_queue;
        self.queue = Vec::new();
        self.head = 0;
    }

    /// Pops the front node of the propagation queue.
    fn pop_queue(&mut self) -> (node: usize)
        requires
            old(self).wf(),
            old(self).head < old(self).queue@.len(),
        ensures
            final(self).wf(),
            node < final(self).grid.spec_total_size(),
            final(self).head == old(self).head + 1,
            final(self).queue == old(self).queue,
            final(self).grid == old(self).grid,
            final(self).rules == old(self).rules,
            final(self).neighbors == old(self).neighbors,
            final(self).possibilities == old(self).possibilities,
            final(self).counts == old(self).counts,
            final(self).rng == old(self).rng,
            final(self).rng_mode == old(self).rng_mode,
            final(self).node_heuristic == old(self).node_heuristic,
            final(self).model_heuristic == old(self).model_heuristic,
    {
        let ghost n = self.grid.spec_total_size();
        let qlen = self.queue.len();
        let node = self.queue[self.head];
        self.head = self.head + 1;
        self.in_queue.set(node, false);
        proof {
            let q = self.queue@;
            let h = self.head as int;
            let oh = old(self).head as int;
            assert forall|i: int| 0 <= i < n implies ((#[trigger] self.in_queue@[i]) <==> exists|
                qi: int,
            |
                h <= qi < q.len() && q[qi] == i) by {
                if i == node {
                    assert forall|qi: int| h <= qi < q.len() implies q[qi] != node by {
                        assert(q[oh] == node);
                    }
                } else {
                    if old(self).in_queue@[i] {
                        let qi = choose|qi: int| oh <= qi < q.len() && q[qi] == i;
                        assert(q[qi] == i);
                        assert(qi != oh);
                    }
                    if exists|qi: int| h <= qi < q.len() && q[qi] == i {
                        let qi = choose|qi: int| h <= qi < q.len() && q[qi] == i;
                        assert(oh <= qi < q.len() && q[qi] == i);
                    }
                }
            }
        }
        node
    }

    /// The union, over all remaining possibilities of `node`, of the
    /// instances the rules permit across direction index `j`.
    fn compute_support(&self, node: usize, j: usize) -> (sup: Vec<bool>)
        requires
            self.wf(),
            node < self.grid.spec_total_size(),
            j < self.rules.directions_count,
        ensures
            sup@.len() == self.rules.spec_instance_count(),
            forall|y: int|
                0 <= y < sup@.len() ==> (#[trigger] sup@[y]) == self.spec_supported(
                    node as int,
                    j as int,
                    y,
                ),
    {
        let k = self.rules.instance_count();
        let mut sup: Vec<bool> = Vec::new();
        let mut y: usize = 0;
        while y < k
            invariant
                y <= k,
                self.wf(),
                node < self.grid.spec_total_size(),
                j < self.rules.directions_count,
                k == self.rules.spec_instance_count(),
                sup@.len() == y,
                forall|e: int|
                    0 <= e < y ==> (#[trigger] sup@[e]) == self.spec_supported(
                        node as int,
                        j as int,
                        e,
                    ),
            decreases k - y,
        {
            let mut v = false;
            let mut x: usize = 0;
            while x < k
                invariant
                    x <= k,
                    self.wf(),
                    node < self.grid.spec_total_size(),
                    j < self.rules.directions_count,
                    y < k == self.rules.spec_instance_count(),
                    v == exists|e: int|
                        0 <= e < x && #[trigger] self.possibilities@[node as int]@[e]
                            && self.rules.allowed@[e]@[j as int]@[y as int],
                decreases k - x,
            {
                let px = self.possibilities[node][x];
                let al = self.rules.allowed[x][j][y];
                if px && al {
                    v = true;
                }
                proof {
                    if px && al {
                        assert(0 <= x < x + 1 && self.possibilities@[node as int]@[x as int]
                            && self.rules.allowed@[x as int]@[j as int]@[y as int]);
                    } else if !v {
                        assert forall|e: int|
                            0 <= e < x + 1 implies !(#[trigger] self.possibilities@[node as int]@[e]
                                && self.rules.allowed@[e]@[j as int]@[y as int]) by {
                            if e == x {
                                assert(!(px && al));
                            }
                        }
                    } else {
                        let e = choose|e: int|
                            0 <= e < x && #[trigger] self.possibilities@[node as int]@[e]
                                && self.rules.allowed@[e]@[j as int]@[y as int];
                        assert(0 <= e < x + 1 && self.possibilities@[node as int]@[e]
                            && self.rules.allowed@[e]@[j as int]@[y as int]);
                    }
                }
                x += 1;
            }
            sup.push(v);
            y += 1;
        }
        sup
    }

    /// Intersects the possibility set of node `m` with `sup`, updating its
    /// count. The set never grows: every entry of the new set was already in
    /// the old one. Returns whether it strictly shrank.
    #[verifier::rlimit(60)]
    pub fn intersect_neighbor(&mut self, m: usize, sup: &Vec<bool>) -> (shrunk: bool)
        requires
            old(self).wf(),
            m < old(self).grid.spec_total_size(),
            sup@.len() == old(self).rules.spec_instance_count(),
        ensures
            final(self).wf(),
            final(self).grid == old(self).grid,
            final(self).rules == old(self).rules,
            final(self).neighbors == old(self).neighbors,
            final(self).queue == old(self).queue,
            final(self).head == old(self).head,
            final(self).in_queue == old(self).in_queue,
            final(self).rng == old(self).rng,
            final(self).rng_mode == old(self).rng_mode,
            final(self).node_heuristic == old(self).node_heuristic,
            final(self).model_heuristic == old(self).model_heuristic,
            final(self).possibilities@ == old(self).possibilities@.update(
                m as int,
                final(self).possibilities@[m as int],
            ),
            forall|y: int|
                0 <= y < sup@.len() ==> (#[trigger] final(self).possibilities@[m as int]@[y]) == (
                old(self).possibilities@[m as int]@[y] && sup@[y]),
            final(self).counts@ == old(self).counts@.update(
                m as int,
                final(self).counts@[m as int],
            ),
            final(self).counts@[m as int] <= old(self).counts@[m as int],
            shrunk == (final(self).counts@[m as int] < old(self).counts@[m as int]),
    {
        let k = self.rules.instance_count();
        let mut row: Vec<bool> = Vec::new();
        let mut cnt: usize = 0;
        let mut y: usize = 0;
        while y < k
            invariant
                y <= k,
                self.wf(),
                m < self.grid.spec_total_size(),
                k == self.rules.spec_instance_count(),
                sup@.len() == k,
                row@.len() == y,
                cnt as int == count_trues(row@),
                cnt <= y,
                forall|e: int|
                    0 <= e < y ==> (#[trigger] row@[e]) == (self.possibilities@[m as int]@[e]
                        && sup@[e]),
            decreases k - y,
        {
            let v = self.possibilities[m][y] && sup[y];
            proof {
                lemma_count_trues_push(row@, v);
            }
            row.push(v);
            if v {
                cnt += 1;
            }
            y += 1;
        }
        proof {
            lemma_count_subset(self.possibilities@[m as int]@, row@);
        }
        let shrunk = cnt < self.counts[m];
        self.possibilities.set(m, row);
        self.counts.set(m, cnt);
        proof {
            let n = self.grid.spec_total_size();
            assert forall|i: int| 0 <= i < n implies (#[trigger] self.possibilities@[i])@.len()
                == self.rules.spec_instance_count() by {
                if i != m {
                    assert(self.possibilities@[i] == old(self).possibilities@[i]);
                }
            }
            assert forall|i: int| 0 <= i < n implies (#[trigger] self.counts@[i]) as int
                == count_trues(self.possibilities@[i]@) by {
                if i != m {
                    assert(self.possibilities@[i] == old(self).possibilities@[i]);
                    assert(self.counts@[i] == old(self).counts@[i]);
                }
            }
            assert(self.queue@ == old(self).queue@ && self.head == old(self).head
                && self.in_queue@ == old(self).in_queue@);
            assert forall|i: int| 0 <= i < n implies ((#[trigger] self.in_queue@[i]) <==> exists|
                qi: int,
            |
                self.head <= qi < self.queue@.len() && self.queue@[qi] == i) by {
                assert(old(self).in_queue@[i] <==> exists|qi: int|
                    old(self).head <= qi < old(self).queue@.len() && old(self).queue@[qi] == i);
                if old(self).in_queue@[i] {
                    let qi = choose|qi: int|
                        old(self).head <= qi < old(self).queue@.len() && old(self).queue@[qi] == i;
                    assert(self.head <= qi < self.queue@.len() && self.queue@[qi] == i);
                }
                if exists|qi: int| self.head <= qi < self.queue@.len() && self.queue@[qi] == i {
                    let qi = choose|qi: int|
                        self.head <= qi < self.queue@.len() && self.queue@[qi] == i;
                    assert(old(self).head <= qi < old(self).queue@.len() && old(self).queue@[qi]
                        == i);
                }
            }
            assert(self.wf());
        }
        shrunk
    }

    /// Propagates the reduced possibility set of `node` to its neighbours in
    /// every direction, shrinking their sets and queueing those that shrank.
    /// Possibility sets only ever shrink here: each step strictly shrinks or
    /// leaves unchanged the sets it touches, never grows one. Reports the
    /// offending node if a set becomes empty.
    pub fn propagate_from(&mut self, node: usize) -> (r: Result<bool, usize>)
        requires
            old(self).wf(),
            old(self).all_nonempty(),
            node < old(self).grid.spec_total_size(),
        ensures
            final(self).wf(),
            final(self).grid == old(self).grid,
            final(self).rules == old(self).rules,
            final(self).neighbors == old(self).neighbors,
            final(self).head == old(self).head,
            final(self).rng == old(self).rng,
            final(self).rng_mode == old(self).rng_mode,
            final(self).node_heuristic == old(self).node_heuristic,
            final(self).model_heuristic == old(self).model_heuristic,
            forall|i: int, y: int|
                0 <= i < old(self).possibilities@.len() && 0 <= y < old(
                    self,
                ).possibilities@[i]@.len() ==> ((#[trigger] final(self).possibilities@[i]@[y])
                    ==> old(self).possibilities@[i]@[y]),
            forall|i: int|
                0 <= i < old(self).counts@.len() ==> (#[trigger] final(self).counts@[i]) <= old(
                    self,
                ).counts@[i],
            r matches Ok(any) ==> final(self).all_nonempty() && (any ==> sum_counts(
                final(self).counts@,
            ) < sum_counts(old(self).counts@)) && (!any ==> final(self).counts@ == old(
                self,
            ).counts@ && final(self).queue@ == old(self).queue@ && final(self).in_queue@ == old(
                self,
            ).in_queue@),
            r matches Err(mm) ==> mm < old(self).grid.spec_total_size(),
            (forall|jj: int|
                0 <= jj < old(self).rules.directions_count ==> (#[trigger] old(
                    self,
                ).neighbors@[node as int]@[jj]) is None) ==> r == Ok::<bool, usize>(false),
            old(self).rules.spec_all_pairs_allowed() ==> r == Ok::<bool, usize>(false),
    {
        let dc = self.rules.directions_count;
        let ghost n = self.grid.spec_total_size();
        let ghost k = self.rules.spec_instance_count();
        let mut any = false;
        let mut j: usize = 0;
        while j < dc
            invariant
                j <= dc,
                self.wf(),
                self.all_nonempty(),
                node < n,
                n == self.grid.spec_total_size(),
                k == self.rules.spec_instance_count(),
                dc == self.rules.directions_count,
                self.grid == old(self).grid,
                self.rules == old(self).rules,
                self.neighbors == old(self).neighbors,
                self.head == old(self).head,
                self.rng == old(self).rng,
                self.rng_mode == old(self).rng_mode,
                self.node_heuristic == old(self).node_heuristic,
                self.model_heuristic == old(self).model_heuristic,
                old(self).possibilities@.len() == n,
                old(self).counts@.len() == n,
                forall|i: int| 0 <= i < n ==> (#[trigger] old(self).possibilities@[i])@.len() == k,
                forall|i: int, y: int|
                    0 <= i < n && 0 <= y < k ==> ((#[trigger] self.possibilities@[i]@[y]) ==> old(
                        self,
                    ).possibilities@[i]@[y]),
                forall|i: int|
                    0 <= i < n ==> (#[trigger] self.counts@[i]) <= old(self).counts@[i],
                !any ==> self.counts@ == old(self).counts@ && self.queue@ == old(self).queue@
                    && self.in_queue@ == old(self).in_queue@,
                any ==> sum_counts(self.counts@) < sum_counts(old(self).counts@),
                (forall|jj: int|
                    0 <= jj < dc ==> (#[trigger] old(self).neighbors@[node as int]@[jj]) is None)
                    ==> !any,
                old(self).rules.spec_all_pairs_allowed() ==> !any,
            decreases dc - j,
        {
            let nbo = self.neighbors[node][j];
            match nbo {
                Some(m) => {
                    proof {
                        if forall|jj: int|
                            0 <= jj < dc ==> (#[trigger] old(self).neighbors@[node as int]@[jj])
                                is None {
                            assert(old(self).neighbors@[node as int]@[j as int] is None);
                            assert(false);
                        }
                    }
                    let sup = self.compute_support(node, j);
                    proof {
                        if old(self).rules.spec_all_pairs_allowed() {
                            assert forall|y: int| 0 <= y < k implies sup@[y] by {
                                assert(self.counts@[node as int] >= 1);
                                lemma_count_pos_exists(self.possibilities@[node as int]@);
                                let x = choose|x: int|
                                    0 <= x < self.possibilities@[node as int]@.len()
                                        && self.possibilities@[node as int]@[x];
                                assert(old(self).rules.allowed@[x]@[j as int]@[y]);
                                assert(self.spec_supported(node as int, j as int, y));
                            }
                        }
                    }
                    let ghost pre = *self;
                    let shrunk = self.intersect_neighbor(m, &sup);
                    proof {
                        lemma_sum_update(pre.counts@, m as int, self.counts@[m as int] as usize);
                        assert(self.counts@ == pre.counts@.update(
                            m as int,
                            self.counts@[m as int],
                        ));
                        assert forall|i: int, y: int|
                            0 <= i < n && 0 <= y < k implies ((
                        #[trigger] self.possibilities@[i]@[y]) ==> old(
                            self,
                        ).possibilities@[i]@[y]) by {
                            if i != m {
                                assert(self.possibilities@[i] == pre.possibilities@[i]);
                            } else {
                                if self.possibilities@[m as int]@[y] {
                                    assert(pre.possibilities@[m as int]@[y]);
                                }
                            }
                        }
                        assert forall|i: int| 0 <= i < n implies (#[trigger] self.counts@[i])
                            <= old(self).counts@[i] by {
                            if i != m {
                                assert(self.counts@[i] == pre.counts@[i]);
                            }
                        }
                    }
                    proof {
                        if !shrunk {
                            assert(self.counts@[m as int] == pre.counts@[m as int]);
                            assert(self.counts@ =~= pre.counts@);
                            assert(self.queue@ == pre.queue@);
                        }
                        if old(self).rules.spec_all_pairs_allowed() {
                            assert forall|y: int| 0 <= y < k implies self.possibilities@[m as int]@[y]
                                == pre.possibilities@[m as int]@[y] by {
                                assert(sup@[y]);
                            }
                            assert(self.possibilities@[m as int]@ =~= pre.possibilities@[m as int]@);
                            assert(self.counts@[m as int] == pre.counts@[m as int]);
                            assert(!shrunk);
                            assert(pre.counts@[m as int] >= 1);
                        }
                    }
                    if self.counts[m] == 0 {
                        return Err(m);
                    }
                    if shrunk {
                        any = true;
                        if !self.in_queue[m] {
                            let ghost q0 = self.queue@;
                            let ghost h = self.head as int;
                            self.queue.push(m);
                            self.in_queue.set(m, true);
                            proof {
                                let q = self.queue@;
                                assert(q == q0.push(m));
                                assert forall|i: int| 0 <= i < n implies ((
                                #[trigger] self.in_queue@[i]) <==> exists|qi: int|
                                    h <= qi < q.len() && q[qi] == i) by {
                                    if i == m {
                                        assert(q[q.len() - 1] == m);
                                    } else {
                                        if pre.in_queue@[i] {
                                            let qi = choose|qi: int|
                                                h <= qi < q0.len() && q0[qi] == i;
                                            assert(q[qi] == i);
                                        }
                                        if exists|qi: int| h <= qi < q.len() && q[qi] == i {
                                            let qi = choose|qi: int|
                                                h <= qi < q.len() && q[qi] == i;
                                            assert(qi < q0.len());
                                            assert(q0[qi] == i);
                                        }
                                    }
                                }
                                assert forall|q1: int, q2: int|
                                    h <= q1 < q2 < q.len() implies q[q1] != q[q2] by {
                                    if q2 == q.len() - 1 {
                                        assert(q[q1] == q0[q1]);
                                        assert(!pre.in_queue@[m as int]);
                                    }
                                }
                            }
                        }
                    }
                },
                None => {},
            }
            j += 1;
        }
        Ok(any)
    }

    /// Picks the next node to collapse by the configured heuristic, or
    /// `None` when every node is determined.
    fn select_node(&self) -> (r: Option<usize>)
        requires
            self.wf(),
            self.all_nonempty(),
        ensures
            (r is None) <==> (forall|i: int|
                0 <= i < self.counts@.len() ==> (#[trigger] self.counts@[i]) == 1),
            r matches Some(sel) ==> sel < self.counts@.len() && self.counts@[sel as int] >= 2,
            r matches Some(sel) ==> (self.node_heuristic
                == NodeSelectionHeuristic::MinimumRemainingValue ==> (forall|i: int|
                0 <= i < self.counts@.len() && (#[trigger] self.counts@[i]) >= 2
                    ==> self.counts@[sel as int] <= self.counts@[i]) && (forall|i: int|
                0 <= i < sel ==> (#[trigger] self.counts@[i]) == 1 || self.counts@[i]
                    > self.counts@[sel as int])),
            r matches Some(sel) ==> (self.node_heuristic == NodeSelectionHeuristic::FirstInScanOrder
                ==> (forall|i: int| 0 <= i < sel ==> (#[trigger] self.counts@[i]) == 1)),
    {
        let n = self.counts.len();
        match self.node_heuristic {
            NodeSelectionHeuristic::FirstInScanOrder => {
                let mut i: usize = 0;
                while i < n
                    invariant
                        i <= n,
                        n == self.counts@.len(),
                        self.all_nonempty(),
                        self.node_heuristic == NodeSelectionHeuristic::FirstInScanOrder,
                        forall|e: int| 0 <= e < i ==> (#[trigger] self.counts@[e]) == 1,
                    decreases n - i,
                {
                    if self.counts[i] >= 2 {
                        return Some(i);
                    }
                    i += 1;
                }
                None
            },
            NodeSelectionHeuristic::MinimumRemainingValue => {
                let mut best: usize = n;
                let mut i: usize = 0;
                while i < n
                    invariant
                        i <= n,
                        n == self.counts@.len(),
                        self.all_nonempty(),
                        self.node_heuristic == NodeSelectionHeuristic::MinimumRemainingValue,
                        best == n || (best < i && self.counts@[best as int] >= 2),
                        best == n ==> forall|e: int|
                            0 <= e < i ==> (#[trigger] self.counts@[e]) == 1,
                        best < n ==> forall|e: int|
                            0 <= e < i && (#[trigger] self.counts@[e]) >= 2
                                ==> self.counts@[best as int] <= self.counts@[e],
                        best < n ==> forall|e: int|
                            0 <= e < best ==> (#[trigger] self.counts@[e]) == 1 || self.counts@[e]
                                > self.counts@[best as int],
                    decreases n - i,
                {
                    if self.counts[i] >= 2 && (best == n || self.counts[i] < self.counts[best]) {
                        best = i;
                    }
                    i += 1;
                }
                if best == n {
                    None
                } else {
                    Some(best)
                }
            },
        }
    }

    /// Returns the indices of the instances still possible for `node`.
    fn candidates_of(&self, node: usize) -> (cands: Vec<usize>)
        requires
            self.wf(),
            node < self.grid.spec_total_size(),
        ensures
            cands@.len() == self.counts@[node as int],
            cands@.len() <= self.rules.spec_instance_count(),
            forall|e: int|
                0 <= e < cands@.len() ==> (#[trigger] cands@[e]) < self.rules.spec_instance_count()
                    && self.possibilities@[node as int]@[cands@[e] as int],
    {
        proof {
            lemma_count_trues_bounds(self.possibilities@[node as int]@);
        }
        let k = self.rules.instance_count();
        let mut cands: Vec<usize> = Vec::new();
        let mut x: usize = 0;
        proof {
            assert(self.possibilities@[node as int]@.take(0) =~= Seq::<bool>::empty());
        }
        while x < k
            invariant
                x <= k,
                self.wf(),
                node < self.grid.spec_total_size(),
                k == self.rules.spec_instance_count(),
                cands@.len() == count_trues(self.possibilities@[node as int]@.take(x as int)),
                cands@.len() <= x,
                forall|e: int|
                    0 <= e < cands@.len() ==> (#[trigger] cands@[e]) < k
                        && self.possibilities@[node as int]@[cands@[e] as int],
            decreases k - x,
        {
            proof {
                lemma_count_take_step(self.possibilities@[node as int]@, x as int);
            }
            if self.possibilities[node][x] {
                cands.push(x);
            }
            x += 1;
        }
        proof {
            lemma_count_take_full(self.possibilities@[node as int]@);
        }
        cands
    }

    /// Picks one instance among `cands` by the configured model-selection
    /// heuristic, drawing from the randomness source.
    fn pick_candidate(&mut self, cands: &Vec<usize>) -> (chosen: usize)
        requires
            old(self).wf(),
            1 <= cands@.len() <= old(self).rules.spec_instance_count(),
            forall|e: int|
                0 <= e < cands@.len() ==> (#[trigger] cands@[e]) < old(
                    self,
                ).rules.spec_instance_count(),
        ensures
            final(self).grid == old(self).grid,
            final(self).rules == old(self).rules,
            final(self).neighbors == old(self).neighbors,
            final(self).possibilities == old(self).possibilities,
            final(self).counts == old(self).counts,
            final(self).queue == old(self).queue,
            final(self).head == old(self).head,
            final(self).in_queue == old(self).in_queue,
            final(self).rng_mode == old(self).rng_mode,
            final(self).node_heuristic == old(self).node_heuristic,
            final(self).model_heuristic == old(self).model_heuristic,
            final(self).wf(),
            exists|e: int| 0 <= e < cands@.len() && chosen == #[trigger] cands@[e],
            old(self).model_heuristic == ModelSelectionHeuristic::UniformRandom ==> chosen
                == cands@[(spec_xorshift(old(self).rng.state) % (cands@.len() as u64)) as int],
            old(self).model_heuristic == ModelSelectionHeuristic::WeightedProbability ==> chosen
                == spec_weighted_pick(
                cands@,
                old(self).rules.weights@,
                spec_xorshift(old(self).rng.state) as int % spec_total_weight(
                    cands@,
                    old(self).rules.weights@,
                ),
            ),
    {
        match self.model_heuristic {
            ModelSelectionHeuristic::UniformRandom => {
                let t = self.rng.next_below(cands.len() as u64);
                let idx = t as usize;
                let chosen = cands[idx];
                proof {
                    assert(cands@[t as int] == chosen);
                }
                chosen
            },
            ModelSelectionHeuristic::WeightedProbability => {
                let nc = cands.len();
                let ghost ws = self.rules.weights@;
                let mut total: u64 = 0;
                let mut e: usize = 0;
                proof {
                    assert(cands@.skip(0) =~= cands@);
                }
                while e < nc
                    invariant
                        e <= nc,
                        self.wf(),
                        self.grid == old(self).grid,
                        self.rules == old(self).rules,
                        self.neighbors == old(self).neighbors,
                        self.possibilities == old(self).possibilities,
                        self.counts == old(self).counts,
                        self.queue == old(self).queue,
                        self.head == old(self).head,
                        self.in_queue == old(self).in_queue,
                        self.rng_mode == old(self).rng_mode,
                        self.node_heuristic == old(self).node_heuristic,
                        self.model_heuristic == old(self).model_heuristic,
                        nc <= 0x1000_0000,
                        nc == cands@.len(),
                        self.model_heuristic == ModelSelectionHeuristic::WeightedProbability,
                        forall|i: int|
                            0 <= i < cands@.len() ==> (#[trigger] cands@[i])
                                < self.rules.spec_instance_count(),
                        total as int <= (e as int) * (12 * 0xFFFF_FFFF),
                        total >= e,
                        ws == self.rules.weights@,
                        spec_total_weight(cands@, ws) == total + spec_total_weight(
                            cands@.skip(e as int),
                            ws,
                        ),
                    decreases nc - e,
                {
                    let w = self.rules.weights[cands[e]];
                    proof {
                        assert(1 <= w <= 12 * 0xFFFF_FFFF);
                        assert((e as int) * (12 * 0xFFFF_FFFF) + 12 * 0xFFFF_FFFF == ((e + 1) as int)
                            * (12 * 0xFFFF_FFFF)) by (nonlinear_arith);
                        assert(((e + 1) as int) * (12 * 0xFFFF_FFFF) <= (nc as int) * (12
                            * 0xFFFF_FFFF)) by (nonlinear_arith)
                            requires
                                e + 1 <= nc,
                        ;
                        assert((nc as int) * (12 * 0xFFFF_FFFF) <= 0x1000_0000int * (12
                            * 0xFFFF_FFFF)) by (nonlinear_arith)
                            requires
                                nc <= 0x1000_0000,
                        ;
                        lemma_weight_skip(cands@, ws, e as int);
                    }
                    total = total + w;
                    e += 1;
                }
                proof {
                    assert(cands@.skip(nc as int) =~= Seq::<usize>::empty());
                    assert(spec_total_weight(cands@, ws) == total);
                    assert(total >= 1);
                }
                let t = self.rng.next_below(total);
                let mut acc: u64 = 0;
                let mut idx: usize = 0;
                let ghost goal = spec_weighted_pick(cands@, ws, t as int);
                proof {
                    assert(cands@.skip(0) =~= cands@);
                    assert(self.wf());
                }
                while idx < nc
                    invariant
                        idx <= nc,
                        self.wf(),
                        self.grid == old(self).grid,
                        self.rules == old(self).rules,
                        self.neighbors == old(self).neighbors,
                        self.possibilities == old(self).possibilities,
                        self.counts == old(self).counts,
                        self.queue == old(self).queue,
                        self.head == old(self).head,
                        self.in_queue == old(self).in_queue,
                        self.rng_mode == old(self).rng_mode,
                        self.node_heuristic == old(self).node_heuristic,
                        self.model_heuristic == old(self).model_heuristic,
                        nc <= 0x1000_0000,
                        nc == cands@.len(),
                        self.model_heuristic == ModelSelectionHeuristic::WeightedProbability,
                        forall|i: int|
                            0 <= i < cands@.len() ==> (#[trigger] cands@[i])
                                < self.rules.spec_instance_count(),
                        acc as int <= (idx as int) * (12 * 0xFFFF_FFFF),
                        acc <= t,
                        ws == self.rules.weights@,
                        t as int == spec_xorshift(old(self).rng.state) as int % spec_total_weight(
                            cands@,
                            ws,
                        ),
                        goal == spec_weighted_pick(cands@, ws, t as int),
                        goal == spec_weighted_pick(cands@.skip(idx as int), ws, t - acc),
                        spec_total_weight(cands@.skip(idx as int), ws) == total - acc,
                        t < total,
                        self.rng.state == spec_xorshift(old(self).rng.state),
                    decreases nc - idx,
                {
                    let w = self.rules.weights[cands[idx]];
                    proof {
                        assert(1 <= w <= 12 * 0xFFFF_FFFF);
                        assert((idx as int) * (12 * 0xFFFF_FFFF) + 12 * 0xFFFF_FFFF == ((idx + 1)
                            as int) * (12 * 0xFFFF_FFFF)) by (nonlinear_arith);
                        assert(((idx + 1) as int) * (12 * 0xFFFF_FFFF) <= 0x1000_0000int * (12
                            * 0xFFFF_FFFF)) by (nonlinear_arith)
                            requires
                                idx + 1 <= nc <= 0x1000_0000,
                        ;
                        lemma_weight_skip(cands@, ws, idx as int);
                    }
                    if t < acc + w {
                        let chosen = cands[idx];
                        proof {
                            assert(cands@[idx as int] == chosen);
                            assert(spec_weighted_pick(cands@.skip(idx as int), ws, t - acc)
                                == cands@[idx as int]);
                        }
                        return chosen;
                    }
                    acc = acc + w;
                    idx += 1;
                }
                proof {
                    assert(cands@.skip(nc as int) =~= Seq::<usize>::empty());
                    assert(spec_total_weight(cands@.skip(nc as int), ws) == 0);
                    assert(false);
                }
                cands[0]
            },
        }
    }

    /// Reduces the possibility set of `node` to one chosen instance and
    /// queues it for propagation. The set only shrinks: the chosen instance
    /// was among the remaining possibilities.
    pub fn collapse_node(&mut self, node: usize)
        requires
            old(self).wf(),
            old(self).all_nonempty(),
            node < old(self).grid.spec_total_size(),
            old(self).counts@[node as int] >= 2,
            old(self).head == old(self).queue@.len(),
        ensures
            final(self).wf(),
            final(self).all_nonempty(),
            final(self).grid == old(self).grid,
            final(self).rules == old(self).rules,
            final(self).neighbors == old(self).neighbors,
            final(self).head == old(self).head,
            final(self).rng_mode == old(self).rng_mode,
            final(self).node_heuristic == old(self).node_heuristic,
            final(self).model_heuristic == old(self).model_heuristic,
            sum_counts(final(self).counts@) < sum_counts(old(self).counts@),
            final(self).counts@[node as int] == 1,
            forall|i: int, y: int|
                0 <= i < old(self).possibilities@.len() && 0 <= y < old(
                    self,
                ).possibilities@[i]@.len() ==> ((#[trigger] final(self).possibilities@[i]@[y])
                    ==> old(self).possibilities@[i]@[y]),
    {
        let ghost n = self.grid.spec_total_size();
        let k = self.rules.instance_count();
        let cands = self.candidates_of(node);
        let chosen = self.pick_candidate(&cands);
        let ghost mid = *self;
        proof {
            let e = choose|e: int| 0 <= e < cands@.len() && chosen == cands@[e];
            assert(self.possibilities@[node as int]@[chosen as int]);
            assert(chosen < k);
        }
        let mut row: Vec<bool> = Vec::new();
        let mut y: usize = 0;
        while y < k
            invariant
                y <= k,
                chosen < k,
                row@.len() == y,
                count_trues(row@) == if chosen < y {
                    1int
                } else {
                    0int
                },
                forall|e: int| 0 <= e < y ==> (#[trigger] row@[e]) == (e == chosen),
            decreases k - y,
        {
            let v = y == chosen;
            proof {
                lemma_count_trues_push(row@, v);
            }
            row.push(v);
            y += 1;
        }
        self.possibilities.set(node, row);
        self.counts.set(node, 1);
        let ghost q0 = self.queue@;
        let ghost h = self.head as int;
        self.queue.push(node);
        self.in_queue.set(node, true);
        proof {
            lemma_sum_update(mid.counts@, node as int, 1);
            assert(self.counts@ == mid.counts@.update(node as int, 1usize));
            let q = self.queue@;
            assert(q == q0.push(node));
            assert(h == q0.len());
            assert forall|i: int| 0 <= i < n implies ((#[trigger] self.in_queue@[i]) <==> exists|
                qi: int,
            |
                h <= qi < q.len() && q[qi] == i) by {
                if i == node {
                    assert(q[q.len() - 1] == node);
                } else {
                    assert(!mid.in_queue@[i]);
                    assert forall|qi: int| h <= qi < q.len() implies q[qi] != i by {
                        assert(qi == q.len() - 1);
                    }
                }
            }
            assert forall|i: int| 0 <= i < n implies (#[trigger] self.counts@[i]) as int
                == count_trues(self.possibilities@[i]@) by {
                if i != node {
                    assert(self.possibilities@[i] == mid.possibilities@[i]);
                    assert(self.counts@[i] == mid.counts@[i]);
                }
            }
            assert forall|i: int, y2: int|
                0 <= i < old(self).possibilities@.len() && 0 <= y2 < old(
                    self,
                ).possibilities@[i]@.len() implies ((#[trigger] self.possibilities@[i]@[y2]) ==> old(
                self,
            ).possibilities@[i]@[y2]) by {
                if i != node {
                    assert(self.possibilities@[i] == mid.possibilities@[i]);
                } else {
                    if self.possibilities@[i]@[y2] {
                        assert(y2 == chosen);
                        assert(old(self).possibilities@[node as int]@[chosen as int]);
                    }
                }
            }
            assert(self.wf());
        }
    }

    /// Per determined node, one still-possible instance index.
    fn extract_assignment(&self) -> (assign: Vec<usize>)
        requires
            self.wf(),
            self.all_nonempty(),
        ensures
            assign@.len() == self.grid.spec_total_size(),
            forall|i: int|
                0 <= i < assign@.len() ==> (#[trigger] assign@[i])
                    < self.rules.spec_instance_count()
                    && self.possibilities@[i]@[assign@[i] as int],
    {
        let n = self.possibilities.len();
        let mut assign: Vec<usize> = Vec::new();
        let mut i: usize = 0;
        while i < n
            invariant
                i <= n,
                self.wf(),
                self.all_nonempty(),
                n == self.grid.spec_total_size(),
                assign@.len() == i,
                forall|e: int|
                    0 <= e < i ==> (#[trigger] assign@[e]) < self.rules.spec_instance_count()
                        && self.possibilities@[e]@[assign@[e] as int],
            decreases n - i,
        {
            proof {
                assert(self.counts@[i as int] >= 1);
            }
            let x = first_true(&self.possibilities[i]);
            assign.push(x);
            i += 1;
        }
        assign
    }

    /// Scans every edge of the grid and reports a node whose assigned
    /// instance is not permitted next to a neighbour's, if any.
    fn check_consistency(&self, assign: &Vec<usize>) -> (r: Option<usize>)
        requires
            self.wf(),
            assign@.len() == self.grid.spec_total_size(),
            forall|i: int|
                0 <= i < assign@.len() ==> (#[trigger] assign@[i])
                    < self.rules.spec_instance_count(),
        ensures
            r is None <==> spec_consistent_assignment(self.rules, self.grid, assign@),
            r matches Some(b) ==> b < self.grid.spec_total_size(),
    {
        let n = self.neighbors.len();
        let dc = self.rules.directions_count;
        let mut i: usize = 0;
        while i < n
            invariant
                i <= n,
                self.wf(),
                n == self.grid.spec_total_size(),
                dc == self.rules.directions_count,
                assign@.len() == n,
                forall|e: int|
                    0 <= e < n ==> (#[trigger] assign@[e]) < self.rules.spec_instance_count(),
                forall|e: int, j: int|
                    0 <= e < i && 0 <= j < dc ==> ((#[trigger] self.neighbors@[e]@[j]) matches Some(
                        m,
                    ) ==> self.rules.spec_allowed(
                        assign@[e] as int,
                        direction_from_index(j),
                        assign@[m as int] as int,
                    )),
            decreases n - i,
        {
            let mut j: usize = 0;
            while j < dc
                invariant
                    j <= dc,
                    i < n,
                    self.wf(),
                    n == self.grid.spec_total_size(),
                    dc == self.rules.directions_count,
                    assign@.len() == n,
                    forall|e: int|
                        0 <= e < n ==> (#[trigger] assign@[e]) < self.rules.spec_instance_count(),
                    forall|jj: int|
                        0 <= jj < j ==> ((#[trigger] self.neighbors@[i as int]@[jj]) matches Some(
                            m,
                        ) ==> self.rules.spec_allowed(
                            assign@[i as int] as int,
                            direction_from_index(jj),
                            assign@[m as int] as int,
                        )),
                decreases dc - j,
            {
                match self.neighbors[i][j] {
                    Some(m) => {
                        let a = assign[i];
                        let b = assign[m];
                        proof {
                            crate::direction::lemma_direction_index_roundtrip(j as int);
                            crate::direction::lemma_opposite_index_bound(j as int);
                        }
                        if !self.rules.allowed[a][j][b] {
                            proof {
                                assert(!self.rules.spec_allowed(
                                    a as int,
                                    direction_from_index(j as int),
                                    b as int,
                                ));
                            }
                            return Some(i);
                        }
                    },
                    None => {},
                }
                j += 1;
            }
            i += 1;
        }
        proof {
            assert forall|e: int, j: int|
                0 <= e < n && 0 <= j
                    < self.grid.coord_system.spec_directions().len() implies ((#[trigger] self.grid.spec_next_index(
                self.grid.spec_pos_from_index(e),
                direction_from_index(j),
            )) matches Some(m) ==> self.rules.spec_allowed(
                assign@[e] as int,
                direction_from_index(j),
                assign@[m as int] as int,
            )) by {
                assert(self.neighbors@[e]@[j] == self.grid.spec_next_index(
                    self.grid.spec_pos_from_index(e),
                    direction_from_index(j),
                ));
            }
        }
        None
    }

    /// Runs one full generation attempt: resets the state, then alternates
    /// propagation and collapsing until every node is determined or a
    /// possibility set empties. Every step lowers the total possibility
    /// count or drains the queue, so an attempt always finishes, within a
    /// number of steps bounded by node count times instance count. On
    /// success the returned data maps every node to its committed instance,
    /// and every pair of adjacent nodes satisfies the rule table; on failure
    /// the offending node is reported and no partial state leaks into the
    /// next attempt.
    pub fn generate_grid(&mut self) -> (r: Result<
        (GenInfo, GridData<ModelInstance, CartesianGrid<C>>),
        GeneratorError,
    >)
        requires
            old(self).wf(),
        ensures
            final(self).wf(),
            final(self).grid == old(self).grid,
            final(self).rules == old(self).rules,
            (old(self).grid.spec_total_size() == 1 && !old(self).grid.looping_x && !old(
                self,
            ).grid.looping_y && !old(self).grid.looping_z) ==> r is Ok,
            old(self).rules.spec_all_pairs_allowed() ==> r is Ok,
            match r {
                Ok(p) => ({
                    &&& p.0.processed_nodes == old(self).grid.spec_total_size()
                    &&& p.1.wf()
                    &&& p.1.spec_grid() == old(self).grid
                    &&& p.1.spec_data().len() == old(self).grid.spec_total_size()
                    &&& exists|assign: Seq<usize>|
                        #![auto]
                        spec_consistent_assignment(final(self).rules, final(self).grid, assign) && (
                        forall|i: int|
                            0 <= i < assign.len() ==> p.1.spec_data()[i]
                                == final(self).rules.instances@[assign[i] as int])
                    &&& forall|i: int|
                        0 <= i < final(self).counts@.len()
                            ==> (#[trigger] final(self).counts@[i]) == 1
                }),
                Err(e) => e.node_index < old(self).grid.spec_total_size(),
            },
    {
        self.reset();
        let n = self.grid.total_size();
        let mut done = false;
        while !done
            invariant
                self.wf(),
                self.all_nonempty(),
                self.grid == old(self).grid,
                self.rules == old(self).rules,
                self.neighbors == old(self).neighbors,
                n == self.grid.spec_total_size(),
                done ==> (forall|i: int|
                    0 <= i < self.counts@.len() ==> (#[trigger] self.counts@[i]) == 1) && self.head
                    == self.queue@.len(),
            decreases
                    sum_counts(self.counts@),
                    self.queue@.len() - self.head,
                    (if done {
                        0int
                    } else {
                        1int
                    }),
        {
            proof {
                lemma_sum_nonneg(self.counts@);
            }
            if self.head < self.queue.len() {
                let node = self.pop_queue();
                proof {
                    if old(self).grid.spec_total_size() == 1 && !old(self).grid.looping_x && !old(
                        self,
                    ).grid.looping_y && !old(self).grid.looping_z {
                        assert(node == 0);
                        assert forall|jj: int|
                            0 <= jj < self.rules.directions_count implies (
                        #[trigger] self.neighbors@[node as int]@[jj]) is None by {
                            self.grid.lemma_single_node_no_neighbours(
                                crate::direction::direction_from_index(jj),
                            );
                        }
                    }
                }
                match self.propagate_from(node) {
                    Err(m) => {
                        return Err(GeneratorError { node_index: m });
                    },
                    Ok(_any) => {},
                }
            } else {
                match self.select_node() {
                    Some(node) => {
                        self.collapse_node(node);
                    },
                    None => {
                        done = true;
                    },
                }
            }
            proof {
                lemma_sum_nonneg(self.counts@);
            }
        }
        let assign = self.extract_assignment();
        proof {
            if old(self).grid.spec_total_size() == 1 && !old(self).grid.looping_x && !old(
                self,
            ).grid.looping_y && !old(self).grid.looping_z {
                assert forall|i: int, jj: int|
                    0 <= i < assign@.len() && 0 <= jj
                        < self.grid.coord_system.spec_directions().len() implies ((
                #[trigger] self.grid.spec_next_index(
                    self.grid.spec_pos_from_index(i),
                    direction_from_index(jj),
                )) matches Some(mm) ==> self.rules.spec_allowed(
                    assign@[i] as int,
                    direction_from_index(jj),
                    assign@[mm as int] as int,
                )) by {
                    assert(i == 0);
                    self.grid.lemma_single_node_no_neighbours(direction_from_index(jj));
                }
                assert(spec_consistent_assignment(self.rules, self.grid, assign@));
            }
            if old(self).rules.spec_all_pairs_allowed() {
                let k = self.rules.spec_instance_count();
                assert forall|i: int, jj: int|
                    0 <= i < assign@.len() && 0 <= jj
                        < self.grid.coord_system.spec_directions().len() implies ((
                #[trigger] self.grid.spec_next_index(
                    self.grid.spec_pos_from_index(i),
                    direction_from_index(jj),
                )) matches Some(mm) ==> self.rules.spec_allowed(
                    assign@[i] as int,
                    direction_from_index(jj),
                    assign@[mm as int] as int,
                )) by {
                    self.grid.lemma_index_of_pos_of_index(i);
                    self.grid.lemma_next_index_bounds(
                        self.grid.spec_pos_from_index(i),
                        direction_from_index(jj),
                    );
                    crate::direction::lemma_direction_index_roundtrip(jj);
                    match self.grid.spec_next_index(
                        self.grid.spec_pos_from_index(i),
                        direction_from_index(jj),
                    ) {
                        Some(mm) => {
                            assert(mm < assign@.len());
                            assert(old(
                                self,
                            ).rules.allowed@[assign@[i] as int]@[jj]@[assign@[mm as int] as int]);
                        },
                        None => {},
                    }
                }
                assert(spec_consistent_assignment(self.rules, self.grid, assign@));
            }
        }
        match self.check_consistency(&assign) {
            Some(bad) => {
                return Err(GeneratorError { node_index: bad });
            },
            None => {},
        }
        let mut data: Vec<ModelInstance> = Vec::new();
        let mut i: usize = 0;
        while i < n
            invariant
                i <= n,
                self.wf(),
                n == self.grid.spec_total_size(),
                assign@.len() == n,
                forall|e: int|
                    0 <= e < n ==> (#[trigger] assign@[e]) < self.rules.spec_instance_count(),
                data@.len() == i,
                forall|e: int|
                    0 <= e < i ==> (#[trigger] data@[e]) == self.rules.instances@[assign@[e] as int],
            decreases n - i,
        {
            data.push(self.rules.instances[assign[i]]);
            i += 1;
        }
        let gd = GridData::new(self.grid, data);
        proof {
            assert(spec_consistent_assignment(self.rules, self.grid, assign@) && (forall|i: int|
                0 <= i < assign@.len() ==> gd.spec_data()[i] == self.rules.instances@[assign@[i] as int]));
        }
        Ok((GenInfo { processed_nodes: n }, gd))
    }
}

/// Whether `assign` maps every node to an instance and every pair of
/// adjacent nodes to mutually permitted instances.
pub open spec fn spec_consistent_assignment<C: CartesianCoordinates>(
    rules: Rules,
    grid: CartesianGrid<C>,
    assign: Seq<usize>,
) -> bool {
    &&& assign.len() == grid.spec_total_size()
    &&& forall|i: int| 0 <= i < assign.len() ==> (#[trigger] assign[i]) < rules.spec_instance_count()
    &&& forall|i: int, j: int|
        0 <= i < assign.len() && 0 <= j < grid.coord_system.spec_directions().len() ==> ((
        #[trigger] grid.spec_next_index(grid.spec_pos_from_index(i), direction_from_index(j)))
            matches Some(m) ==> rules.spec_allowed(
            assign[i] as int,
            direction_from_index(j),
            assign[m as int] as int,
        ))
}

/// Returns the position of the first `true` of a non-empty mask.
fn first_true(s: &Vec<bool>) -> (r: usize)
    requires
        count_trues(s@) >= 1,
    ensures
        r < s@.len(),
        s@[r as int],
{
    let n = s.len();
    let mut x: usize = 0;
    while x < n
        invariant
            x <= n,
            n == s@.len(),
            count_trues(s@) >= 1,
            forall|e: int| 0 <= e < x ==> !(#[trigger] s@[e]),
        decreases n - x,
    {
        if s[x] {
            return x;
        }
        x += 1;
    }
    proof {
        lemma_count_pos_exists(s@);
        assert(false);
    }
    0
}

/// Gathers a grid, rules and strategies and builds a generator.
pub struct GeneratorBuilder<C: CartesianCoordinates> {
    /// The rules to generate against.
    pub rules: Option<Rules>,
    /// The grid to fill.
    pub grid: Option<CartesianGrid<C>>,
    /// How the randomness source is seeded.
    pub rng_mode: RngMode,
    /// How the next node to collapse is picked.
    pub node_heuristic: NodeSelectionHeuristic,
    /// How the instance for a collapsed node is picked.
    pub model_heuristic: ModelSelectionHeuristic,
}

impl<C: CartesianCoordinates> GeneratorBuilder<C> {
    /// Starts a build with no rules or grid, a fresh seed per attempt, and
    /// the minimum-remaining-value and weighted-probability heuristics.
    pub fn new() -> (r: GeneratorBuilder<C>)
        ensures
            r.rules is None,
            r.grid is None,
            r.rng_mode == RngMode::RandomSeed,
            r.node_heuristic == NodeSelectionHeuristic::MinimumRemainingValue,
            r.model_heuristic == ModelSelectionHeuristic::WeightedProbability,
    {
        GeneratorBuilder {
            rules: None,
            grid: None,
            rng_mode: RngMode::RandomSeed,
            node_heuristic: NodeSelectionHeuristic::MinimumRemainingValue,
            model_heuristic: ModelSelectionHeuristic::WeightedProbability,
        }
    }

    /// Sets the rules to generate against.
    pub fn with_rules(self, rules: Rules) -> (r: Self)
        ensures
            r.rules == Some(rules),
            r.grid == self.grid,
            r.rng_mode == self.rng_mode,
            r.node_heuristic == self.node_heuristic,
            r.model_heuristic == self.model_heuristic,
    {
        GeneratorBuilder { rules: Some(rules), ..self }
    }

    /// Sets the grid to fill.
    pub fn with_grid(self, grid: CartesianGrid<C>) -> (r: Self)
        ensures
            r.grid == Some(grid),
            r.rules == self.rules,
            r.rng_mode == self.rng_mode,
            r.node_heuristic == self.node_heuristic,
            r.model_heuristic == self.model_heuristic,
    {
        GeneratorBuilder { grid: Some(grid), ..self }
    }

    /// Sets how the randomness source is seeded.
    pub fn with_rng(self, rng_mode: RngMode) -> (r: Self)
        ensures
            r.rng_mode == rng_mode,
            r.rules == self.rules,
            r.grid == self.grid,
            r.node_heuristic == self.node_heuristic,
            r.model_heuristic == self.model_heuristic,
    {
        GeneratorBuilder { rng_mode, ..self }
    }

    /// Sets how the next node to collapse is picked.
    pub fn with_node_heuristic(self, node_heuristic: NodeSelectionHeuristic) -> (r: Self)
        ensures
            r.node_heuristic == node_heuristic,
            r.rules == self.rules,
            r.grid == self.grid,
            r.rng_mode == self.rng_mode,
            r.model_heuristic == self.model_heuristic,
    {
        GeneratorBuilder { node_heuristic, ..self }
    }

    /// Sets how the instance for a collapsed node is picked.
    pub fn with_model_heuristic(self, model_heuristic: ModelSelectionHeuristic) -> (r: Self)
        ensures
            r.model_heuristic == model_heuristic,
            r.rules == self.rules,
            r.grid == self.grid,
            r.rng_mode == self.rng_mode,
            r.node_heuristic == self.node_heuristic,
    {
        GeneratorBuilder { model_heuristic, ..self }
    }

    /// Builds the generator, or reports what is missing or mismatched.
    pub fn build(self) -> (r: Result<Generator<C>, GeneratorBuilderError>)
        requires
            self.rules matches Some(ru) ==> ru.wf(),
            self.grid matches Some(g) ==> g.inv_spec(),
        ensures
            r is Ok <==> (self.rules matches Some(ru) && self.grid matches Some(g)
                && ru.directions_count == g.coord_system.spec_directions().len()),
            r matches Ok(gen) ==> gen.wf() && self.grid == Some(gen.grid) && self.rules == Some(
                gen.rules,
            ) && gen.rng_mode == self.rng_mode && gen.node_heuristic == self.node_heuristic
                && gen.model_heuristic == self.model_heuristic,
            r == Err::<Generator<C>, GeneratorBuilderError>(GeneratorBuilderError::NoRules)
                ==> self.rules is None,
            r == Err::<Generator<C>, GeneratorBuilderError>(GeneratorBuilderError::NoGrid)
                ==> self.grid is None,
            r == Err::<Generator<C>, GeneratorBuilderError>(
                GeneratorBuilderError::CoordinateSystemMismatch,
            ) ==> (self.rules matches Some(ru) && self.grid matches Some(g)
                && ru.directions_count != g.coord_system.spec_directions().len()),
    {
        let rules = match self.rules {
            Some(r) => r,
            None => {
                return Err(GeneratorBuilderError::NoRules);
            },
        };
        let grid = match self.grid {
            Some(g) => g,
            None => {
                return Err(GeneratorBuilderError::NoGrid);
            },
        };
        let dcg = grid.coord_system.directions_count();
        if rules.directions_count != dcg {
            return Err(GeneratorBuilderError::CoordinateSystemMismatch);
        }
        let n = grid.total_size();
        let k = rules.instance_count();
        proof {
            grid.coord_system.lemma_directions_well_formed();
        }
        let mut neighbors: Vec<Vec<Option<usize>>> = Vec::new();
        let mut i: usize = 0;
        while i < n
            invariant
                i <= n,
                grid.inv_spec(),
                n == grid.spec_total_size(),
                dcg == grid.coord_system.spec_directions().len(),
                crate::coordinate_system::directions_well_formed(
                    grid.coord_system.spec_directions(),
                ),
                neighbors@.len() == i,
                forall|e: int| 0 <= e < i ==> (#[trigger] neighbors@[e])@.len() == dcg,
                forall|e: int, j: int|
                    0 <= e < i && 0 <= j < dcg ==> (#[trigger] neighbors@[e]@[j])
                        == grid.spec_next_index(
                        grid.spec_pos_from_index(e),
                        direction_from_index(j),
                    ),
                forall|e: int, j: int|
                    0 <= e < i && 0 <= j < dcg ==> ((#[trigger] neighbors@[e]@[j]) matches Some(m)
                        ==> m < n),
            decreases n - i,
        {
            let mut buf: Vec<Option<usize>> = Vec::new();
            let mut j: usize = 0;
            while j < dcg
                invariant
                    j <= dcg,
                    buf@.len() == j,
                decreases dcg - j,
            {
                buf.push(None);
                j += 1;
            }
            grid.get_neighbours_in_all_directions(i, &mut buf);
            neighbors.push(buf);
            i += 1;
        }
        let mut possibilities: Vec<Vec<bool>> = Vec::new();
        let mut counts: Vec<usize> = Vec::new();
        let mut in_queue: Vec<bool> = Vec::new();
        let mut i: usize = 0;
        while i < n
            invariant
                i <= n,
                k == rules.spec_instance_count(),
                possibilities@.len() == i,
                counts@.len() == i,
                in_queue@.len() == i,
                forall|e: int| 0 <= e < i ==> (#[trigger] possibilities@[e])@.len() == k,
                forall|e: int|
                    0 <= e < i ==> (#[trigger] counts@[e]) as int == count_trues(
                        possibilities@[e]@,
                    ),
                forall|e: int| 0 <= e < i ==> !(#[trigger] in_queue@[e]),
            decreases n - i,
        {
            let mut row: Vec<bool> = Vec::new();
            let mut y: usize = 0;
            while y < k
                invariant
                    y <= k,
                    row@.len() == y,
                    count_trues(row@) == y,
                decreases k - y,
            {
                proof {
                    lemma_count_trues_push(row@, true);
                }
                row.push(true);
                y += 1;
            }
            possibilities.push(row);
            counts.push(k);
            in_queue.push(false);
            i += 1;
        }
        let gen = Generator {
            grid,
            rules,
            neighbors,
            possibilities,
            counts,
            queue: Vec::new(),
            head: 0,
            in_queue,
            rng: RngState::new(0),
            rng_mode: self.rng_mode,
            node_heuristic: self.node_heuristic,
            model_heuristic: self.model_heuristic,
        };
        Ok(gen)
    }
}

} // verus!
