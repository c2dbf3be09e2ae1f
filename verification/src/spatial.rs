//! An append-only proximity graph over positions derived from feature
//! vectors.
//!
//! Two nodes are linked exactly when their positions lie closer together
//! than the graph's threshold; each node's links are listed by ascending
//! neighbor id, and every link is stored with both of its ends.

use ahash::AHashMap;
use vstd::prelude::*;
use vstd::slice::slice_to_vec;
use crate::config::ConfigError;
use crate::fixed::{
    abs, isqrt, lemma_scaled_quotient_fits, lemma_sqrt_floor_exists, lemma_sqrt_floor_monotone,
    scaled_quotient, sqrt_floor, SCALE,
};

verus! {

/// The default distance threshold: fifty units.
pub const DEFAULT_THRESHOLD: u64 = 50_000_000;

/// The bytes by which a node enters the memory estimate.
pub const NODE_FOOTPRINT: u128 = 64;

/// The bytes by which a stored link enters the memory estimate.
pub const LINK_FOOTPRINT: u128 = 16;

/// The factor from the first and from the second feature to `x` and `y`.
pub const PLANAR_GAIN: i64 = 100;

/// The factor from the third feature to `z`.
pub const VERTICAL_GAIN: i64 = 10;

/// A link to a neighbor: its id and the distance to it in millionths.
pub type Link = (usize, u64);

/// `ahash::AHashMap`, the hash map that holds the adjacency lists. Nothing
/// is known of its inside; what it holds goes by the name [`adjacency`].
#[verifier::external_type_specification]
#[verifier::external_body]
#[verifier::reject_recursive_types(K)]
#[verifier::reject_recursive_types(V)]
#[verifier::reject_recursive_types(S)]
pub struct ExAHashMap<K, V, S>(AHashMap<K, V, S>);

/// `ahash::RandomState`, the hasher state that an `AHashMap` is made with.
#[verifier::external_type_specification]
#[verifier::external_body]
pub struct ExRandomState(ahash::RandomState);

/// What an adjacency map holds: for each key, the list stored under it.
pub uninterp spec fn adjacency(edges: AHashMap<usize, Vec<Link>>) -> Map<usize, Seq<Link>>;

/// `AHashMap::with_capacity`: a map that holds nothing.
#[verifier::external_body]
fn edges_with_capacity(capacity: usize) -> (edges: AHashMap<usize, Vec<Link>>)
    ensures
        adjacency(edges) =~= Map::empty(),
{
    AHashMap::with_capacity(capacity)
}

/// `AHashMap::get`: the list stored under `key`, if there is one.
#[verifier::external_body]
fn edges_get(edges: &AHashMap<usize, Vec<Link>>, key: usize) -> (list: Option<&Vec<Link>>)
    ensures
        list is Some <==> adjacency(*edges).contains_key(key),
        list is Some ==> list->Some_0@ == adjacency(*edges)[key],
{
    edges.get(&key)
}

/// `AHashMap::remove`: takes the list stored under `key` out of the map and
/// returns it, if there is one; every other key keeps its list.
#[verifier::external_body]
fn edges_remove(edges: &mut AHashMap<usize, Vec<Link>>, key: usize) -> (list: Option<Vec<Link>>)
    ensures
        adjacency(*final(edges)) =~= adjacency(*old(edges)).remove(key),
        list is Some <==> adjacency(*old(edges)).contains_key(key),
        list is Some ==> list->Some_0@ == adjacency(*old(edges))[key],
{
    edges.remove(&key)
}

/// `AHashMap::insert`: stores `list` under `key`, in place of any list that
/// was there; every other key keeps its list.
#[verifier::external_body]
fn edges_insert(edges: &mut AHashMap<usize, Vec<Link>>, key: usize, list: Vec<Link>)
    ensures
        adjacency(*final(edges)) =~= adjacency(*old(edges)).insert(key, list@),
{
    edges.insert(key, list);
}

/// A point in space; coordinates are in millionths.
#[derive(Debug, Clone, Copy, PartialEq, Eq, Structural)]
pub struct Position {
    pub x: i64,
    pub y: i64,
    pub z: i64,
}

/// A node of the graph.
#[derive(Debug, Clone)]
pub struct Node {
    /// The node's id: its place in the order of insertion, from zero.
    pub id: usize,
    /// The position derived from the first three features.
    pub position: Position,
    /// The feature vector the node was made from.
    pub features: Vec<i32>,
}

/// The coordinate that feature number `axis` gives under `gain`; zero where
/// the vector has no such feature.
pub open spec fn coordinate(features: Seq<i32>, axis: int, gain: int) -> int {
    if axis < features.len() {
        features[axis] * gain
    } else {
        0
    }
}

/// The position derived from a feature vector.
pub open spec fn position_of(features: Seq<i32>) -> Position {
    Position {
        x: coordinate(features, 0, PLANAR_GAIN as int) as i64,
        y: coordinate(features, 1, PLANAR_GAIN as int) as i64,
        z: coordinate(features, 2, VERTICAL_GAIN as int) as i64,
    }
}

/// The squared Euclidean distance between two positions.
pub open spec fn dist_sq(a: Position, b: Position) -> int {
    (a.x - b.x) * (a.x - b.x) + (a.y - b.y) * (a.y - b.y) + (a.z - b.z) * (a.z - b.z)
}

/// The Euclidean distance between two positions, rounded down.
pub open spec fn dist(a: Position, b: Position) -> int {
    sqrt_floor(dist_sq(a, b))
}

/// Whether two positions lie closer together than `threshold`.
pub open spec fn near(a: Position, b: Position, threshold: u64) -> bool {
    dist_sq(a, b) < threshold * threshold
}

/// Whether each coordinate is one that a feature vector can give.
pub open spec fn derived_range(p: Position) -> bool {
    &&& -0x8000_0000 * PLANAR_GAIN <= p.x <= 0x8000_0000 * PLANAR_GAIN
    &&& -0x8000_0000 * PLANAR_GAIN <= p.y <= 0x8000_0000 * PLANAR_GAIN
    &&& -0x8000_0000 * PLANAR_GAIN <= p.z <= 0x8000_0000 * PLANAR_GAIN
}

/// The link from node `u` to node `v`.
pub open spec fn link_to(ps: Seq<Position>, u: int, v: int) -> Link {
    (v as usize, dist(ps[u], ps[v]) as u64)
}

/// The links of node `u` to the nodes with an id below `m`, by ascending id.
pub open spec fn neighbors(ps: Seq<Position>, threshold: u64, u: int, m: nat) -> Seq<Link>
    decreases m,
{
    if m == 0 {
        Seq::empty()
    } else {
        let rest = neighbors(ps, threshold, u, (m - 1) as nat);
        if m - 1 != u && near(ps[u], ps[m - 1], threshold) {
            rest.push(link_to(ps, u, m - 1))
        } else {
            rest
        }
    }
}

/// The adjacency map of the nodes at `ps`: every node that has a neighbor
/// is a key, and its list holds all its links.
pub open spec fn expected_adjacency(ps: Seq<Position>, threshold: u64) -> Map<usize, Seq<Link>> {
    Map::new(
        |u: usize| u < ps.len() && neighbors(ps, threshold, u as int, ps.len()).len() > 0,
        |u: usize| neighbors(ps, threshold, u as int, ps.len()),
    )
}

/// The number of links stored for the first `m` nodes at `ps`.
pub open spec fn degree_sum(ps: Seq<Position>, threshold: u64, m: nat) -> nat
    decreases m,
{
    if m == 0 {
        0
    } else {
        degree_sum(ps, threshold, (m - 1) as nat) + neighbors(
            ps,
            threshold,
            m - 1,
            ps.len(),
        ).len()
    }
}

/// The number of pairs among the first `m` nodes at `ps` that lie within
/// the threshold of each other: for each node, its links to the nodes
/// before it.
pub open spec fn pair_count(ps: Seq<Position>, threshold: u64, m: nat) -> nat
    decreases m,
{
    if m == 0 {
        0
    } else {
        pair_count(ps, threshold, (m - 1) as nat) + neighbors(
            ps,
            threshold,
            m - 1,
            (m - 1) as nat,
        ).len()
    }
}

/// The bytes estimated for a graph of `nodes` nodes with `links` stored
/// links, at most the largest 128-bit number.
pub open spec fn footprint(nodes: nat, links: nat) -> nat {
    if nodes * NODE_FOOTPRINT + links * LINK_FOOTPRINT > u128::MAX {
        u128::MAX as nat
    } else {
        nodes * NODE_FOOTPRINT as nat + links * LINK_FOOTPRINT as nat
    }
}

/// Whether node `a` comes before node `b` when the nodes at `ps` are
/// ranked by their distance from `query`, equal distances by id.
pub open spec fn ranks_before(ps: Seq<Position>, query: Position, a: int, b: int) -> bool {
    dist_sq(query, ps[a]) < dist_sq(query, ps[b]) || (dist_sq(query, ps[a]) == dist_sq(
        query,
        ps[b],
    ) && a < b)
}

/// Whether node `id` is among the entries of `found`.
pub open spec fn listed(found: Seq<Link>, id: int) -> bool {
    exists|j: int| 0 <= j < found.len() && #[trigger] found[j].0 == id
}

/// Whether `found` holds the `count` nodes at `ps` that rank first by
/// distance from `query`, in the order of their rank, each with its
/// distance. There is exactly one such list.
pub open spec fn is_nearest(
    ps: Seq<Position>,
    query: Position,
    count: nat,
    found: Seq<Link>,
) -> bool {
    &&& found.len() == count
    &&& forall|j: int|
        0 <= j < found.len() ==> {
            &&& (#[trigger] found[j]).0 < ps.len()
            &&& found[j].1 == dist(query, ps[found[j].0 as int])
        }
    &&& forall|i: int, j: int|
        0 <= i < j < found.len() ==> ranks_before(
            ps,
            query,
            #[trigger] found[i].0 as int,
            #[trigger] found[j].0 as int,
        )
    &&& forall|id: int, j: int|
        #![trigger listed(found, id), found[j]]
        0 <= id < ps.len() && 0 <= j < found.len() && !listed(found, id) ==> ranks_before(
            ps,
            query,
            found[j].0 as int,
            id,
        )
}

proof fn lemma_gap_square(a: int, b: int, g: int)
    by (nonlinear_arith)
    requires
        g == abs(a - b),
    ensures
        g * g == (a - b) * (a - b),
        g * g >= 0,
{
}

/// The distance between `a` and `b` along one axis.
fn gap(a: i64, b: i64) -> (g: u128)
    ensures
        g == abs(a - b),
{
    let d: i128 = a as i128 - b as i128;
    if d < 0 {
        (-d) as u128
    } else {
        d as u128
    }
}

impl Position {
    /// The squared Euclidean distance to `other`, which must fit in 128
    /// bits.
    #[inline(always)]
    pub fn distance_squared_to(&self, other: &Position) -> (d: u128)
        requires
            dist_sq(*self, *other) <= u128::MAX,
        ensures
            d == dist_sq(*self, *other),
    {
        let dx = gap(self.x, other.x);
        let dy = gap(self.y, other.y);
        let dz = gap(self.z, other.z);
        proof {
            lemma_gap_square(self.x as int, other.x as int, dx as int);
            lemma_gap_square(self.y as int, other.y as int, dy as int);
            lemma_gap_square(self.z as int, other.z as int, dz as int);
        }
        dx * dx + dy * dy + dz * dz
    }

    /// The Euclidean distance to `other`, rounded down; its square must fit
    /// in 128 bits.
    #[inline(always)]
    pub fn distance_to(&self, other: &Position) -> (d: u64)
        requires
            dist_sq(*self, *other) <= u128::MAX,
        ensures
            d == dist(*self, *other),
    {
        isqrt(self.distance_squared_to(other))
    }

    /// The position derived from a feature vector: the first two features
    /// scaled by [`PLANAR_GAIN`], the third by [`VERTICAL_GAIN`], a missing
    /// one taken as zero.
    pub fn from_features(features: &[i32]) -> (p: Position)
        ensures
            p == position_of(features@),
            derived_range(p),
    {
        let x: i64 = if features.len() > 0 {
            features[0] as i64 * PLANAR_GAIN
        } else {
            0
        };
        let y: i64 = if features.len() > 1 {
            features[1] as i64 * PLANAR_GAIN
        } else {
            0
        };
        let z: i64 = if features.len() > 2 {
            features[2] as i64 * VERTICAL_GAIN
        } else {
            0
        };
        Position { x, y, z }
    }
}

/// The squared distance does not depend on the direction.
pub proof fn lemma_dist_symmetric(a: Position, b: Position)
    ensures
        dist_sq(a, b) == dist_sq(b, a),
        dist_sq(a, b) >= 0,
        dist(a, b) == dist(b, a),
{
    assert(dist_sq(a, b) == dist_sq(b, a) && dist_sq(a, b) >= 0) by (nonlinear_arith)
        requires
            dist_sq(a, b) == (a.x - b.x) * (a.x - b.x) + (a.y - b.y) * (a.y - b.y) + (a.z - b.z)
                * (a.z - b.z),
            dist_sq(b, a) == (b.x - a.x) * (b.x - a.x) + (b.y - a.y) * (b.y - a.y) + (b.z - a.z)
                * (b.z - a.z),
    ;
}

/// The squared distance from any position to a derived one fits in 128
/// bits, and so does the distance in 64.
pub proof fn lemma_dist_fits(a: Position, b: Position)
    requires
        derived_range(b),
    ensures
        0 <= dist_sq(a, b) <= u128::MAX,
        0 <= dist(a, b) <= u64::MAX,
{
    let dx = a.x - b.x;
    let dy = a.y - b.y;
    let dz = a.z - b.z;
    let m: int = 0x8000_0000_0000_0000int + 0x8000_0000int * 100int;
    assert(0 <= dx * dx <= m * m) by (nonlinear_arith)
        requires
            -m <= dx <= m,
    ;
    assert(0 <= dy * dy <= m * m) by (nonlinear_arith)
        requires
            -m <= dy <= m,
    ;
    assert(0 <= dz * dz <= m * m) by (nonlinear_arith)
        requires
            -m <= dz <= m,
    ;
    assert(3 * (m * m) <= u128::MAX) by (nonlinear_arith)
        requires
            m == 0x8000_0000_0000_0000 + 0x8000_0000 * 100,
    ;
    lemma_sqrt_floor_exists(dist_sq(a, b));
    let r = dist(a, b);
    if r > u64::MAX {
        assert(r * r >= 0x1_0000_0000_0000_0000 * 0x1_0000_0000_0000_0000) by (nonlinear_arith)
            requires
                r >= 0x1_0000_0000_0000_0000,
        ;
    }
}

/// The links of a node to the nodes below `m` do not depend on the nodes
/// from `m` on.
pub proof fn lemma_neighbors_prefix(
    ps: Seq<Position>,
    p: Position,
    threshold: u64,
    u: int,
    m: nat,
)
    requires
        0 <= u < ps.len(),
        m <= ps.len(),
    ensures
        neighbors(ps.push(p), threshold, u, m) == neighbors(ps, threshold, u, m),
    decreases m,
{
    if m > 0 {
        lemma_neighbors_prefix(ps, p, threshold, u, (m - 1) as nat);
    }
}

/// The links of a node are exactly those to the other nodes within the
/// threshold: node `u` lists a link to `v` with distance `d` if and only
/// if `v` is another node below `m`, lies within the threshold of `u`, and
/// `d` is the distance between them.
pub proof fn lemma_neighbors_listed(
    ps: Seq<Position>,
    threshold: u64,
    u: int,
    m: nat,
    v: int,
    d: u64,
)
    requires
        ps.len() <= usize::MAX,
        0 <= u < ps.len(),
        m <= ps.len(),
        0 <= v < ps.len(),
    ensures
        neighbors(ps, threshold, u, m).contains((v as usize, d)) <==> (v < m && v != u && near(
            ps[u],
            ps[v],
            threshold,
        ) && d == dist(ps[u], ps[v]) as u64),
    decreases m,
{
    if m > 0 {
        lemma_neighbors_listed(ps, threshold, u, (m - 1) as nat, v, d);
        let rest = neighbors(ps, threshold, u, (m - 1) as nat);
        if m - 1 != u && near(ps[u], ps[m - 1], threshold) {
            let link = link_to(ps, u, m - 1);
            let all = rest.push(link);
            if rest.contains((v as usize, d)) {
                let at = choose|i: int| 0 <= i < rest.len() && rest[i] == (v as usize, d);
                assert(all[at] == (v as usize, d));
            }
            if all.contains((v as usize, d)) {
                let at = choose|i: int| 0 <= i < all.len() && all[i] == (v as usize, d);
                if at < rest.len() {
                    assert(rest[at] == (v as usize, d));
                }
            }
            if v == m - 1 && d == dist(ps[u], ps[v]) as u64 {
                assert(all[all.len() - 1] == (v as usize, d));
            }
        }
    }
}

/// The adjacency is symmetric: if node `u` lists a link to `v` with some
/// distance, node `v` lists a link to `u` with the same distance.
pub proof fn lemma_links_symmetric(ps: Seq<Position>, threshold: u64, u: int, v: int, d: u64)
    requires
        ps.len() <= usize::MAX,
        0 <= u < ps.len(),
        0 <= v < ps.len(),
        neighbors(ps, threshold, u, ps.len()).contains((v as usize, d)),
    ensures
        neighbors(ps, threshold, v, ps.len()).contains((u as usize, d)),
{
    lemma_neighbors_listed(ps, threshold, u, ps.len(), v, d);
    lemma_neighbors_listed(ps, threshold, v, ps.len(), u, d);
    lemma_dist_symmetric(ps[u], ps[v]);
}

/// The links of a node to the nodes below `m` do not depend on the nodes
/// from `m` on, the node itself aside.
proof fn lemma_neighbors_without_last(ps: Seq<Position>, threshold: u64, u: int, m: nat)
    requires
        ps.len() >= 1,
        0 <= u < ps.len() - 1,
        m <= ps.len() - 1,
    ensures
        neighbors(ps, threshold, u, m) == neighbors(ps.drop_last(), threshold, u, m),
    decreases m,
{
    if m > 0 {
        lemma_neighbors_without_last(ps, threshold, u, (m - 1) as nat);
    }
}

proof fn lemma_pair_count_without_last(ps: Seq<Position>, threshold: u64, m: nat)
    requires
        ps.len() >= 1,
        m <= ps.len() - 1,
    ensures
        pair_count(ps, threshold, m) == pair_count(ps.drop_last(), threshold, m),
    decreases m,
{
    if m > 0 {
        lemma_pair_count_without_last(ps, threshold, (m - 1) as nat);
        lemma_neighbors_without_last(ps, threshold, m - 1, (m - 1) as nat);
    }
}

/// What the last node adds to the links stored for the first `m` nodes:
/// one link for each of them that it lies within the threshold of.
proof fn lemma_degree_sum_with_last(ps: Seq<Position>, threshold: u64, m: nat)
    requires
        ps.len() >= 1,
        m <= ps.len() - 1,
    ensures
        degree_sum(ps, threshold, m) == degree_sum(ps.drop_last(), threshold, m) + neighbors(
            ps,
            threshold,
            ps.len() - 1,
            m,
        ).len(),
    decreases m,
{
    if m > 0 {
        let last = ps.len() - 1;
        lemma_degree_sum_with_last(ps, threshold, (m - 1) as nat);
        lemma_neighbors_without_last(ps, threshold, m - 1, last as nat);
        lemma_dist_symmetric(ps[m - 1], ps[last]);
    }
}

/// Every edge is stored twice: the links stored over all nodes are twice
/// the pairs of nodes that lie within the threshold of each other.
pub proof fn lemma_links_are_twice_the_pairs(ps: Seq<Position>, threshold: u64)
    ensures
        degree_sum(ps, threshold, ps.len()) == 2 * pair_count(ps, threshold, ps.len()),
    decreases ps.len(),
{
    if ps.len() > 0 {
        let last = (ps.len() - 1) as nat;
        lemma_links_are_twice_the_pairs(ps.drop_last(), threshold);
        lemma_degree_sum_with_last(ps, threshold, last);
        lemma_pair_count_without_last(ps, threshold, last);
    }
}

/// An append-only graph that links each new node to every node within its
/// distance threshold.
#[derive(Debug)]
pub struct SpatialGraph {
    nodes: Vec<Node>,
    edges: AHashMap<usize, Vec<Link>>,
    next_id: usize,
    threshold: u64,
}

impl SpatialGraph {
    /// The nodes in the order of their insertion.
    pub closed spec fn nodes(&self) -> Seq<Node> {
        self.nodes@
    }

    /// The positions of the nodes in the order of their insertion.
    pub open spec fn positions(&self) -> Seq<Position> {
        Seq::new(self.nodes().len(), |i: int| self.nodes()[i].position)
    }

    /// The adjacency map: for each node that has a neighbor, its links.
    pub closed spec fn links(&self) -> Map<usize, Seq<Link>> {
        adjacency(self.edges)
    }

    /// The distance below which two nodes are linked.
    pub closed spec fn threshold(&self) -> u64 {
        self.threshold
    }

    /// The graph's invariant: ids count up from zero in the order of
    /// insertion, every position is the one its features give, the
    /// threshold is positive, and the adjacency map holds exactly the links
    /// between the nodes that lie within the threshold of each other.
    pub closed spec fn wf(&self) -> bool {
        &&& self.next_id == self.nodes@.len()
        &&& self.threshold >= 1
        &&& forall|i: int|
            0 <= i < self.nodes@.len() ==> {
                &&& (#[trigger] self.nodes@[i]).id == i
                &&& self.nodes@[i].position == position_of(self.nodes@[i].features@)
                &&& derived_range(self.nodes@[i].position)
            }
        &&& adjacency(self.edges) == expected_adjacency(self.positions(), self.threshold)
    }

    /// What `wf` says, for use outside this module.
    pub proof fn lemma_wf(&self)
        requires
            self.wf(),
        ensures
            self.threshold() >= 1,
            forall|i: int|
                0 <= i < self.nodes().len() ==> {
                    &&& (#[trigger] self.nodes()[i]).id == i
                    &&& self.nodes()[i].position == position_of(self.nodes()[i].features@)
                },
            self.links() == expected_adjacency(self.positions(), self.threshold()),
    {
    }

    /// An empty graph with the default threshold.
    pub fn new() -> (graph: Self)
        ensures
            graph.wf(),
            graph.nodes() == Seq::<Node>::empty(),
            graph.threshold() == DEFAULT_THRESHOLD,
    {
        let graph = SpatialGraph {
            nodes: Vec::with_capacity(1000),
            edges: edges_with_capacity(1000),
            next_id: 0,
            threshold: DEFAULT_THRESHOLD,
        };
        assert(adjacency(graph.edges) =~= expected_adjacency(graph.positions(), graph.threshold));
        graph
    }

    /// An empty graph that links nodes closer together than `threshold`,
    /// which must be positive.
    pub fn with_threshold(threshold: u64) -> (made: Result<Self, ConfigError>)
        ensures
            made is Err <==> threshold == 0,
            made is Err ==> made == Err::<Self, ConfigError>(ConfigError::ZeroProximityThreshold),
            made is Ok ==> {
                &&& made->Ok_0.wf()
                &&& made->Ok_0.nodes() == Seq::<Node>::empty()
                &&& made->Ok_0.threshold() == threshold
            },
    {
        if threshold == 0 {
            return Err(ConfigError::ZeroProximityThreshold);
        }
        let graph = SpatialGraph {
            nodes: Vec::with_capacity(1000),
            edges: edges_with_capacity(1000),
            next_id: 0,
            threshold,
        };
        assert(adjacency(graph.edges) =~= expected_adjacency(graph.positions(), graph.threshold));
        Ok(graph)
    }

    /// Adds a node for `features` and links it, in both directions, to
    /// every node that lies within the threshold of its position. Returns
    /// the new node's id.
    pub fn add_node(&mut self, features: &[i32]) -> (id: usize)
        requires
            old(self).wf(),
        ensures
            final(self).wf(),
            final(self).threshold() == old(self).threshold(),
            id == old(self).nodes().len(),
            final(self).nodes().len() == old(self).nodes().len() + 1,
            forall|i: int|
                0 <= i < old(self).nodes().len() ==> final(self).nodes()[i] == old(self).nodes()[i],
            final(self).nodes()[id as int].id == id,
            final(self).nodes()[id as int].position == position_of(features@),
            final(self).nodes()[id as int].features@ == features@,
            final(self).positions() == old(self).positions().push(position_of(features@)),
            final(self).links() == expected_adjacency(
                final(self).positions(),
                final(self).threshold(),
            ),
    {
        let position = Position::from_features(features);
        let node_id = self.nodes.len();
        let threshold = self.threshold;
        assert(threshold * threshold <= u128::MAX) by (nonlinear_arith)
            requires
                0 <= threshold <= u64::MAX,
        ;
        let limit: u128 = (threshold as u128) * (threshold as u128);
        let ghost ps_old = self.positions();
        let ghost ps_new = ps_old.push(position);
        let ghost n = node_id as nat;

        let mut connections: Vec<Link> = Vec::new();
        let mut i: usize = 0;
        while i < node_id
            invariant
                i <= node_id,
                n == node_id,
                node_id == self.nodes@.len(),
                self.nodes@ == old(self).nodes@,
                self.next_id == old(self).next_id,
                self.threshold == threshold,
                threshold >= 1,
                limit == threshold * threshold,
                ps_old == self.positions(),
                ps_old.len() == n,
                ps_new == ps_old.push(position),
                derived_range(position),
                forall|j: int|
                    0 <= j < self.nodes@.len() ==> {
                        &&& (#[trigger] self.nodes@[j]).id == j
                        &&& derived_range(self.nodes@[j].position)
                    },
                connections@ == neighbors(ps_new, threshold, n as int, i as nat),
                adjacency(self.edges) =~= Map::new(
                    |u: usize|
                        u < n && (if u < i {
                            neighbors(ps_new, threshold, u as int, n + 1)
                        } else {
                            neighbors(ps_old, threshold, u as int, n)
                        }).len() > 0,
                    |u: usize|
                        if u < i {
                            neighbors(ps_new, threshold, u as int, n + 1)
                        } else {
                            neighbors(ps_old, threshold, u as int, n)
                        },
                ),
            decreases node_id - i,
        {
            let there = self.nodes[i].position;
            proof {
                assert(there == ps_old[i as int]);
                assert(ps_new[i as int] == there);
                assert(ps_new[n as int] == position);
                lemma_dist_fits(position, there);
                lemma_dist_symmetric(position, there);
                lemma_neighbors_prefix(ps_old, position, threshold, i as int, n);
            }
            let dist_sq = position.distance_squared_to(&there);
            if dist_sq < limit {
                let distance = isqrt(dist_sq);
                connections.push((i, distance));
                let taken = edges_remove(&mut self.edges, i);
                let mut list = match taken {
                    Some(list) => list,
                    None => Vec::new(),
                };
                list.push((node_id, distance));
                assert(list@ == neighbors(ps_new, threshold, i as int, n + 1));
                edges_insert(&mut self.edges, i, list);
            }
            assert(adjacency(self.edges) =~= Map::new(
                |u: usize|
                    u < n && (if u < i + 1 {
                        neighbors(ps_new, threshold, u as int, n + 1)
                    } else {
                        neighbors(ps_old, threshold, u as int, n)
                    }).len() > 0,
                |u: usize|
                    if u < i + 1 {
                        neighbors(ps_new, threshold, u as int, n + 1)
                    } else {
                        neighbors(ps_old, threshold, u as int, n)
                    },
            ));
            i = i + 1;
        }

        if connections.len() > 0 {
            edges_insert(&mut self.edges, node_id, connections);
        }
        let node = Node { id: node_id, position, features: slice_to_vec(features) };
        self.nodes.push(node);
        self.next_id = self.nodes.len();
        proof {
            assert(self.positions() =~= ps_new);
            assert(neighbors(ps_new, threshold, n as int, n + 1) == neighbors(
                ps_new,
                threshold,
                n as int,
                n,
            ));
            assert(adjacency(self.edges) =~= expected_adjacency(ps_new, threshold));
        }
        node_id
    }

    /// The number of nodes.
    #[inline]
    pub fn node_count(&self) -> (count: usize)
        ensures
            count == self.nodes().len(),
    {
        self.nodes.len()
    }

    /// The position of node `id`, if there is such a node.
    pub fn position_at(&self, id: usize) -> (position: Option<Position>)
        ensures
            position == if id < self.nodes().len() {
                Some(self.positions()[id as int])
            } else {
                None
            },
    {
        if id < self.nodes.len() {
            Some(self.nodes[id].position)
        } else {
            None
        }
    }

    /// The links of node `id`, by ascending neighbor id; none for a node
    /// without neighbors or an id that no node has.
    pub fn links_of(&self, id: usize) -> (list: Vec<Link>)
        requires
            self.wf(),
        ensures
            list@ == if id < self.nodes().len() {
                neighbors(self.positions(), self.threshold(), id as int, self.nodes().len())
            } else {
                Seq::<Link>::empty()
            },
    {
        match edges_get(&self.edges, id) {
            Some(list) => slice_to_vec(list.as_slice()),
            None => Vec::new(),
        }
    }

    /// The number of links stored over all nodes.
    fn total_degree(&self) -> (total: u128)
        requires
            self.wf(),
        ensures
            total == degree_sum(self.positions(), self.threshold, self.nodes@.len()),
            total <= self.nodes@.len() * 0xFFFF_FFFF_FFFF_FFFF,
            total <= 0xFFFF_FFFF_FFFF_FFFF * 0xFFFF_FFFF_FFFF_FFFF,
    {
        let n = self.nodes.len();
        let ghost ps = self.positions();
        let mut total: u128 = 0;
        let mut u: usize = 0;
        while u < n
            invariant
                u <= n,
                n == self.nodes@.len(),
                ps == self.positions(),
                ps.len() == n,
                adjacency(self.edges) == expected_adjacency(ps, self.threshold),
                total == degree_sum(ps, self.threshold, u as nat),
                total <= u * 0xFFFF_FFFF_FFFF_FFFF,
            decreases n - u,
        {
            match edges_get(&self.edges, u) {
                Some(list) => {
                    total = total + list.len() as u128;
                },
                None => {},
            }
            u = u + 1;
        }
        assert(total <= 0xFFFF_FFFF_FFFF_FFFF * 0xFFFF_FFFF_FFFF_FFFF) by (nonlinear_arith)
            requires
                total <= n * 0xFFFF_FFFF_FFFF_FFFF,
                n <= 0xFFFF_FFFF_FFFF_FFFF,
        ;
        total
    }

    /// The number of edges: half the number of stored links, since every
    /// edge is stored with both of its ends. This is the number of pairs of
    /// nodes that lie within the threshold of each other.
    pub fn edge_count(&self) -> (count: u128)
        requires
            self.wf(),
        ensures
            count == degree_sum(self.positions(), self.threshold(), self.nodes().len()) / 2,
            count == pair_count(self.positions(), self.threshold(), self.nodes().len()),
    {
        proof {
            lemma_links_are_twice_the_pairs(self.positions(), self.threshold);
        }
        self.total_degree() / 2
    }

    /// An estimate of the bytes that the graph holds: a fixed footprint for
    /// each node and for each stored link.
    pub fn estimate_memory(&self) -> (bytes: u128)
        requires
            self.wf(),
        ensures
            bytes == footprint(
                self.nodes().len(),
                degree_sum(self.positions(), self.threshold(), self.nodes().len()),
            ),
    {
        let nodes: u128 = self.nodes.len() as u128;
        let links = self.total_degree();
        let node_bytes: u128 = nodes * NODE_FOOTPRINT;
        if links > (u128::MAX - node_bytes) / LINK_FOOTPRINT {
            u128::MAX
        } else {
            node_bytes + links * LINK_FOOTPRINT
        }
    }

    /// The mean number of links per node in millionths, rounded down; zero
    /// for an empty graph.
    pub fn average_degree(&self) -> (mean: u128)
        requires
            self.wf(),
        ensures
            self.nodes().len() == 0 ==> mean == 0,
            self.nodes().len() > 0 ==> mean == degree_sum(
                self.positions(),
                self.threshold(),
                self.nodes().len(),
            ) * SCALE / (self.nodes().len() as int),
    {
        let n = self.nodes.len();
        if n == 0 {
            return 0;
        }
        let total = self.total_degree();
        proof {
            lemma_scaled_quotient_fits(total as int, n as int);
        }
        scaled_quotient(total, n as u128)
    }

    /// The `k` nodes nearest to `position`, or all nodes if there are fewer,
    /// nearest first and nodes at the same distance by ascending id, each
    /// with its distance.
    pub fn k_nearest_neighbors(&self, position: &Position, k: usize) -> (found: Vec<Link>)
        requires
            self.wf(),
        ensures
            found@.len() == if k < self.nodes().len() { k as nat } else { self.nodes().len() },
            is_nearest(self.positions(), *position, found@.len(), found@),
            forall|i: int, j: int|
                0 <= i < j < found@.len() ==> (#[trigger] found@[i]).1 <= (#[trigger] found@[j]).1,
    {
        let n = self.nodes.len();
        let ghost ps = self.positions();
        let query = *position;
        let mut ranked: Vec<(usize, u128)> = Vec::new();
        let mut i: usize = 0;
        while i < n
            invariant
                i <= n,
                n == self.nodes@.len(),
                ps == self.positions(),
                ps.len() == n,
                forall|j: int|
                    0 <= j < self.nodes@.len() ==> derived_range(
                        (#[trigger] self.nodes@[j]).position,
                    ),
                ranked@.len() == i,
                forall|j: int|
                    0 <= j < i ==> (#[trigger] ranked@[j]) == (
                        j as usize,
                        dist_sq(query, ps[j]) as u128,
                    ),
            decreases n - i,
        {
            let there = self.nodes[i].position;
            proof {
                lemma_dist_fits(query, there);
            }
            ranked.push((i, query.distance_squared_to(&there)));
            i = i + 1;
        }
        let wanted = if k < n {
            k
        } else {
            n
        };
        let ghost mut place: Seq<int> = Seq::new(n as nat, |id: int| id);
        proof {
            assert forall|id: int| 0 <= id < n implies 0 <= dist_sq(query, #[trigger] ps[id]) <= u128::MAX by {
                lemma_dist_fits(query, self.nodes@[id].position);
            }
        }
        let mut done: usize = 0;
        while done < wanted
            invariant
                done <= wanted <= n,
                ps.len() == n,
                ranked@.len() == n,
                place.len() == n,
                forall|id: int| 0 <= id < n ==> 0 <= dist_sq(query, #[trigger] ps[id]) <= u128::MAX,
                forall|j: int|
                    0 <= j < n ==> {
                        &&& (#[trigger] ranked@[j]).0 < n
                        &&& ranked@[j].1 == dist_sq(query, ps[ranked@[j].0 as int])
                        &&& place[ranked@[j].0 as int] == j
                    },
                forall|id: int|
                    0 <= id < n ==> 0 <= #[trigger] place[id] < n && ranked@[place[id]].0 == id,
                forall|a: int, b: int|
                    0 <= a < done && a < b < n ==> ranks_before(
                        ps,
                        query,
                        #[trigger] ranked@[a].0 as int,
                        #[trigger] ranked@[b].0 as int,
                    ),
            decreases wanted - done,
        {
            let mut best: usize = done;
            let mut j: usize = done + 1;
            while j < n
                invariant
                    done <= best < j <= n,
                    ranked@.len() == n,
                    ps.len() == n,
                    forall|t: int|
                        0 <= t < n ==> {
                            &&& (#[trigger] ranked@[t]).0 < n
                            &&& ranked@[t].1 == dist_sq(query, ps[ranked@[t].0 as int])
                            &&& place[ranked@[t].0 as int] == t
                        },
                    place.len() == n,
                    forall|t: int|
                        done <= t < j && t != best ==> ranks_before(
                            ps,
                            query,
                            ranked@[best as int].0 as int,
                            #[trigger] ranked@[t].0 as int,
                        ),
                decreases n - j,
            {
                let candidate = ranked[j];
                let leader = ranked[best];
                if candidate.1 < leader.1 || (candidate.1 == leader.1 && candidate.0 < leader.0) {
                    best = j;
                }
                j = j + 1;
            }
            let first = ranked[done];
            let chosen = ranked[best];
            ranked.set(done, chosen);
            ranked.set(best, first);
            proof {
                place = place.update(chosen.0 as int, done as int).update(
                    first.0 as int,
                    best as int,
                );
            }
            done = done + 1;
        }
        let mut found: Vec<Link> = Vec::new();
        let mut r: usize = 0;
        while r < wanted
            invariant
                r <= wanted <= n,
                ranked@.len() == n,
                ps.len() == n,
                found@.len() == r,
                forall|id: int| 0 <= id < n ==> 0 <= dist_sq(query, #[trigger] ps[id]) <= u128::MAX,
                forall|j: int|
                    0 <= j < n ==> {
                        &&& (#[trigger] ranked@[j]).0 < n
                        &&& ranked@[j].1 == dist_sq(query, ps[ranked@[j].0 as int])
                    },
                forall|j: int|
                    0 <= j < r ==> (#[trigger] found@[j]) == (
                        ranked@[j].0,
                        dist(query, ps[ranked@[j].0 as int]) as u64,
                    ),
            decreases wanted - r,
        {
            let entry = ranked[r];
            found.push((entry.0, isqrt(entry.1)));
            r = r + 1;
        }
        proof {
            assert forall|id: int| 0 <= id < n implies 0 <= dist(query, #[trigger] ps[id]) <= u64::MAX by {
                lemma_dist_fits(query, self.nodes@[id].position);
            }
            assert forall|a: int, b: int| 0 <= a < b < found@.len() implies (
            #[trigger] found@[a]).1 <= (#[trigger] found@[b]).1 by {
                lemma_sqrt_floor_monotone(
                    dist_sq(query, ps[ranked@[a].0 as int]),
                    dist_sq(query, ps[ranked@[b].0 as int]),
                );
            }
            assert forall|id: int, j: int|
                #![trigger listed(found@, id), found@[j]]
                0 <= id < ps.len() && 0 <= j < found@.len() && !listed(found@, id) implies ranks_before(
                ps,
                query,
                found@[j].0 as int,
                id,
            ) by {
                let at = place[id];
                if at < wanted {
                    assert(found@[at].0 == id);
                    assert(listed(found@, id));
                }
                assert(ranked@[at].0 == id);
            }
        }
        found
    }
}

} // verus!
