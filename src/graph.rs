use petgraph::algo::dijkstra;
use petgraph::graph::{Graph, NodeIndex};
use petgraph::Undirected;
use vstd::prelude::*;

verus! {

#[verifier::external_type_specification]
#[verifier::external_body]
#[verifier::reject_recursive_types(N)]
#[verifier::reject_recursive_types(E)]
#[verifier::reject_recursive_types(Ty)]
#[verifier::reject_recursive_types(Ix)]
pub struct ExGraph<N, E, Ty, Ix>(Graph<N, E, Ty, Ix>);

#[verifier::external_type_specification]
#[verifier::external_body]
pub struct ExUndirected(Undirected);

/// The petgraph graph that holds a similarity graph: node weights are
/// percentages, edge weights are percentage differences.
pub type PercentGraph = Graph<i64, i64, Undirected, u32>;

/// An edge as (first endpoint, second endpoint, weight).
pub type EdgeModel = (int, int, int);

/// The node weights of a graph, in node index order.
pub uninterp spec fn graph_nodes(g: PercentGraph) -> Seq<i64>;

/// The edges of a graph, in edge index order.
pub uninterp spec fn graph_edges(g: PercentGraph) -> Seq<EdgeModel>;

/// Node and edge counts stay below this bound: petgraph's `u32` index type
/// reserves `u32::MAX` to mean "no index".
pub const INDEX_LIMIT: usize = 0xFFFF_FFFF;

/// Relies on `Graph::new_undirected`: a graph without nodes or edges.
#[verifier::external_body]
fn new_graph() -> (g: PercentGraph)
    ensures
        graph_nodes(g) == Seq::<i64>::empty(),
        graph_edges(g) == Seq::<EdgeModel>::empty(),
{
    Graph::new_undirected()
}

/// Relies on `Graph::add_node`: the node is appended, its index is the old
/// node count; it panics only when the index type is exhausted.
#[verifier::external_body]
fn add_node(g: &mut PercentGraph, weight: i64) -> (r: usize)
    requires
        graph_nodes(*old(g)).len() < INDEX_LIMIT,
    ensures
        graph_nodes(*final(g)) == graph_nodes(*old(g)).push(weight),
        graph_edges(*final(g)) == graph_edges(*old(g)),
        r == graph_nodes(*old(g)).len(),
{
    g.add_node(weight).index()
}

/// Relies on `Graph::add_edge`: the edge `(a, b, weight)` is appended; it
/// panics when an endpoint is out of bounds or the index type is exhausted.
#[verifier::external_body]
fn add_edge(g: &mut PercentGraph, a: usize, b: usize, weight: i64)
    requires
        a < graph_nodes(*old(g)).len(),
        b < graph_nodes(*old(g)).len(),
        graph_edges(*old(g)).len() < INDEX_LIMIT,
    ensures
        graph_nodes(*final(g)) == graph_nodes(*old(g)),
        graph_edges(*final(g)) == graph_edges(*old(g)).push((a as int, b as int, weight as int)),
{
    g.add_edge(NodeIndex::new(a), NodeIndex::new(b), weight);
}

/// Relies on `Graph::node_count`: the number of nodes.
#[verifier::external_body]
fn node_count(g: &PercentGraph) -> (r: usize)
    ensures
        r == graph_nodes(*g).len(),
{
    g.node_count()
}

/// Relies on `Graph::edge_count`: the number of edges.
#[verifier::external_body]
fn edge_count(g: &PercentGraph) -> (r: usize)
    ensures
        r == graph_edges(*g).len(),
{
    g.edge_count()
}

/// The number of edges that have `v` as an endpoint.
pub open spec fn incident_count(edges: Seq<EdgeModel>, v: int) -> nat
    decreases edges.len(),
{
    if edges.len() == 0 {
        0
    } else {
        incident_count(edges.drop_last(), v) + if edges.last().0 == v || edges.last().1 == v {
            1nat
        } else {
            0nat
        }
    }
}

pub open spec fn joins(e: EdgeModel, u: int, v: int) -> bool {
    (e.0 == u && e.1 == v) || (e.0 == v && e.1 == u)
}

/// Some edge joins `u` and `v`, in either direction.
pub open spec fn adjacent(edges: Seq<EdgeModel>, u: int, v: int) -> bool {
    exists|e: int| 0 <= e < edges.len() && #[trigger] joins(edges[e], u, v)
}

/// A path of at most `k` edges leads from `s` to `v`.
pub open spec fn within_hops(edges: Seq<EdgeModel>, s: int, v: int, k: nat) -> bool
    decreases k,
{
    s == v || (k > 0 && exists|w: int|
        #![trigger adjacent(edges, w, v)]
        within_hops(edges, s, w, (k - 1) as nat) && adjacent(edges, w, v))
}

/// The fewest edges on a path from `s` to `v` are exactly `k`.
pub open spec fn at_hop_distance(edges: Seq<EdgeModel>, s: int, v: int, k: nat) -> bool {
    within_hops(edges, s, v, k) && (k == 0 || !within_hops(edges, s, v, (k - 1) as nat))
}

/// Relies on `Graph::neighbors`: in an undirected graph it yields, once per
/// edge at `a`, the edge's other endpoint (a loop once).
#[verifier::external_body]
fn neighbor_count(g: &PercentGraph, a: usize) -> (r: usize)
    requires
        a < graph_nodes(*g).len(),
    ensures
        r == incident_count(graph_edges(*g), a as int),
{
    g.neighbors(NodeIndex::new(a)).count()
}

/// Relies on `petgraph::algo::dijkstra` with unit edge costs: the map it
/// returns holds exactly the nodes reachable from `start`, each with the least
/// number of edges on a path to it. Entry `v` of the result is node `v`'s.
#[verifier::external_body]
fn shortest_hops(g: &PercentGraph, start: usize) -> (r: Vec<Option<usize>>)
    requires
        start < graph_nodes(*g).len(),
    ensures
        r@.len() == graph_nodes(*g).len(),
        forall|v: int, d: usize|
            0 <= v < r@.len() && r@[v] == Some(d) ==> at_hop_distance(
                graph_edges(*g),
                start as int,
                v,
                d as nat,
            ),
        forall|v: int|
            0 <= v < r@.len() ==> (r@[v] is None <==> forall|k: nat|
                !#[trigger] within_hops(graph_edges(*g), start as int, v, k)),
{
    let dist = dijkstra(g, NodeIndex::new(start), None, |_| 1usize);
    (0..g.node_count()).map(|v| dist.get(&NodeIndex::new(v)).copied()).collect()
}

/// A job category: its name and the share of men in it, in thousandths of a
/// percentage point (`2300` stands for 2.3 %).
pub struct JobCategory {
    pub name: String,
    pub male_percentage_milli: i64,
}

/// Two categories are similar when their percentages differ by strictly less
/// than ten percentage points.
pub const SIMILARITY_THRESHOLD: i64 = 10_000;

/// Most records a graph can be built from: the edges of a complete graph on
/// this many nodes still fit petgraph's `u32` indices.
pub const MAX_RECORDS: usize = 65_535;

pub open spec fn abs_diff(p: i64, q: i64) -> int {
    if p >= q {
        p - q
    } else {
        q - p
    }
}

pub open spec fn similar(p: i64, q: i64) -> bool {
    abs_diff(p, q) < SIMILARITY_THRESHOLD
}

/// The edge for the pair `(i, j)`, if their percentages are similar.
pub open spec fn pair_edge(ps: Seq<i64>, i: int, j: int) -> Seq<EdgeModel> {
    if similar(ps[i], ps[j]) {
        seq![(i, j, abs_diff(ps[i], ps[j]))]
    } else {
        Seq::empty()
    }
}

/// The edges of node `i` to the nodes `i + 1 .. j`, in order.
pub open spec fn row_edges(ps: Seq<i64>, i: int, j: int) -> Seq<EdgeModel>
    decreases j - i,
{
    if j <= i + 1 {
        Seq::empty()
    } else {
        row_edges(ps, i, j - 1) + pair_edge(ps, i, j - 1)
    }
}

/// The edges of all pairs whose first node is below `i`, in order of first
/// and then second node.
pub open spec fn edges_below(ps: Seq<i64>, i: int) -> Seq<EdgeModel>
    decreases i,
{
    if i <= 0 {
        Seq::empty()
    } else {
        edges_below(ps, i - 1) + row_edges(ps, i - 1, ps.len() as int)
    }
}

/// The edges of the similarity graph on the percentages `ps`.
pub open spec fn similarity_edges(ps: Seq<i64>) -> Seq<EdgeModel> {
    edges_below(ps, ps.len() as int)
}

pub open spec fn percentages(data: Seq<JobCategory>) -> Seq<i64> {
    data.map_values(|j: JobCategory| j.male_percentage_milli)
}

/// An undirected graph with one node per job category, and an edge between
/// every two categories whose percentages are similar.
pub struct SimilarityGraph {
    graph: PercentGraph,
}

impl SimilarityGraph {
    /// The graph holds exactly the edges that its percentages call for.
    pub open spec fn wf(&self) -> bool {
        self.edges() == similarity_edges(self.nodes())
    }

    /// Node weights, in node index order.
    pub closed spec fn nodes(&self) -> Seq<i64> {
        graph_nodes(self.graph)
    }

    /// Edges, in edge index order.
    pub closed spec fn edges(&self) -> Seq<EdgeModel> {
        graph_edges(self.graph)
    }

    pub fn node_count(&self) -> (r: usize)
        ensures
            r == self.nodes().len(),
    {
        node_count(&self.graph)
    }

    pub fn edge_count(&self) -> (r: usize)
        ensures
            r == self.edges().len(),
    {
        edge_count(&self.graph)
    }

    /// The number of edges at node `v`.
    pub fn degree(&self, v: usize) -> (r: usize)
        requires
            v < self.nodes().len(),
        ensures
            r == incident_count(self.edges(), v as int),
    {
        neighbor_count(&self.graph, v)
    }

    /// For each node, the fewest edges on a path from `s` to it, or `None`
    /// where no path leads.
    pub fn hop_distances(&self, s: usize) -> (r: Vec<Option<usize>>)
        requires
            s < self.nodes().len(),
        ensures
            r@.len() == self.nodes().len(),
            forall|v: int, d: usize|
                0 <= v < r@.len() && r@[v] == Some(d) ==> at_hop_distance(
                    self.edges(),
                    s as int,
                    v,
                    d as nat,
                ),
            forall|v: int|
                0 <= v < r@.len() ==> (r@[v] is None <==> forall|k: nat|
                    !#[trigger] within_hops(self.edges(), s as int, v, k)),
    {
        let r = shortest_hops(&self.graph, s);
        assert(self.edges() == graph_edges(self.graph));
        r
    }
}

fn percent_distance(p: i64, q: i64) -> (r: i128)
    ensures
        r == abs_diff(p, q),
{
    if p >= q {
        p as i128 - q as i128
    } else {
        q as i128 - p as i128
    }
}

/// Builds the similarity graph of `data`: node `i` carries the percentage of
/// record `i`, and the pairs `i < j` with similar percentages are joined, in
/// order of `i` and then `j`, by an edge weighted with their difference.
pub fn create_graph(data: &[JobCategory]) -> (g: SimilarityGraph)
    requires
        data@.len() <= MAX_RECORDS,
    ensures
        g.nodes() == percentages(data@),
        g.edges() == similarity_edges(percentages(data@)),
        g.wf(),
{
    let ghost ps = percentages(data@);
    let n = data.len();
    let mut graph = new_graph();
    let mut k: usize = 0;
    while k < n
        invariant
            n == data@.len(),
            n <= MAX_RECORDS,
            k <= n,
            ps == percentages(data@),
            graph_nodes(graph) == ps.subrange(0, k as int),
            graph_edges(graph) == Seq::<EdgeModel>::empty(),
        decreases n - k,
    {
        add_node(&mut graph, data[k].male_percentage_milli);
        assert(ps.subrange(0, k + 1) =~= ps.subrange(0, k as int).push(ps[k as int]));
        k = k + 1;
    }
    assert(ps.subrange(0, n as int) =~= ps);
    let mut i: usize = 0;
    while i < n
        invariant
            n == data@.len(),
            n <= MAX_RECORDS,
            i <= n,
            ps == percentages(data@),
            graph_nodes(graph) == ps,
            graph_edges(graph) == edges_below(ps, i as int),
            graph_edges(graph).len() <= i * n,
        decreases n - i,
    {
        let mut j: usize = i + 1;
        while j < n
            invariant
                n == data@.len(),
                n <= MAX_RECORDS,
                i < n,
                i + 1 <= j <= n,
                ps == percentages(data@),
                graph_nodes(graph) == ps,
                graph_edges(graph) == edges_below(ps, i as int) + row_edges(ps, i as int, j as int),
                graph_edges(graph).len() <= i * n + (j - i - 1),
            decreases n - j,
        {
            let d = percent_distance(data[i].male_percentage_milli, data[j].male_percentage_milli);
            if d < SIMILARITY_THRESHOLD as i128 {
                assert(i * n + (j - i - 1) < INDEX_LIMIT) by (nonlinear_arith)
                    requires
                        i < n,
                        j < n,
                        n <= MAX_RECORDS,
                ;
                add_edge(&mut graph, i, j, d as i64);
            }
            assert(row_edges(ps, i as int, j + 1) == row_edges(ps, i as int, j as int)
                + pair_edge(ps, i as int, j as int));
            assert(graph_edges(graph) =~= edges_below(ps, i as int) + row_edges(
                ps,
                i as int,
                j + 1,
            ));
            j = j + 1;
        }
        assert(edges_below(ps, i + 1) == edges_below(ps, i as int) + row_edges(
            ps,
            i as int,
            n as int,
        ));
        assert((i + 1) * n == i * n + n) by (nonlinear_arith);
        i = i + 1;
    }
    SimilarityGraph { graph }
}

} // verus!
