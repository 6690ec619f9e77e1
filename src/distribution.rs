use crate::graph::{adjacent, at_hop_distance, incident_count, within_hops, EdgeModel, SimilarityGraph};
use crate::lemmas::{lemma_degree_counts_similar, similar_between};
use vstd::prelude::*;

verus! {

/// A path of at most `j` edges is also one of at most `k` edges, `j <= k`.
pub proof fn lemma_within_hops_monotone(edges: Seq<EdgeModel>, s: int, v: int, j: nat, k: nat)
    requires
        j <= k,
        within_hops(edges, s, v, j),
    ensures
        within_hops(edges, s, v, k),
    decreases k - j,
{
    if j < k {
        lemma_within_hops_step(edges, s, v, j);
        lemma_within_hops_monotone(edges, s, v, j + 1, k);
    }
}

proof fn lemma_within_hops_step(edges: Seq<EdgeModel>, s: int, v: int, j: nat)
    requires
        within_hops(edges, s, v, j),
    ensures
        within_hops(edges, s, v, j + 1),
    decreases j,
{
    if s != v {
        assert(j > 0);
        let w = choose|w: int|
            #![trigger adjacent(edges, w, v)]
            within_hops(edges, s, w, (j - 1) as nat) && adjacent(edges, w, v);
        lemma_within_hops_step(edges, s, w, (j - 1) as nat);
        assert(within_hops(edges, s, w, j));
        assert(within_hops(edges, s, v, j + 1));
    }
}

/// The hop distance between two nodes is unique.
pub proof fn lemma_hop_distance_unique(edges: Seq<EdgeModel>, s: int, v: int, j: nat, k: nat)
    requires
        at_hop_distance(edges, s, v, j),
        at_hop_distance(edges, s, v, k),
    ensures
        j == k,
{
    if j < k {
        lemma_within_hops_monotone(edges, s, v, j, (k - 1) as nat);
    } else if k < j {
        lemma_within_hops_monotone(edges, s, v, k, (j - 1) as nat);
    }
}

/// A node is at exactly two hops from `s` when it is neither `s` nor a
/// neighbour of `s`, but a neighbour of a neighbour of `s`.
pub proof fn lemma_two_hops(edges: Seq<EdgeModel>, s: int, v: int)
    ensures
        at_hop_distance(edges, s, v, 2) <==> {
            &&& s != v
            &&& !adjacent(edges, s, v)
            &&& exists|w: int| #[trigger] adjacent(edges, s, w) && adjacent(edges, w, v)
        },
{
    reveal_with_fuel(within_hops, 3);
    if at_hop_distance(edges, s, v, 2) {
        let w = choose|w: int|
            #![trigger adjacent(edges, w, v)]
            within_hops(edges, s, w, 1) && adjacent(edges, w, v);
        if w == s {
            assert(within_hops(edges, s, v, 1));
        } else {
            let x = choose|x: int|
                #![trigger adjacent(edges, x, w)]
                within_hops(edges, s, x, 0) && adjacent(edges, x, w);
            assert(adjacent(edges, s, w));
        }
    }
    if s != v && !adjacent(edges, s, v) && exists|w: int|
        #[trigger] adjacent(edges, s, w) && adjacent(edges, w, v) {
        let w = choose|w: int| #[trigger] adjacent(edges, s, w) && adjacent(edges, w, v);
        assert(within_hops(edges, s, s, 0));
        assert(within_hops(edges, s, w, 1));
        assert(within_hops(edges, s, v, 2));
        if within_hops(edges, s, v, 1) {
            let x = choose|x: int|
                #![trigger adjacent(edges, x, v)]
                within_hops(edges, s, x, 0) && adjacent(edges, x, v);
            assert(x == s);
        }
    }
}

/// The number of nodes below `m` at exactly two hops from `s`.
pub open spec fn two_hop_count(edges: Seq<EdgeModel>, s: int, m: int) -> nat
    decreases m,
{
    if m <= 0 {
        0
    } else {
        two_hop_count(edges, s, m - 1) + if at_hop_distance(edges, s, m - 1, 2) {
            1nat
        } else {
            0nat
        }
    }
}

/// The degree of every node, in node index order: the number of other nodes
/// whose percentage is similar to its own.
pub fn calculate_degrees(g: &SimilarityGraph) -> (r: Vec<usize>)
    requires
        g.wf(),
    ensures
        r@.len() == g.nodes().len(),
        forall|v: int| 0 <= v < r@.len() ==> r@[v] == incident_count(g.edges(), v),
        forall|v: int|
            0 <= v < r@.len() ==> r@[v] == similar_between(
                g.nodes(),
                v,
                0,
                g.nodes().len() as int,
            ),
{
    let n = g.node_count();
    let mut r: Vec<usize> = Vec::new();
    let mut v: usize = 0;
    while v < n
        invariant
            n == g.nodes().len(),
            v <= n,
            r@.len() == v,
            g.wf(),
            forall|u: int| 0 <= u < v ==> r@[u] == incident_count(g.edges(), u),
            forall|u: int|
                0 <= u < v ==> r@[u] == similar_between(g.nodes(), u, 0, n as int),
        decreases n - v,
    {
        let d = g.degree(v);
        proof {
            lemma_degree_counts_similar(g.nodes(), v as int);
        }
        r.push(d);
        v = v + 1;
    }
    r
}

/// For every node `s`, the number of nodes whose shortest path from `s` has
/// exactly two edges, in node index order.
pub fn calculate_two_hop_neighbors(g: &SimilarityGraph) -> (r: Vec<usize>)
    ensures
        r@.len() == g.nodes().len(),
        forall|s: int|
            0 <= s < r@.len() ==> r@[s] == two_hop_count(g.edges(), s, g.nodes().len() as int),
{
    let n = g.node_count();
    let mut r: Vec<usize> = Vec::new();
    let mut s: usize = 0;
    while s < n
        invariant
            n == g.nodes().len(),
            s <= n,
            r@.len() == s,
            forall|u: int| 0 <= u < s ==> r@[u] == two_hop_count(g.edges(), u, n as int),
        decreases n - s,
    {
        let dist = g.hop_distances(s);
        let mut count: usize = 0;
        let mut v: usize = 0;
        while v < n
            invariant
                n == g.nodes().len(),
                s < n,
                v <= n,
                dist@.len() == n,
                count <= v,
                count == two_hop_count(g.edges(), s as int, v as int),
                forall|x: int, d: usize|
                    0 <= x < n && dist@[x] == Some(d) ==> at_hop_distance(
                        g.edges(),
                        s as int,
                        x,
                        d as nat,
                    ),
                forall|x: int|
                    0 <= x < n ==> (dist@[x] is None <==> forall|k: nat|
                        !#[trigger] within_hops(g.edges(), s as int, x, k)),
            decreases n - v,
        {
            let two = dist[v] == Some(2usize);
            proof {
                let e = g.edges();
                if at_hop_distance(e, s as int, v as int, 2) {
                    assert(within_hops(e, s as int, v as int, 2));
                    match dist@[v as int] {
                        Some(d) => lemma_hop_distance_unique(e, s as int, v as int, d as nat, 2),
                        None => {},
                    }
                }
            }
            if two {
                count = count + 1;
            }
            v = v + 1;
        }
        r.push(count);
        s = s + 1;
    }
    r
}

} // verus!
