use crate::distribution::two_hop_count;
use crate::graph::{
    abs_diff, adjacent, edges_below, incident_count, joins, pair_edge, percentages, row_edges,
    similar, similarity_edges, EdgeModel, JobCategory, SimilarityGraph,
};
use vstd::prelude::*;

verus! {

/// An edge of the similarity graph on `ps`: it joins a node to a later one
/// with a similar percentage, and is weighted with their difference.
pub open spec fn edge_ok(ps: Seq<i64>, e: EdgeModel) -> bool {
    &&& 0 <= e.0 < e.1 < ps.len()
    &&& similar(ps[e.0], ps[e.1])
    &&& e.2 == abs_diff(ps[e.0], ps[e.1])
}

/// `e` comes before `f` in order of first and then second endpoint.
pub open spec fn pair_before(e: EdgeModel, f: EdgeModel) -> bool {
    e.0 < f.0 || (e.0 == f.0 && e.1 < f.1)
}

proof fn lemma_row_edges(ps: Seq<i64>, i: int, j: int)
    requires
        0 <= i < ps.len(),
        i + 1 <= j <= ps.len(),
    ensures
        forall|k: int|
            0 <= k < row_edges(ps, i, j).len() ==> {
                let e = #[trigger] row_edges(ps, i, j)[k];
                edge_ok(ps, e) && e.0 == i && e.1 < j
            },
        forall|k1: int, k2: int|
            0 <= k1 < k2 < row_edges(ps, i, j).len() ==> (#[trigger] row_edges(ps, i, j)[k1]).1
                < (#[trigger] row_edges(ps, i, j)[k2]).1,
        forall|t: int|
            i < t < j && #[trigger] similar(ps[i], ps[t]) ==> exists|k: int|
                0 <= k < row_edges(ps, i, j).len() && #[trigger] row_edges(ps, i, j)[k].1 == t,
    decreases j - i,
{
    if j > i + 1 {
        lemma_row_edges(ps, i, j - 1);
        let a = row_edges(ps, i, j - 1);
        let b = pair_edge(ps, i, j - 1);
        assert(row_edges(ps, i, j) == a + b);
        assert forall|t: int| i < t < j && #[trigger] similar(ps[i], ps[t]) implies exists|k: int|
            0 <= k < row_edges(ps, i, j).len() && #[trigger] row_edges(ps, i, j)[k].1 == t by {
            if t < j - 1 {
                let k = choose|k: int| 0 <= k < a.len() && #[trigger] a[k].1 == t;
                assert(row_edges(ps, i, j)[k] == a[k]);
                assert(row_edges(ps, i, j)[k].1 == t);
            } else {
                assert(b.len() == 1 && b[0].1 == t);
                assert(row_edges(ps, i, j)[a.len() as int] == b[0]);
                assert(row_edges(ps, i, j)[a.len() as int].1 == t);
            }
        }
    }
}

proof fn lemma_edges_below(ps: Seq<i64>, i: int)
    requires
        0 <= i <= ps.len(),
    ensures
        forall|k: int|
            0 <= k < edges_below(ps, i).len() ==> {
                let e = #[trigger] edges_below(ps, i)[k];
                edge_ok(ps, e) && e.0 < i
            },
        forall|k1: int, k2: int|
            0 <= k1 < k2 < edges_below(ps, i).len() ==> pair_before(
                #[trigger] edges_below(ps, i)[k1],
                #[trigger] edges_below(ps, i)[k2],
            ),
        forall|a: int, t: int|
            0 <= a < i && a < t < ps.len() && #[trigger] similar(ps[a], ps[t]) ==> exists|k: int|
                0 <= k < edges_below(ps, i).len() && #[trigger] joins(
                    edges_below(ps, i)[k],
                    a,
                    t,
                ),
    decreases i,
{
    if i > 0 {
        lemma_edges_below(ps, i - 1);
        lemma_row_edges(ps, i - 1, ps.len() as int);
        let a = edges_below(ps, i - 1);
        let b = row_edges(ps, i - 1, ps.len() as int);
        let c = edges_below(ps, i);
        assert(c == a + b);
        assert forall|k: int| 0 <= k < c.len() implies {
            let e = #[trigger] c[k];
            edge_ok(ps, e) && e.0 < i
        } by {
            if k >= a.len() {
                assert(c[k] == b[k - a.len()]);
            }
        }
        assert forall|k1: int, k2: int| 0 <= k1 < k2 < c.len() implies pair_before(
            #[trigger] c[k1],
            #[trigger] c[k2],
        ) by {
            if k2 >= a.len() {
                assert(c[k2] == b[k2 - a.len()]);
                if k1 >= a.len() {
                    assert(c[k1] == b[k1 - a.len()]);
                }
            }
        }
        assert forall|x: int, t: int|
            0 <= x < i && x < t < ps.len() && #[trigger] similar(ps[x], ps[t]) implies exists|k: int|
            0 <= k < c.len() && #[trigger] joins(c[k], x, t) by {
            if x < i - 1 {
                let k = choose|k: int| 0 <= k < a.len() && #[trigger] joins(a[k], x, t);
                assert(c[k] == a[k]);
            } else {
                let k = choose|k: int| 0 <= k < b.len() && #[trigger] b[k].1 == t;
                assert(c[a.len() + k] == b[k]);
                assert(joins(c[a.len() + k], x, t));
            }
        }
    }
}

/// Two distinct nodes of the similarity graph are joined by an edge exactly
/// when their percentages differ by less than the threshold.
pub proof fn lemma_similarity_edge_iff(ps: Seq<i64>, i: int, j: int)
    requires
        0 <= i < ps.len(),
        0 <= j < ps.len(),
        i != j,
    ensures
        adjacent(similarity_edges(ps), i, j) <==> similar(ps[i], ps[j]),
{
    lemma_edges_below(ps, ps.len() as int);
    let es = similarity_edges(ps);
    if i < j {
        if similar(ps[i], ps[j]) {
            let k = choose|k: int| 0 <= k < es.len() && #[trigger] joins(es[k], i, j);
        }
    } else {
        if similar(ps[i], ps[j]) {
            assert(similar(ps[j], ps[i]));
            let k = choose|k: int| 0 <= k < es.len() && #[trigger] joins(es[k], j, i);
            assert(joins(es[k], i, j));
        }
    }
    if adjacent(es, i, j) {
        let k = choose|k: int| 0 <= k < es.len() && #[trigger] joins(es[k], i, j);
        assert(edge_ok(ps, es[k]));
    }
}

/// The similarity graph is simple: no edge is a loop, and no two edges join
/// the same pair of nodes.
pub proof fn lemma_similarity_graph_simple(ps: Seq<i64>)
    ensures
        forall|k: int|
            0 <= k < similarity_edges(ps).len() ==> (#[trigger] similarity_edges(ps)[k]).0
                != similarity_edges(ps)[k].1,
        forall|k1: int, k2: int|
            0 <= k1 < similarity_edges(ps).len() && 0 <= k2 < similarity_edges(ps).len() && k1
                != k2 ==> !joins(
                #[trigger] similarity_edges(ps)[k2],
                (#[trigger] similarity_edges(ps)[k1]).0,
                similarity_edges(ps)[k1].1,
            ),
{
    lemma_edges_below(ps, ps.len() as int);
    let es = similarity_edges(ps);
    assert forall|k: int| 0 <= k < es.len() implies (#[trigger] es[k]).0 != es[k].1 by {
        assert(edge_ok(ps, es[k]));
    }
    assert forall|k1: int, k2: int|
        0 <= k1 < es.len() && 0 <= k2 < es.len() && k1 != k2 implies !joins(
        #[trigger] es[k2],
        (#[trigger] es[k1]).0,
        es[k1].1,
    ) by {
        assert(edge_ok(ps, es[k1]));
        assert(edge_ok(ps, es[k2]));
        if k1 < k2 {
            assert(pair_before(es[k1], es[k2]));
        } else {
            assert(pair_before(es[k2], es[k1]));
        }
    }
}

/// The number of nodes `t` in `lo .. hi`, other than `v`, whose percentage
/// is similar to that of `v`.
pub open spec fn similar_between(ps: Seq<i64>, v: int, lo: int, hi: int) -> nat
    decreases hi - lo,
{
    if hi <= lo {
        0
    } else {
        similar_between(ps, v, lo, hi - 1) + if hi - 1 != v && similar(ps[v], ps[hi - 1]) {
            1nat
        } else {
            0nat
        }
    }
}

proof fn lemma_similar_between_split(ps: Seq<i64>, v: int, lo: int, mid: int, hi: int)
    requires
        lo <= mid <= hi,
    ensures
        similar_between(ps, v, lo, hi) == similar_between(ps, v, lo, mid) + similar_between(
            ps,
            v,
            mid,
            hi,
        ),
    decreases hi - mid,
{
    if hi > mid {
        lemma_similar_between_split(ps, v, lo, mid, hi - 1);
    }
}

proof fn lemma_incident_count_concat(a: Seq<EdgeModel>, b: Seq<EdgeModel>, v: int)
    ensures
        incident_count(a + b, v) == incident_count(a, v) + incident_count(b, v),
    decreases b.len(),
{
    if b.len() > 0 {
        assert((a + b).drop_last() =~= a + b.drop_last());
        lemma_incident_count_concat(a, b.drop_last(), v);
    } else {
        assert(a + b =~= a);
    }
}

proof fn lemma_row_incident(ps: Seq<i64>, i: int, j: int, v: int)
    requires
        0 <= i < ps.len(),
        i + 1 <= j <= ps.len(),
    ensures
        incident_count(row_edges(ps, i, j), v) == if v == i {
            similar_between(ps, i, i + 1, j)
        } else if i < v < j && similar(ps[i], ps[v]) {
            1nat
        } else {
            0nat
        },
    decreases j - i,
{
    if j > i + 1 {
        lemma_row_incident(ps, i, j - 1, v);
        let b = pair_edge(ps, i, j - 1);
        lemma_incident_count_concat(row_edges(ps, i, j - 1), b, v);
        if b.len() > 0 {
            assert(b.drop_last() =~= Seq::<EdgeModel>::empty());
            assert(incident_count(b.drop_last(), v) == 0);
            assert(incident_count(b, v) == if similar(ps[i], ps[j - 1]) && (v == i || v == j - 1) {
                1nat
            } else {
                0nat
            });
        } else {
            assert(incident_count(b, v) == 0);
        }
    }
}

proof fn lemma_below_incident(ps: Seq<i64>, i: int, v: int)
    requires
        0 <= i <= ps.len(),
        0 <= v < ps.len(),
    ensures
        incident_count(edges_below(ps, i), v) == similar_between(
            ps,
            v,
            0,
            if i < v {
                i
            } else {
                v
            },
        ) + if v < i {
            similar_between(ps, v, v + 1, ps.len() as int)
        } else {
            0nat
        },
    decreases i,
{
    if i > 0 {
        lemma_below_incident(ps, i - 1, v);
        lemma_row_incident(ps, i - 1, ps.len() as int, v);
        lemma_incident_count_concat(edges_below(ps, i - 1), row_edges(ps, i - 1, ps.len() as int), v);
        if v >= i {
            assert(similar(ps[i - 1], ps[v]) == similar(ps[v], ps[i - 1]));
        }
    }
}

/// The degree of a node of the similarity graph is the number of other nodes
/// whose percentage is similar to its own.
pub proof fn lemma_degree_counts_similar(ps: Seq<i64>, v: int)
    requires
        0 <= v < ps.len(),
    ensures
        incident_count(similarity_edges(ps), v) == similar_between(ps, v, 0, ps.len() as int),
{
    let n = ps.len() as int;
    lemma_below_incident(ps, n, v);
    lemma_similar_between_split(ps, v, 0, v, n);
    lemma_similar_between_split(ps, v, v, v + 1, n);
    assert(similar_between(ps, v, v, v) == 0);
    assert(similar_between(ps, v, v, v + 1) == 0);
}

/// Building the similarity graph twice from the same records gives the same
/// nodes and edges, hence the same node and edge counts, degrees and two-hop
/// counts.
pub proof fn lemma_build_deterministic(
    data: Seq<JobCategory>,
    g1: SimilarityGraph,
    g2: SimilarityGraph,
)
    requires
        g1.nodes() == percentages(data),
        g1.edges() == similarity_edges(percentages(data)),
        g2.nodes() == percentages(data),
        g2.edges() == similarity_edges(percentages(data)),
    ensures
        g1.nodes().len() == g2.nodes().len(),
        g1.edges().len() == g2.edges().len(),
        forall|v: int| incident_count(g1.edges(), v) == incident_count(g2.edges(), v),
        forall|s: int|
            two_hop_count(g1.edges(), s, g1.nodes().len() as int) == two_hop_count(
                g2.edges(),
                s,
                g2.nodes().len() as int,
            ),
{
}

} // verus!
