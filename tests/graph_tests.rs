use job_similarity::distribution::{calculate_degrees, calculate_two_hop_neighbors};
use job_similarity::graph::{create_graph, JobCategory, SimilarityGraph};

fn job(name: &str, male_percentage_milli: i64) -> JobCategory {
    JobCategory { name: name.to_string(), male_percentage_milli }
}

fn graph_of(percentages: &[i64]) -> SimilarityGraph {
    let data: Vec<JobCategory> = percentages
        .iter()
        .enumerate()
        .map(|(i, &p)| job(&format!("Job{}", i + 1), p))
        .collect();
    create_graph(&data)
}

#[test]
fn test_create_graph() {
    let data = vec![job("Job1", 50_000), job("Job2", 60_000), job("Job3", 70_000)];
    let graph = create_graph(&data);
    assert_eq!(graph.node_count(), 3);
    // Differences of exactly ten points are not below the threshold.
    assert_eq!(graph.edge_count(), 0);
    assert_eq!(calculate_degrees(&graph).len(), 3);
}

#[test]
fn test_calculate_degrees() {
    // Node 1 is similar to nodes 2 and 3, which are ten points apart.
    let graph = graph_of(&[50_000, 45_000, 55_000]);
    assert_eq!(graph.edge_count(), 2);
    let degrees = calculate_degrees(&graph);
    assert_eq!(degrees, vec![2, 1, 1]);
}

#[test]
fn test_calculate_two_hop_neighbors() {
    // A path 1 - 2 - 3 - 4.
    let graph = graph_of(&[0, 9_000, 18_000, 27_000]);
    assert_eq!(graph.edge_count(), 3);
    let two_hop = calculate_two_hop_neighbors(&graph);
    assert_eq!(two_hop, vec![1, 1, 1, 1]);
}

#[test]
fn empty_and_single_record_graphs() {
    let empty = graph_of(&[]);
    assert_eq!(empty.node_count(), 0);
    assert_eq!(empty.edge_count(), 0);
    assert_eq!(calculate_degrees(&empty), Vec::<usize>::new());
    assert_eq!(calculate_two_hop_neighbors(&empty), Vec::<usize>::new());
    let single = graph_of(&[42_000]);
    assert_eq!(single.node_count(), 1);
    assert_eq!(single.edge_count(), 0);
    assert_eq!(calculate_degrees(&single), vec![0]);
    assert_eq!(calculate_two_hop_neighbors(&single), vec![0]);
}

#[test]
fn edges_follow_the_threshold_both_ways() {
    // 9.999 points apart: joined; 10 points apart: not joined.
    let graph = graph_of(&[20_000, 29_999, 30_000, 10_001]);
    // Joined: (0, 1), (0, 3), (1, 2). Not joined: (0, 2), (1, 3), (2, 3).
    assert_eq!(graph.edge_count(), 3);
    assert_eq!(calculate_degrees(&graph), vec![2, 2, 1, 1]);
    let reversed = graph_of(&[10_001, 30_000, 29_999, 20_000]);
    assert_eq!(reversed.edge_count(), 3);
    assert_eq!(calculate_degrees(&reversed), vec![1, 1, 2, 2]);
}

#[test]
fn degrees_of_a_chain_of_three() {
    let graph = graph_of(&[10_000, 17_500, 25_000]);
    assert_eq!(calculate_degrees(&graph), vec![1, 2, 1]);
    assert_eq!(calculate_two_hop_neighbors(&graph), vec![1, 0, 1]);
}

#[test]
fn isolated_nodes_have_no_neighbors() {
    let graph = graph_of(&[0, 5_000, 50_000, 99_000]);
    assert_eq!(graph.edge_count(), 1);
    assert_eq!(calculate_degrees(&graph), vec![1, 1, 0, 0]);
    assert_eq!(calculate_two_hop_neighbors(&graph), vec![0, 0, 0, 0]);
}

#[test]
fn two_hop_counts_exclude_direct_neighbors() {
    // Nodes at 0, 6 and 9 are pairwise similar; 15 is similar to 6 and 9 only.
    let graph = graph_of(&[0, 6_000, 9_000, 15_000]);
    assert_eq!(graph.edge_count(), 5);
    assert_eq!(calculate_degrees(&graph), vec![2, 3, 3, 2]);
    assert_eq!(calculate_two_hop_neighbors(&graph), vec![1, 0, 0, 1]);
}

#[test]
fn extreme_percentages_do_not_overflow() {
    let graph = graph_of(&[i64::MIN, i64::MAX, i64::MAX - 1, i64::MIN + 9_999]);
    assert_eq!(graph.edge_count(), 2);
    assert_eq!(calculate_degrees(&graph), vec![1, 1, 1, 1]);
}

#[test]
fn building_twice_gives_the_same_graph() {
    let data = vec![job("A", 2_300), job("B", 8_000), job("C", 15_500), job("D", 40_000)];
    let g1 = create_graph(&data);
    let g2 = create_graph(&data);
    assert_eq!(g1.node_count(), g2.node_count());
    assert_eq!(g1.edge_count(), g2.edge_count());
    assert_eq!(calculate_degrees(&g1), calculate_degrees(&g2));
    assert_eq!(calculate_two_hop_neighbors(&g1), calculate_two_hop_neighbors(&g2));
    assert_eq!(calculate_degrees(&g1), vec![1, 2, 1, 0]);
    assert_eq!(calculate_two_hop_neighbors(&g1), vec![1, 0, 1, 0]);
}

#[test]
fn duplicate_names_keep_separate_nodes() {
    let data = vec![job("Same", 10_000), job("Same", 12_000), job("Other", 14_000)];
    let graph = create_graph(&data);
    assert_eq!(graph.node_count(), 3);
    assert_eq!(graph.edge_count(), 3);
    assert_eq!(calculate_degrees(&graph), vec![2, 2, 2]);
}

#[test]
fn hop_distances_of_a_path() {
    let graph = graph_of(&[0, 9_000, 18_000, 27_000, 90_000]);
    assert_eq!(graph.hop_distances(0), vec![Some(0), Some(1), Some(2), Some(3), None]);
    assert_eq!(graph.hop_distances(2), vec![Some(2), Some(1), Some(0), Some(1), None]);
    assert_eq!(graph.degree(1), 2);
    assert_eq!(graph.degree(4), 0);
}
