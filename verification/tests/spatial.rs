use env_awareness::config::ConfigError;
use env_awareness::spatial::{Position, SpatialGraph, DEFAULT_THRESHOLD};

#[test]
fn test_position_distance() {
    let pos1 = Position { x: 0, y: 0, z: 0 };
    let pos2 = Position { x: 3_000_000, y: 4_000_000, z: 0 };

    assert_eq!(pos1.distance_to(&pos2), 5_000_000);
    assert_eq!(pos1.distance_squared_to(&pos2), 25_000_000_000_000);
}

#[test]
fn test_spatial_graph() {
    let mut graph = SpatialGraph::new();

    let id1 = graph.add_node(&[100_000, 200_000, 300_000, 400_000]);
    let id2 = graph.add_node(&[150_000, 250_000, 350_000, 450_000]);

    assert_eq!(graph.node_count(), 2);
    assert_eq!(id1, 0);
    assert_eq!(id2, 1);
}

#[test]
fn test_k_nearest_neighbors() {
    let mut graph = SpatialGraph::new();

    // Add several nodes
    for i in 0..10 {
        let features = vec![i * 100_000, 500_000, 500_000, 500_000];
        graph.add_node(&features);
    }

    let query_pos = Position { x: 50_000_000, y: 50_000_000, z: 5_000_000 };
    let neighbors = graph.k_nearest_neighbors(&query_pos, 3);

    assert_eq!(neighbors.len(), 3);
}

#[test]
fn two_close_nodes_share_one_edge() {
    let mut graph = SpatialGraph::new();
    let a = graph.add_node(&[100_000, 200_000, 300_000, 400_000]);
    let b = graph.add_node(&[150_000, 250_000, 350_000, 450_000]);
    assert_eq!(graph.position_at(a), Some(Position { x: 10_000_000, y: 20_000_000, z: 3_000_000 }));
    assert_eq!(graph.position_at(b), Some(Position { x: 15_000_000, y: 25_000_000, z: 3_500_000 }));
    assert_eq!(graph.position_at(2), None);
    assert!(graph.links_of(2).is_empty());
    // The squared distance is 50.25, the distance 7.088723...
    assert_eq!(graph.links_of(a), vec![(b, 7_088_723)]);
    assert_eq!(graph.links_of(b), vec![(a, 7_088_723)]);
    assert_eq!(graph.edge_count(), 1);
    assert_eq!(graph.average_degree(), 1_000_000);
}

#[test]
fn missing_features_count_as_zero() {
    assert_eq!(Position::from_features(&[]), Position { x: 0, y: 0, z: 0 });
    assert_eq!(Position::from_features(&[250_000]), Position { x: 25_000_000, y: 0, z: 0 });
    assert_eq!(
        Position::from_features(&[250_000, -10_000]),
        Position { x: 25_000_000, y: -1_000_000, z: 0 }
    );
    assert_eq!(
        Position::from_features(&[i32::MAX, i32::MIN, i32::MAX, 7]),
        Position {
            x: i32::MAX as i64 * 100,
            y: i32::MIN as i64 * 100,
            z: i32::MAX as i64 * 10,
        }
    );
}

#[test]
fn threshold_is_strict() {
    // Nodes exactly fifty units apart are not linked; a millionth closer they are.
    let mut graph = SpatialGraph::new();
    graph.add_node(&[0, 0, 0]);
    graph.add_node(&[500_000, 0, 0]);
    assert_eq!(graph.edge_count(), 0);
    assert!(graph.links_of(0).is_empty());
    graph.add_node(&[0, 499_999, 0]);
    assert_eq!(graph.links_of(0), vec![(2, 49_999_900)]);
    assert_eq!(graph.links_of(2), vec![(0, 49_999_900)]);
    assert!(graph.links_of(1).is_empty());
    assert_eq!(graph.edge_count(), 1);
    // Two links over three nodes.
    assert_eq!(graph.average_degree(), 666_666);
}

#[test]
fn adjacency_is_symmetric_and_sorted_by_id() {
    let mut graph = SpatialGraph::new();
    let features: Vec<[i32; 3]> = vec![
        [0, 0, 0],
        [100_000, 0, 0],
        [900_000, 900_000, 0],
        [200_000, 100_000, 500_000],
        [850_000, 950_000, 100_000],
        [300_000, 300_000, 300_000],
    ];
    for f in &features {
        graph.add_node(f);
    }
    let mut stored = 0u128;
    for u in 0..graph.node_count() {
        let links = graph.links_of(u);
        stored += links.len() as u128;
        for window in links.windows(2) {
            assert!(window[0].0 < window[1].0);
        }
        for (v, d) in links {
            assert!(v != u);
            assert!(graph.links_of(v).contains(&(u, d)));
            let a = graph.position_at(u).unwrap();
            let b = graph.position_at(v).unwrap();
            assert_eq!(a.distance_to(&b), d);
            assert!(a.distance_squared_to(&b) < 2_500_000_000_000_000);
        }
    }
    assert_eq!(graph.edge_count() * 2, stored);
    // Brute force over all pairs gives the same edges.
    let mut pairs = 0u128;
    for u in 0..graph.node_count() {
        for v in 0..u {
            let a = graph.position_at(u).unwrap();
            let b = graph.position_at(v).unwrap();
            if a.distance_squared_to(&b) < 2_500_000_000_000_000 {
                pairs += 1;
                assert!(graph.links_of(u).iter().any(|l| l.0 == v));
            } else {
                assert!(!graph.links_of(u).iter().any(|l| l.0 == v));
            }
        }
    }
    assert_eq!(graph.edge_count(), pairs);
    assert!(pairs > 0);
}

#[test]
fn nearest_neighbors_are_ranked_by_distance_then_id() {
    let mut graph = SpatialGraph::new();
    for i in 0..10 {
        graph.add_node(&[i * 100_000, 500_000, 500_000, 500_000]);
    }
    let query = Position { x: 50_000_000, y: 50_000_000, z: 5_000_000 };
    assert_eq!(
        graph.k_nearest_neighbors(&query, 3),
        vec![(5, 0), (4, 10_000_000), (6, 10_000_000)]
    );
    assert_eq!(graph.k_nearest_neighbors(&query, 0), vec![]);
    assert_eq!(graph.k_nearest_neighbors(&query, 1), vec![(5, 0)]);
    let all = graph.k_nearest_neighbors(&query, 25);
    assert_eq!(all.len(), 10);
    assert_eq!(all[9], (0, 50_000_000));
    assert_eq!(all[8], (9, 40_000_000));
    for pair in all.windows(2) {
        assert!(pair[0].1 <= pair[1].1);
    }
    assert_eq!(graph.k_nearest_neighbors(&query, 10), all);
}

#[test]
fn nearest_neighbors_of_an_empty_graph() {
    let graph = SpatialGraph::new();
    let query = Position { x: i64::MAX, y: i64::MIN, z: 0 };
    assert!(graph.k_nearest_neighbors(&query, 5).is_empty());
    assert_eq!(graph.edge_count(), 0);
    assert_eq!(graph.average_degree(), 0);
    assert_eq!(graph.node_count(), 0);
}

#[test]
fn far_queries_do_not_overflow() {
    let mut graph = SpatialGraph::new();
    graph.add_node(&[i32::MIN, i32::MIN, i32::MIN]);
    graph.add_node(&[i32::MAX, i32::MAX, i32::MAX]);
    let query = Position { x: i64::MAX, y: i64::MAX, z: i64::MAX };
    let found = graph.k_nearest_neighbors(&query, 2);
    assert_eq!(found.len(), 2);
    assert_eq!(found[0].0, 1);
    assert_eq!(found[1].0, 0);
    assert!(found[0].1 < found[1].1);
}

#[test]
fn custom_threshold() {
    assert!(matches!(SpatialGraph::with_threshold(0), Err(ConfigError::ZeroProximityThreshold)));
    let mut tight = SpatialGraph::with_threshold(1_000_000).unwrap();
    tight.add_node(&[100_000, 200_000, 300_000]);
    tight.add_node(&[150_000, 250_000, 350_000]);
    assert_eq!(tight.edge_count(), 0);
    let mut wide = SpatialGraph::with_threshold(u64::MAX).unwrap();
    wide.add_node(&[i32::MIN, i32::MIN, i32::MIN]);
    wide.add_node(&[i32::MAX, i32::MAX, i32::MAX]);
    assert_eq!(wide.edge_count(), 1);
    assert_eq!(DEFAULT_THRESHOLD, 50_000_000);
}

#[test]
fn memory_estimate_counts_nodes_and_links() {
    let mut graph = SpatialGraph::new();
    assert_eq!(graph.estimate_memory(), 0);
    graph.add_node(&[0, 0, 0]);
    assert_eq!(graph.estimate_memory(), 64);
    graph.add_node(&[0, 0, 0]);
    assert_eq!(graph.estimate_memory(), 2 * 64 + 2 * 16);
}
