use const_graphs::WeightedGraph;

#[test]
fn weighted_new_graph_has_no_edges() {
    let graph = WeightedGraph::<3, f32>::new();
    for i in 0..3 {
        for j in 0..3 {
            assert_eq!(graph.get_edge(i, j), None);
            assert!(!graph.has_edge(i, j));
        }
    }
    assert_eq!(graph.edge_count(), 0);
}

#[test]
fn weighted_add_edge_stores_weight() {
    let mut graph = WeightedGraph::<10, f32>::new();
    graph.add_edge(0, 1, 16.0);
    assert_eq!(graph.get_edge(0, 1), Some(16.0));
    assert!(graph.has_edge(0, 1));
    assert!(!graph.has_edge(1, 0));
    assert_eq!(graph.get_edge(1, 0), None);
}

#[test]
fn weighted_zero_weight_is_present() {
    let mut graph = WeightedGraph::<10, f32>::new();
    graph.add_edge(2, 3, 0.0);
    assert_eq!(graph.get_edge(2, 3), Some(0.0));
    assert!(graph.has_edge(2, 3));
}

#[test]
fn weighted_add_edge_overwrites_weight() {
    let mut graph = WeightedGraph::<4, f32>::new();
    graph.add_edge(0, 1, 1.5);
    graph.add_edge(0, 1, 2.5);
    assert_eq!(graph.get_edge(0, 1), Some(2.5));
    assert_eq!(graph.edge_count(), 1);
}

#[test]
fn weighted_add_edge_undirected_sets_both() {
    let mut graph = WeightedGraph::<4, f32>::new();
    graph.add_edge_undirected(0, 1, 3.0);
    assert_eq!(graph.get_edge(0, 1), Some(3.0));
    assert_eq!(graph.get_edge(1, 0), Some(3.0));
    assert!(graph.has_edge(0, 1));
    assert!(graph.has_edge(1, 0));
}

#[test]
fn weighted_remove_edge_restores_absent() {
    let mut graph = WeightedGraph::<4, f32>::new();
    graph.add_edge(0, 1, 0.3);
    graph.remove_edge(0, 1);
    assert!(!graph.has_edge(0, 1));
    assert_eq!(graph.get_edge(0, 1), None);
}

#[test]
fn weighted_remove_edge_undirected_restores_absent() {
    let mut graph = WeightedGraph::<4, f32>::new();
    graph.add_edge_undirected(0, 1, 0.4);
    graph.remove_edge_undirected(0, 1);
    assert!(!graph.has_edge(0, 1));
    assert!(!graph.has_edge(1, 0));
}

#[test]
fn weighted_clear_empties_graph() {
    let mut graph = WeightedGraph::<3, f32>::new();
    graph.add_edge_undirected(0, 1, 0.2);
    graph.add_edge(2, 2, 5.5);
    graph.clear();
    assert_eq!(graph.edge_count(), 0);
    for i in 0..3 {
        for j in 0..3 {
            assert_eq!(graph.get_edge(i, j), None);
        }
    }
}

#[test]
fn weighted_max_edges_formula() {
    let three = WeightedGraph::<3, f32>::new();
    assert_eq!(three.max_number_of_edges(), 6);
    let one = WeightedGraph::<1, f32>::new();
    assert_eq!(one.max_number_of_edges(), 0);
}

#[test]
fn weighted_triangle_fills_every_slot() {
    let mut graph = WeightedGraph::<3, f32>::new();
    graph.add_edge_undirected(0, 1, 0.1);
    graph.add_edge_undirected(0, 2, 1.1);
    graph.add_edge_undirected(1, 2, 0.5);
    assert_eq!(graph.edge_count(), 6);
    assert_eq!(graph.edge_count(), graph.max_number_of_edges());
}

#[test]
fn weighted_get_edges_returns_row() {
    let mut graph = WeightedGraph::<3, f32>::new();
    graph.add_edge(0, 2, 2.3);
    assert_eq!(graph.get_edges(0), vec![None, None, Some(2.3)]);
    assert_eq!(graph.get_edges(1), vec![None, None, None]);
}

#[test]
fn weighted_get_inverse_edges_returns_column() {
    let mut graph = WeightedGraph::<3, f32>::new();
    graph.add_edge(0, 2, 0.8);
    assert_eq!(graph.get_inverse_edges(2), vec![Some(0.8), None, None]);
    assert_eq!(graph.get_inverse_edges(0), vec![None, None, None]);
}

#[test]
fn weighted_inverse_edges_match_get_edge() {
    let mut graph = WeightedGraph::<5, f32>::new();
    graph.add_edge(0, 3, 1.0);
    graph.add_edge(3, 0, 2.0);
    graph.add_edge_undirected(1, 4, 3.0);
    graph.add_edge(2, 2, 4.0);
    graph.remove_edge(3, 0);
    for v in 0..5 {
        let inverse = graph.get_inverse_edges(v);
        let row = graph.get_edges(v);
        for u in 0..5 {
            assert_eq!(inverse[u], graph.get_edge(u, v));
            assert_eq!(row[u], graph.get_edge(v, u));
        }
    }
}

#[test]
fn weighted_self_loop_counts_toward_edges() {
    let mut graph = WeightedGraph::<3, f32>::new();
    graph.add_edge(1, 1, 7.0);
    assert!(graph.has_edge(1, 1));
    assert_eq!(graph.edge_count(), 1);
    assert_eq!(graph.max_number_of_edges(), 6);
}

#[test]
fn weighted_integer_weights() {
    let mut graph = WeightedGraph::<4, i64>::new();
    graph.add_edge(0, 1, -9);
    graph.add_edge_undirected(1, 2, 42);
    assert_eq!(graph.get_edge(0, 1), Some(-9));
    assert_eq!(graph.get_edge(1, 2), Some(42));
    assert_eq!(graph.get_edge(2, 1), Some(42));
    assert_eq!(graph.edge_count(), 3);
}
