use const_graphs::Graph;
use const_graphs::GraphError;
use const_graphs::WeightedGraph;

#[test]
fn try_ops_accept_valid_indexes() {
    let mut graph = Graph::<3>::new();
    assert_eq!(graph.try_add_edge(0, 1), Ok(()));
    assert_eq!(graph.try_has_edge(0, 1), Ok(true));
    assert_eq!(graph.try_has_edge(1, 0), Ok(false));
    assert_eq!(graph.try_add_edge_undirected(1, 2), Ok(()));
    assert_eq!(graph.try_has_edge(2, 1), Ok(true));
    assert_eq!(graph.try_remove_edge(0, 1), Ok(()));
    assert_eq!(graph.try_has_edge(0, 1), Ok(false));
    assert_eq!(graph.try_remove_edge_undirected(1, 2), Ok(()));
    assert_eq!(graph.try_has_edge(1, 2), Ok(false));
    assert_eq!(graph.try_get_edges(0), Ok(vec![false, false, false]));
    assert_eq!(graph.try_get_inverse_edges(0), Ok(vec![false, false, false]));
}

#[test]
fn try_ops_refuse_out_of_range_indexes() {
    let mut graph = Graph::<3>::new();
    assert_eq!(graph.try_add_edge(3, 0), Err(GraphError::IndexOutOfRange));
    assert_eq!(graph.try_add_edge(0, 3), Err(GraphError::IndexOutOfRange));
    assert_eq!(graph.try_add_edge_undirected(5, 1), Err(GraphError::IndexOutOfRange));
    assert_eq!(graph.try_remove_edge(3, 3), Err(GraphError::IndexOutOfRange));
    assert_eq!(graph.try_remove_edge_undirected(0, 7), Err(GraphError::IndexOutOfRange));
    assert_eq!(graph.try_has_edge(3, 0), Err(GraphError::IndexOutOfRange));
    assert_eq!(graph.try_get_edges(3), Err(GraphError::IndexOutOfRange));
    assert_eq!(graph.try_get_inverse_edges(4), Err(GraphError::IndexOutOfRange));
}

#[test]
fn try_ops_leave_graph_unchanged_on_error() {
    let mut graph = Graph::<3>::new();
    graph.add_edge(0, 1);
    let before = graph.edge_count();
    assert!(graph.try_add_edge(3, 0).is_err());
    assert!(graph.try_remove_edge(0, 3).is_err());
    assert_eq!(graph.edge_count(), before);
    assert!(graph.has_edge(0, 1));
}

#[test]
fn weighted_try_ops_accept_valid_indexes() {
    let mut graph = WeightedGraph::<3, f32>::new();
    assert_eq!(graph.try_add_edge(0, 1, 2.5), Ok(()));
    assert_eq!(graph.try_get_edge(0, 1), Ok(Some(2.5)));
    assert_eq!(graph.try_has_edge(0, 1), Ok(true));
    assert_eq!(graph.try_add_edge_undirected(1, 2, 4.0), Ok(()));
    assert_eq!(graph.try_get_edge(2, 1), Ok(Some(4.0)));
    assert_eq!(graph.try_remove_edge(0, 1), Ok(()));
    assert_eq!(graph.try_get_edge(0, 1), Ok(None));
    assert_eq!(graph.try_remove_edge_undirected(1, 2), Ok(()));
    assert_eq!(graph.try_has_edge(1, 2), Ok(false));
    assert_eq!(graph.try_get_edges(0), Ok(vec![None, None, None]));
    assert_eq!(graph.try_get_inverse_edges(0), Ok(vec![None, None, None]));
}

#[test]
fn weighted_try_ops_refuse_out_of_range_indexes() {
    let mut graph = WeightedGraph::<3, f32>::new();
    assert_eq!(graph.try_add_edge(3, 0, 1.0), Err(GraphError::IndexOutOfRange));
    assert_eq!(graph.try_add_edge_undirected(0, 9, 1.0), Err(GraphError::IndexOutOfRange));
    assert_eq!(graph.try_remove_edge(4, 0), Err(GraphError::IndexOutOfRange));
    assert_eq!(graph.try_remove_edge_undirected(3, 3), Err(GraphError::IndexOutOfRange));
    assert_eq!(graph.try_get_edge(0, 3), Err(GraphError::IndexOutOfRange));
    assert_eq!(graph.try_has_edge(3, 2), Err(GraphError::IndexOutOfRange));
    assert_eq!(graph.try_get_edges(3), Err(GraphError::IndexOutOfRange));
    assert_eq!(graph.try_get_inverse_edges(6), Err(GraphError::IndexOutOfRange));
}

#[test]
fn weighted_try_ops_leave_graph_unchanged_on_error() {
    let mut graph = WeightedGraph::<3, f32>::new();
    graph.add_edge(0, 1, 8.0);
    assert!(graph.try_add_edge(0, 3, 1.0).is_err());
    assert!(graph.try_remove_edge(3, 1).is_err());
    assert_eq!(graph.get_edge(0, 1), Some(8.0));
    assert_eq!(graph.edge_count(), 1);
}
