use crusti_g2io::graph::Graph;
use crusti_g2io::NodeIndexType;

fn from_edges(edges: &[(NodeIndexType, NodeIndexType)]) -> Graph {
    let mut g = Graph::default();
    for (s, t) in edges {
        g.new_edge(*s, *t);
    }
    g
}

#[test]
fn graph_test_new_edge_adds_node() {
    let mut g: Graph = Graph::default();
    assert_eq!(0, g.n_nodes());
    assert_eq!(0, g.n_edges());
    g.new_edge(0, 1);
    assert_eq!(2, g.n_nodes());
    assert_eq!(1, g.n_edges());
    g.new_edge(0, 0);
    assert_eq!(2, g.n_nodes());
    assert_eq!(2, g.n_edges());
}

#[test]
fn graph_test_iter_edges() {
    let g = from_edges(&[(0, 1), (0, 0)]);
    assert_eq!(
        vec![(0, 1), (0, 0)],
        g.iter_edges()
            .into_iter()
            .collect::<Vec<(NodeIndexType, NodeIndexType)>>()
    )
}

#[test]
fn graph_test_append_graph() {
    let mut g0 = from_edges(&[(0, 1)]);
    assert_eq!(2, g0.n_nodes());
    assert_eq!(vec![(0, 1)], g0.iter_edges());
    let g1 = from_edges(&[(1, 0)]);
    g0.append_graph(&g1);
    assert_eq!(4, g0.n_nodes());
    assert_eq!(vec![(0, 1), (3, 2)], g0.iter_edges());
    let g2 = from_edges(&[(0, 1), (1, 0)]);
    g0.append_graph(&g2);
    assert_eq!(6, g0.n_nodes());
    assert_eq!(vec![(0, 1), (3, 2), (4, 5), (5, 4)], g0.iter_edges());
}

#[test]
fn new_node_uses_next_index() {
    let mut g = Graph::default();
    g.new_node();
    assert_eq!(1, g.n_nodes());
    g.new_edge(0, 0);
    assert_eq!(1, g.n_nodes());
    assert_eq!(vec![(0, 0)], g.iter_edges());
}

#[test]
fn new_edge_far_index_creates_every_missing_node() {
    let mut g = Graph::with_capacity(1, 1);
    g.new_node();
    g.new_node();
    g.new_edge(2, 5);
    assert_eq!(6, g.n_nodes());
    assert_eq!(1, g.n_edges());
    g.new_edge(7, 1);
    assert_eq!(8, g.n_nodes());
    assert_eq!(2, g.n_edges());
}

#[test]
fn new_edge_keeps_duplicates() {
    let mut g = Graph::default();
    g.new_edge(0, 1);
    g.new_edge(0, 1);
    assert_eq!(vec![(0, 1), (0, 1)], g.iter_edges());
}

#[test]
fn append_graph_to_empty_and_of_empty() {
    let mut g = Graph::default();
    let h = from_edges(&[(0, 2)]);
    g.append_graph(&h);
    assert_eq!(3, g.n_nodes());
    assert_eq!(vec![(0, 2)], g.iter_edges());
    g.append_graph(&Graph::default());
    assert_eq!(3, g.n_nodes());
    assert_eq!(vec![(0, 2)], g.iter_edges());
}

#[test]
fn edge_reads_by_position() {
    let g = from_edges(&[(3, 1), (0, 2)]);
    assert_eq!((3, 1), g.edge(0));
    assert_eq!((0, 2), g.edge(1));
}

#[test]
fn remove_edge_moves_last_edge_into_place() {
    let mut g = from_edges(&[(0, 1), (1, 2), (2, 0)]);
    g.remove_edge(0, 1);
    assert_eq!(3, g.n_nodes());
    assert_eq!(vec![(2, 0), (1, 2)], g.iter_edges());
    g.remove_edge(1, 2);
    assert_eq!(vec![(2, 0)], g.iter_edges());
}
