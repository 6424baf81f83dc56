use crusti_g2io::generators::chain_graph;
use crusti_g2io::linkers::{
    directed_linker_from_str, first_to_first_links, iter_undirected_linkers, min_incoming, min_incoming_links,
    random_links, undirected_linker_from_str, BidirectionalRandomLinker, GraphLinker, MinIncomingLinker, RandomLinker,
};
use crusti_g2io::{
    BidirectionalFirstToFirstLinker, FirstToFirstLinker, Graph, InnerGraph, InterGraphEdge, NamedParam,
    ParamErrorKind, ParameterValue, Probability,
};

#[test]
fn test_f2f_ok() {
    let g0 = chain_graph(2);
    let g1 = chain_graph(2);
    let linker = FirstToFirstLinker.try_with_params(vec![]).unwrap();
    assert_eq!(GraphLinker::FirstToFirst { bidirectional: false }, linker);
    let (first, second): (InnerGraph, InnerGraph) = ((0, &g0).into(), (1, &g1).into());
    assert_eq!((0, 1), (first.index(), second.index()));
    assert_eq!(vec![InterGraphEdge::FirstToSecond(0, 0)], first_to_first_links(false));
}

#[test]
fn test_f2f_bi_ok() {
    let linker = BidirectionalFirstToFirstLinker.try_with_params(vec![]).unwrap();
    assert_eq!(GraphLinker::FirstToFirst { bidirectional: true }, linker);
    assert_eq!(
        vec![InterGraphEdge::FirstToSecond(0, 0), InterGraphEdge::SecondToFirst(0, 0)],
        first_to_first_links(true)
    );
}

#[test]
fn test_min_incoming_ok() {
    let mut g0: Graph = Graph::default();
    g0.new_node();
    g0.new_node();
    let mut g1 = Graph::default();
    g1.new_edge(0, 1);
    let linker = MinIncomingLinker.try_with_params(vec![]).unwrap();
    assert_eq!(GraphLinker::MinIncoming { bidirectional: false }, linker);
    assert_eq!(
        vec![InterGraphEdge::FirstToSecond(0, 0), InterGraphEdge::FirstToSecond(1, 0)],
        min_incoming_links(&InnerGraph::new(0, &g0), &InnerGraph::new(1, &g1), false)
    );
}

#[test]
fn test_min_incoming_bi_ok() {
    let mut g0: Graph = Graph::default();
    g0.new_node();
    g0.new_node();
    let mut g1 = Graph::default();
    g1.new_edge(0, 1);
    assert_eq!(
        vec![
            InterGraphEdge::FirstToSecond(0, 0),
            InterGraphEdge::SecondToFirst(0, 0),
            InterGraphEdge::FirstToSecond(1, 0),
            InterGraphEdge::SecondToFirst(0, 1),
        ],
        min_incoming_links(&InnerGraph::new(0, &g0), &InnerGraph::new(1, &g1), true)
    );
}

#[test]
fn min_incoming_nodes_of_graphs() {
    let mut g = Graph::default();
    g.new_edge(0, 1);
    g.new_edge(2, 1);
    g.new_edge(1, 3);
    assert_eq!(vec![0, 2], min_incoming(&g));
    assert_eq!(vec![] as Vec<usize>, min_incoming(&Graph::default()));
    let mut cycle = Graph::default();
    cycle.new_edge(0, 1);
    cycle.new_edge(1, 2);
    cycle.new_edge(2, 0);
    assert_eq!(vec![0, 1, 2], min_incoming(&cycle));
}

#[test]
fn inner_graph_accessors() {
    let g = chain_graph(3);
    let ig = InnerGraph::new(4, &g);
    assert_eq!(4, ig.index());
    assert_eq!(3, ig.graph().n_nodes());
}

#[test]
fn test_linker_ok() {
    assert!(directed_linker_from_str("first").is_ok());
}

#[test]
fn test_unknown_linker() {
    assert!(directed_linker_from_str("foo/1").is_err());
}

#[test]
fn test_linker_too_much_params() {
    assert!(directed_linker_from_str("first/1").is_err());
}

#[test]
fn test_linker_not_enough_params() {
    assert!(directed_linker_from_str("random").is_err());
}

#[test]
fn test_linker_wrong_types_params() {
    assert!(directed_linker_from_str("random/2").is_err());
}

#[test]
fn bidirectional_linkers_are_directed_only() {
    assert!(directed_linker_from_str("first_bi").is_ok());
    let e = undirected_linker_from_str("first_bi").unwrap_err();
    assert_eq!(ParamErrorKind::NotFound, e.kind);
    let names: Vec<&str> = iter_undirected_linkers().iter().map(|l| l.name).collect();
    assert_eq!(vec!["first", "min_incoming", "random"], names);
}

#[test]
fn random_linker_parameters() {
    match directed_linker_from_str("random_bi/0.25").unwrap() {
        GraphLinker::Random { p, bidirectional } => {
            assert!(bidirectional);
            assert_eq!(0.25, p.scaled as f64 / 1e18);
        }
        other => panic!("unexpected linker {:?}", other),
    }
}

fn random_linker_on_chains(bidirectional: bool, p: Probability, all_drawn: bool) -> Vec<InterGraphEdge> {
    let g0 = chain_graph(2);
    let g1 = chain_graph(2);
    let linker = if bidirectional {
        BidirectionalRandomLinker.try_with_params(vec![ParameterValue::Probability(p)]).unwrap()
    } else {
        RandomLinker.try_with_params(vec![ParameterValue::Probability(p)]).unwrap()
    };
    assert_eq!(GraphLinker::Random { p, bidirectional }, linker);
    let draws = vec![(all_drawn, all_drawn); 4];
    random_links(&(0, &g0).into(), &(1, &g1).into(), bidirectional, &draws)
}

#[test]
fn test_random_ok_0() {
    let zero = Probability::zero();
    assert_eq!(vec![] as Vec<InterGraphEdge>, random_linker_on_chains(false, zero, false));
}

#[test]
fn test_random_ok_1() {
    let one = Probability::one();
    assert_eq!(
        vec![
            InterGraphEdge::FirstToSecond(0, 0),
            InterGraphEdge::FirstToSecond(0, 1),
            InterGraphEdge::FirstToSecond(1, 0),
            InterGraphEdge::FirstToSecond(1, 1),
        ],
        random_linker_on_chains(false, one, true)
    );
}

#[test]
fn test_random_bi_ok_0() {
    let zero = Probability::zero();
    assert_eq!(vec![] as Vec<InterGraphEdge>, random_linker_on_chains(true, zero, false));
}

#[test]
fn test_random_bi_ok_1() {
    let one = Probability::one();
    assert_eq!(
        vec![
            InterGraphEdge::FirstToSecond(0, 0),
            InterGraphEdge::SecondToFirst(0, 0),
            InterGraphEdge::FirstToSecond(0, 1),
            InterGraphEdge::SecondToFirst(1, 0),
            InterGraphEdge::FirstToSecond(1, 0),
            InterGraphEdge::SecondToFirst(0, 1),
            InterGraphEdge::FirstToSecond(1, 1),
            InterGraphEdge::SecondToFirst(1, 1),
        ],
        random_linker_on_chains(true, one, true)
    );
}

#[test]
fn random_links_follow_draws() {
    let g0 = chain_graph(2);
    let g1 = chain_graph(3);
    let draws = vec![(true, false), (false, true), (false, false), (false, true), (true, true), (false, false)];
    assert_eq!(
        vec![InterGraphEdge::FirstToSecond(0, 0), InterGraphEdge::FirstToSecond(1, 1)],
        random_links(&InnerGraph::new(0, &g0), &InnerGraph::new(1, &g1), false, &draws)
    );
    assert_eq!(
        vec![
            InterGraphEdge::FirstToSecond(0, 0),
            InterGraphEdge::SecondToFirst(1, 0),
            InterGraphEdge::SecondToFirst(0, 1),
            InterGraphEdge::FirstToSecond(1, 1),
            InterGraphEdge::SecondToFirst(1, 1),
        ],
        random_links(&InnerGraph::new(0, &g0), &InnerGraph::new(1, &g1), true, &draws)
    );
}
