use crusti_g2io::generators::{
    barabasi_albert_graph, chain_graph, directed_generator_factory_from_str, iter_directed_generator_factories,
    tree_graph, undirected_generator_factory_from_str, watts_strogatz_graph, GraphGenerator, PathGeneratorFactory,
};
use crusti_g2io::named_param::resolve;
use crusti_g2io::{
    BarabasiAlbertGeneratorFactory, ChainGeneratorFactory, ErdosRenyiGeneratorFactory, NamedParam, NodeIndexType,
    ParamErrorKind, ParameterValue, Probability, TreeGeneratorFactory, WattsStrogatzGeneratorFactory,
};
use rand::SeedableRng;

fn chain_of(params: &str) -> crusti_g2io::Graph {
    match resolve(&ChainGeneratorFactory, params).unwrap() {
        GraphGenerator::Chain { n } => chain_graph(n),
        other => panic!("unexpected generator {:?}", other),
    }
}

fn tree_of(params: &str) -> crusti_g2io::Graph {
    match resolve(&TreeGeneratorFactory, params).unwrap() {
        GraphGenerator::Tree { n } => tree_graph(n),
        other => panic!("unexpected generator {:?}", other),
    }
}

#[test]
fn generators_test_chain_of_zero() {
    let g = chain_graph(0);
    assert_eq!(0, g.n_nodes());
    assert_eq!(0, g.n_edges());
}

#[test]
fn generators_test_chain_of_one() {
    let g = chain_graph(1);
    assert_eq!(1, g.n_nodes());
    assert_eq!(0, g.n_edges());
}

#[test]
fn generators_test_chain() {
    let g = chain_graph(3);
    assert_eq!(3, g.n_nodes());
    assert_eq!(
        vec![(0, 1), (1, 2)],
        g.iter_edges().into_iter().collect::<Vec<(NodeIndexType, NodeIndexType)>>()
    );
}

#[test]
fn chain_of_five() {
    let g = chain_graph(5);
    assert_eq!(5, g.n_nodes());
    assert_eq!(vec![(0, 1), (1, 2), (2, 3), (3, 4)], g.iter_edges());
}

#[test]
fn generators_test_barabasi_star() {
    let g = barabasi_albert_graph(4, 3, &mut rand_pcg::Pcg32::seed_from_u64(0));
    assert_eq!(vec![(0, 1), (0, 2), (0, 3)], g.iter_edges());
}

#[test]
fn barabasi_albert_generator_test_barabasi_star() {
    let generator = BarabasiAlbertGeneratorFactory
        .try_with_params(vec![ParameterValue::PositiveInteger(4), ParameterValue::PositiveInteger(3)])
        .unwrap();
    assert_eq!(GraphGenerator::BarabasiAlbert { n: 4, m: 3 }, generator);
    let g = barabasi_albert_graph(4, 3, &mut rand_pcg::Pcg32::seed_from_u64(7));
    assert_eq!(vec![(0, 1), (0, 2), (0, 3)], g.iter_edges());
}

#[test]
fn barabasi_albert_sizes() {
    let g = barabasi_albert_graph(10, 2, &mut rand_pcg::Pcg32::seed_from_u64(3));
    assert_eq!(10, g.n_nodes());
    assert_eq!(2 + 7 * 2, g.n_edges());
    assert_eq!(vec![(0, 1), (0, 2)], g.iter_edges()[..2].to_vec());
}

#[test]
fn test_m_is_zero() {
    let r = BarabasiAlbertGeneratorFactory
        .try_with_params(vec![ParameterValue::PositiveInteger(2), ParameterValue::PositiveInteger(0)]);
    assert!(r.is_err());
    assert_eq!(ParamErrorKind::Invalid, r.unwrap_err().kind);
}

#[test]
fn test_n_is_not_higher_than_m() {
    assert!(BarabasiAlbertGeneratorFactory
        .try_with_params(vec![ParameterValue::PositiveInteger(2), ParameterValue::PositiveInteger(2)])
        .is_err())
}

#[test]
fn chain_generator_test_not_enough_params() {
    assert!(resolve(&ChainGeneratorFactory, "").is_err())
}

#[test]
fn chain_generator_test_too_much_params() {
    assert!(resolve(&ChainGeneratorFactory, "1,1").is_err())
}

#[test]
fn chain_generator_test_chain_of_zero() {
    let g = chain_of("0");
    assert_eq!(0, g.n_nodes());
    assert_eq!(0, g.n_edges());
}

#[test]
fn chain_generator_test_chain_of_one() {
    let g = chain_of("1");
    assert_eq!(1, g.n_nodes());
    assert_eq!(0, g.n_edges());
}

#[test]
fn chain_generator_test_chain() {
    let g = chain_of("3");
    assert_eq!(3, g.n_nodes());
    assert_eq!(vec![(0, 1), (1, 2)], g.iter_edges());
}

#[test]
fn erdos_renyi_test_not_enough_params() {
    assert!(resolve(&ErdosRenyiGeneratorFactory, "1").is_err())
}

#[test]
fn erdos_renyi_test_too_much_params() {
    assert!(resolve(&ErdosRenyiGeneratorFactory, "2,1,0").is_err())
}

#[test]
fn erdos_renyi_parameters() {
    assert_eq!(
        GraphGenerator::ErdosRenyi { n: 3, p: Probability::one() },
        resolve(&ErdosRenyiGeneratorFactory, "3,1").unwrap()
    );
}

#[test]
fn tree_generator_test_not_enough_params() {
    assert!(resolve(&TreeGeneratorFactory, "").is_err())
}

#[test]
fn tree_generator_test_too_much_params() {
    assert!(resolve(&TreeGeneratorFactory, "1,1").is_err())
}

#[test]
fn test_tree_of_zero() {
    let g = tree_of("0");
    assert_eq!(0, g.n_nodes());
    assert_eq!(0, g.n_edges());
}

#[test]
fn test_tree_of_one() {
    let g = tree_of("1");
    assert_eq!(1, g.n_nodes());
    assert_eq!(0, g.n_edges());
}

#[test]
fn test_tree() {
    let g = tree_of("4");
    assert_eq!(4, g.n_nodes());
    assert_eq!(vec![(0, 1), (0, 2), (1, 3)], g.iter_edges());
}

#[test]
fn tree_of_seven() {
    let g = tree_graph(7);
    assert_eq!(7, g.n_nodes());
    assert_eq!(vec![(0, 1), (0, 2), (1, 3), (1, 4), (2, 5), (2, 6)], g.iter_edges());
}

#[test]
fn watts_strogatz_test_not_enough_params() {
    assert!(resolve(&WattsStrogatzGeneratorFactory, "3, 2").is_err())
}

#[test]
fn watts_strogatz_test_too_much_params() {
    assert!(resolve(&WattsStrogatzGeneratorFactory, "3, 2,0,0.5").is_err())
}

#[test]
fn test_k_is_not_even() {
    assert!(resolve(&WattsStrogatzGeneratorFactory, "3, 1, 0.5").is_err());
    let e = resolve(&WattsStrogatzGeneratorFactory, "3,1,0.5").unwrap_err();
    assert_eq!(ParamErrorKind::Invalid, e.kind);
    assert_eq!("3,1,0.5", e.input);
}

#[test]
fn test_n_is_not_higher_than_k() {
    assert!(resolve(&WattsStrogatzGeneratorFactory, "2,2,0.5").is_err())
}

#[test]
fn test_generator_ok() {
    assert!(directed_generator_factory_from_str("path/1").is_ok());
}

#[test]
fn test_unknown_generator() {
    assert!(directed_generator_factory_from_str("foo/1").is_err());
}

#[test]
fn test_generator_no_params() {
    assert!(directed_generator_factory_from_str("path").is_err());
}

#[test]
fn test_generator_too_much_params() {
    assert!(directed_generator_factory_from_str("path/1,1").is_err());
}

#[test]
fn test_generator_wrong_types_params() {
    assert!(directed_generator_factory_from_str("path/0.5").is_err());
}

#[test]
fn registry_resolves_chain() {
    let generator = directed_generator_factory_from_str("chain/3").unwrap();
    assert_eq!(GraphGenerator::Chain { n: 3 }, generator);
    let g = chain_graph(3);
    assert_eq!(3, g.n_nodes());
    assert_eq!(vec![(0, 1), (1, 2)], g.iter_edges());
}

#[test]
fn registry_chain_without_params_is_arity_error() {
    let e = directed_generator_factory_from_str("chain").unwrap_err();
    assert_eq!(ParamErrorKind::Arity, e.kind);
}

#[test]
fn registry_unknown_name_is_not_found() {
    let e = directed_generator_factory_from_str("doesnotexist/3").unwrap_err();
    assert_eq!(ParamErrorKind::NotFound, e.kind);
    assert_eq!("doesnotexist/3", e.input);
}

#[test]
fn registry_type_error_carries_token() {
    let e = undirected_generator_factory_from_str("ba/10,x").unwrap_err();
    assert_eq!(ParamErrorKind::Type, e.kind);
    assert_eq!("x", e.input);
}

#[test]
fn registry_refused_values() {
    let e = undirected_generator_factory_from_str("ws/4,2,1.5").unwrap_err();
    assert_eq!(ParamErrorKind::Type, e.kind);
    let e = undirected_generator_factory_from_str("ws/4,4,0.5").unwrap_err();
    assert_eq!(ParamErrorKind::Invalid, e.kind);
    assert_eq!("4,4,0.5", e.input);
    assert_eq!(
        GraphGenerator::WattsStrogatz { n: 5, k: 4, p: Probability::zero() },
        undirected_generator_factory_from_str("ws/5,4,0").unwrap()
    );
}

#[test]
fn generator_listing() {
    let names: Vec<&str> = iter_directed_generator_factories().iter().map(|l| l.name).collect();
    assert_eq!(vec!["ba", "path", "chain", "er", "tree", "ws"], names);
    assert_eq!("path", PathGeneratorFactory.name());
    assert_eq!(3, TreeGeneratorFactory.description().len());
}

fn watts_strogatz_of(params: &str, rewire: bool) -> crusti_g2io::Graph {
    match resolve(&WattsStrogatzGeneratorFactory, params).unwrap() {
        GraphGenerator::WattsStrogatz { n, k, p } => {
            let expected = if rewire { Probability::one() } else { Probability::zero() };
            assert_eq!(expected, p);
            let rewirings: Vec<Vec<Option<usize>>> =
                (0..n).map(|_| (0..k / 2).map(|_| if rewire { Some(0) } else { None }).collect()).collect();
            watts_strogatz_graph(n, k, &rewirings)
        }
        other => panic!("unexpected generator {:?}", other),
    }
}

#[test]
fn test_p_is_zero_5_4() {
    let g = watts_strogatz_of("5,4,0", false);
    let mut edges = g.iter_edges();
    edges.sort_unstable();
    assert_eq!(
        vec![(0, 1), (0, 2), (1, 2), (1, 3), (2, 3), (2, 4), (3, 0), (3, 4), (4, 0), (4, 1)],
        edges
    );
}

#[test]
fn test_p_is_zero_3_2() {
    let g = watts_strogatz_of("3,2,0", false);
    let mut edges = g.iter_edges();
    edges.sort_unstable();
    assert_eq!(vec![(0, 1), (1, 2), (2, 0),], edges);
}

#[test]
fn test_p_is_one_3_2() {
    let g = watts_strogatz_of("3,2,1", true);
    let mut edges = g.iter_edges();
    edges.sort_unstable();
    assert_eq!(vec![(0, 2), (1, 0), (2, 1),], edges);
}

#[test]
fn watts_strogatz_rewiring_keeps_sizes() {
    let rewirings = vec![vec![Some(1), None], vec![None, Some(0)], vec![None, None], vec![Some(2), Some(0)], vec![None, None], vec![Some(0), None]];
    let g = watts_strogatz_graph(6, 4, &rewirings);
    assert_eq!(6, g.n_nodes());
    assert_eq!(12, g.n_edges());
    assert!(g.iter_edges().iter().all(|(s, t)| s != t));
    assert!(g.iter_edges().contains(&(0, 4)));
}

#[test]
fn watts_strogatz_refuses_zero_degree() {
    let e = resolve(&WattsStrogatzGeneratorFactory, "3,0,0.5").unwrap_err();
    assert_eq!(ParamErrorKind::Invalid, e.kind);
}
