use crusti_g2io::display::{directed_display_engine_from_str, undirected_display_engine_from_str, GraphFormat};
use crusti_g2io::generators::chain_graph;
use crusti_g2io::inner_outer::{assemble, assemble_checked, compose, draw_seeds};
use crusti_g2io::linkers::first_to_first_links;
use crusti_g2io::{Graph, InnerGraph, InterGraphEdge, NodeIndexType, ParamErrorKind};
use rand::SeedableRng;
use rand_pcg::Pcg32;

fn inner_outer<F, G, H>(outer_builder: F, inner_builder: G, linker: H, rng: &mut Pcg32) -> Graph
where
    F: Fn(&mut Pcg32) -> Graph,
    G: Fn(&mut Pcg32) -> Graph,
    H: Fn(InnerGraph, InnerGraph, &mut Pcg32) -> Vec<InterGraphEdge>,
{
    let outer = outer_builder(rng);
    let seeds = draw_seeds(rng, outer.n_nodes());
    let inner: Vec<Graph> = seeds.iter().map(|s| inner_builder(&mut Pcg32::seed_from_u64(*s))).collect();
    let edge_seeds = draw_seeds(rng, outer.n_edges());
    let links: Vec<Vec<InterGraphEdge>> = (0..outer.n_edges())
        .map(|i| {
            let (a, b) = outer.edge(i);
            linker(
                InnerGraph::new(a, &inner[a]),
                InnerGraph::new(b, &inner[b]),
                &mut Pcg32::seed_from_u64(edge_seeds[i]),
            )
        })
        .collect();
    assemble(&outer, &inner, &links)
}

fn circle(_: &mut Pcg32) -> Graph {
    const N: usize = 3;
    let mut g = Graph::with_capacity(N, N);
    for i in 0..N - 1 {
        g.new_edge(i, i + 1);
    }
    g.new_edge(N - 1, 0);
    g
}

fn chain_of_two(_: &mut Pcg32) -> Graph {
    let mut g = Graph::with_capacity(2, 1);
    g.new_edge(0, 1);
    g
}

fn sorted_edges(g: &Graph) -> Vec<(NodeIndexType, NodeIndexType)> {
    let mut e = g.iter_edges();
    e.sort_unstable();
    e
}

#[test]
fn inner_outer_generator_test_inner_outer() {
    let g = inner_outer(
        chain_of_two,
        circle,
        |_: InnerGraph, _: InnerGraph, _: &mut Pcg32| vec![InterGraphEdge::FirstToSecond(0, 0)],
        &mut Pcg32::seed_from_u64(0),
    );
    assert_eq!(vec![(0, 1), (0, 3), (1, 2), (2, 0), (3, 4), (4, 5), (5, 3)], sorted_edges(&g));
}

#[test]
fn test_inner_inv_outer() {
    let g = inner_outer(
        chain_of_two,
        circle,
        |_: InnerGraph, _: InnerGraph, _: &mut Pcg32| vec![InterGraphEdge::SecondToFirst(0, 0)],
        &mut Pcg32::seed_from_u64(0),
    );
    assert_eq!(vec![(0, 1), (1, 2), (2, 0), (3, 0), (3, 4), (4, 5), (5, 3)], sorted_edges(&g));
}

#[test]
fn graph_test_inner_outer() {
    let g = inner_outer(
        chain_of_two,
        circle,
        |_: InnerGraph, _: InnerGraph, _: &mut Pcg32| first_to_first_links(false),
        &mut Pcg32::seed_from_u64(1),
    );
    assert_eq!(vec![(0, 1), (0, 3), (1, 2), (2, 0), (3, 4), (4, 5), (5, 3)], sorted_edges(&g));
}

#[test]
fn chains_linked_by_first_nodes() {
    let g = inner_outer(
        |_: &mut Pcg32| chain_graph(2),
        |_: &mut Pcg32| chain_graph(3),
        |_: InnerGraph, _: InnerGraph, _: &mut Pcg32| first_to_first_links(false),
        &mut Pcg32::seed_from_u64(5),
    );
    assert_eq!(6, g.n_nodes());
    assert_eq!(vec![(0, 1), (0, 3), (1, 2), (3, 4), (4, 5)], sorted_edges(&g));
    assert_eq!(vec![(0, 1), (1, 2), (3, 4), (4, 5), (0, 3)], g.iter_edges());
}

#[test]
fn same_seed_same_graph() {
    let random_inner = |r: &mut Pcg32| {
        let s = draw_seeds(r, 1)[0];
        chain_graph(1 + (s % 5) as usize)
    };
    let random_links = |a: InnerGraph, b: InnerGraph, r: &mut Pcg32| {
        let s = draw_seeds(r, 2);
        vec![InterGraphEdge::FirstToSecond(
            (s[0] % a.graph().n_nodes() as u64) as usize,
            (s[1] % b.graph().n_nodes() as u64) as usize,
        )]
    };
    let run = |seed: u64| {
        inner_outer(
            |_: &mut Pcg32| chain_graph(4),
            random_inner,
            random_links,
            &mut Pcg32::seed_from_u64(seed),
        )
    };
    let g1 = run(42);
    let g2 = run(42);
    assert_eq!(g1.n_nodes(), g2.n_nodes());
    assert_eq!(g1.iter_edges(), g2.iter_edges());
}

#[test]
fn seeds_are_reproducible() {
    let a = draw_seeds(&mut Pcg32::seed_from_u64(9), 4);
    let b = draw_seeds(&mut Pcg32::seed_from_u64(9), 4);
    assert_eq!(4, a.len());
    assert_eq!(a, b);
    assert!(a.iter().any(|s| *s != a[0]));
    assert_eq!(0, draw_seeds(&mut Pcg32::seed_from_u64(9), 0).len());
}

#[test]
fn compose_offsets() {
    let inner = vec![chain_graph(2), chain_graph(0), chain_graph(3)];
    let (g, offsets) = compose(&inner);
    assert_eq!(vec![0, 2, 2, 5], offsets);
    assert_eq!(5, g.n_nodes());
    assert_eq!(vec![(0, 1), (2, 3), (3, 4)], g.iter_edges());
}

#[test]
fn out_of_range_link_grows_graph() {
    let outer = chain_graph(2);
    let inner = vec![chain_graph(2), chain_graph(2)];
    let links = vec![vec![InterGraphEdge::FirstToSecond(0, 5)]];
    let g = assemble(&outer, &inner, &links);
    assert_eq!(8, g.n_nodes());
    assert_eq!(vec![(0, 1), (2, 3), (0, 7)], g.iter_edges());
}

#[test]
fn assemble_checked_refuses_mismatch() {
    let outer = chain_graph(2);
    let inner = vec![chain_graph(2)];
    assert!(assemble_checked(&outer, &inner, &vec![vec![]]).is_none());
    let inner = vec![chain_graph(2), chain_graph(2)];
    assert!(assemble_checked(&outer, &inner, &vec![]).is_none());
    let huge = vec![vec![InterGraphEdge::SecondToFirst(usize::MAX - 1, 0)]];
    assert!(assemble_checked(&outer, &inner, &huge).is_none());
    let g = assemble_checked(&outer, &inner, &vec![vec![InterGraphEdge::SecondToFirst(1, 0)]]).unwrap();
    assert_eq!(vec![(0, 1), (2, 3), (3, 0)], g.iter_edges());
}

#[test]
fn display_engines_resolve() {
    assert_eq!(GraphFormat::Dot, directed_display_engine_from_str("dot").unwrap());
    assert_eq!(GraphFormat::Aspartix, directed_display_engine_from_str("apx").unwrap());
    assert_eq!(GraphFormat::IccmaDimacs, undirected_display_engine_from_str("iccma_dimacs").unwrap());
    assert_eq!(ParamErrorKind::NotFound, undirected_display_engine_from_str("apx").unwrap_err().kind);
    assert_eq!(ParamErrorKind::Arity, directed_display_engine_from_str("graphml/1").unwrap_err().kind);
}
