//! Graph generators: the factories that build them from parameters, and the graphs of
//! the generators whose construction needs no floating-point number.
use crate::graph::{barabasi_albert_storage, lemma_swap_removed_keeps, Graph};
use crate::named_param::{
    listed_names, listing, name_part, not_found, params_part, resolve, resolves_to, same_text, spec_resolve, split_name, Listing, NamedParam,
};
use crate::parameters::{ParamError, ParamErrorKind, ParameterType, ParameterValue, Probability};
use crate::random::Prng;
use vstd::prelude::*;

verus! {

/// A configured graph generator: which model, with which parameters.
#[derive(Debug, Clone, Copy, PartialEq, Eq, Structural)]
pub enum GraphGenerator {
    /// Barabási–Albert graphs of `n` nodes, from a star of `m + 1` nodes.
    BarabasiAlbert { n: usize, m: usize },
    /// Chains of `n` nodes.
    Chain { n: usize },
    /// Erdős–Rényi graphs of `n` nodes, each edge present with probability `p`.
    ErdosRenyi { n: usize, p: Probability },
    /// Balanced binary trees of `n` nodes.
    Tree { n: usize },
    /// Watts–Strogatz graphs of `n` nodes of initial degree `k`, rewired with probability `p`.
    WattsStrogatz { n: usize, k: usize, p: Probability },
}

/// A factory of graph generators.
pub trait GeneratorFactory: NamedParam<GraphGenerator> {
}

/// The edges of the chain of `n` nodes: `(0, 1), (1, 2), ..., (n - 2, n - 1)`.
pub open spec fn chain_edges(n: nat) -> Seq<(usize, usize)> {
    Seq::new((if n > 0 { n - 1 } else { 0 }) as nat, |i: int| (i as usize, (i + 1) as usize))
}

/// Builds the chain of `n` nodes.
pub fn chain_graph(n: usize) -> (r: Graph)
    ensures
        r.node_count() == n,
        r.edge_list().len() == (if n > 0 { n - 1 } else { 0 }),
        r.edge_list() == chain_edges(n as nat),
{
    let mut g = Graph::with_capacity(n, if n > 0 { n - 1 } else { 0 });
    let mut i: usize = 0;
    while i < n
        invariant
            i <= n,
            g.node_count() == i,
            g.edge_list() == Seq::<(usize, usize)>::empty(),
        decreases n - i,
    {
        g.new_node();
        i += 1;
    }
    let mut j: usize = 0;
    while j + 1 < n
        invariant
            n > 0 ==> j + 1 <= n,
            n == 0 ==> j == 0,
            g.node_count() == n,
            g.edge_list() == chain_edges((j + 1) as nat).take(j as int),
            g.edge_list().len() == j,
        decreases n - j,
    {
        g.new_edge(j, j + 1);
        j += 1;
        assert(g.edge_list() =~= chain_edges((j + 1) as nat).take(j as int));
    }
    assert(g.edge_list() =~= chain_edges(n as nat));
    g
}

/// The edges from node `i` to its children in the balanced binary tree of `n` nodes.
pub open spec fn tree_children(n: nat, i: nat) -> Seq<(usize, usize)> {
    (if 2 * i + 1 < n {
        seq![(i as usize, (2 * i + 1) as usize)]
    } else {
        Seq::empty()
    }) + (if 2 * i + 2 < n {
        seq![(i as usize, (2 * i + 2) as usize)]
    } else {
        Seq::empty()
    })
}

/// The edges from the first `k` nodes of the balanced binary tree of `n` nodes to their
/// children.
pub open spec fn tree_edges(n: nat, k: nat) -> Seq<(usize, usize)>
    decreases k,
{
    if k == 0 {
        Seq::empty()
    } else {
        tree_edges(n, (k - 1) as nat) + tree_children(n, (k - 1) as nat)
    }
}

/// Builds the balanced binary tree of `n` nodes, where node `i` has children `2i + 1`
/// and `2i + 2` when they exist.
pub fn tree_graph(n: usize) -> (r: Graph)
    ensures
        r.node_count() == n,
        r.edge_list() == tree_edges(n as nat, n as nat),
{
    let mut g = Graph::with_capacity(n, 0);
    let mut i: usize = 0;
    while i < n
        invariant
            i <= n,
            g.node_count() == i,
            g.edge_list() == Seq::<(usize, usize)>::empty(),
        decreases n - i,
    {
        g.new_node();
        i += 1;
    }
    let mut k: usize = 0;
    while k < n
        invariant
            k <= n,
            g.node_count() == n,
            g.edge_list() == tree_edges(n as nat, k as nat),
        decreases n - k,
    {
        let ghost before = g.edge_list();
        if k < n / 2 {
            g.new_edge(k, 2 * k + 1);
        }
        if k < (n - 1) / 2 {
            g.new_edge(k, 2 * k + 2);
        }
        k += 1;
        assert(g.edge_list() =~= before + tree_children(n as nat, (k - 1) as nat));
    }
    g
}

/// The node `j + 1` places after `i` on the ring of `n` nodes (for `i < n` and
/// `j + 1 < n`).
pub open spec fn ring_next(i: int, j: int, n: int) -> int {
    if i + 1 + j < n {
        i + 1 + j
    } else {
        i + 1 + j - n
    }
}

/// The edges from node `i` of the ring lattice to its `half` successors on the ring.
pub open spec fn lattice_row(n: nat, half: nat, i: nat) -> Seq<(usize, usize)> {
    Seq::new(half, |j: int| (i as usize, ring_next(i as int, j, n as int) as usize))
}

/// The edges of the ring lattice from its first `i` nodes, node after node.
pub open spec fn lattice_edges(n: nat, half: nat, i: nat) -> Seq<(usize, usize)>
    decreases i,
{
    if i == 0 {
        Seq::empty()
    } else {
        lattice_edges(n, half, (i - 1) as nat) + lattice_row(n, half, (i - 1) as nat)
    }
}

proof fn lemma_lattice_len(n: nat, half: nat, i: nat)
    ensures
        lattice_edges(n, half, i).len() == i * half,
    decreases i,
{
    if i > 0 {
        let k = (i - 1) as nat;
        lemma_lattice_len(n, half, k);
        assert(lattice_row(n, half, k).len() == half);
        assert(k * half + half == i * half) by (nonlinear_arith)
            requires
                k + 1 == i,
        ;
        assert(lattice_edges(n, half, i) == lattice_edges(n, half, k) + lattice_row(n, half, k));
    } else {
        assert(i * half == 0) by (nonlinear_arith)
            requires
                i == 0,
        ;
    }
}

/// Whether no edge is rewired.
pub open spec fn keeps_lattice(rewirings: Seq<Vec<Option<usize>>>) -> bool {
    forall|i: int, j: int| 0 <= i < rewirings.len() && 0 <= j < rewirings[i]@.len() ==> #[trigger] rewirings[i]@[j] is None
}

/// Builds a Watts–Strogatz graph of `n` nodes: the ring lattice where each node is linked
/// to its `k / 2` successors, then, node after node and successor after successor, the
/// rewirings: `rewirings[i][j]`, when it is `Some(x)`, replaces the edge from `i` to its
/// `j + 1`-th successor by an edge to the `x`-th node that `i` is not linked to (those
/// nodes kept in a list where each replaced target takes the place of the new one).
/// The rewiring draws are made by the caller, with the model's probability.
pub fn watts_strogatz_graph(n: usize, k: usize, rewirings: &Vec<Vec<Option<usize>>>) -> (r: Graph)
    requires
        2 <= k < n,
        n <= usize::MAX / 2,
        rewirings@.len() == n,
        forall|i: int| 0 <= i < n ==> #[trigger] rewirings@[i]@.len() == k / 2,
        forall|i: int, j: int|
            0 <= i < n && 0 <= j < k / 2 ==> (#[trigger] rewirings@[i]@[j] matches Some(x) ==> x < n - 1 - k / 2),
    ensures
        r.node_count() == n,
        r.edge_list().len() == n * (k / 2),
        forall|w: int| 0 <= w < r.edge_list().len() ==> #[trigger] r.edge_list()[w].0 != r.edge_list()[w].1,
        keeps_lattice(rewirings@) ==> r.edge_list() == lattice_edges(n as nat, (k / 2) as nat, n as nat),
{
    let half = k / 2;
    let mut g = Graph::with_capacity(n, n);
    let mut v: usize = 0;
    while v < n
        invariant
            v <= n,
            g.node_count() == v,
            g.edge_list() == Seq::<(usize, usize)>::empty(),
        decreases n - v,
    {
        g.new_node();
        v += 1;
    }
    // the ring lattice
    let mut i: usize = 0;
    while i < n
        invariant
            0 < half < n <= usize::MAX / 2,
            i <= n,
            g.node_count() == n,
            g.edge_list() == lattice_edges(n as nat, half as nat, i as nat),
            forall|w: int| 0 <= w < g.edge_list().len() ==> #[trigger] g.edge_list()[w].0 != g.edge_list()[w].1,
        decreases n - i,
    {
        let ghost before = g.edge_list();
        let mut j: usize = 0;
        while j < half
            invariant
                0 < half < n <= usize::MAX / 2,
                i < n,
                j <= half,
                g.node_count() == n,
                g.edge_list() == before + lattice_row(n as nat, half as nat, i as nat).take(j as int),
                forall|w: int| 0 <= w < g.edge_list().len() ==> #[trigger] g.edge_list()[w].0 != g.edge_list()[w].1,
            decreases half - j,
        {
            let t = if i + 1 + j < n {
                i + 1 + j
            } else {
                i + 1 + j - n
            };
            g.new_edge(i, t);
            j += 1;
            assert(lattice_row(n as nat, half as nat, i as nat).take(j as int) =~= lattice_row(
                n as nat,
                half as nat,
                i as nat,
            ).take(j - 1).push((i, t)));
        }
        assert(lattice_row(n as nat, half as nat, i as nat).take(half as int) =~= lattice_row(
            n as nat,
            half as nat,
            i as nat,
        ));
        i += 1;
    }
    proof {
        lemma_lattice_len(n as nat, half as nat, n as nat);
        assert forall|i2: int, j2: int| 0 <= i2 < n && 0 <= j2 < half implies #[trigger] g.edge_list().contains(
            (i2 as usize, ring_next(i2, j2, n as int) as usize),
        ) by {
            lemma_lattice_contains(n as nat, half as nat, n as nat, i2, j2);
        }
    }
    let ghost lattice = g.edge_list();
    // the rewirings
    let mut i: usize = 0;
    while i < n
        invariant
            0 < half < n <= usize::MAX / 2,
            half == k / 2,
            rewirings@.len() == n,
            forall|i: int| 0 <= i < n ==> #[trigger] rewirings@[i]@.len() == k / 2,
            forall|i: int, j: int|
                0 <= i < n && 0 <= j < k / 2 ==> (#[trigger] rewirings@[i]@[j] matches Some(x) ==> x < n - 1 - k / 2),
            i <= n,
            g.node_count() == n,
            g.edge_list().len() == n * half,
            keeps_lattice(rewirings@) ==> g.edge_list() == lattice,
            forall|w: int| 0 <= w < g.edge_list().len() ==> #[trigger] g.edge_list()[w].0 != g.edge_list()[w].1,
            forall|i2: int, j2: int|
                i <= i2 < n && 0 <= j2 < half ==> #[trigger] g.edge_list().contains(
                    (i2 as usize, ring_next(i2, j2, n as int) as usize),
                ),
        decreases n - i,
    {
        let first = i + 1 + half;
        let mut not_targets: Vec<usize> = Vec::new();
        if first < n {
            let mut x: usize = 0;
            while x < i
                invariant
                    i < n,
                    x <= i,
                    not_targets@.len() == x,
                    forall|t: int| 0 <= t < not_targets@.len() ==> #[trigger] not_targets@[t] < i,
                decreases i - x,
            {
                not_targets.push(x);
                x += 1;
            }
            let mut x: usize = first;
            while x < n
                invariant
                    first <= x <= n,
                    first == i + 1 + half,
                    not_targets@.len() == i + (x - first),
                    forall|t: int|
                        0 <= t < not_targets@.len() ==> #[trigger] not_targets@[t] < i || (first <= not_targets@[t]
                            < n),
                decreases n - x,
            {
                not_targets.push(x);
                x += 1;
            }
        } else {
            let mut x: usize = first - n;
            while x < i
                invariant
                    first - n <= x <= i,
                    first == i + 1 + half,
                    first >= n,
                    not_targets@.len() == x - (first - n),
                    forall|t: int| 0 <= t < not_targets@.len() ==> first - n <= #[trigger] not_targets@[t] < i,
                decreases i - x,
            {
                not_targets.push(x);
                x += 1;
            }
        }
        let row = &rewirings[i];
        let mut j: usize = 0;
        while j < half
            invariant
                0 < half < n <= usize::MAX / 2,
                half == k / 2,
                i < n,
                rewirings@.len() == n,
                row == rewirings@[i as int],
                row@.len() == half,
                forall|jj: int| 0 <= jj < half ==> (#[trigger] row@[jj] matches Some(x) ==> x < n - 1 - half),
                j <= half,
                g.node_count() == n,
                g.edge_list().len() == n * half,
                keeps_lattice(rewirings@) ==> g.edge_list() == lattice,
                not_targets@.len() == n - 1 - half,
                forall|t: int| 0 <= t < not_targets@.len() ==> #[trigger] not_targets@[t] < n && not_targets@[t] != i,
                forall|w: int| 0 <= w < g.edge_list().len() ==> #[trigger] g.edge_list()[w].0 != g.edge_list()[w].1,
                forall|t: int, j2: int|
                    #![trigger not_targets@[t], ring_next(i as int, j2, n as int)]
                    0 <= t < not_targets@.len() && j <= j2 < half ==> not_targets@[t] != ring_next(
                        i as int,
                        j2,
                        n as int,
                    ),
                forall|j2: int|
                    j <= j2 < half ==> #[trigger] g.edge_list().contains(
                        (i as usize, ring_next(i as int, j2, n as int) as usize),
                    ),
                forall|i2: int, j2: int|
                    i < i2 < n && 0 <= j2 < half ==> #[trigger] g.edge_list().contains(
                        (i2 as usize, ring_next(i2, j2, n as int) as usize),
                    ),
            decreases half - j,
        {
            match row[j] {
                None => {},
                Some(index) => {
                    proof {
                        assert(!keeps_lattice(rewirings@));
                    }
                    let new_target = not_targets[index];
                    let old_target = if i + 1 + j < n {
                        i + 1 + j
                    } else {
                        i + 1 + j - n
                    };
                    not_targets.set(index, old_target);
                    let ghost before = g.edge_list();
                    assert(old_target == ring_next(i as int, j as int, n as int));
                    assert(g.edge_list().contains((i as usize, ring_next(i as int, j as int, n as int) as usize)));
                    g.remove_edge(i, old_target);
                    proof {
                        let idx = choose|idx: int|
                            0 <= idx < before.len() && before[idx] == (i, old_target) && g.edge_list()
                                == crate::graph::swap_removed(before, idx);
                        assert forall|w: int| 0 <= w < g.edge_list().len() implies #[trigger] g.edge_list()[w].0
                            != g.edge_list()[w].1 by {
                            if w == idx {
                                assert(g.edge_list()[w] == before[before.len() - 1]);
                            } else {
                                assert(g.edge_list()[w] == before[w]);
                            }
                        }
                        assert forall|j2: int| j < j2 < half implies #[trigger] g.edge_list().contains(
                            (i as usize, ring_next(i as int, j2, n as int) as usize),
                        ) by {
                            lemma_swap_removed_keeps(before, idx, (i as usize, ring_next(i as int, j2, n as int) as usize));
                        }
                        assert forall|i2: int, j2: int| i < i2 < n && 0 <= j2 < half implies #[trigger] g.edge_list().contains(
                            (i2 as usize, ring_next(i2, j2, n as int) as usize),
                        ) by {
                            lemma_swap_removed_keeps(before, idx, (i2 as usize, ring_next(i2, j2, n as int) as usize));
                        }
                    }
                    let ghost middle = g.edge_list();
                    g.new_edge(i, new_target);
                    proof {
                        assert forall|j2: int| j < j2 < half implies #[trigger] g.edge_list().contains(
                            (i as usize, ring_next(i as int, j2, n as int) as usize),
                        ) by {
                            lemma_push_keeps(middle, (i, new_target), (i as usize, ring_next(i as int, j2, n as int) as usize));
                        }
                        assert forall|i2: int, j2: int| i < i2 < n && 0 <= j2 < half implies #[trigger] g.edge_list().contains(
                            (i2 as usize, ring_next(i2, j2, n as int) as usize),
                        ) by {
                            lemma_push_keeps(middle, (i, new_target), (i2 as usize, ring_next(i2, j2, n as int) as usize));
                        }
                    }
                },
            }
            j += 1;
        }
        i += 1;
    }
    proof {
        if keeps_lattice(rewirings@) {
            assert(g.edge_list() == lattice_edges(n as nat, half as nat, n as nat));
        }
    }
    g
}

proof fn lemma_push_keeps(s: Seq<(usize, usize)>, e: (usize, usize), x: (usize, usize))
    requires
        s.contains(x),
    ensures
        s.push(e).contains(x),
{
    let w = choose|w: int| 0 <= w < s.len() && s[w] == x;
    assert(s.push(e)[w] == x);
}

proof fn lemma_lattice_contains(n: nat, half: nat, i: nat, i2: int, j2: int)
    requires
        0 <= i2 < i,
        0 <= j2 < half,
    ensures
        lattice_edges(n, half, i).contains((i2 as usize, ring_next(i2, j2, n as int) as usize)),
    decreases i,
{
    let prev = lattice_edges(n, half, (i - 1) as nat);
    let row = lattice_row(n, half, (i - 1) as nat);
    if i2 < i - 1 {
        lemma_lattice_contains(n, half, (i - 1) as nat, i2, j2);
        let w = choose|w: int| 0 <= w < prev.len() && prev[w] == (i2 as usize, ring_next(i2, j2, n as int) as usize);
        assert((prev + row)[w] == prev[w]);
    } else {
        assert((prev + row)[prev.len() + j2] == row[j2]);
    }
}

/// The edges that the Barabási–Albert model starts from: the star centred on node 0.
pub open spec fn star_edges(m: nat) -> Seq<(usize, usize)> {
    Seq::new(m, |i: int| (0usize, (i + 1) as usize))
}

/// Builds a Barabási–Albert graph of `n` nodes: a star on nodes `0..=m`, then each
/// further node linked to `m` distinct earlier nodes drawn by preferential attachment.
pub fn barabasi_albert_graph(n: usize, m: usize, rng: &mut Prng) -> (r: Graph)
    requires
        1 <= m < n,
    ensures
        r.node_count() == n,
        r.edge_list().len() == m + (n - m - 1) * m,
        r.edge_list().take(m as int) == star_edges(m as nat),
{
    let g = Graph::from_storage(barabasi_albert_storage(rng, n, m));
    assert(g.edge_list().take(m as int) =~= star_edges(m as nat));
    g
}

/// The factory of Barabási–Albert generators (`ba/n,m`, with `0 < m < n`).
#[derive(Debug, Default, Clone, Copy)]
pub struct BarabasiAlbertGeneratorFactory;

impl NamedParam<GraphGenerator> for BarabasiAlbertGeneratorFactory {
    open spec fn spec_name(&self) -> Seq<char> {
        "ba"@
    }

    open spec fn spec_description(&self) -> Seq<Seq<char>> {
        seq![
            "A generator following the Barabási-Albert model, initialized by a star graph."@,
            "First parameter gives the number of nodes of the graph, while the second one gives the number of nodes of the initial star graph."@,
        ]
    }

    open spec fn spec_parameter_types(&self) -> Seq<ParameterType> {
        seq![ParameterType::PositiveInteger, ParameterType::PositiveInteger]
    }

    open spec fn spec_build(&self, values: Seq<ParameterValue>) -> Result<GraphGenerator, ParamErrorKind> {
        let n = values[0]->PositiveInteger_0;
        let m = values[1]->PositiveInteger_0;
        if m == 0 || m >= n {
            Err(ParamErrorKind::Invalid)
        } else {
            Ok(GraphGenerator::BarabasiAlbert { n, m })
        }
    }

    fn name(&self) -> (r: &'static str) {
        "ba"
    }

    fn description(&self) -> (r: Vec<&'static str>) {
        let r = vec![
            "A generator following the Barabási-Albert model, initialized by a star graph.",
            "First parameter gives the number of nodes of the graph, while the second one gives the number of nodes of the initial star graph.",
        ];
        assert(r@.map_values(|l: &'static str| l@) =~= self.spec_description());
        r
    }

    fn expected_parameter_types(&self) -> (r: Vec<ParameterType>) {
        let r = vec![ParameterType::PositiveInteger, ParameterType::PositiveInteger];
        assert(r@ =~= self.spec_parameter_types());
        r
    }

    fn try_with_params(&self, parameter_values: Vec<ParameterValue>) -> (r: Result<GraphGenerator, ParamError>) {
        assert(parameter_values@[0].has_type(self.spec_parameter_types()[0]));
        assert(parameter_values@[1].has_type(self.spec_parameter_types()[1]));
        let n = parameter_values[0].unwrap_usize();
        let m = parameter_values[1].unwrap_usize();
        if m == 0 || m >= n {
            return Err(
                ParamError {
                    kind: ParamErrorKind::Invalid,
                    input: "second parameter (\"m\") must be higher than 0 and lower than the first one (\"n\")".to_owned(),
                },
            );
        }
        Ok(GraphGenerator::BarabasiAlbert { n, m })
    }
}

impl GeneratorFactory for BarabasiAlbertGeneratorFactory {
}


/// The factory of chain generators (`chain/n`).
#[derive(Debug, Default, Clone, Copy)]
pub struct ChainGeneratorFactory;

impl NamedParam<GraphGenerator> for ChainGeneratorFactory {
    open spec fn spec_name(&self) -> Seq<char> {
        "chain"@
    }

    open spec fn spec_description(&self) -> Seq<Seq<char>> {
        seq![
            "A generator producing a chain of nodes."@,
            "The first parameter gives the length of the chain."@,
        ]
    }

    open spec fn spec_parameter_types(&self) -> Seq<ParameterType> {
        seq![ParameterType::PositiveInteger]
    }

    open spec fn spec_build(&self, values: Seq<ParameterValue>) -> Result<GraphGenerator, ParamErrorKind> {
        Ok(GraphGenerator::Chain { n: values[0]->PositiveInteger_0 })
    }

    fn name(&self) -> (r: &'static str) {
        "chain"
    }

    fn description(&self) -> (r: Vec<&'static str>) {
        let r = vec![
            "A generator producing a chain of nodes.",
            "The first parameter gives the length of the chain.",
        ];
        assert(r@.map_values(|l: &'static str| l@) =~= self.spec_description());
        r
    }

    fn expected_parameter_types(&self) -> (r: Vec<ParameterType>) {
        let r = vec![ParameterType::PositiveInteger];
        assert(r@ =~= self.spec_parameter_types());
        r
    }

    fn try_with_params(&self, parameter_values: Vec<ParameterValue>) -> (r: Result<GraphGenerator, ParamError>) {
        assert(parameter_values@[0].has_type(self.spec_parameter_types()[0]));
        let n = parameter_values[0].unwrap_usize();
        Ok(GraphGenerator::Chain { n })
    }
}

impl GeneratorFactory for ChainGeneratorFactory {
}

/// The factory of path generators (`path/n`): the same graphs as `chain/n`.
#[derive(Debug, Default, Clone, Copy)]
pub struct PathGeneratorFactory;

impl NamedParam<GraphGenerator> for PathGeneratorFactory {
    open spec fn spec_name(&self) -> Seq<char> {
        "path"@
    }

    open spec fn spec_description(&self) -> Seq<Seq<char>> {
        seq![
            "A generator producing a path graph."@,
            "The first parameter gives the length of the path."@,
        ]
    }

    open spec fn spec_parameter_types(&self) -> Seq<ParameterType> {
        seq![ParameterType::PositiveInteger]
    }

    open spec fn spec_build(&self, values: Seq<ParameterValue>) -> Result<GraphGenerator, ParamErrorKind> {
        Ok(GraphGenerator::Chain { n: values[0]->PositiveInteger_0 })
    }

    fn name(&self) -> (r: &'static str) {
        "path"
    }

    fn description(&self) -> (r: Vec<&'static str>) {
        let r = vec![
            "A generator producing a path graph.",
            "The first parameter gives the length of the path.",
        ];
        assert(r@.map_values(|l: &'static str| l@) =~= self.spec_description());
        r
    }

    fn expected_parameter_types(&self) -> (r: Vec<ParameterType>) {
        let r = vec![ParameterType::PositiveInteger];
        assert(r@ =~= self.spec_parameter_types());
        r
    }

    fn try_with_params(&self, parameter_values: Vec<ParameterValue>) -> (r: Result<GraphGenerator, ParamError>) {
        assert(parameter_values@[0].has_type(self.spec_parameter_types()[0]));
        let n = parameter_values[0].unwrap_usize();
        Ok(GraphGenerator::Chain { n })
    }
}

impl GeneratorFactory for PathGeneratorFactory {
}

/// The factory of Erdős–Rényi generators (`er/n,p`).
#[derive(Debug, Default, Clone, Copy)]
pub struct ErdosRenyiGeneratorFactory;

impl NamedParam<GraphGenerator> for ErdosRenyiGeneratorFactory {
    open spec fn spec_name(&self) -> Seq<char> {
        "er"@
    }

    open spec fn spec_description(&self) -> Seq<Seq<char>> {
        seq![
            "A generator following the Erdős–Rényi model."@,
            "First parameter gives the number of nodes of the graph, while the second one gives the probability each edge appears in the graph."@,
        ]
    }

    open spec fn spec_parameter_types(&self) -> Seq<ParameterType> {
        seq![ParameterType::PositiveInteger, ParameterType::Probability]
    }

    open spec fn spec_build(&self, values: Seq<ParameterValue>) -> Result<GraphGenerator, ParamErrorKind> {
        Ok(GraphGenerator::ErdosRenyi { n: values[0]->PositiveInteger_0, p: values[1]->Probability_0 })
    }

    fn name(&self) -> (r: &'static str) {
        "er"
    }

    fn description(&self) -> (r: Vec<&'static str>) {
        let r = vec![
            "A generator following the Erdős–Rényi model.",
            "First parameter gives the number of nodes of the graph, while the second one gives the probability each edge appears in the graph.",
        ];
        assert(r@.map_values(|l: &'static str| l@) =~= self.spec_description());
        r
    }

    fn expected_parameter_types(&self) -> (r: Vec<ParameterType>) {
        let r = vec![ParameterType::PositiveInteger, ParameterType::Probability];
        assert(r@ =~= self.spec_parameter_types());
        r
    }

    fn try_with_params(&self, parameter_values: Vec<ParameterValue>) -> (r: Result<GraphGenerator, ParamError>) {
        assert(parameter_values@[0].has_type(self.spec_parameter_types()[0]));
        assert(parameter_values@[1].has_type(self.spec_parameter_types()[1]));
        let n = parameter_values[0].unwrap_usize();
        let p = parameter_values[1].unwrap_probability();
        Ok(GraphGenerator::ErdosRenyi { n, p })
    }
}

impl GeneratorFactory for ErdosRenyiGeneratorFactory {
}

/// The factory of balanced tree generators (`tree/n`).
#[derive(Debug, Default, Clone, Copy)]
pub struct TreeGeneratorFactory;

impl NamedParam<GraphGenerator> for TreeGeneratorFactory {
    open spec fn spec_name(&self) -> Seq<char> {
        "tree"@
    }

    open spec fn spec_description(&self) -> Seq<Seq<char>> {
        seq![
            "A generator producing a tree."@,
            "The first parameter gives the number of nodes."@,
            "The tree is well balanced."@,
        ]
    }

    open spec fn spec_parameter_types(&self) -> Seq<ParameterType> {
        seq![ParameterType::PositiveInteger]
    }

    open spec fn spec_build(&self, values: Seq<ParameterValue>) -> Result<GraphGenerator, ParamErrorKind> {
        Ok(GraphGenerator::Tree { n: values[0]->PositiveInteger_0 })
    }

    fn name(&self) -> (r: &'static str) {
        "tree"
    }

    fn description(&self) -> (r: Vec<&'static str>) {
        let r = vec![
            "A generator producing a tree.",
            "The first parameter gives the number of nodes.",
            "The tree is well balanced.",
        ];
        assert(r@.map_values(|l: &'static str| l@) =~= self.spec_description());
        r
    }

    fn expected_parameter_types(&self) -> (r: Vec<ParameterType>) {
        let r = vec![ParameterType::PositiveInteger];
        assert(r@ =~= self.spec_parameter_types());
        r
    }

    fn try_with_params(&self, parameter_values: Vec<ParameterValue>) -> (r: Result<GraphGenerator, ParamError>) {
        assert(parameter_values@[0].has_type(self.spec_parameter_types()[0]));
        let n = parameter_values[0].unwrap_usize();
        Ok(GraphGenerator::Tree { n })
    }
}

impl GeneratorFactory for TreeGeneratorFactory {
}

/// The factory of Watts–Strogatz generators (`ws/n,k,p`, with `k` positive and even and `n > k`).
#[derive(Debug, Default, Clone, Copy)]
pub struct WattsStrogatzGeneratorFactory;

impl NamedParam<GraphGenerator> for WattsStrogatzGeneratorFactory {
    open spec fn spec_name(&self) -> Seq<char> {
        "ws"@
    }

    open spec fn spec_description(&self) -> Seq<Seq<char>> {
        seq![
            "A generator following the Watts-Strogatz model."@,
            "First parameter gives the number of nodes, the second one gives the initial node degree and the third is the rewire probability."@,
        ]
    }

    open spec fn spec_parameter_types(&self) -> Seq<ParameterType> {
        seq![ParameterType::PositiveInteger, ParameterType::PositiveInteger, ParameterType::Probability]
    }

    open spec fn spec_build(&self, values: Seq<ParameterValue>) -> Result<GraphGenerator, ParamErrorKind> {
        let n = values[0]->PositiveInteger_0;
        let k = values[1]->PositiveInteger_0;
        if k == 0 || k % 2 == 1 || n <= k {
            Err(ParamErrorKind::Invalid)
        } else {
            Ok(GraphGenerator::WattsStrogatz { n, k, p: values[2]->Probability_0 })
        }
    }

    fn name(&self) -> (r: &'static str) {
        "ws"
    }

    fn description(&self) -> (r: Vec<&'static str>) {
        let r = vec![
            "A generator following the Watts-Strogatz model.",
            "First parameter gives the number of nodes, the second one gives the initial node degree and the third is the rewire probability.",
        ];
        assert(r@.map_values(|l: &'static str| l@) =~= self.spec_description());
        r
    }

    fn expected_parameter_types(&self) -> (r: Vec<ParameterType>) {
        let r = vec![ParameterType::PositiveInteger, ParameterType::PositiveInteger, ParameterType::Probability];
        assert(r@ =~= self.spec_parameter_types());
        r
    }

    fn try_with_params(&self, parameter_values: Vec<ParameterValue>) -> (r: Result<GraphGenerator, ParamError>) {
        assert(parameter_values@[0].has_type(self.spec_parameter_types()[0]));
        assert(parameter_values@[1].has_type(self.spec_parameter_types()[1]));
        assert(parameter_values@[2].has_type(self.spec_parameter_types()[2]));
        let n = parameter_values[0].unwrap_usize();
        let k = parameter_values[1].unwrap_usize();
        let p = parameter_values[2].unwrap_probability();
        if k == 0 || k % 2 == 1 {
            return Err(
                ParamError { kind: ParamErrorKind::Invalid, input: "second parameter (\"k\") must be positive and even".to_owned() },
            );
        }
        if n <= k {
            return Err(
                ParamError {
                    kind: ParamErrorKind::Invalid,
                    input: "first parameter (\"n\") must be higher than the second one (\"k\")".to_owned(),
                },
            );
        }
        Ok(GraphGenerator::WattsStrogatz { n, k, p })
    }
}

impl GeneratorFactory for WattsStrogatzGeneratorFactory {
}

/// What resolving a generator string gives: the factory whose name is the part before
/// the first `/`, built from the part after it; a not-found error (with `s`) when no
/// factory has that name. Directed and undirected graphs use the same factories.
pub open spec fn spec_generator_from_str(s: Seq<char>) -> Result<GraphGenerator, (ParamErrorKind, Seq<char>)> {
    let name = name_part(s);
    let params = params_part(s);
    if name == BarabasiAlbertGeneratorFactory.spec_name() {
        spec_resolve(BarabasiAlbertGeneratorFactory, params)
    } else if name == PathGeneratorFactory.spec_name() {
        spec_resolve(PathGeneratorFactory, params)
    } else if name == ChainGeneratorFactory.spec_name() {
        spec_resolve(ChainGeneratorFactory, params)
    } else if name == ErdosRenyiGeneratorFactory.spec_name() {
        spec_resolve(ErdosRenyiGeneratorFactory, params)
    } else if name == TreeGeneratorFactory.spec_name() {
        spec_resolve(TreeGeneratorFactory, params)
    } else if name == WattsStrogatzGeneratorFactory.spec_name() {
        spec_resolve(WattsStrogatzGeneratorFactory, params)
    } else {
        Err((ParamErrorKind::NotFound, s))
    }
}

fn generator_from_str(s: &str) -> (r: Result<GraphGenerator, ParamError>)
    ensures
        resolves_to(r, spec_generator_from_str(s@)),
{
    let parts = split_name(s);
    if same_text(parts.name, BarabasiAlbertGeneratorFactory.name()) {
        return resolve(&BarabasiAlbertGeneratorFactory, parts.params);
    }
    if same_text(parts.name, PathGeneratorFactory.name()) {
        return resolve(&PathGeneratorFactory, parts.params);
    }
    if same_text(parts.name, ChainGeneratorFactory.name()) {
        return resolve(&ChainGeneratorFactory, parts.params);
    }
    if same_text(parts.name, ErdosRenyiGeneratorFactory.name()) {
        return resolve(&ErdosRenyiGeneratorFactory, parts.params);
    }
    if same_text(parts.name, TreeGeneratorFactory.name()) {
        return resolve(&TreeGeneratorFactory, parts.params);
    }
    if same_text(parts.name, WattsStrogatzGeneratorFactory.name()) {
        return resolve(&WattsStrogatzGeneratorFactory, parts.params);
    }
    Err(not_found(s))
}

/// Given a string `name` or `name/params` for a generator of directed graphs, returns
/// the configured generator.
pub fn directed_generator_factory_from_str(s: &str) -> (r: Result<GraphGenerator, ParamError>)
    ensures
        resolves_to(r, spec_generator_from_str(s@)),
{
    generator_from_str(s)
}

/// Given a string `name` or `name/params` for a generator of undirected graphs, returns
/// the configured generator.
pub fn undirected_generator_factory_from_str(s: &str) -> (r: Result<GraphGenerator, ParamError>)
    ensures
        resolves_to(r, spec_generator_from_str(s@)),
{
    generator_from_str(s)
}


/// Lists the generator factories for directed graphs, in registration order.
pub fn iter_directed_generator_factories() -> (r: Vec<Listing>)
    ensures
        listed_names(r@) == seq![BarabasiAlbertGeneratorFactory.spec_name(), PathGeneratorFactory.spec_name(), ChainGeneratorFactory.spec_name(), ErdosRenyiGeneratorFactory.spec_name(), TreeGeneratorFactory.spec_name(), WattsStrogatzGeneratorFactory.spec_name()],
{
    let mut r: Vec<Listing> = Vec::new();
    r.push(listing(&BarabasiAlbertGeneratorFactory));
    r.push(listing(&PathGeneratorFactory));
    r.push(listing(&ChainGeneratorFactory));
    r.push(listing(&ErdosRenyiGeneratorFactory));
    r.push(listing(&TreeGeneratorFactory));
    r.push(listing(&WattsStrogatzGeneratorFactory));
    assert(listed_names(r@) =~= seq![BarabasiAlbertGeneratorFactory.spec_name(), PathGeneratorFactory.spec_name(), ChainGeneratorFactory.spec_name(), ErdosRenyiGeneratorFactory.spec_name(), TreeGeneratorFactory.spec_name(), WattsStrogatzGeneratorFactory.spec_name()]);
    r
}


/// Lists the generator factories for undirected graphs, in registration order.
pub fn iter_undirected_generator_factories() -> (r: Vec<Listing>)
    ensures
        listed_names(r@) == seq![BarabasiAlbertGeneratorFactory.spec_name(), PathGeneratorFactory.spec_name(), ChainGeneratorFactory.spec_name(), ErdosRenyiGeneratorFactory.spec_name(), TreeGeneratorFactory.spec_name(), WattsStrogatzGeneratorFactory.spec_name()],
{
    iter_directed_generator_factories()
}

} // verus!
