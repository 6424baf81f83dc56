//! Linkers: the strategies that choose the edges between two inner graphs, and the
//! factories that build them from parameters.
use crate::graph::{Graph, InnerGraph, InterGraphEdge};
use crate::named_param::{
    listed_names, listing, name_part, not_found, params_part, resolve, resolves_to, same_text, spec_resolve, split_name, Listing, NamedParam,
};
use crate::parameters::{ParamError, ParamErrorKind, ParameterType, ParameterValue, Probability};
use vstd::arithmetic::div_mod::lemma_fundamental_div_mod_converse;
use vstd::prelude::*;

verus! {

/// A configured linker.
#[derive(Debug, Clone, Copy, PartialEq, Eq, Structural)]
pub enum GraphLinker {
    /// Links the first node of the first graph to the first node of the second (and
    /// back, when bidirectional).
    FirstToFirst { bidirectional: bool },
    /// Links every node of least in-degree of the first graph to every node of least
    /// in-degree of the second (and back, when bidirectional).
    MinIncoming { bidirectional: bool },
    /// Considers each pair of nodes of the two graphs and links it with probability `p`
    /// (each way, when bidirectional).
    Random { p: Probability, bidirectional: bool },
}

/// A factory of linkers.
pub trait Linker: NamedParam<GraphLinker> {
}

/// The edges of the first-to-first linker.
pub open spec fn first_to_first_edges(bidirectional: bool) -> Seq<InterGraphEdge> {
    if bidirectional {
        seq![InterGraphEdge::FirstToSecond(0, 0), InterGraphEdge::SecondToFirst(0, 0)]
    } else {
        seq![InterGraphEdge::FirstToSecond(0, 0)]
    }
}

/// Links the lowest index node of the first graph to the lowest index node of the
/// second, and the converse when `bidirectional`.
pub fn first_to_first_links(bidirectional: bool) -> (r: Vec<InterGraphEdge>)
    ensures
        r@ == first_to_first_edges(bidirectional),
{
    if bidirectional {
        let r = vec![InterGraphEdge::FirstToSecond(0, 0), InterGraphEdge::SecondToFirst(0, 0)];
        assert(r@ =~= first_to_first_edges(bidirectional));
        r
    } else {
        let r = vec![InterGraphEdge::FirstToSecond(0, 0)];
        assert(r@ =~= first_to_first_edges(bidirectional));
        r
    }
}

/// The number of edges of `es` whose target is `v`.
pub open spec fn in_count(es: Seq<(usize, usize)>, v: nat) -> nat
    decreases es.len(),
{
    if es.len() == 0 {
        0
    } else {
        in_count(es.drop_last(), v) + if es.last().1 == v {
            1nat
        } else {
            0nat
        }
    }
}

/// The least in-degree among the nodes `0..k` (with `k >= 1`).
pub open spec fn min_in_count(es: Seq<(usize, usize)>, k: nat) -> nat
    decreases k,
{
    if k <= 1 {
        in_count(es, 0)
    } else {
        let a = min_in_count(es, (k - 1) as nat);
        let b = in_count(es, (k - 1) as nat);
        if b < a {
            b
        } else {
            a
        }
    }
}

/// The nodes of `g` of least in-degree, in increasing order.
pub open spec fn min_incoming_nodes(g: Graph) -> Seq<usize> {
    Seq::new(g.node_count(), |v: int| v as usize).filter(
        |v: usize| in_count(g.edge_list(), v as nat) == min_in_count(g.edge_list(), g.node_count()),
    )
}

proof fn lemma_in_count_bound(es: Seq<(usize, usize)>, v: nat)
    ensures
        in_count(es, v) <= es.len(),
    decreases es.len(),
{
    if es.len() > 0 {
        lemma_in_count_bound(es.drop_last(), v);
    }
}

/// Returns the nodes of `g` with the fewest incoming edges, in increasing order.
pub fn min_incoming(g: &Graph) -> (r: Vec<usize>)
    ensures
        r@ == min_incoming_nodes(*g),
{
    let n = g.n_nodes();
    let ghost es = g.edge_list();
    let mut counts: Vec<usize> = Vec::with_capacity(n);
    let mut v: usize = 0;
    while v < n
        invariant
            v <= n,
            counts@.len() == v,
            forall|w: int| 0 <= w < v ==> counts@[w] == 0,
        decreases n - v,
    {
        counts.push(0);
        v += 1;
    }
    let m = g.n_edges();
    let mut i: usize = 0;
    while i < m
        invariant
            n == g.node_count(),
            m == es.len(),
            es == g.edge_list(),
            i <= m,
            counts@.len() == n,
            forall|w: int| 0 <= w < n ==> #[trigger] counts@[w] == in_count(es.take(i as int), w as nat),
        decreases m - i,
    {
        let (_, t) = g.edge(i);
        proof {
            assert(es.take(i + 1).drop_last() =~= es.take(i as int));
            lemma_in_count_bound(es.take(i as int), t as nat);
        }
        let c = counts[t];
        counts.set(t, c + 1);
        i += 1;
    }
    assert(es.take(m as int) =~= es);
    let mut r: Vec<usize> = Vec::new();
    if n == 0 {
        assert(min_incoming_nodes(*g) =~= Seq::<usize>::empty());
        return r;
    }
    let mut least = counts[0];
    let mut k: usize = 1;
    while k < n
        invariant
            1 <= k <= n,
            counts@.len() == n,
            forall|w: int| 0 <= w < n ==> #[trigger] counts@[w] == in_count(es, w as nat),
            least == min_in_count(es, k as nat),
        decreases n - k,
    {
        if counts[k] < least {
            least = counts[k];
        }
        k += 1;
    }
    let ghost pred = |v: usize| in_count(es, v as nat) == min_in_count(es, n as nat);
    let ghost all = Seq::new(n as nat, |v: int| v as usize);
    let mut j: usize = 0;
    while j < n
        invariant
            j <= n,
            counts@.len() == n,
            n == g.node_count(),
            es == g.edge_list(),
            forall|w: int| 0 <= w < n ==> #[trigger] counts@[w] == in_count(es, w as nat),
            least == min_in_count(es, n as nat),
            all == Seq::new(n as nat, |v: int| v as usize),
            pred == (|v: usize| in_count(es, v as nat) == min_in_count(es, n as nat)),
            r@ == all.take(j as int).filter(pred),
        decreases n - j,
    {
        proof {
            reveal(Seq::filter);
            assert(all.take(j + 1).drop_last() =~= all.take(j as int));
            assert(all.take(j + 1).last() == j);
            assert(pred(j) == (counts@[j as int] == least));
        }
        if counts[j] == least {
            r.push(j);
        }
        j += 1;
    }
    assert(all.take(n as int) =~= all);
    r
}

/// The links from `x` to each node of `b`, and back when `bidirectional`.
pub open spec fn link_row(x: usize, b: Seq<usize>, bidirectional: bool) -> Seq<InterGraphEdge>
    decreases b.len(),
{
    if b.len() == 0 {
        Seq::empty()
    } else {
        let y = b.last();
        link_row(x, b.drop_last(), bidirectional) + if bidirectional {
            seq![InterGraphEdge::FirstToSecond(x, y), InterGraphEdge::SecondToFirst(y, x)]
        } else {
            seq![InterGraphEdge::FirstToSecond(x, y)]
        }
    }
}

/// The links from each node of `a` to each node of `b` (and back when bidirectional),
/// row by row.
pub open spec fn link_all(a: Seq<usize>, b: Seq<usize>, bidirectional: bool) -> Seq<InterGraphEdge>
    decreases a.len(),
{
    if a.len() == 0 {
        Seq::empty()
    } else {
        link_all(a.drop_last(), b, bidirectional) + link_row(a.last(), b, bidirectional)
    }
}

/// Links each node of least in-degree of the first graph to each node of least
/// in-degree of the second, and the converse when `bidirectional`.
pub fn min_incoming_links(first: &InnerGraph, second: &InnerGraph, bidirectional: bool) -> (r: Vec<InterGraphEdge>)
    ensures
        r@ == link_all(
            min_incoming_nodes(*first.spec_graph()),
            min_incoming_nodes(*second.spec_graph()),
            bidirectional,
        ),
{
    let a = min_incoming(first.graph());
    let b = min_incoming(second.graph());
    let mut links: Vec<InterGraphEdge> = Vec::new();
    let mut i: usize = 0;
    while i < a.len()
        invariant
            i <= a@.len(),
            links@ == link_all(a@.take(i as int), b@, bidirectional),
        decreases a@.len() - i,
    {
        let x = a[i];
        let ghost before = links@;
        let mut j: usize = 0;
        while j < b.len()
            invariant
                i < a@.len(),
                x == a@[i as int],
                j <= b@.len(),
                links@ == before + link_row(x, b@.take(j as int), bidirectional),
            decreases b@.len() - j,
        {
            let y = b[j];
            let ghost prev = links@;
            links.push(InterGraphEdge::FirstToSecond(x, y));
            if bidirectional {
                links.push(InterGraphEdge::SecondToFirst(y, x));
            }
            proof {
                assert(b@.take(j + 1).drop_last() =~= b@.take(j as int));
            }
            j += 1;
            assert(links@ =~= before + link_row(x, b@.take(j as int), bidirectional));
        }
        assert(b@.take(b@.len() as int) =~= b@);
        assert(a@.take(i + 1).drop_last() =~= a@.take(i as int));
        i += 1;
    }
    assert(a@.take(a@.len() as int) =~= a@);
    links
}


/// The links that the random linker keeps for the pair of nodes `(i, j)`, given its two
/// draws: the first decides the edge from `i` to `j`, the second (when bidirectional)
/// the edge from `j` back to `i`.
pub open spec fn pair_links(i: usize, j: usize, draw: (bool, bool), bidirectional: bool) -> Seq<InterGraphEdge> {
    (if draw.0 {
        seq![InterGraphEdge::FirstToSecond(i, j)]
    } else {
        Seq::empty()
    }) + (if bidirectional && draw.1 {
        seq![InterGraphEdge::SecondToFirst(j, i)]
    } else {
        Seq::empty()
    })
}

/// The links that the random linker keeps for the first `q` pairs of nodes, the pairs
/// taken row by row (pair `q` is node `q / n2` of the first graph with node `q % n2` of
/// the second).
pub open spec fn random_links_upto(n2: nat, draws: Seq<(bool, bool)>, bidirectional: bool, q: int) -> Seq<
    InterGraphEdge,
>
    decreases q,
{
    if q <= 0 || n2 == 0 {
        Seq::empty()
    } else {
        random_links_upto(n2, draws, bidirectional, q - 1) + pair_links(
            ((q - 1) / n2 as int) as usize,
            ((q - 1) % n2 as int) as usize,
            draws[q - 1],
            bidirectional,
        )
    }
}

/// Links the nodes of the first graph to the ones of the second at random: `draws` holds,
/// pair by pair (row by row), whether each edge was drawn. The draws are made by the
/// caller, with the linker's probability.
pub fn random_links(first: &InnerGraph, second: &InnerGraph, bidirectional: bool, draws: &Vec<(bool, bool)>) -> (r:
    Vec<InterGraphEdge>)
    requires
        draws@.len() == first.spec_graph().node_count() * second.spec_graph().node_count(),
    ensures
        r@ == random_links_upto(second.spec_graph().node_count(), draws@, bidirectional, draws@.len() as int),
{
    let n1 = first.graph().n_nodes();
    let n2 = second.graph().n_nodes();
    let m = draws.len();
    let ghost total = m as int;
    let mut links: Vec<InterGraphEdge> = Vec::new();
    let mut q: usize = 0;
    let mut i: usize = 0;
    while i < n1
        invariant
            n2 == second.spec_graph().node_count(),
            total == draws@.len(),
            total == n1 * n2,
            total == m,
            i <= n1,
            q == i * n2,
            links@ == random_links_upto(n2 as nat, draws@, bidirectional, q as int),
        decreases n1 - i,
    {
        let mut j: usize = 0;
        while j < n2
            invariant
                n2 == second.spec_graph().node_count(),
                total == draws@.len(),
                total == n1 * n2,
                total == m,
                i < n1,
                j <= n2,
                q == i * n2 + j,
                links@ == random_links_upto(n2 as nat, draws@, bidirectional, q as int),
            decreases n2 - j,
        {
            proof {
                assert(i * n2 + j + 1 <= n1 * n2) by (nonlinear_arith)
                    requires
                        i < n1,
                        j < n2,
                ;
                lemma_fundamental_div_mod_converse(q as int, n2 as int, i as int, j as int);
            }
            let d = draws[q];
            let ghost before = links@;
            if d.0 {
                links.push(InterGraphEdge::FirstToSecond(i, j));
            }
            if bidirectional && d.1 {
                links.push(InterGraphEdge::SecondToFirst(j, i));
            }
            assert(links@ =~= before + pair_links(i, j, d, bidirectional));
            q += 1;
            j += 1;
        }
        proof {
            assert(i * n2 + n2 == (i + 1) * n2) by (nonlinear_arith);
        }
        i += 1;
    }
    links
}

/// A linker that links the first nodes (`first`).
#[derive(Debug, Default, Clone, Copy)]
pub struct FirstToFirstLinker;

impl NamedParam<GraphLinker> for FirstToFirstLinker {
    open spec fn spec_name(&self) -> Seq<char> {
        "first"@
    }

    open spec fn spec_description(&self) -> Seq<Seq<char>> {
        seq![
            "Links the lowest index node of the first graph to the lowest index node of the second graph."@,
        ]
    }

    open spec fn spec_parameter_types(&self) -> Seq<ParameterType> {
        Seq::empty()
    }

    open spec fn spec_build(&self, values: Seq<ParameterValue>) -> Result<GraphLinker, ParamErrorKind> {
        Ok(GraphLinker::FirstToFirst { bidirectional: false })
    }

    fn name(&self) -> (r: &'static str) {
        "first"
    }

    fn description(&self) -> (r: Vec<&'static str>) {
        let r = vec![
            "Links the lowest index node of the first graph to the lowest index node of the second graph.",
        ];
        assert(r@.map_values(|l: &'static str| l@) =~= self.spec_description());
        r
    }

    fn expected_parameter_types(&self) -> (r: Vec<ParameterType>) {
        let r = Vec::new();
        assert(r@ =~= self.spec_parameter_types());
        r
    }

    fn try_with_params(&self, parameter_values: Vec<ParameterValue>) -> (r: Result<GraphLinker, ParamError>) {
        Ok(GraphLinker::FirstToFirst { bidirectional: false })
    }
}

impl Linker for FirstToFirstLinker {
}

/// A linker that links the first nodes both ways (`first_bi`, directed graphs).
#[derive(Debug, Default, Clone, Copy)]
pub struct BidirectionalFirstToFirstLinker;

impl NamedParam<GraphLinker> for BidirectionalFirstToFirstLinker {
    open spec fn spec_name(&self) -> Seq<char> {
        "first_bi"@
    }

    open spec fn spec_description(&self) -> Seq<Seq<char>> {
        seq![
            "Links the lowest index node of the first graph to the lowest index node of the second graph, and vice-versa."@,
        ]
    }

    open spec fn spec_parameter_types(&self) -> Seq<ParameterType> {
        Seq::empty()
    }

    open spec fn spec_build(&self, values: Seq<ParameterValue>) -> Result<GraphLinker, ParamErrorKind> {
        Ok(GraphLinker::FirstToFirst { bidirectional: true })
    }

    fn name(&self) -> (r: &'static str) {
        "first_bi"
    }

    fn description(&self) -> (r: Vec<&'static str>) {
        let r = vec![
            "Links the lowest index node of the first graph to the lowest index node of the second graph, and vice-versa.",
        ];
        assert(r@.map_values(|l: &'static str| l@) =~= self.spec_description());
        r
    }

    fn expected_parameter_types(&self) -> (r: Vec<ParameterType>) {
        let r = Vec::new();
        assert(r@ =~= self.spec_parameter_types());
        r
    }

    fn try_with_params(&self, parameter_values: Vec<ParameterValue>) -> (r: Result<GraphLinker, ParamError>) {
        Ok(GraphLinker::FirstToFirst { bidirectional: true })
    }
}

impl Linker for BidirectionalFirstToFirstLinker {
}

/// A linker that targets the nodes with the fewest incoming edges (`min_incoming`).
#[derive(Debug, Default, Clone, Copy)]
pub struct MinIncomingLinker;

impl NamedParam<GraphLinker> for MinIncomingLinker {
    open spec fn spec_name(&self) -> Seq<char> {
        "min_incoming"@
    }

    open spec fn spec_description(&self) -> Seq<Seq<char>> {
        seq![
            "Links the nodes of the first graph with the lowest count of incoming edges to the nodes of the second graph with the same property."@,
        ]
    }

    open spec fn spec_parameter_types(&self) -> Seq<ParameterType> {
        Seq::empty()
    }

    open spec fn spec_build(&self, values: Seq<ParameterValue>) -> Result<GraphLinker, ParamErrorKind> {
        Ok(GraphLinker::MinIncoming { bidirectional: false })
    }

    fn name(&self) -> (r: &'static str) {
        "min_incoming"
    }

    fn description(&self) -> (r: Vec<&'static str>) {
        let r = vec![
            "Links the nodes of the first graph with the lowest count of incoming edges to the nodes of the second graph with the same property.",
        ];
        assert(r@.map_values(|l: &'static str| l@) =~= self.spec_description());
        r
    }

    fn expected_parameter_types(&self) -> (r: Vec<ParameterType>) {
        let r = Vec::new();
        assert(r@ =~= self.spec_parameter_types());
        r
    }

    fn try_with_params(&self, parameter_values: Vec<ParameterValue>) -> (r: Result<GraphLinker, ParamError>) {
        Ok(GraphLinker::MinIncoming { bidirectional: false })
    }
}

impl Linker for MinIncomingLinker {
}

/// A linker that targets the nodes with the fewest incoming edges, both ways (`min_incoming_bi`, directed graphs).
#[derive(Debug, Default, Clone, Copy)]
pub struct BidirectionalMinIncomingLinker;

impl NamedParam<GraphLinker> for BidirectionalMinIncomingLinker {
    open spec fn spec_name(&self) -> Seq<char> {
        "min_incoming_bi"@
    }

    open spec fn spec_description(&self) -> Seq<Seq<char>> {
        seq![
            "Links the nodes of the first graph with the lowest count of incoming edges to the nodes of the second graph with the same property, and vice-versa."@,
        ]
    }

    open spec fn spec_parameter_types(&self) -> Seq<ParameterType> {
        Seq::empty()
    }

    open spec fn spec_build(&self, values: Seq<ParameterValue>) -> Result<GraphLinker, ParamErrorKind> {
        Ok(GraphLinker::MinIncoming { bidirectional: true })
    }

    fn name(&self) -> (r: &'static str) {
        "min_incoming_bi"
    }

    fn description(&self) -> (r: Vec<&'static str>) {
        let r = vec![
            "Links the nodes of the first graph with the lowest count of incoming edges to the nodes of the second graph with the same property, and vice-versa.",
        ];
        assert(r@.map_values(|l: &'static str| l@) =~= self.spec_description());
        r
    }

    fn expected_parameter_types(&self) -> (r: Vec<ParameterType>) {
        let r = Vec::new();
        assert(r@ =~= self.spec_parameter_types());
        r
    }

    fn try_with_params(&self, parameter_values: Vec<ParameterValue>) -> (r: Result<GraphLinker, ParamError>) {
        Ok(GraphLinker::MinIncoming { bidirectional: true })
    }
}

impl Linker for BidirectionalMinIncomingLinker {
}

/// A linker that links pairs of nodes at random (`random/p`).
#[derive(Debug, Default, Clone, Copy)]
pub struct RandomLinker;

impl NamedParam<GraphLinker> for RandomLinker {
    open spec fn spec_name(&self) -> Seq<char> {
        "random"@
    }

    open spec fn spec_description(&self) -> Seq<Seq<char>> {
        seq![
            "Links the nodes from the first graph to the ones of the second graph in a random fashion."@,
            "The probability each arc is set is given by the first parameter."@,
        ]
    }

    open spec fn spec_parameter_types(&self) -> Seq<ParameterType> {
        seq![ParameterType::Probability]
    }

    open spec fn spec_build(&self, values: Seq<ParameterValue>) -> Result<GraphLinker, ParamErrorKind> {
        Ok(GraphLinker::Random { p: values[0]->Probability_0, bidirectional: false })
    }

    fn name(&self) -> (r: &'static str) {
        "random"
    }

    fn description(&self) -> (r: Vec<&'static str>) {
        let r = vec![
            "Links the nodes from the first graph to the ones of the second graph in a random fashion.",
            "The probability each arc is set is given by the first parameter.",
        ];
        assert(r@.map_values(|l: &'static str| l@) =~= self.spec_description());
        r
    }

    fn expected_parameter_types(&self) -> (r: Vec<ParameterType>) {
        let r = vec![ParameterType::Probability];
        assert(r@ =~= self.spec_parameter_types());
        r
    }

    fn try_with_params(&self, parameter_values: Vec<ParameterValue>) -> (r: Result<GraphLinker, ParamError>) {
        assert(parameter_values@[0].has_type(self.spec_parameter_types()[0]));
        let p = parameter_values[0].unwrap_probability();
        Ok(GraphLinker::Random { p, bidirectional: false })
    }
}

impl Linker for RandomLinker {
}

/// A linker that links pairs of nodes at random, each way (`random_bi/p`, directed graphs).
#[derive(Debug, Default, Clone, Copy)]
pub struct BidirectionalRandomLinker;

impl NamedParam<GraphLinker> for BidirectionalRandomLinker {
    open spec fn spec_name(&self) -> Seq<char> {
        "random_bi"@
    }

    open spec fn spec_description(&self) -> Seq<Seq<char>> {
        seq![
            "Links the nodes from the first graph to the ones of the second graph in a random fashion, and vice-versa."@,
            "The probability each arc is set is given by the first parameter."@,
        ]
    }

    open spec fn spec_parameter_types(&self) -> Seq<ParameterType> {
        seq![ParameterType::Probability]
    }

    open spec fn spec_build(&self, values: Seq<ParameterValue>) -> Result<GraphLinker, ParamErrorKind> {
        Ok(GraphLinker::Random { p: values[0]->Probability_0, bidirectional: true })
    }

    fn name(&self) -> (r: &'static str) {
        "random_bi"
    }

    fn description(&self) -> (r: Vec<&'static str>) {
        let r = vec![
            "Links the nodes from the first graph to the ones of the second graph in a random fashion, and vice-versa.",
            "The probability each arc is set is given by the first parameter.",
        ];
        assert(r@.map_values(|l: &'static str| l@) =~= self.spec_description());
        r
    }

    fn expected_parameter_types(&self) -> (r: Vec<ParameterType>) {
        let r = vec![ParameterType::Probability];
        assert(r@ =~= self.spec_parameter_types());
        r
    }

    fn try_with_params(&self, parameter_values: Vec<ParameterValue>) -> (r: Result<GraphLinker, ParamError>) {
        assert(parameter_values@[0].has_type(self.spec_parameter_types()[0]));
        let p = parameter_values[0].unwrap_probability();
        Ok(GraphLinker::Random { p, bidirectional: true })
    }
}

impl Linker for BidirectionalRandomLinker {
}

/// What resolving a linker string for directed graphs gives: the linker whose name is the part before the first `/`, built from the part after it; a not-found error (with `s`) when no linker has that name.
pub open spec fn spec_directed_linker_from_str(s: Seq<char>) -> Result<GraphLinker, (ParamErrorKind, Seq<char>)> {
    let name = name_part(s);
    let params = params_part(s);
    if name == FirstToFirstLinker.spec_name() {
        spec_resolve(FirstToFirstLinker, params)
    } else if name == BidirectionalFirstToFirstLinker.spec_name() {
        spec_resolve(BidirectionalFirstToFirstLinker, params)
    } else if name == MinIncomingLinker.spec_name() {
        spec_resolve(MinIncomingLinker, params)
    } else if name == BidirectionalMinIncomingLinker.spec_name() {
        spec_resolve(BidirectionalMinIncomingLinker, params)
    } else if name == RandomLinker.spec_name() {
        spec_resolve(RandomLinker, params)
    } else if name == BidirectionalRandomLinker.spec_name() {
        spec_resolve(BidirectionalRandomLinker, params)
    } else {
        Err((ParamErrorKind::NotFound, s))
    }
}

/// Given a string `name` or `name/params` for a linker of directed graphs, returns the configured linker.
pub fn directed_linker_from_str(s: &str) -> (r: Result<GraphLinker, ParamError>)
    ensures
        resolves_to(r, spec_directed_linker_from_str(s@)),
{
    let parts = split_name(s);
    if same_text(parts.name, FirstToFirstLinker.name()) {
        return resolve(&FirstToFirstLinker, parts.params);
    }
    if same_text(parts.name, BidirectionalFirstToFirstLinker.name()) {
        return resolve(&BidirectionalFirstToFirstLinker, parts.params);
    }
    if same_text(parts.name, MinIncomingLinker.name()) {
        return resolve(&MinIncomingLinker, parts.params);
    }
    if same_text(parts.name, BidirectionalMinIncomingLinker.name()) {
        return resolve(&BidirectionalMinIncomingLinker, parts.params);
    }
    if same_text(parts.name, RandomLinker.name()) {
        return resolve(&RandomLinker, parts.params);
    }
    if same_text(parts.name, BidirectionalRandomLinker.name()) {
        return resolve(&BidirectionalRandomLinker, parts.params);
    }
    Err(not_found(s))
}

/// What resolving a linker string for undirected graphs gives; the bidirectional linkers are not available there.
pub open spec fn spec_undirected_linker_from_str(s: Seq<char>) -> Result<GraphLinker, (ParamErrorKind, Seq<char>)> {
    let name = name_part(s);
    let params = params_part(s);
    if name == FirstToFirstLinker.spec_name() {
        spec_resolve(FirstToFirstLinker, params)
    } else if name == MinIncomingLinker.spec_name() {
        spec_resolve(MinIncomingLinker, params)
    } else if name == RandomLinker.spec_name() {
        spec_resolve(RandomLinker, params)
    } else {
        Err((ParamErrorKind::NotFound, s))
    }
}

/// Given a string `name` or `name/params` for a linker of undirected graphs, returns the configured linker.
pub fn undirected_linker_from_str(s: &str) -> (r: Result<GraphLinker, ParamError>)
    ensures
        resolves_to(r, spec_undirected_linker_from_str(s@)),
{
    let parts = split_name(s);
    if same_text(parts.name, FirstToFirstLinker.name()) {
        return resolve(&FirstToFirstLinker, parts.params);
    }
    if same_text(parts.name, MinIncomingLinker.name()) {
        return resolve(&MinIncomingLinker, parts.params);
    }
    if same_text(parts.name, RandomLinker.name()) {
        return resolve(&RandomLinker, parts.params);
    }
    Err(not_found(s))
}


/// Lists the linkers for directed graphs, in registration order.
pub fn iter_directed_linkers() -> (r: Vec<Listing>)
    ensures
        listed_names(r@) == seq![FirstToFirstLinker.spec_name(), BidirectionalFirstToFirstLinker.spec_name(), MinIncomingLinker.spec_name(), BidirectionalMinIncomingLinker.spec_name(), RandomLinker.spec_name(), BidirectionalRandomLinker.spec_name()],
{
    let mut r: Vec<Listing> = Vec::new();
    r.push(listing(&FirstToFirstLinker));
    r.push(listing(&BidirectionalFirstToFirstLinker));
    r.push(listing(&MinIncomingLinker));
    r.push(listing(&BidirectionalMinIncomingLinker));
    r.push(listing(&RandomLinker));
    r.push(listing(&BidirectionalRandomLinker));
    assert(listed_names(r@) =~= seq![FirstToFirstLinker.spec_name(), BidirectionalFirstToFirstLinker.spec_name(), MinIncomingLinker.spec_name(), BidirectionalMinIncomingLinker.spec_name(), RandomLinker.spec_name(), BidirectionalRandomLinker.spec_name()]);
    r
}


/// Lists the linkers for undirected graphs, in registration order.
pub fn iter_undirected_linkers() -> (r: Vec<Listing>)
    ensures
        listed_names(r@) == seq![FirstToFirstLinker.spec_name(), MinIncomingLinker.spec_name(), RandomLinker.spec_name()],
{
    let mut r: Vec<Listing> = Vec::new();
    r.push(listing(&FirstToFirstLinker));
    r.push(listing(&MinIncomingLinker));
    r.push(listing(&RandomLinker));
    assert(listed_names(r@) =~= seq![FirstToFirstLinker.spec_name(), MinIncomingLinker.spec_name(), RandomLinker.spec_name()]);
    r
}

} // verus!
