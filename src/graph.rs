//! The dense-indexed graph container.
use petgraph::graph::Graph as AdjacencyList;
use vstd::prelude::*;

verus! {

/// The node label type.
pub type NodeIndexType = usize;

/// The storage of a graph: petgraph's adjacency list, with no payload.
pub type Storage = AdjacencyList<(), (), petgraph::Directed, usize>;

#[verifier::external_type_specification]
#[verifier::external_body]
#[verifier::reject_recursive_types(N)]
#[verifier::reject_recursive_types(E)]
#[verifier::reject_recursive_types(Ty)]
#[verifier::reject_recursive_types(Ix)]
pub struct ExAdjacencyList<N, E, Ty, Ix>(AdjacencyList<N, E, Ty, Ix>);

#[verifier::external_type_specification]
#[verifier::external_body]
pub struct ExPetgraphDirected(petgraph::Directed);

/// The number of nodes held by a petgraph graph.
pub uninterp spec fn stored_node_count(g: AdjacencyList<(), (), petgraph::Directed, usize>) -> nat;

/// The edges held by a petgraph graph, as (source, target) pairs in storage order.
pub uninterp spec fn stored_edges(g: AdjacencyList<(), (), petgraph::Directed, usize>) -> Seq<(usize, usize)>;

/// Relies on petgraph's `Graph::with_capacity`: the new graph is empty.
#[verifier::external_body]
fn storage_with_capacity(n_nodes: usize, n_edges: usize) -> (r: Storage)
    ensures
        stored_node_count(r) == 0,
        stored_edges(r) == Seq::<(usize, usize)>::empty(),
{
    AdjacencyList::with_capacity(n_nodes, n_edges)
}

/// Relies on petgraph's `Graph::add_node`: one more node, edges untouched.
#[verifier::external_body]
fn storage_add_node(g: &mut Storage)
    ensures
        stored_node_count(*final(g)) == stored_node_count(*old(g)) + 1,
        stored_edges(*final(g)) == stored_edges(*old(g)),
{
    g.add_node(());
}

/// Relies on petgraph's `Graph::add_edge`: the edge is appended to the edge list,
/// parallel edges included; it panics unless both endpoints exist.
#[verifier::external_body]
fn storage_add_edge(g: &mut Storage, from: usize, to: usize)
    requires
        from < stored_node_count(*old(g)),
        to < stored_node_count(*old(g)),
    ensures
        stored_node_count(*final(g)) == stored_node_count(*old(g)),
        stored_edges(*final(g)) == stored_edges(*old(g)).push((from, to)),
{
    g.add_edge(petgraph::graph::NodeIndex::new(from), petgraph::graph::NodeIndex::new(to), ());
}

/// Relies on petgraph's `Graph::node_count`.
#[verifier::external_body]
fn storage_node_count(g: &Storage) -> (r: usize)
    ensures
        r == stored_node_count(*g),
{
    g.node_count()
}

/// Relies on petgraph's `Graph::edge_count`.
#[verifier::external_body]
fn storage_edge_count(g: &Storage) -> (r: usize)
    ensures
        r == stored_edges(*g).len(),
{
    g.edge_count()
}

/// Relies on petgraph's `Graph::raw_edges`: the edge at position `i` of the edge list,
/// whose endpoints are nodes of the graph.
#[verifier::external_body]
fn storage_edge_at(g: &Storage, i: usize) -> (r: (usize, usize))
    requires
        i < stored_edges(*g).len(),
    ensures
        r == stored_edges(*g)[i as int],
        r.0 < stored_node_count(*g),
        r.1 < stored_node_count(*g),
{
    let e = &g.raw_edges()[i];
    (e.source().index(), e.target().index())
}

/// Relies on petgraph's `Graph::find_edge` (directed): the position of an edge going
/// from `from` to `to`, if there is one.
#[verifier::external_body]
fn storage_find_edge(g: &Storage, from: usize, to: usize) -> (r: Option<usize>)
    ensures
        r matches Some(i) ==> i < stored_edges(*g).len() && stored_edges(*g)[i as int] == (from, to),
        r is None ==> !stored_edges(*g).contains((from, to)),
{
    g.find_edge(petgraph::graph::NodeIndex::new(from), petgraph::graph::NodeIndex::new(to)).map(|e| e.index())
}

/// Relies on petgraph's `Graph::remove_edge`: the last edge of the list takes the place
/// of the removed one.
#[verifier::external_body]
fn storage_remove_edge(g: &mut Storage, i: usize)
    requires
        i < stored_edges(*old(g)).len(),
    ensures
        stored_node_count(*final(g)) == stored_node_count(*old(g)),
        stored_edges(*final(g)) == swap_removed(stored_edges(*old(g)), i as int),
{
    g.remove_edge(petgraph::graph::EdgeIndex::new(i));
}

/// Relies on petgraph_gen's `barabasi_albert_graph` with no initial graph: it starts
/// from the star on nodes `0..=m` (edges `(0, 1)`, ..., `(0, m)`, in this order), then
/// adds the nodes `m + 1..n` one by one, each with `m` edges; it panics unless
/// `1 <= m < n`.
#[verifier::external_body]
pub(crate) fn barabasi_albert_storage(rng: &mut crate::random::Prng, n: usize, m: usize) -> (r: Storage)
    requires
        1 <= m < n,
    ensures
        stored_node_count(r) == n,
        stored_edges(r).len() == m + (n - m - 1) * m,
        forall|i: int| 0 <= i < m ==> #[trigger] stored_edges(r)[i] == (0usize, (i + 1) as usize),
{
    petgraph_gen::barabasi_albert_graph(rng, n, m, None::<Storage>)
}

/// The sequence `s` once its element at `i` is removed and its last element moved there.
pub open spec fn swap_removed<A>(s: Seq<A>, i: int) -> Seq<A> {
    s.update(i, s.last()).drop_last()
}

/// Removing the element at `idx` the swap way keeps every element that differs from it.
pub proof fn lemma_swap_removed_keeps<A>(s: Seq<A>, idx: int, x: A)
    requires
        0 <= idx < s.len(),
        s.contains(x),
        s[idx] != x,
    ensures
        swap_removed(s, idx).contains(x),
{
    let w = choose|w: int| 0 <= w < s.len() && s[w] == x;
    let r = swap_removed(s, idx);
    if w < s.len() - 1 {
        assert(r[w] == x);
    } else {
        assert(r[idx] == x);
    }
}

/// The greatest of three integers.
pub open spec fn max3(a: int, b: int, c: int) -> int {
    if a >= b && a >= c {
        a
    } else if b >= c {
        b
    } else {
        c
    }
}

/// The edges `es`, with both endpoints shifted by `offset`.
pub open spec fn shifted(es: Seq<(usize, usize)>, offset: int) -> Seq<(usize, usize)> {
    es.map_values(|e: (usize, usize)| ((e.0 + offset) as usize, (e.1 + offset) as usize))
}

/// A graph whose nodes are the contiguous range `0..n_nodes()` and whose edges are
/// ordered pairs of nodes. Parallel edges are kept.
pub struct Graph {
    storage: Storage,
}

impl Graph {
    /// The number of nodes.
    pub closed spec fn node_count(&self) -> nat {
        stored_node_count(self.storage)
    }

    /// The edges, as (source, target) pairs in insertion order.
    pub closed spec fn edge_list(&self) -> Seq<(usize, usize)> {
        stored_edges(self.storage)
    }

    /// Builds an empty graph; the capacities are only size hints.
    pub fn with_capacity(n_nodes: usize, n_edges: usize) -> (r: Graph)
        ensures
            r.node_count() == 0,
            r.edge_list() == Seq::<(usize, usize)>::empty(),
    {
        Graph { storage: storage_with_capacity(n_nodes, n_edges) }
    }

    /// Adds a node, whose index is the former node count.
    pub fn new_node(&mut self)
        ensures
            final(self).node_count() == old(self).node_count() + 1,
            final(self).edge_list() == old(self).edge_list(),
    {
        storage_add_node(&mut self.storage);
    }

    /// Returns the number of nodes.
    pub fn n_nodes(&self) -> (r: usize)
        ensures
            r == self.node_count(),
    {
        storage_node_count(&self.storage)
    }

    /// Returns the number of edges.
    pub fn n_edges(&self) -> (r: usize)
        ensures
            r == self.edge_list().len(),
    {
        storage_edge_count(&self.storage)
    }

    /// Returns the edge at position `i` of the insertion order.
    pub fn edge(&self, i: usize) -> (r: (NodeIndexType, NodeIndexType))
        requires
            i < self.edge_list().len(),
        ensures
            r == self.edge_list()[i as int],
            r.0 < self.node_count(),
            r.1 < self.node_count(),
    {
        storage_edge_at(&self.storage, i)
    }

    /// Adds an edge from `from` to `to`, first creating every missing node up to the
    /// greatest of the two. An edge that is already there is added once more.
    pub fn new_edge(&mut self, from: NodeIndexType, to: NodeIndexType)
        requires
            from < usize::MAX,
            to < usize::MAX,
        ensures
            final(self).node_count() == max3(old(self).node_count() as int, from + 1, to + 1),
            final(self).edge_list() == old(self).edge_list().push((from, to)),
            final(self).edge_list().len() == old(self).edge_list().len() + 1,
            ({
                let top = if from > to { from } else { to };
                top >= old(self).node_count() ==> final(self).node_count() == top + 1
            }),
    {
        let top = if from > to { from } else { to };
        while self.n_nodes() <= top
            invariant
                top < usize::MAX,
                top == (if from > to { from } else { to }),
                self.node_count() <= max3(old(self).node_count() as int, from + 1, to + 1),
                self.node_count() >= old(self).node_count(),
                self.node_count() > old(self).node_count() ==> self.node_count() <= top + 1,
                self.edge_list() == old(self).edge_list(),
            decreases top + 1 - self.node_count(),
        {
            self.new_node();
        }
        storage_add_edge(&mut self.storage, from, to);
    }

    /// Returns the edges as (source, target) pairs, in insertion order; an edge added
    /// `k` times appears `k` times.
    pub fn iter_edges(&self) -> (r: Vec<(NodeIndexType, NodeIndexType)>)
        ensures
            r@ == self.edge_list(),
    {
        let n = self.n_edges();
        let mut r: Vec<(NodeIndexType, NodeIndexType)> = Vec::with_capacity(n);
        let mut i: usize = 0;
        while i < n
            invariant
                n == self.edge_list().len(),
                i <= n,
                r@ == self.edge_list().take(i as int),
            decreases n - i,
        {
            let e = self.edge(i);
            r.push(e);
            i += 1;
            assert(r@ =~= self.edge_list().take(i as int));
        }
        assert(r@ =~= self.edge_list());
        r
    }

    /// Removes one edge going from `from` to `to`; the last edge of the insertion order
    /// takes its place. There must be such an edge.
    pub fn remove_edge(&mut self, from: NodeIndexType, to: NodeIndexType)
        requires
            old(self).edge_list().contains((from, to)),
        ensures
            final(self).node_count() == old(self).node_count(),
            exists|i: int|
                0 <= i < old(self).edge_list().len() && old(self).edge_list()[i] == (from, to)
                    && final(self).edge_list() == swap_removed(old(self).edge_list(), i),
    {
        let found = storage_find_edge(&self.storage, from, to);
        match found {
            Some(i) => {
                storage_remove_edge(&mut self.storage, i);
            },
            None => {
                proof {
                    assert(false);
                }
            },
        }
    }

    /// Appends a copy of `other` whose node indices are shifted by the node count of
    /// `self`: the result is the disjoint union of the two graphs.
    pub fn append_graph(&mut self, other: &Graph)
        requires
            old(self).node_count() + other.node_count() < usize::MAX,
        ensures
            final(self).node_count() == old(self).node_count() + other.node_count(),
            final(self).edge_list() == old(self).edge_list() + shifted(
                other.edge_list(),
                old(self).node_count() as int,
            ),
            final(self).edge_list().len() == old(self).edge_list().len() + other.edge_list().len(),
            final(self).edge_list().subrange(0, old(self).edge_list().len() as int) == old(self).edge_list(),
            forall|j: int|
                0 <= j < other.edge_list().len() ==> #[trigger] final(self).edge_list()[old(self).edge_list().len()
                    + j] == ((other.edge_list()[j].0 + old(self).node_count()) as usize, (other.edge_list()[j].1
                    + old(self).node_count()) as usize),
    {
        let offset = self.n_nodes();
        let m = other.n_nodes();
        let mut k: usize = 0;
        while k < m
            invariant
                m == other.node_count(),
                offset == old(self).node_count(),
                k <= m,
                self.node_count() == offset + k,
                self.edge_list() == old(self).edge_list(),
            decreases m - k,
        {
            self.new_node();
            k += 1;
        }
        let n_e = other.n_edges();
        let mut i: usize = 0;
        while i < n_e
            invariant
                m == other.node_count(),
                offset == old(self).node_count(),
                offset + m < usize::MAX,
                n_e == other.edge_list().len(),
                i <= n_e,
                self.node_count() == offset + m,
                self.edge_list() == old(self).edge_list() + shifted(
                    other.edge_list().take(i as int),
                    offset as int,
                ),
            decreases n_e - i,
        {
            let (s, t) = other.edge(i);
            self.new_edge(s + offset, t + offset);
            i += 1;
            assert(other.edge_list().take(i as int) =~= other.edge_list().take(i - 1).push((s, t)));
            assert(shifted(other.edge_list().take(i as int), offset as int) =~= shifted(
                other.edge_list().take(i - 1),
                offset as int,
            ).push(((s + offset) as usize, (t + offset) as usize)));
        }
        assert(other.edge_list().take(n_e as int) =~= other.edge_list());
        assert(self.edge_list() =~= old(self).edge_list() + shifted(
            other.edge_list(),
            offset as int,
        ));
        assert(self.edge_list().subrange(0, old(self).edge_list().len() as int) =~= old(self).edge_list());
    }
}

impl Graph {
    /// Wraps a petgraph graph.
    pub(crate) fn from_storage(storage: Storage) -> (r: Graph)
        ensures
            r.node_count() == stored_node_count(storage),
            r.edge_list() == stored_edges(storage),
    {
        Graph { storage }
    }
}

impl Default for Graph {
    /// Builds an empty graph.
    fn default() -> (r: Graph)
        ensures
            r.node_count() == 0,
            r.edge_list() == Seq::<(usize, usize)>::empty(),
    {
        Graph::with_capacity(0, 0)
    }
}

/// An edge between the nodes of two different inner graphs, each node given by its
/// index inside its own inner graph.
#[derive(Debug, Clone, Copy, PartialEq, Eq, Structural)]
pub enum InterGraphEdge {
    /// An edge from a node of the first graph to a node of the second.
    FirstToSecond(NodeIndexType, NodeIndexType),
    /// An edge from a node of the second graph to a node of the first.
    SecondToFirst(NodeIndexType, NodeIndexType),
}

/// An inner graph together with its index among the inner graphs, which lets linkers
/// tell inner graphs apart. It borrows the graph and never owns it.
pub struct InnerGraph<'a> {
    index: usize,
    graph: &'a Graph,
}

impl<'a> InnerGraph<'a> {
    /// The index of this inner graph.
    pub closed spec fn spec_index(&self) -> usize {
        self.index
    }

    /// The inner graph itself.
    pub closed spec fn spec_graph(&self) -> &'a Graph {
        self.graph
    }

    /// Pairs an index with the inner graph it stands for.
    pub fn new(index: usize, graph: &'a Graph) -> (r: InnerGraph<'a>)
        ensures
            r.spec_index() == index,
            r.spec_graph() == graph,
    {
        InnerGraph { index, graph }
    }

    /// Returns the index of the inner graph.
    pub fn index(&self) -> (r: usize)
        ensures
            r == self.spec_index(),
    {
        self.index
    }

    /// Returns the inner graph.
    pub fn graph(&self) -> (r: &'a Graph)
        ensures
            r == self.spec_graph(),
    {
        self.graph
    }
}

impl<'a> From<(usize, &'a Graph)> for InnerGraph<'a> {
    /// Pairs an index with the inner graph it stands for.
    fn from(t: (usize, &'a Graph)) -> (r: InnerGraph<'a>)
        ensures
            r.spec_index() == t.0,
            r.spec_graph() == t.1,
    {
        InnerGraph { index: t.0, graph: t.1 }
    }
}

impl<'a> vstd::std_specs::convert::FromSpecImpl<(usize, &'a Graph)> for InnerGraph<'a> {
    open spec fn obeys_from_spec() -> bool {
        true
    }

    closed spec fn from_spec(t: (usize, &'a Graph)) -> InnerGraph<'a> {
        InnerGraph { index: t.0, graph: t.1 }
    }
}

} // verus!
