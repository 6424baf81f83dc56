//! The inner/outer composition: drawing the per-task seeds, gathering the inner graphs
//! into one index space, and mapping the linking edges into that space.
use crate::graph::{max3, shifted, Graph, InterGraphEdge};
use crate::random::{draw_u64, Prng};
use vstd::prelude::*;

verus! {

/// Key steps of an inner/outer generation, announced in this order.
#[derive(Debug, Clone, Copy, PartialEq, Eq, Structural)]
pub enum InnerOuterGenerationStep {
    /// The outer graph generation is about to begin.
    OuterGeneration,
    /// The inner graphs generation is about to begin.
    InnerGeneration,
    /// The linking is about to begin.
    Linking,
}

/// Draws `n` seeds from `rng`, one after the other. Drawing every seed before any
/// parallel work fixes which part of the random stream each task gets, whatever the
/// scheduling.
pub fn draw_seeds(rng: &mut Prng, n: usize) -> (r: Vec<u64>)
    ensures
        r@.len() == n,
{
    let mut seeds: Vec<u64> = Vec::with_capacity(n);
    let mut i: usize = 0;
    while i < n
        invariant
            i <= n,
            seeds@.len() == i,
        decreases n - i,
    {
        let s = draw_u64(rng);
        seeds.push(s);
        i += 1;
    }
    seeds
}

/// The first index of the block of inner graph `i` in the composed graph: the sum of
/// the node counts of the inner graphs before it.
pub open spec fn offset_of(gs: Seq<Graph>, i: int) -> nat
    decreases i,
{
    if i <= 0 {
        0
    } else {
        offset_of(gs, i - 1) + gs[i - 1].node_count()
    }
}

/// The offsets of all the blocks, followed by the total node count.
pub open spec fn offset_table(gs: Seq<Graph>) -> Seq<usize> {
    Seq::new((gs.len() + 1) as nat, |i: int| offset_of(gs, i) as usize)
}

/// The edges of the disjoint union of the first `i` inner graphs.
pub open spec fn union_edges(gs: Seq<Graph>, i: int) -> Seq<(usize, usize)>
    decreases i,
{
    if i <= 0 {
        Seq::empty()
    } else {
        union_edges(gs, i - 1) + shifted(gs[i - 1].edge_list(), offset_of(gs, i - 1) as int)
    }
}

/// A linking edge between inner graphs `a` and `b` (in this order), in the index space
/// of the composed graph, where the blocks of `a` and `b` start at `off_a` and `off_b`.
pub open spec fn global_edge(e: InterGraphEdge, off_a: int, off_b: int) -> (int, int) {
    match e {
        InterGraphEdge::FirstToSecond(x, y) => (off_a + x, off_b + y),
        InterGraphEdge::SecondToFirst(x, y) => (off_b + x, off_a + y),
    }
}

/// The linking edges produced for the outer edge `(a, b)`.
pub open spec fn placed_links(links: Seq<InterGraphEdge>, offsets: Seq<usize>, outer_edge: (usize, usize)) -> Seq<(usize, usize)> {
    links.map_values(
        |e: InterGraphEdge|
            {
                let g = global_edge(e, offsets[outer_edge.0 as int] as int, offsets[outer_edge.1 as int] as int);
                (g.0 as usize, g.1 as usize)
            },
    )
}

/// The linking edges of the first `k` outer edges, in outer-edge order.
pub open spec fn linking_edges(
    outer_edges: Seq<(usize, usize)>,
    offsets: Seq<usize>,
    links: Seq<Vec<InterGraphEdge>>,
    k: int,
) -> Seq<(usize, usize)>
    decreases k,
{
    if k <= 0 {
        Seq::empty()
    } else {
        linking_edges(outer_edges, offsets, links, k - 1) + placed_links(links[k - 1]@, offsets, outer_edges[k - 1])
    }
}

/// Every linking edge lands on indices below `usize::MAX`.
pub open spec fn links_fit(outer_edges: Seq<(usize, usize)>, offsets: Seq<usize>, links: Seq<Vec<InterGraphEdge>>) -> bool {
    forall|k: int, j: int|
        0 <= k < links.len() && 0 <= j < links[k]@.len() ==> {
            let g = #[trigger] global_edge(
                links[k]@[j],
                offsets[outer_edges[k].0 as int] as int,
                offsets[outer_edges[k].1 as int] as int,
            );
            g.0 < usize::MAX && g.1 < usize::MAX
        }
}

/// The node count reached from `n` once the edges `es` are added one by one, each
/// addition creating the nodes it refers to.
pub open spec fn grown(n: nat, es: Seq<(usize, usize)>) -> nat
    decreases es.len(),
{
    if es.len() == 0 {
        n
    } else {
        let e = es.last();
        max3(grown(n, es.drop_last()) as int, e.0 + 1, e.1 + 1) as nat
    }
}

proof fn lemma_offset_monotonic(gs: Seq<Graph>, i: int, j: int)
    requires
        0 <= i <= j <= gs.len(),
    ensures
        offset_of(gs, i) <= offset_of(gs, j),
    decreases j - i,
{
    if i < j {
        lemma_offset_monotonic(gs, i, j - 1);
    }
}

/// Gathers the inner graphs, in order, into one graph: the disjoint union where inner
/// graph `i` occupies the block of indices starting at `offset_of(gs, i)`. Returns that
/// graph and the offset table (every block start, then the total node count).
pub fn compose(inner_graphs: &Vec<Graph>) -> (r: (Graph, Vec<usize>))
    requires
        offset_of(inner_graphs@, inner_graphs@.len() as int) < usize::MAX,
    ensures
        r.0.node_count() == offset_of(inner_graphs@, inner_graphs@.len() as int),
        r.0.edge_list() == union_edges(inner_graphs@, inner_graphs@.len() as int),
        r.1@ == offset_table(inner_graphs@),
{
    let ghost gs = inner_graphs@;
    let mut global = Graph::with_capacity(0, 0);
    let mut offsets: Vec<usize> = Vec::new();
    offsets.push(0);
    let mut i: usize = 0;
    while i < inner_graphs.len()
        invariant
            gs == inner_graphs@,
            offset_of(gs, gs.len() as int) < usize::MAX,
            i <= gs.len(),
            global.node_count() == offset_of(gs, i as int),
            global.edge_list() == union_edges(gs, i as int),
            offsets@.len() == i + 1,
            forall|j: int| 0 <= j <= i ==> offsets@[j] == offset_of(gs, j),
        decreases gs.len() - i,
    {
        proof {
            lemma_offset_monotonic(gs, i + 1, gs.len() as int);
        }
        let offset = global.n_nodes();
        global.append_graph(&inner_graphs[i]);
        i += 1;
        let total = global.n_nodes();
        offsets.push(total);
        assert(global.node_count() == offset_of(gs, i as int));
        assert(offset == offset_of(gs, i - 1));
    }
    assert(offsets@ =~= offset_table(gs));
    (global, offsets)
}

/// Adds to `global`, in outer-edge order, the linking edges that `links[k]` gives for
/// the outer edge `k`, mapped into the index space of the composed graph by the
/// offset table. A local index out of its inner graph's range makes the graph grow.
pub fn add_linking_edges(
    outer: &Graph,
    offsets: &Vec<usize>,
    global: Graph,
    links: &Vec<Vec<InterGraphEdge>>,
) -> (r: Graph)
    requires
        links@.len() == outer.edge_list().len(),
        offsets@.len() >= outer.node_count(),
        links_fit(outer.edge_list(), offsets@, links@),
    ensures
        r.edge_list() == global.edge_list() + linking_edges(outer.edge_list(), offsets@, links@, links@.len() as int),
        r.node_count() == grown(global.node_count(), linking_edges(outer.edge_list(), offsets@, links@, links@.len() as int)),
{
    let ghost oe = outer.edge_list();
    let mut g = global;
    let n_outer = outer.n_edges();
    let mut k: usize = 0;
    while k < n_outer
        invariant
            oe == outer.edge_list(),
            n_outer == oe.len(),
            links@.len() == n_outer,
            offsets@.len() >= outer.node_count(),
            links_fit(oe, offsets@, links@),
            k <= n_outer,
            g.edge_list() == global.edge_list() + linking_edges(oe, offsets@, links@, k as int),
            g.node_count() == grown(global.node_count(), linking_edges(oe, offsets@, links@, k as int)),
        decreases n_outer - k,
    {
        let (a, b) = outer.edge(k);
        let off_a = offsets[a];
        let off_b = offsets[b];
        let edge_links = &links[k];
        let ghost before = linking_edges(oe, offsets@, links@, k as int);
        let mut j: usize = 0;
        while j < edge_links.len()
            invariant
                oe == outer.edge_list(),
                links@.len() == n_outer,
                k < n_outer,
                (a, b) == oe[k as int],
                off_a == offsets@[a as int],
                off_b == offsets@[b as int],
                edge_links == links@[k as int],
                links_fit(oe, offsets@, links@),
                before == linking_edges(oe, offsets@, links@, k as int),
                j <= edge_links@.len(),
                g.edge_list() == global.edge_list() + before + placed_links(edge_links@.take(j as int), offsets@, (a, b)),
                g.node_count() == grown(global.node_count(), before + placed_links(edge_links@.take(j as int), offsets@, (a, b))),
            decreases edge_links@.len() - j,
        {
            let ghost gl = global_edge(edge_links@[j as int], off_a as int, off_b as int);
            assert(gl.0 < usize::MAX && gl.1 < usize::MAX);
            let (from, to) = match edge_links[j] {
                InterGraphEdge::FirstToSecond(x, y) => (off_a + x, off_b + y),
                InterGraphEdge::SecondToFirst(x, y) => (off_b + x, off_a + y),
            };
            g.new_edge(from, to);
            let ghost prev = before + placed_links(edge_links@.take(j as int), offsets@, (a, b));
            j += 1;
            assert(placed_links(edge_links@.take(j as int), offsets@, (a, b)) =~= placed_links(
                edge_links@.take(j - 1),
                offsets@,
                (a, b),
            ).push((from, to)));
            assert(before + placed_links(edge_links@.take(j as int), offsets@, (a, b)) =~= prev.push((from, to)));
            assert((prev.push((from, to))).drop_last() =~= prev);
        }
        assert(edge_links@.take(edge_links@.len() as int) =~= edge_links@);
        k += 1;
        assert(linking_edges(oe, offsets@, links@, k as int) =~= before + placed_links(links@[k - 1]@, offsets@, oe[k - 1]));
        assert(global.edge_list() + linking_edges(oe, offsets@, links@, k as int) =~= global.edge_list() + before
            + placed_links(links@[k - 1]@, offsets@, oe[k - 1]));
    }
    g
}

/// The edges of the composed graph: the disjoint union of the inner graphs, then the
/// linking edges in outer-edge order.
pub open spec fn composed_edges(outer: Graph, gs: Seq<Graph>, links: Seq<Vec<InterGraphEdge>>) -> Seq<(usize, usize)> {
    union_edges(gs, gs.len() as int) + linking_edges(outer.edge_list(), offset_table(gs), links, links.len() as int)
}

/// The node count of the composed graph.
pub open spec fn composed_node_count(outer: Graph, gs: Seq<Graph>, links: Seq<Vec<InterGraphEdge>>) -> nat {
    grown(
        offset_of(gs, gs.len() as int),
        linking_edges(outer.edge_list(), offset_table(gs), links, links.len() as int),
    )
}

/// What a composition needs: one inner graph per outer node, one list of linking edges
/// per outer edge, and every index of the result below `usize::MAX`.
pub open spec fn composable(outer: Graph, gs: Seq<Graph>, links: Seq<Vec<InterGraphEdge>>) -> bool {
    &&& gs.len() == outer.node_count()
    &&& links.len() == outer.edge_list().len()
    &&& offset_of(gs, gs.len() as int) < usize::MAX
    &&& links_fit(outer.edge_list(), offset_table(gs), links)
}

/// Builds the inner/outer graph once the outer graph, the inner graph of each outer node
/// (in outer-node order) and the linking edges of each outer edge (in outer-edge order)
/// are known: the inner graphs are gathered into one index space, then each linking edge
/// is mapped into it and added.
pub fn assemble(outer: &Graph, inner_graphs: &Vec<Graph>, links: &Vec<Vec<InterGraphEdge>>) -> (r: Graph)
    requires
        composable(*outer, inner_graphs@, links@),
    ensures
        r.edge_list() == composed_edges(*outer, inner_graphs@, links@),
        r.node_count() == composed_node_count(*outer, inner_graphs@, links@),
{
    let (global, offsets) = compose(inner_graphs);
    add_linking_edges(outer, &offsets, global, links)
}

/// As `assemble`, but returns `None` instead when the inputs are not composable.
pub fn assemble_checked(outer: &Graph, inner_graphs: &Vec<Graph>, links: &Vec<Vec<InterGraphEdge>>) -> (r: Option<Graph>)
    ensures
        r is None <==> !composable(*outer, inner_graphs@, links@),
        r matches Some(g) ==> g.edge_list() == composed_edges(*outer, inner_graphs@, links@)
            && g.node_count() == composed_node_count(*outer, inner_graphs@, links@),
{
    let ghost gs = inner_graphs@;
    if inner_graphs.len() != outer.n_nodes() || links.len() != outer.n_edges() {
        return None;
    }
    let mut total: usize = 0;
    let mut i: usize = 0;
    while i < inner_graphs.len()
        invariant
            gs == inner_graphs@,
            i <= gs.len(),
            total == offset_of(gs, i as int),
            total < usize::MAX,
        decreases gs.len() - i,
    {
        let n = inner_graphs[i].n_nodes();
        if n >= usize::MAX - total {
            proof {
                lemma_offset_monotonic(gs, i + 1, gs.len() as int);
            }
            return None;
        }
        total = total + n;
        i += 1;
    }
    let (global, offsets) = compose(inner_graphs);
    let ghost oe = outer.edge_list();
    let mut k: usize = 0;
    while k < links.len()
        invariant
            oe == outer.edge_list(),
            links@.len() == oe.len(),
            offsets@ == offset_table(gs),
            gs == inner_graphs@,
            gs.len() == outer.node_count(),
            k <= links@.len(),
            forall|kk: int, j: int|
                0 <= kk < k && 0 <= j < links@[kk]@.len() ==> {
                    let g = #[trigger] global_edge(
                        links@[kk]@[j],
                        offsets@[oe[kk].0 as int] as int,
                        offsets@[oe[kk].1 as int] as int,
                    );
                    g.0 < usize::MAX && g.1 < usize::MAX
                },
        decreases links@.len() - k,
    {
        let (a, b) = outer.edge(k);
        let off_a = offsets[a];
        let off_b = offsets[b];
        let mut j: usize = 0;
        while j < links[k].len()
            invariant
                oe == outer.edge_list(),
                links@.len() == oe.len(),
                offsets@ == offset_table(gs),
                gs == inner_graphs@,
                gs.len() == outer.node_count(),
                k < links@.len(),
                (a, b) == oe[k as int],
                off_a == offsets@[a as int],
                off_b == offsets@[b as int],
                j <= links@[k as int]@.len(),
                forall|kk: int, jj: int|
                    0 <= kk < k && 0 <= jj < links@[kk]@.len() ==> {
                        let g = #[trigger] global_edge(
                            links@[kk]@[jj],
                            offsets@[oe[kk].0 as int] as int,
                            offsets@[oe[kk].1 as int] as int,
                        );
                        g.0 < usize::MAX && g.1 < usize::MAX
                    },
                forall|jj: int|
                    0 <= jj < j ==> {
                        let g = #[trigger] global_edge(links@[k as int]@[jj], off_a as int, off_b as int);
                        g.0 < usize::MAX && g.1 < usize::MAX
                    },
            decreases links@[k as int]@.len() - j,
        {
            let (p, q) = match links[k][j] {
                InterGraphEdge::FirstToSecond(x, y) => (off_a, x),
                InterGraphEdge::SecondToFirst(x, y) => (off_b, x),
            };
            let (u, v) = match links[k][j] {
                InterGraphEdge::FirstToSecond(x, y) => (off_b, y),
                InterGraphEdge::SecondToFirst(x, y) => (off_a, y),
            };
            if q >= usize::MAX - p || v >= usize::MAX - u {
                proof {
                    let g = global_edge(links@[k as int]@[j as int], off_a as int, off_b as int);
                    assert(g.0 >= usize::MAX || g.1 >= usize::MAX);
                    let g2 = global_edge(
                        links@[k as int]@[j as int],
                        offset_table(gs)[oe[k as int].0 as int] as int,
                        offset_table(gs)[oe[k as int].1 as int] as int,
                    );
                    assert(g2 == g);
                    assert(!links_fit(oe, offset_table(gs), links@));
                }
                return None;
            }
            j += 1;
        }
        k += 1;
    }
    assert(links_fit(oe, offset_table(gs), links@));
    Some(add_linking_edges(outer, &offsets, global, links))
}

/// Reproducibility: the composed graph is a function of the outer graph's edges, of the
/// inner graphs in outer-node order and of the linking edges in outer-edge order. Two
/// runs that agree on these (as runs from one seed do, whatever the number of worker
/// threads, since every seed is drawn before any parallel work) build graphs with the
/// same node count and the same edge list, hence the same edge multiset.
pub proof fn lemma_composition_reproducible(
    outer1: Graph,
    outer2: Graph,
    gs1: Seq<Graph>,
    gs2: Seq<Graph>,
    links1: Seq<Vec<InterGraphEdge>>,
    links2: Seq<Vec<InterGraphEdge>>,
)
    requires
        outer1.edge_list() == outer2.edge_list(),
        gs1.len() == gs2.len(),
        forall|i: int|
            #![trigger gs1[i]]
            0 <= i < gs1.len() ==> gs1[i].node_count() == gs2[i].node_count() && gs1[i].edge_list()
                == gs2[i].edge_list(),
        links1.len() == links2.len(),
        forall|k: int| 0 <= k < links1.len() ==> #[trigger] links1[k]@ == links2[k]@,
    ensures
        composed_node_count(outer1, gs1, links1) == composed_node_count(outer2, gs2, links2),
        composed_edges(outer1, gs1, links1) == composed_edges(outer2, gs2, links2),
        composed_edges(outer1, gs1, links1).to_multiset() == composed_edges(outer2, gs2, links2).to_multiset(),
{
    lemma_offsets_agree(gs1, gs2, gs1.len() as int);
    assert(offset_table(gs1) =~= offset_table(gs2)) by {
        assert forall|i: int| 0 <= i < gs1.len() + 1 implies offset_table(gs1)[i] == offset_table(gs2)[i] by {
            lemma_offsets_agree(gs1, gs2, i);
        }
    }
    lemma_links_agree(outer1.edge_list(), offset_table(gs1), links1, links2, links1.len() as int);
}

proof fn lemma_offsets_agree(gs1: Seq<Graph>, gs2: Seq<Graph>, i: int)
    requires
        gs1.len() == gs2.len(),
        0 <= i <= gs1.len(),
        forall|j: int|
            #![trigger gs1[j]]
            0 <= j < gs1.len() ==> gs1[j].node_count() == gs2[j].node_count() && gs1[j].edge_list()
                == gs2[j].edge_list(),
    ensures
        offset_of(gs1, i) == offset_of(gs2, i),
        union_edges(gs1, i) == union_edges(gs2, i),
    decreases i,
{
    if i > 0 {
        lemma_offsets_agree(gs1, gs2, i - 1);
    }
}

proof fn lemma_links_agree(
    oe: Seq<(usize, usize)>,
    offsets: Seq<usize>,
    links1: Seq<Vec<InterGraphEdge>>,
    links2: Seq<Vec<InterGraphEdge>>,
    k: int,
)
    requires
        links1.len() == links2.len(),
        0 <= k <= links1.len(),
        forall|j: int| 0 <= j < links1.len() ==> #[trigger] links1[j]@ == links2[j]@,
    ensures
        linking_edges(oe, offsets, links1, k) == linking_edges(oe, offsets, links2, k),
    decreases k,
{
    if k > 0 {
        lemma_links_agree(oe, offsets, links1, links2, k - 1);
    }
}

} // verus!
