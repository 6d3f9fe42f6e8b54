//! A directed graph, held by the petgraph library and seen by the verified
//! code through two names: how many nodes it has, and which ordered index
//! pairs carry an edge.
//!
//! Nodes are indexed 0, 1, 2, ... in insertion order. Parallel edges
//! collapse to one pair in the edge set, which loses nothing here: cycle
//! existence and topological order are multiplicity-insensitive.

use vstd::prelude::*;

verus! {

/// A directed multigraph of the petgraph library, opaque to the verifier.
#[verifier::external_body]
pub struct DirectedGraph {
    inner: petgraph::graph::DiGraph<(), (), usize>,
}

/// How many nodes the graph holds.
pub uninterp spec fn graph_node_count(g: DirectedGraph) -> nat;

/// The set of (source, target) index pairs joined by at least one edge.
pub uninterp spec fn graph_edge_set(g: DirectedGraph) -> Set<(nat, nat)>;

/// A nonempty closed walk through the edge set: `p` lists the visited
/// nodes, and the last one equals the first.
pub open spec fn is_cycle(edges: Set<(nat, nat)>, p: Seq<nat>) -> bool {
    &&& p.len() >= 2
    &&& p[0] == p[p.len() - 1]
    &&& forall|i: int| 0 <= i < p.len() - 1 ==> edges.contains(((#[trigger] p[i]), p[i + 1]))
}

/// Whether the edge set admits a directed cycle. A closed walk exists
/// exactly when a simple cycle does, so this is cycle existence.
pub open spec fn has_cycle(edges: Set<(nat, nat)>) -> bool {
    exists|p: Seq<nat>| is_cycle(edges, p)
}

/// Relies on petgraph's Graph::default: a graph that starts with no nodes
/// and no edges.
#[verifier::external_body]
pub fn graph_new() -> (g: DirectedGraph)
    ensures
        graph_node_count(g) == 0,
        graph_edge_set(g) == Set::<(nat, nat)>::empty(),
{
    DirectedGraph { inner: petgraph::graph::DiGraph::default() }
}

/// Relies on petgraph's Graph::add_node: appends one node and returns its
/// index, which with this index type is the previous node count.
#[verifier::external_body]
pub fn graph_add_node(g: &mut DirectedGraph) -> (idx: usize)
    ensures
        graph_node_count(*final(g)) == graph_node_count(*old(g)) + 1,
        idx as nat == graph_node_count(*old(g)),
        graph_edge_set(*final(g)) == graph_edge_set(*old(g)),
{
    g.inner.add_node(()).index()
}

/// Relies on petgraph's Graph::add_edge: joins two existing nodes, keeping
/// every node in place. Parallel edges are allowed and collapse in the
/// edge-set view.
#[verifier::external_body]
pub fn graph_add_edge(g: &mut DirectedGraph, a: usize, b: usize)
    requires
        a < graph_node_count(*old(g)),
        b < graph_node_count(*old(g)),
    ensures
        graph_node_count(*final(g)) == graph_node_count(*old(g)),
        graph_edge_set(*final(g)) == graph_edge_set(*old(g)).insert((a as nat, b as nat)),
{
    g.inner.add_edge(
        petgraph::graph::NodeIndex::new(a),
        petgraph::graph::NodeIndex::new(b),
        (),
    );
}

/// Relies on petgraph's is_cyclic_directed: true exactly when the directed
/// graph contains a cycle.
#[verifier::external_body]
pub fn graph_is_cyclic(g: &DirectedGraph) -> (r: bool)
    ensures
        r == has_cycle(graph_edge_set(*g)),
{
    petgraph::algo::is_cyclic_directed(&g.inner)
}

/// Relies on petgraph's toposort: on an acyclic graph it returns every node
/// exactly once, each node placed before its successors; on a cyclic graph
/// it reports the cycle instead.
#[verifier::external_body]
pub fn graph_toposort(g: &DirectedGraph) -> (r: Option<Vec<usize>>)
    ensures
        r matches Some(order) ==> {
            &&& order@.len() == graph_node_count(*g)
            &&& forall|i: int|
                0 <= i < order@.len() ==> (#[trigger] order@[i]) < graph_node_count(*g)
            &&& forall|i: int, j: int|
                #![trigger order@[i], order@[j]]
                0 <= i < j < order@.len() ==> order@[i] != order@[j]
            &&& forall|i: int, j: int|
                #![trigger order@[i], order@[j]]
                0 <= i < order@.len() && 0 <= j < order@.len() && graph_edge_set(*g).contains(
                    (order@[i] as nat, order@[j] as nat),
                ) ==> i < j
        },
        r is None ==> has_cycle(graph_edge_set(*g)),
{
    match petgraph::algo::toposort(&g.inner, None) {
        Ok(order) => Some(order.into_iter().map(|ix| ix.index()).collect()),
        Err(_) => None,
    }
}

} // verus!
