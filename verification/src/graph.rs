//! The dependency graph: one node for each package, one edge from a package to
//! each of its direct dependencies, labelled with the name that the depending
//! package gives it.

use crate::order::{has_cycle, is_topological_order, lemma_ordered_graph_has_no_cycle, on_cycle};
use crate::package::{Package, PackageName};
use petgraph::visit::EdgeRef;
use vstd::prelude::*;

verus! {

/// The place of a node in its graph. Nodes are numbered from 0 in the order
/// in which they were added.
pub type NodeIndex = u32;

/// An edge as seen from the node it leaves.
#[derive(Debug, PartialEq, Eq)]
pub struct Edge {
    /// The direct dependency.
    pub target: NodeIndex,
    /// What the depending package calls it.
    pub name: PackageName,
}

/// `petgraph::graph::Graph`: nodes with weights of type `N`, edges with
/// weights of type `E`. Nothing is known of a value but what the functions
/// below say.
#[verifier::external_type_specification]
#[verifier::external_body]
#[verifier::reject_recursive_types(N)]
#[verifier::reject_recursive_types(E)]
#[verifier::reject_recursive_types(Ty)]
#[verifier::reject_recursive_types(Ix)]
pub struct ExGraph<N, E, Ty, Ix>(petgraph::graph::Graph<N, E, Ty, Ix>);

/// `petgraph::Directed`: the mark of a graph whose edges have a direction.
#[verifier::external_type_specification]
#[verifier::external_body]
pub struct ExDirected(petgraph::Directed);

/// The weights of the nodes of `graph`, by node index.
pub uninterp spec fn graph_nodes(graph: petgraph::graph::DiGraph<Package, PackageName>) -> Seq<
    Package,
>;

/// For each node of `graph`, the edges that leave it, in the order in which
/// the graph walks them.
pub uninterp spec fn graph_out_edges(
    graph: petgraph::graph::DiGraph<Package, PackageName>,
) -> Seq<Seq<Edge>>;

/// The number of edges of `graph`.
pub uninterp spec fn graph_edge_count(graph: petgraph::graph::DiGraph<Package, PackageName>) -> nat;

/// The order in which `petgraph::algo::toposort` lists the nodes of an acyclic
/// graph with these successors.
pub uninterp spec fn toposort_order(successors: Seq<Seq<NodeIndex>>) -> Seq<NodeIndex>;

/// The successors of each node: the targets of its edges, in their order.
pub open spec fn successors_of(edges: Seq<Seq<Edge>>) -> Seq<Seq<NodeIndex>> {
    edges.map_values(|list: Seq<Edge>| list.map_values(|edge: Edge| edge.target))
}

/// The edges that leave `node`; none where the graph has no such node.
pub open spec fn edges_from(edges: Seq<Seq<Edge>>, node: NodeIndex) -> Seq<Edge> {
    if node < edges.len() {
        edges[node as int]
    } else {
        Seq::empty()
    }
}

/// `petgraph::graph::Graph::new`: a directed graph without nodes or edges.
#[verifier::external_body]
fn graph_new() -> (graph: petgraph::graph::DiGraph<Package, PackageName>)
    ensures
        graph_nodes(graph) == Seq::<Package>::empty(),
        graph_out_edges(graph) == Seq::<Seq<Edge>>::empty(),
        graph_edge_count(graph) == 0,
{
    petgraph::graph::DiGraph::new()
}

/// `petgraph::graph::Graph::node_count`: the number of nodes.
#[verifier::external_body]
fn graph_node_count(graph: &petgraph::graph::DiGraph<Package, PackageName>) -> (count: usize)
    ensures
        count == graph_nodes(*graph).len(),
{
    graph.node_count()
}

/// `petgraph::graph::Graph::try_add_node`: adds a node without edges behind
/// the others and returns its index, which is the number of nodes before the
/// call. It refuses, and leaves the graph as it was, only when the graph
/// already has `u32::MAX` nodes.
#[verifier::external_body]
fn graph_try_add_node(
    graph: &mut petgraph::graph::DiGraph<Package, PackageName>,
    package: Package,
) -> (added: Option<NodeIndex>)
    ensures
        graph_edge_count(*final(graph)) == graph_edge_count(*old(graph)),
        match added {
            Some(node) => {
                &&& node == graph_nodes(*old(graph)).len()
                &&& node < u32::MAX
                &&& graph_nodes(*final(graph)) == graph_nodes(*old(graph)).push(package)
                &&& graph_out_edges(*final(graph)) == graph_out_edges(*old(graph)).push(
                    Seq::empty(),
                )
            },
            None => {
                &&& graph_nodes(*old(graph)).len() >= u32::MAX
                &&& graph_nodes(*final(graph)) == graph_nodes(*old(graph))
                &&& graph_out_edges(*final(graph)) == graph_out_edges(*old(graph))
            },
        },
{
    graph.try_add_node(package).ok().map(|node| node.index() as u32)
}

/// `petgraph::graph::Graph::try_add_edge`: adds an edge from `from` to `to`
/// with the weight `name`, in front of the edges that already leave `from`
/// (the graph walks the newest edge first). It refuses, and leaves the graph
/// as it was, when one of the two nodes does not exist or when the graph
/// already has `u32::MAX` edges, and in no other case while it has fewer.
#[verifier::external_body]
fn graph_try_add_edge(
    graph: &mut petgraph::graph::DiGraph<Package, PackageName>,
    from: NodeIndex,
    to: NodeIndex,
    name: PackageName,
) -> (added: bool)
    ensures
        graph_nodes(*final(graph)) == graph_nodes(*old(graph)),
        from < graph_nodes(*old(graph)).len() && to < graph_nodes(*old(graph)).len()
            && graph_edge_count(*old(graph)) < u32::MAX ==> added,
        added ==> {
            &&& from < graph_nodes(*old(graph)).len()
            &&& to < graph_nodes(*old(graph)).len()
            &&& graph_edge_count(*old(graph)) != u32::MAX
            &&& graph_edge_count(*final(graph)) == graph_edge_count(*old(graph)) + 1
            &&& graph_out_edges(*final(graph)) == graph_out_edges(*old(graph)).update(
                from as int,
                seq![Edge { target: to, name }] + graph_out_edges(*old(graph))[from as int],
            )
        },
        !added ==> {
            &&& graph_edge_count(*final(graph)) == graph_edge_count(*old(graph))
            &&& graph_out_edges(*final(graph)) == graph_out_edges(*old(graph))
        },
{
    let from = petgraph::graph::NodeIndex::new(from as usize);
    let to = petgraph::graph::NodeIndex::new(to as usize);
    graph.try_add_edge(from, to, name).is_ok()
}

/// `petgraph::graph::Graph::node_weight`: the weight of the node `node`, or
/// nothing where the graph has no such node.
#[verifier::external_body]
fn graph_node_weight(
    graph: &petgraph::graph::DiGraph<Package, PackageName>,
    node: NodeIndex,
) -> (weight: Option<&Package>)
    ensures
        match weight {
            Some(package) => node < graph_nodes(*graph).len() && *package == graph_nodes(
                *graph,
            )[node as int],
            None => node >= graph_nodes(*graph).len(),
        },
{
    graph.node_weight(petgraph::graph::NodeIndex::new(node as usize))
}

/// `petgraph::graph::Graph::edges`: the edges that leave `node`, each with its
/// target and a copy of its weight, in the order in which the graph walks
/// them; none where the graph has no such node.
#[verifier::external_body]
fn graph_edges(graph: &petgraph::graph::DiGraph<Package, PackageName>, node: NodeIndex) -> (edges:
    Vec<Edge>)
    ensures
        edges@ == edges_from(graph_out_edges(*graph), node),
{
    graph.edges(petgraph::graph::NodeIndex::new(node as usize)).map(
        |edge| Edge { target: edge.target().index() as u32, name: edge.weight().clone() },
    ).collect()
}

/// `petgraph::graph::Graph::neighbors`: the targets of the edges that leave
/// `node`, in the order of those edges; none where the graph has no such
/// node.
#[verifier::external_body]
fn graph_neighbors(graph: &petgraph::graph::DiGraph<Package, PackageName>, node: NodeIndex) -> (
    neighbors: Vec<NodeIndex>)
    ensures
        neighbors@ == edges_from(graph_out_edges(*graph), node).map_values(
            |edge: Edge| edge.target,
        ),
{
    graph.neighbors(petgraph::graph::NodeIndex::new(node as usize)).map(
        |target| target.index() as u32,
    ).collect()
}

/// `petgraph::algo::toposort`: on a graph without a cycle, all nodes, each
/// once and before its successors, in an order that the successors of the
/// nodes determine; on a graph with a cycle, a node that lies on one.
#[verifier::external_body]
fn graph_toposort(graph: &petgraph::graph::DiGraph<Package, PackageName>) -> (sorted: Result<
    Vec<NodeIndex>,
    NodeIndex,
>)
    ensures
        match sorted {
            Ok(order) => {
                &&& is_topological_order(successors_of(graph_out_edges(*graph)), order@)
                &&& order@ == toposort_order(successors_of(graph_out_edges(*graph)))
            },
            Err(node) => on_cycle(successors_of(graph_out_edges(*graph)), node),
        },
{
    match petgraph::algo::toposort(graph, None) {
        Ok(order) => Ok(order.into_iter().map(|node| node.index() as u32).collect()),
        Err(cycle) => Err(cycle.node_id().index() as u32),
    }
}

/// A graph of packages. It always holds the package it was made for, as
/// node 0.
pub struct PackageGraph {
    inner: petgraph::graph::DiGraph<Package, PackageName>,
}

/// A graph as a value.
pub struct GraphView {
    /// The packages, by node.
    pub packages: Seq<Package>,
    /// For each node, the edges to its direct dependencies. The edge that
    /// was added last comes first.
    pub edges: Seq<Seq<Edge>>,
    /// The number of edges.
    pub edge_count: nat,
}

impl View for PackageGraph {
    type V = GraphView;

    closed spec fn view(&self) -> GraphView {
        GraphView {
            packages: graph_nodes(self.inner),
            edges: graph_out_edges(self.inner),
            edge_count: graph_edge_count(self.inner),
        }
    }
}

impl PackageGraph {
    /// The packages of the graph, by node.
    pub open spec fn packages(&self) -> Seq<Package> {
        self@.packages
    }

    /// For each node, the edges to its direct dependencies. The edge that was
    /// added last comes first.
    pub open spec fn edges(&self) -> Seq<Seq<Edge>> {
        self@.edges
    }

    /// The number of edges.
    pub open spec fn edge_count(&self) -> nat {
        self@.edge_count
    }

    /// For each node, its direct dependencies, in the order of its edges.
    pub open spec fn successors(&self) -> Seq<Seq<NodeIndex>> {
        successors_of(self.edges())
    }

    /// The direct dependencies of `node`, in the order of its edges; none
    /// where the graph has no such node.
    pub open spec fn spec_neighbors(&self, node: NodeIndex) -> Seq<NodeIndex> {
        edges_from(self.edges(), node).map_values(|edge: Edge| edge.target)
    }

    /// What every graph that this module hands out satisfies: it has a node,
    /// no more nodes or edges than a `u32` can count, a list of edges for
    /// each node, and no edge that leads out of the graph.
    pub open spec fn wf(&self) -> bool {
        &&& 1 <= self.packages().len() <= u32::MAX
        &&& self.edge_count() <= u32::MAX
        &&& self.edges().len() == self.packages().len()
        &&& forall|node: int, i: int|
            0 <= node < self.edges().len() && 0 <= i < self.edges()[node].len() ==> (
            #[trigger] self.edges()[node][i]).target < self.packages().len()
    }

    /// The graph that holds `root` and nothing else.
    pub fn new(root: Package) -> (graph: Self)
        ensures
            graph.wf(),
            graph.packages() == seq![root],
            graph.edges() == seq![Seq::<Edge>::empty()],
            graph.edge_count() == 0,
    {
        let mut inner = graph_new();
        graph_try_add_node(&mut inner, root);
        PackageGraph { inner }
    }

    /// The number of nodes.
    pub fn node_count(&self) -> (count: usize)
        ensures
            count == self.packages().len(),
    {
        graph_node_count(&self.inner)
    }

    /// Adds `package` as a new node without edges and returns its index: the
    /// number of nodes before the call. A graph that already has `u32::MAX`
    /// nodes stays as it is.
    pub fn add_package(&mut self, package: Package) -> (added: Option<NodeIndex>)
        requires
            old(self).wf(),
        ensures
            final(self).wf(),
            final(self).edge_count() == old(self).edge_count(),
            match added {
                Some(node) => {
                    &&& old(self).packages().len() < u32::MAX
                    &&& node == old(self).packages().len()
                    &&& final(self).packages() == old(self).packages().push(package)
                    &&& final(self).edges() == old(self).edges().push(Seq::empty())
                },
                None => {
                    &&& old(self).packages().len() == u32::MAX
                    &&& final(self).packages() == old(self).packages()
                    &&& final(self).edges() == old(self).edges()
                },
            },
    {
        graph_try_add_node(&mut self.inner, package)
    }

    /// Adds an edge from `from` to its direct dependency `to`, which `from`
    /// calls `name`, in front of the edges that already leave `from`, and
    /// says whether it did. Nothing is added where one of the two nodes does
    /// not exist, or where the graph already has `u32::MAX` edges.
    pub fn add_dependency(&mut self, from: NodeIndex, to: NodeIndex, name: PackageName) -> (added:
        bool)
        requires
            old(self).wf(),
        ensures
            final(self).wf(),
            final(self).packages() == old(self).packages(),
            added <==> from < old(self).packages().len() && to < old(self).packages().len()
                && old(self).edge_count() < u32::MAX,
            added ==> {
                &&& final(self).edge_count() == old(self).edge_count() + 1
                &&& final(self).edges() == old(self).edges().update(
                    from as int,
                    seq![Edge { target: to, name }] + old(self).edges()[from as int],
                )
            },
            !added ==> {
                &&& final(self).edge_count() == old(self).edge_count()
                &&& final(self).edges() == old(self).edges()
            },
    {
        graph_try_add_edge(&mut self.inner, from, to, name)
    }

    /// The package at `node`, if the graph has such a node.
    pub fn package(&self, node: NodeIndex) -> (package: Option<&Package>)
        ensures
            match package {
                Some(found) => node < self.packages().len() && *found == self.packages()[node as int],
                None => node >= self.packages().len(),
            },
    {
        graph_node_weight(&self.inner, node)
    }

    /// The edges from `node` to its direct dependencies, newest first; none
    /// where the graph has no such node.
    pub fn dependencies(&self, node: NodeIndex) -> (edges: Vec<Edge>)
        ensures
            edges@ == edges_from(self.edges(), node),
    {
        graph_edges(&self.inner, node)
    }

    /// The direct dependencies of `node`, in the order of its edges; none
    /// where the graph has no such node.
    pub fn neighbors(&self, node: NodeIndex) -> (neighbors: Vec<NodeIndex>)
        ensures
            neighbors@ == self.spec_neighbors(node),
    {
        graph_neighbors(&self.inner, node)
    }

    /// All nodes in an order in which each comes before its direct
    /// dependencies, or, where the graph has a cycle, a node on one.
    pub fn toposort(&self) -> (sorted: Result<Vec<NodeIndex>, NodeIndex>)
        requires
            self.wf(),
        ensures
            match sorted {
                Ok(order) => {
                    &&& !has_cycle(self.successors())
                    &&& is_topological_order(self.successors(), order@)
                    &&& order@ == toposort_order(self.successors())
                },
                Err(node) => on_cycle(self.successors(), node),
            },
    {
        let sorted = graph_toposort(&self.inner);
        proof {
            if sorted is Ok {
                lemma_ordered_graph_has_no_cycle(self.successors(), sorted->Ok_0@);
            }
        }
        sorted
    }
}

} // verus!
