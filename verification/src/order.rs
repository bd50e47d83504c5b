//! Walks, cycles and topological orders of a directed graph that is given by
//! the successors of each of its nodes.

use vstd::prelude::*;

verus! {

/// Whether the graph has an edge from `from` to `to`.
pub open spec fn has_edge(successors: Seq<Seq<u32>>, from: u32, to: u32) -> bool {
    from < successors.len() && to < successors.len() && successors[from as int].contains(to)
}

/// Whether `walk` names at least one node and follows an edge of the graph at
/// every step.
pub open spec fn is_walk(successors: Seq<Seq<u32>>, walk: Seq<u32>) -> bool {
    &&& walk.len() >= 1
    &&& forall|i: int| 0 <= i < walk.len() ==> (#[trigger] walk[i]) < successors.len()
    &&& forall|i: int|
        0 <= i < walk.len() - 1 ==> has_edge(successors, #[trigger] walk[i], walk[i + 1])
}

/// Whether some walk of at least one step leads from `node` back to `node`.
pub open spec fn on_cycle(successors: Seq<Seq<u32>>, node: u32) -> bool {
    exists|walk: Seq<u32>|
        #[trigger] is_walk(successors, walk) && walk.len() >= 2 && walk[0] == node && walk.last()
            == node
}

/// Whether the graph has a cycle. A node with an edge to itself is one.
pub open spec fn has_cycle(successors: Seq<Seq<u32>>) -> bool {
    exists|node: u32| #[trigger] on_cycle(successors, node)
}

/// Whether `order` lists every node of the graph once, each before all of its
/// successors.
pub open spec fn is_topological_order(successors: Seq<Seq<u32>>, order: Seq<u32>) -> bool {
    &&& order.len() == successors.len()
    &&& order.no_duplicates()
    &&& forall|i: int| 0 <= i < order.len() ==> (#[trigger] order[i]) < successors.len()
    &&& forall|i: int, j: int|
        0 <= i < order.len() && 0 <= j < order.len() && has_edge(
            successors,
            #[trigger] order[i],
            #[trigger] order[j],
        ) ==> i < j
}

/// Whether `node` stands in `order` somewhere behind the place `i`.
pub open spec fn stands_behind(order: Seq<u32>, i: int, node: u32) -> bool {
    exists|j: int| i < j < order.len() && order[j] == node
}

/// An order that lists as many nodes as the graph has, none twice, lists
/// every node of the graph.
pub proof fn lemma_order_lists_every_node(successors: Seq<Seq<u32>>, order: Seq<u32>, node: u32)
    requires
        is_topological_order(successors, order),
        successors.len() <= u32::MAX,
        node < successors.len(),
    ensures
        exists|j: int| 0 <= j < order.len() && order[j] == node,
{
    // The listed nodes are as many as all nodes, and are among them.
    let listed = order.to_set();
    let all = Set::new(|n: u32| n < successors.len());
    order.unique_seq_to_set();
    lemma_nodes_below(successors.len());
    vstd::set_lib::lemma_subset_equality(listed, all);
    assert(all.contains(node));
}

/// Along a walk, the place in the order only rises: the node that the walk
/// reaches after `steps` steps stands behind the node it starts from.
proof fn lemma_walk_moves_back(
    successors: Seq<Seq<u32>>,
    order: Seq<u32>,
    walk: Seq<u32>,
    steps: int,
)
    requires
        is_topological_order(successors, order),
        successors.len() <= u32::MAX,
        is_walk(successors, walk),
        1 <= steps < walk.len(),
    ensures
        exists|i: int, j: int|
            0 <= i < j < order.len() && #[trigger] order[i] == walk[0] && #[trigger] order[j]
                == walk[steps],
    decreases steps,
{
    // The last step is an edge, so it leads to a later place in the order.
    lemma_order_lists_every_node(successors, order, walk[steps - 1]);
    lemma_order_lists_every_node(successors, order, walk[steps]);
    if steps > 1 {
        lemma_walk_moves_back(successors, order, walk, steps - 1);
    }
}

/// A graph whose nodes can be put in an order in which each stands before
/// its successors has no cycle.
pub proof fn lemma_ordered_graph_has_no_cycle(successors: Seq<Seq<u32>>, order: Seq<u32>)
    requires
        is_topological_order(successors, order),
        successors.len() <= u32::MAX,
    ensures
        !has_cycle(successors),
{
    assert forall|node: u32| !#[trigger] on_cycle(successors, node) by {
        assert forall|walk: Seq<u32>| #[trigger]
            is_walk(successors, walk) && walk.len() >= 2 implies !(walk[0] == node && walk.last()
            == node) by {
            lemma_walk_moves_back(successors, order, walk, walk.len() - 1);
        }
    }
}

/// There are `count` node indices below `count`, where an index can be that
/// large.
proof fn lemma_nodes_below(count: nat)
    requires
        count <= u32::MAX + 1,
    ensures
        Set::new(|n: u32| n < count).finite(),
        Set::new(|n: u32| n < count).len() == count,
    decreases count,
{
    let below = Set::new(|n: u32| n < count);
    if count == 0 {
        assert(below =~= Set::<u32>::empty());
    } else {
        let fewer = Set::new(|n: u32| n < count - 1);
        lemma_nodes_below((count - 1) as nat);
        let top = (count - 1) as u32;
        assert(below =~= fewer.insert(top));
    }
}

} // verus!
