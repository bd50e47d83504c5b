//! Resolution: the linkage table of every node, made from the tables of its
//! direct dependencies, dependencies first.

use crate::graph::{toposort_order, NodeIndex, PackageGraph};
use crate::linkage::{outcome, LinkageError, LinkageResult, LinkageTable, TableView};
use crate::order::{has_cycle, is_topological_order, on_cycle, stands_behind};
use crate::package::{EnvironmentName, OriginalID};
use crate::table::{entries, table_entries};
use std::collections::BTreeMap;
use vstd::prelude::*;

verus! {

/// The finished tables, by node, as maps.
pub type TablesView = Map<NodeIndex, TableView>;

/// Finished tables as maps.
pub open spec fn tables_view(linkages: Map<NodeIndex, LinkageTable>) -> TablesView {
    linkages.map_values(|table: LinkageTable| table@)
}

/// What the finished table of `node` hands out: its entries by rising
/// identity; nothing where `node` has no finished table.
pub open spec fn finished_entries(tables: TablesView, node: NodeIndex) -> Seq<
    (OriginalID, NodeIndex),
> {
    if tables.contains_key(node) {
        entries(tables[node])
    } else {
        Seq::empty()
    }
}

/// What the finished tables of `targets` hand out, one target after the
/// other.
pub open spec fn gathered(targets: Seq<NodeIndex>, tables: TablesView) -> Seq<
    (OriginalID, NodeIndex),
>
    decreases targets.len(),
{
    if targets.len() == 0 {
        Seq::empty()
    } else {
        gathered(targets.drop_last(), tables) + finished_entries(tables, targets.last())
    }
}

impl PackageGraph {
    /// The table of `node`, given the finished tables of its direct
    /// dependencies: what those hand out, in the order of the edges of
    /// `node`, merged under the overrides that `node` declares in `env`.
    pub open spec fn node_table(
        &self,
        env: Seq<char>,
        address_env: Seq<char>,
        node: NodeIndex,
        tables: TablesView,
    ) -> LinkageResult<TableView> {
        match self.spec_overrides(env, node) {
            Err(error) => Err(error),
            Ok(overrides) => self.merge(
                address_env,
                node,
                overrides,
                gathered(self.spec_neighbors(node), tables),
            ),
        }
    }

    /// The finished tables once the last `done` nodes of `order` have been
    /// visited, last node first, or the first error on the way.
    pub open spec fn tables_after(
        &self,
        env: Seq<char>,
        address_env: Seq<char>,
        order: Seq<NodeIndex>,
        done: nat,
    ) -> LinkageResult<TablesView>
        decreases done,
    {
        if done == 0 {
            Ok(Map::empty())
        } else {
            match self.tables_after(env, address_env, order, (done - 1) as nat) {
                Err(error) => Err(error),
                Ok(tables) => {
                    let node = order[order.len() - done];
                    match self.node_table(env, address_env, node, tables) {
                        Err(error) => Err(error),
                        Ok(table) => Ok(tables.insert(node, table)),
                    }
                },
            }
        }
    }

    /// The table of the first node of `order`, once every node has been
    /// visited in the reverse of `order`, or the first error on the way.
    pub open spec fn resolution(
        &self,
        env: Seq<char>,
        address_env: Seq<char>,
        order: Seq<NodeIndex>,
    ) -> LinkageResult<TableView> {
        match self.tables_after(env, address_env, order, order.len()) {
            Err(error) => Err(error),
            Ok(tables) => Ok(tables[order[0]]),
        }
    }

    /// What resolution gives on a graph without a cycle, where overrides are
    /// read in `env` and addresses are compared in `address_env`.
    pub open spec fn spec_linkage(&self, env: Seq<char>, address_env: Seq<char>) -> LinkageResult<
        TableView,
    > {
        self.resolution(env, address_env, toposort_order(self.successors()))
    }

    /// What resolution owes: on a graph with a cycle the error that names a
    /// node on a cycle, on any other graph what `spec_linkage` says.
    pub open spec fn linkage_returns(
        &self,
        env: Seq<char>,
        address_env: Seq<char>,
        result: LinkageResult<LinkageTable>,
    ) -> bool {
        if has_cycle(self.successors()) {
            result matches Err(LinkageError::CyclicDependencies(node)) && on_cycle(
                self.successors(),
                node,
            )
        } else {
            outcome(result) == self.spec_linkage(env, address_env)
        }
    }

    /// Whether every direct dependency of `node` has a finished table.
    pub open spec fn dependencies_finished(
        &self,
        node: NodeIndex,
        linkages: Map<NodeIndex, LinkageTable>,
    ) -> bool {
        forall|i: int|
            0 <= i < self.spec_neighbors(node).len() ==> linkages.contains_key(
                #[trigger] self.spec_neighbors(node)[i],
            )
    }

    /// Gathers what the finished tables of the direct dependencies of `node`
    /// hand out, in the order of the edges of `node`.
    pub fn gather(&self, node: NodeIndex, linkages: &BTreeMap<NodeIndex, LinkageTable>) -> (found:
        Vec<(OriginalID, NodeIndex)>)
        requires
            self.dependencies_finished(node, linkages@),
        ensures
            found@ == gathered(self.spec_neighbors(node), tables_view(linkages@)),
    {
        broadcast use vstd::std_specs::btree::group_btree_axioms;

        let neighbors = self.neighbors(node);
        let mut found: Vec<(OriginalID, NodeIndex)> = Vec::new();
        let mut i: usize = 0;
        while i < neighbors.len()
            invariant
                i <= neighbors.len(),
                neighbors@ == self.spec_neighbors(node),
                self.dependencies_finished(node, linkages@),
                found@ == gathered(neighbors@.take(i as int), tables_view(linkages@)),
            decreases neighbors.len() - i,
        {
            let ghost before = found@;
            let table = linkages.get(&neighbors[i]).unwrap();
            let listing = table_entries(table);
            proof {
                assert(neighbors@.take(i + 1).drop_last() == neighbors@.take(i as int));
            }
            let mut j: usize = 0;
            while j < listing.len()
                invariant
                    j <= listing.len(),
                    found@ == before + listing@.take(j as int),
                decreases listing.len() - j,
            {
                found.push(listing[j]);
                j = j + 1;
            }
            i = i + 1;
        }
        assert(neighbors@.take(i as int) == neighbors@);
        found
    }

    /// Makes the table of `node` from the finished tables of its direct
    /// dependencies.
    pub fn link_node(
        &self,
        env: &EnvironmentName,
        address_env: &EnvironmentName,
        node: NodeIndex,
        linkages: &BTreeMap<NodeIndex, LinkageTable>,
    ) -> (table: LinkageResult<LinkageTable>)
        requires
            self.wf(),
            node < self.packages().len(),
            self.dependencies_finished(node, linkages@),
        ensures
            outcome(table) == self.node_table(env@, address_env@, node, tables_view(linkages@)),
    {
        let transitive_deps = self.gather(node, linkages);
        let overrides = match self.overrides(env, node) {
            Ok(overrides) => overrides,
            Err(error) => {
                return Err(error);
            },
        };
        self.merge_entries(address_env, node, &overrides, &transitive_deps)
    }

    /// Visits the nodes in the reverse of `order`, which lists each node
    /// before its direct dependencies, makes the table of each from the
    /// finished tables of its direct dependencies, and returns the table of
    /// the first node of `order`. The first error ends the visit.
    pub fn resolve_in_order(
        &self,
        env: &EnvironmentName,
        address_env: &EnvironmentName,
        order: &Vec<NodeIndex>,
    ) -> (table: LinkageResult<LinkageTable>)
        requires
            self.wf(),
            is_topological_order(self.successors(), order@),
        ensures
            outcome(table) == self.resolution(env@, address_env@, order@),
    {
        broadcast use vstd::std_specs::btree::group_btree_axioms;

        let mut linkages: BTreeMap<NodeIndex, LinkageTable> = BTreeMap::new();
        let mut i: usize = order.len();
        assert(tables_view(linkages@) == Map::<NodeIndex, TableView>::empty());
        while i > 0
            invariant
                self.wf(),
                is_topological_order(self.successors(), order@),
                i <= order.len(),
                self.tables_after(env@, address_env@, order@, (order.len() - i) as nat) == Ok::<
                    TablesView,
                    LinkageError,
                >(tables_view(linkages@)),
                forall|j: int| i <= j < order.len() ==> linkages@.contains_key(#[trigger] order@[j]),
            decreases i,
        {
            i = i - 1;
            let node = order[i];
            proof {
                self.lemma_later_nodes_are_dependencies(order@, i as int);
            }
            let ghost before = linkages@;
            match self.link_node(env, address_env, node, &linkages) {
                Ok(table) => {
                    linkages.insert(node, table);
                    assert(tables_view(linkages@) == tables_view(before).insert(node, table@));
                },
                Err(error) => {
                    proof {
                        self.lemma_tables_error_stays(
                            env@,
                            address_env@,
                            order@,
                            (order.len() - i) as nat,
                            order.len() as nat,
                        );
                    }
                    return Err(error);
                },
            }
        }
        let table = linkages.remove(&order[0]).unwrap();
        Ok(table)
    }

    /// The linkage table of the root of the graph, where overrides are read
    /// in `env` and the addresses of conflicting nodes are compared in
    /// `address_env`. The root is the node that comes first when each node is
    /// put before its direct dependencies.
    ///
    /// A graph with a cycle is refused. On any other graph the overrides of
    /// every node are read, dependencies first, and the first that cannot be
    /// read is the error. A table is made of the tables of the direct
    /// dependencies alone and a node does not stand in its own table, so no
    /// table comes to hold an entry: the table returned is empty.
    pub fn linkage_with(&self, env: &EnvironmentName, address_env: &EnvironmentName) -> (table:
        LinkageResult<LinkageTable>)
        requires
            self.wf(),
        ensures
            self.linkage_returns(env@, address_env@, table),
            table is Ok <==> !has_cycle(self.successors()) && self.overrides_are_published(env@),
            table matches Ok(found) ==> found@ == Map::<OriginalID, NodeIndex>::empty(),
            table matches Err(LinkageError::CyclicDependencies(_)) <==> has_cycle(
                self.successors(),
            ),
            table matches Err(error) ==> has_cycle(self.successors()) || exists|node: NodeIndex|
                node < self.packages().len() && #[trigger] self.spec_overrides(env@, node) == Err::<
                    TableView,
                    LinkageError,
                >(error),
    {
        match self.toposort() {
            Ok(sorted) => {
                proof {
                    self.lemma_order_decides(env@, address_env@, sorted@);
                }
                self.resolve_in_order(env, address_env, &sorted)
            },
            Err(node) => Err(LinkageError::CyclicDependencies(node)),
        }
    }

    /// The linkage table of the root of the graph in `env`: overrides are
    /// read, and the addresses of conflicting nodes compared, in `env`.
    pub fn linkage(&self, env: &EnvironmentName) -> (table: LinkageResult<LinkageTable>)
        requires
            self.wf(),
        ensures
            self.linkage_returns(env@, env@, table),
            table is Ok <==> !has_cycle(self.successors()) && self.overrides_are_published(env@),
            table matches Ok(found) ==> found@ == Map::<OriginalID, NodeIndex>::empty(),
            table matches Err(LinkageError::CyclicDependencies(_)) <==> has_cycle(
                self.successors(),
            ),
            table matches Err(error) ==> has_cycle(self.successors()) || exists|node: NodeIndex|
                node < self.packages().len() && #[trigger] self.spec_overrides(env@, node) == Err::<
                    TableView,
                    LinkageError,
                >(error),
    {
        self.linkage_with(env, env)
    }

    /// On an order that puts each node before its direct dependencies,
    /// resolution returns a table exactly when the overrides of every node of
    /// the graph can be read, and it never blames a cycle.
    pub proof fn lemma_order_decides(
        &self,
        env: Seq<char>,
        address_env: Seq<char>,
        order: Seq<NodeIndex>,
    )
        requires
            self.wf(),
            is_topological_order(self.successors(), order),
        ensures
            self.resolution(env, address_env, order) is Ok <==> self.overrides_are_published(env),
            self.resolution(env, address_env, order) matches Ok(found) ==> found == Map::<
                OriginalID,
                NodeIndex,
            >::empty(),
            !(self.resolution(env, address_env, order) matches Err(
                LinkageError::CyclicDependencies(_),
            )),
            self.resolution(env, address_env, order) matches Err(error) ==> exists|node: NodeIndex|
                node < self.packages().len() && #[trigger] self.spec_overrides(env, node) == Err::<
                    TableView,
                    LinkageError,
                >(error),
    {
        self.lemma_resolution_succeeds(env, address_env, order);
        if self.resolution(env, address_env, order) is Ok {
            assert forall|node: NodeIndex| node < self.packages().len() implies #[trigger] self.spec_overrides(
                env,
                node,
            ) is Ok by {
                crate::order::lemma_order_lists_every_node(self.successors(), order, node);
            }
        }
        if let Err(error) = self.resolution(env, address_env, order) {
            self.lemma_resolution_fails_on_overrides(env, address_env, order, order.len());
            let i = choose|i: int|
                0 <= i < order.len() && #[trigger] self.spec_overrides(env, order[i]) == Err::<
                    TableView,
                    LinkageError,
                >(error);
            self.lemma_overrides_decide(
                env,
                order[i],
                crate::graph::edges_from(self.edges(), order[i]),
            );
        }
    }

    /// In an order that puts each node before its direct dependencies, the
    /// direct dependencies of the node at `i` all stand behind `i`.
    pub proof fn lemma_later_nodes_are_dependencies(&self, order: Seq<NodeIndex>, i: int)
        requires
            self.wf(),
            is_topological_order(self.successors(), order),
            0 <= i < order.len(),
        ensures
            order[i] < self.packages().len(),
            forall|k: int|
                0 <= k < self.spec_neighbors(order[i]).len() ==> stands_behind(
                    order,
                    i,
                    #[trigger] self.spec_neighbors(order[i])[k],
                ),
    {
        let node = order[i];
        assert forall|k: int| 0 <= k < self.spec_neighbors(node).len() implies stands_behind(
            order,
            i,
            #[trigger] self.spec_neighbors(node)[k],
        ) by {
            // The dependency is listed, and an edge leads only to what is
            // listed later.
            let target = self.spec_neighbors(node)[k];
            crate::order::lemma_order_lists_every_node(self.successors(), order, target);
        }
    }

    /// Once the visit of the last `done` nodes has failed, the visit of more
    /// nodes fails in the same way.
    pub proof fn lemma_tables_error_stays(
        &self,
        env: Seq<char>,
        address_env: Seq<char>,
        order: Seq<NodeIndex>,
        done: nat,
        more: nat,
    )
        requires
            done <= more,
            self.tables_after(env, address_env, order, done) is Err,
        ensures
            self.tables_after(env, address_env, order, more) == self.tables_after(
                env,
                address_env,
                order,
                done,
            ),
        decreases more,
    {
        if done < more {
            self.lemma_tables_error_stays(env, address_env, order, done, (more - 1) as nat);
        }
    }
}

} // verus!
