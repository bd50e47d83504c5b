//! What holds of resolution on every graph.

use crate::graph::{edges_from, Edge, NodeIndex, PackageGraph};
use crate::linkage::{LinkageError, LinkageResult, LinkageTable, TableView};
use crate::order::has_cycle;
use crate::package::OriginalID;
use crate::resolve::{gathered, TablesView};
use crate::table::lemma_entries_of_empty;
use vstd::prelude::*;

verus! {

/// Whether every finished table is empty.
pub open spec fn all_empty(tables: TablesView) -> bool {
    forall|node: NodeIndex| #[trigger]
        tables.contains_key(node) ==> tables[node] == Map::<OriginalID, NodeIndex>::empty()
}

impl PackageGraph {
    /// Whether, in `env`, every package declares the environment and every
    /// dependency that a package marks as an override is published.
    pub open spec fn overrides_are_published(&self, env: Seq<char>) -> bool {
        forall|node: NodeIndex|
            node < self.packages().len() ==> #[trigger] self.spec_overrides(env, node) is Ok
    }

    /// Empty tables hand out nothing, so a node whose direct dependencies
    /// have empty tables gathers nothing.
    pub proof fn lemma_gathers_nothing(targets: Seq<NodeIndex>, tables: TablesView)
        requires
            all_empty(tables),
        ensures
            gathered(targets, tables) == Seq::<(OriginalID, NodeIndex)>::empty(),
        decreases targets.len(),
    {
        lemma_entries_of_empty();
        if targets.len() > 0 {
            Self::lemma_gathers_nothing(targets.drop_last(), tables);
        }
    }

    /// A node never enters a table: each table is merged from the tables of
    /// the direct dependencies alone, so every finished table is empty.
    pub proof fn lemma_finished_tables_are_empty(
        &self,
        env: Seq<char>,
        address_env: Seq<char>,
        order: Seq<NodeIndex>,
        done: nat,
    )
        ensures
            self.tables_after(env, address_env, order, done) matches Ok(tables) ==> all_empty(
                tables,
            ),
        decreases done,
    {
        if done > 0 {
            self.lemma_finished_tables_are_empty(env, address_env, order, (done - 1) as nat);
            if let Ok(tables) = self.tables_after(env, address_env, order, (done - 1) as nat) {
                let node = order[order.len() - done];
                Self::lemma_gathers_nothing(self.spec_neighbors(node), tables);
            }
        }
    }

    /// The visit of the last `done` nodes succeeds exactly when the
    /// overrides of each of them can be read, and then it has a table for
    /// each of them.
    pub proof fn lemma_visit_succeeds(
        &self,
        env: Seq<char>,
        address_env: Seq<char>,
        order: Seq<NodeIndex>,
        done: nat,
    )
        requires
            done <= order.len(),
        ensures
            self.tables_after(env, address_env, order, done) is Ok <==> forall|i: int|
                order.len() - done <= i < order.len() ==> #[trigger] self.spec_overrides(
                    env,
                    order[i],
                ) is Ok,
            self.tables_after(env, address_env, order, done) matches Ok(tables) ==> forall|i: int|
                order.len() - done <= i < order.len() ==> tables.contains_key(#[trigger] order[i]),
        decreases done,
    {
        if done > 0 {
            self.lemma_visit_succeeds(env, address_env, order, (done - 1) as nat);
            self.lemma_finished_tables_are_empty(env, address_env, order, (done - 1) as nat);
            if let Ok(tables) = self.tables_after(env, address_env, order, (done - 1) as nat) {
                let node = order[order.len() - done];
                Self::lemma_gathers_nothing(self.spec_neighbors(node), tables);
            }
        }
    }

    /// Resolution ends on every order, and it returns a table exactly when
    /// the overrides of every listed node can be read. That table is empty.
    pub proof fn lemma_resolution_succeeds(
        &self,
        env: Seq<char>,
        address_env: Seq<char>,
        order: Seq<NodeIndex>,
    )
        requires
            order.len() > 0,
        ensures
            self.resolution(env, address_env, order) is Ok <==> forall|i: int|
                0 <= i < order.len() ==> #[trigger] self.spec_overrides(env, order[i]) is Ok,
            self.resolution(env, address_env, order) matches Ok(table) ==> table == Map::<
                OriginalID,
                NodeIndex,
            >::empty(),
    {
        self.lemma_visit_succeeds(env, address_env, order, order.len());
        self.lemma_finished_tables_are_empty(env, address_env, order, order.len());
    }

    /// Where resolution fails on an order, it fails as the overrides of one
    /// of the listed nodes do: no node is ever found to conflict with
    /// another.
    pub proof fn lemma_resolution_fails_on_overrides(
        &self,
        env: Seq<char>,
        address_env: Seq<char>,
        order: Seq<NodeIndex>,
        done: nat,
    )
        requires
            done <= order.len(),
        ensures
            self.tables_after(env, address_env, order, done) matches Err(error) ==> exists|i: int|
                order.len() - done <= i < order.len() && #[trigger] self.spec_overrides(
                    env,
                    order[i],
                ) == Err::<TableView, LinkageError>(error),
        decreases done,
    {
        if done > 0 {
            self.lemma_resolution_fails_on_overrides(env, address_env, order, (done - 1) as nat);
            self.lemma_finished_tables_are_empty(env, address_env, order, (done - 1) as nat);
            if let Ok(tables) = self.tables_after(env, address_env, order, (done - 1) as nat) {
                let node = order[order.len() - done];
                Self::lemma_gathers_nothing(self.spec_neighbors(node), tables);
            }
        }
    }

    /// Two results that resolution may give on one graph, for the same two
    /// environments, are both tables or both errors, and the tables hold the
    /// same entries. Without a cycle the errors are equal as well.
    pub proof fn lemma_resolution_is_repeatable(
        &self,
        env: Seq<char>,
        address_env: Seq<char>,
        first: LinkageResult<LinkageTable>,
        second: LinkageResult<LinkageTable>,
    )
        requires
            self.linkage_returns(env, address_env, first),
            self.linkage_returns(env, address_env, second),
        ensures
            first is Ok <==> second is Ok,
            first is Ok ==> first->Ok_0@ == second->Ok_0@,
            !has_cycle(self.successors()) ==> crate::linkage::outcome(first)
                == crate::linkage::outcome(second),
            has_cycle(self.successors()) ==> first is Err && first->Err_0 is CyclicDependencies
                && second->Err_0 is CyclicDependencies,
    {
    }

    /// A node without direct dependencies whose package declares `env` has
    /// an empty table, whatever tables are finished.
    pub proof fn lemma_leaf_table_is_empty(
        &self,
        env: Seq<char>,
        address_env: Seq<char>,
        node: NodeIndex,
        tables: TablesView,
    )
        requires
            self.packages()[node as int].declares(env),
            edges_from(self.edges(), node).len() == 0,
        ensures
            self.node_table(env, address_env, node, tables) == Ok::<TableView, LinkageError>(
                Map::empty(),
            ),
    {
    }

    /// Whether `self` and `other` have the same edges and publish the same
    /// packages in `env` and in `address_env`, and the package of `node`
    /// declares `env`, and marks its dependencies as overrides there, in
    /// both alike.
    pub open spec fn agrees_at(
        &self,
        other: &PackageGraph,
        env: Seq<char>,
        address_env: Seq<char>,
        node: NodeIndex,
    ) -> bool {
        &&& self.edges() == other.edges()
        &&& forall|any: NodeIndex| #[trigger]
            self.publication_of(any, env) == other.publication_of(any, env)
        &&& forall|any: NodeIndex| #[trigger]
            self.publication_of(any, address_env) == other.publication_of(any, address_env)
        &&& self.packages()[node as int].declares(env) == other.packages()[node as int].declares(
            env,
        )
        &&& forall|name: Seq<char>| #[trigger]
            self.packages()[node as int].overrides_dependency(env, name)
                == other.packages()[node as int].overrides_dependency(env, name)
    }

    /// The overrides that a node declares on some edges are the same in two
    /// graphs that agree at the node.
    pub proof fn lemma_same_overrides(
        &self,
        other: &PackageGraph,
        env: Seq<char>,
        address_env: Seq<char>,
        node: NodeIndex,
        edges: Seq<Edge>,
    )
        requires
            self.agrees_at(other, env, address_env, node),
        ensures
            self.overrides_among(env, node, edges) == other.overrides_among(env, node, edges),
        decreases edges.len(),
    {
        if edges.len() > 0 {
            self.lemma_same_overrides(other, env, address_env, node, edges.drop_last());
        }
    }

    /// Merging the same entries under the same overrides gives the same in
    /// two graphs that publish the same packages in `address_env`.
    pub proof fn lemma_same_merge(
        &self,
        other: &PackageGraph,
        address_env: Seq<char>,
        root: NodeIndex,
        overrides: TableView,
        entries: Seq<(OriginalID, NodeIndex)>,
    )
        requires
            forall|any: NodeIndex| #[trigger]
                self.publication_of(any, address_env) == other.publication_of(any, address_env),
        ensures
            self.merge(address_env, root, overrides, entries) == other.merge(
                address_env,
                root,
                overrides,
                entries,
            ),
        decreases entries.len(),
    {
        if entries.len() > 0 {
            self.lemma_same_merge(other, address_env, root, overrides, entries.drop_last());
        }
    }

    /// An override binds the node that declares it and no other: the table
    /// of a node is the same in two graphs that agree at that node, whatever
    /// their other packages mark as overrides.
    pub proof fn lemma_overrides_are_local(
        &self,
        other: &PackageGraph,
        env: Seq<char>,
        address_env: Seq<char>,
        node: NodeIndex,
        tables: TablesView,
    )
        requires
            self.agrees_at(other, env, address_env, node),
        ensures
            self.node_table(env, address_env, node, tables) == other.node_table(
                env,
                address_env,
                node,
                tables,
            ),
    {
        self.lemma_same_overrides(other, env, address_env, node, edges_from(self.edges(), node));
        if let Ok(overrides) = self.spec_overrides(env, node) {
            self.lemma_same_merge(
                other,
                address_env,
                node,
                overrides,
                gathered(self.spec_neighbors(node), tables),
            );
        }
    }
}

} // verus!
