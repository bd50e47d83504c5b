//! Linkage tables: for each node of a dependency graph, which node stands
//! for each package identity among its dependencies.

use crate::graph::{edges_from, Edge, NodeIndex, PackageGraph};
use crate::keyed::find;
use crate::package::{EnvironmentName, OriginalID, Publication, PublishedAddress};
use std::collections::BTreeMap;
use vstd::prelude::*;

verus! {

/// Why no linkage table could be made.
#[derive(Clone, Copy, Debug, PartialEq, Eq, Structural)]
pub enum LinkageError {
    /// While the table of `root` was made, two different nodes were found for
    /// one identity, both published at the same address.
    InconsistentLinkage { root: NodeIndex, node1: NodeIndex, node2: NodeIndex },
    /// While the table of `root` was made, two nodes published at different
    /// addresses were found for one identity, and `root` overrides neither.
    MultipleImplementations { root: NodeIndex, node1: NodeIndex, node2: NodeIndex },
    /// The graph has a cycle, and this node lies on one.
    CyclicDependencies(NodeIndex),
    /// The manifest of `node` does not declare the environment.
    UndeclaredEnvironment { node: NodeIndex },
    /// `node` marks its dependency `dependency` as an override, but that
    /// package is not published in the environment.
    UnpublishedOverride { node: NodeIndex, dependency: NodeIndex },
    /// While the table of `root` was made, `node` was one of two nodes found
    /// for one identity, and it is not published in the environment by which
    /// addresses are compared.
    UnpublishedConflict { root: NodeIndex, node: NodeIndex },
}

pub type LinkageResult<T> = Result<T, LinkageError>;

/// For each package identity, the node to use for it.
pub type LinkageTable = BTreeMap<OriginalID, NodeIndex>;

/// A linkage table as a map.
pub type TableView = Map<OriginalID, NodeIndex>;

/// What a function that makes a table returned, with the table as a map.
pub open spec fn outcome(result: LinkageResult<LinkageTable>) -> LinkageResult<TableView> {
    match result {
        Ok(table) => Ok(table@),
        Err(error) => Err(error),
    }
}

impl PackageGraph {
    /// The publication of `node` in `env`; none where the graph has no such
    /// node or its package is not published there.
    pub open spec fn publication_of(&self, node: NodeIndex, env: Seq<char>) -> Option<
        Publication,
    > {
        if node < self.packages().len() {
            self.packages()[node as int].spec_publication(env)
        } else {
            None
        }
    }

    /// The overrides that `node` declares on the edges `edges`, taken in
    /// their order: each edge whose name the package of `node` marks as an
    /// override in `env` maps the identity of its target to its target, a
    /// later edge before an earlier one with the same identity. The first
    /// such edge whose target is not published in `env` is an error.
    pub open spec fn overrides_among(
        &self,
        env: Seq<char>,
        node: NodeIndex,
        edges: Seq<Edge>,
    ) -> LinkageResult<TableView>
        decreases edges.len(),
    {
        if edges.len() == 0 {
            Ok(Map::empty())
        } else {
            match self.overrides_among(env, node, edges.drop_last()) {
                Err(error) => Err(error),
                Ok(found) => {
                    let edge = edges.last();
                    if self.packages()[node as int].overrides_dependency(env, edge.name@) {
                        match self.publication_of(edge.target, env) {
                            Some(publication) => Ok(
                                found.insert(publication.original_id, edge.target),
                            ),
                            None => Err(
                                LinkageError::UnpublishedOverride { node, dependency: edge.target },
                            ),
                        }
                    } else {
                        Ok(found)
                    }
                },
            }
        }
    }

    /// The overrides of `node` in `env`: those that it declares on its own
    /// edges. Its package has to declare `env`.
    pub open spec fn spec_overrides(&self, env: Seq<char>, node: NodeIndex) -> LinkageResult<
        TableView,
    > {
        if !self.packages()[node as int].declares(env) {
            Err(LinkageError::UndeclaredEnvironment { node })
        } else {
            self.overrides_among(env, node, edges_from(self.edges(), node))
        }
    }

    /// The error for two different nodes, `old` and `new`, that were found
    /// for one identity while the table of `root` was made, where `root` does
    /// not override that identity. Their addresses in `address_env` decide.
    pub open spec fn conflict(
        &self,
        address_env: Seq<char>,
        root: NodeIndex,
        old: NodeIndex,
        new: NodeIndex,
    ) -> LinkageError {
        match self.publication_of(old, address_env) {
            None => LinkageError::UnpublishedConflict { root, node: old },
            Some(old_publication) => match self.publication_of(new, address_env) {
                None => LinkageError::UnpublishedConflict { root, node: new },
                Some(new_publication) => if new_publication.published_at
                    == old_publication.published_at {
                    LinkageError::InconsistentLinkage { root, node1: old, node2: new }
                } else {
                    LinkageError::MultipleImplementations { root, node1: old, node2: new }
                },
            },
        }
    }

    /// `table` after `entry` was merged into it, for the node `root` with the
    /// overrides `overrides`.
    pub open spec fn merge_step(
        &self,
        address_env: Seq<char>,
        root: NodeIndex,
        overrides: TableView,
        table: TableView,
        entry: (OriginalID, NodeIndex),
    ) -> LinkageResult<TableView> {
        let (id, node) = entry;
        if !table.contains_key(id) {
            Ok(table.insert(id, node))
        } else if table[id] == node {
            Ok(table)
        } else if overrides.contains_key(id) {
            Ok(table.insert(id, overrides[id]))
        } else {
            Err(self.conflict(address_env, root, table[id], node))
        }
    }

    /// The table that merging `entries`, one after the other, into an empty
    /// table gives, or the first error on the way.
    pub open spec fn merge(
        &self,
        address_env: Seq<char>,
        root: NodeIndex,
        overrides: TableView,
        entries: Seq<(OriginalID, NodeIndex)>,
    ) -> LinkageResult<TableView>
        decreases entries.len(),
    {
        if entries.len() == 0 {
            Ok(Map::empty())
        } else {
            match self.merge(address_env, root, overrides, entries.drop_last()) {
                Err(error) => Err(error),
                Ok(table) => self.merge_step(address_env, root, overrides, table, entries.last()),
            }
        }
    }

    /// The overrides that `node` declares in `env`: a table from the identity
    /// of each dependency that its manifest marks as an override to that
    /// dependency.
    pub fn overrides(&self, env: &EnvironmentName, node: NodeIndex) -> (overrides: LinkageResult<
        LinkageTable,
    >)
        requires
            self.wf(),
            node < self.packages().len(),
        ensures
            outcome(overrides) == self.spec_overrides(env@, node),
    {
        broadcast use vstd::std_specs::btree::group_btree_axioms;

        let package = self.package(node).unwrap();
        let deps = match package.direct_deps(env) {
            Ok(deps) => deps,
            Err(_) => {
                return Err(LinkageError::UndeclaredEnvironment { node });
            },
        };
        let edges = self.dependencies(node);
        let mut found = LinkageTable::new();
        let mut i: usize = 0;
        while i < edges.len()
            invariant
                self.wf(),
                node < self.packages().len(),
                i <= edges.len(),
                edges@ == edges_from(self.edges(), node),
                self.packages()[node as int].declares(env@),
                deps@ == self.packages()[node as int].spec_direct_deps(env@),
                self.overrides_among(env@, node, edges@.take(i as int)) == Ok::<
                    TableView,
                    LinkageError,
                >(found@),
            decreases edges.len() - i,
        {
            let edge = &edges[i];
            proof {
                assert(edges@.take(i + 1).drop_last() == edges@.take(i as int));
            }
            let marked = match find(&deps, &edge.name) {
                Some(dep) => dep.is_override(),
                None => false,
            };
            if marked {
                let target = self.package(edge.target).unwrap();
                match target.publication(env) {
                    Some(publication) => {
                        found.insert(publication.original_id, edge.target);
                    },
                    None => {
                        proof {
                            self.lemma_overrides_error_stays(env@, node, edges@, i + 1);
                        }
                        return Err(
                            LinkageError::UnpublishedOverride { node, dependency: edge.target },
                        );
                    },
                }
            }
            i = i + 1;
        }
        assert(edges@.take(i as int) == edges@);
        Ok(found)
    }

    /// Merges `entries`, one after the other, into a new table for `root`.
    /// An identity that is new to the table maps to the node of its entry. An
    /// entry that names the node already there changes nothing. An entry that
    /// names another node puts the node of `overrides` there, where it has one
    /// for the identity; where it has none, the merge fails.
    pub fn merge_entries(
        &self,
        address_env: &EnvironmentName,
        root: NodeIndex,
        overrides: &LinkageTable,
        entries: &Vec<(OriginalID, NodeIndex)>,
    ) -> (table: LinkageResult<LinkageTable>)
        ensures
            outcome(table) == self.merge(address_env@, root, overrides@, entries@),
    {
        broadcast use vstd::std_specs::btree::group_btree_axioms;

        let mut linkage = LinkageTable::new();
        let mut i: usize = 0;
        while i < entries.len()
            invariant
                i <= entries.len(),
                self.merge(address_env@, root, overrides@, entries@.take(i as int)) == Ok::<
                    TableView,
                    LinkageError,
                >(linkage@),
            decreases entries.len() - i,
        {
            let (original_id, pkg) = entries[i];
            proof {
                assert(entries@.take(i + 1).drop_last() == entries@.take(i as int));
            }
            let ghost before = linkage@;
            if let Some(old_pkg) = linkage.insert(original_id, pkg) {
                if old_pkg == pkg {
                    assert(linkage@ == before);
                } else if let Some(forced) = overrides.get(&original_id) {
                    linkage.insert(original_id, *forced);
                    assert(linkage@ == before.insert(original_id, *forced));
                } else {
                    let error = self.conflict_between(address_env, root, old_pkg, pkg);
                    proof {
                        self.lemma_merge_error_stays(
                            address_env@,
                            root,
                            overrides@,
                            entries@,
                            i + 1,
                        );
                    }
                    return Err(error);
                }
            }
            i = i + 1;
        }
        assert(entries@.take(i as int) == entries@);
        Ok(linkage)
    }

    /// Names the error for two different nodes found for one identity that
    /// `root` does not override: with equal addresses in `address_env` the
    /// linkage is inconsistent, with different ones there are several
    /// implementations.
    pub fn conflict_between(
        &self,
        address_env: &EnvironmentName,
        root: NodeIndex,
        old: NodeIndex,
        new: NodeIndex,
    ) -> (error: LinkageError)
        ensures
            error == self.conflict(address_env@, root, old, new),
    {
        let old_addr = match self.published_at(old, address_env) {
            Some(address) => address,
            None => {
                return LinkageError::UnpublishedConflict { root, node: old };
            },
        };
        let new_addr = match self.published_at(new, address_env) {
            Some(address) => address,
            None => {
                return LinkageError::UnpublishedConflict { root, node: new };
            },
        };
        if new_addr == old_addr {
            LinkageError::InconsistentLinkage { root, node1: old, node2: new }
        } else {
            LinkageError::MultipleImplementations { root, node1: old, node2: new }
        }
    }

    /// The address at which `node` is published in `env`, if the graph has
    /// the node and its package is published there.
    pub fn published_at(&self, node: NodeIndex, env: &EnvironmentName) -> (address: Option<
        PublishedAddress,
    >)
        ensures
            address == match self.publication_of(node, env@) {
                Some(publication) => Some(publication.published_at),
                None => None,
            },
    {
        match self.package(node) {
            Some(package) => match package.publication(env) {
                Some(publication) => Some(publication.published_at),
                None => None,
            },
            None => None,
        }
    }

    /// Once the overrides of a prefix of the edges are an error, those of
    /// every longer prefix are the same error.
    pub proof fn lemma_overrides_error_stays(
        &self,
        env: Seq<char>,
        node: NodeIndex,
        edges: Seq<Edge>,
        i: int,
    )
        requires
            0 <= i <= edges.len(),
            self.overrides_among(env, node, edges.take(i)) is Err,
        ensures
            self.overrides_among(env, node, edges) == self.overrides_among(
                env,
                node,
                edges.take(i),
            ),
        decreases edges.len() - i,
    {
        if i < edges.len() {
            assert(edges.take(i + 1).drop_last() == edges.take(i));
            self.lemma_overrides_error_stays(env, node, edges, i + 1);
        } else {
            assert(edges.take(i) == edges);
        }
    }

    /// Once merging a prefix of the entries is an error, merging every
    /// longer prefix is the same error.
    pub proof fn lemma_merge_error_stays(
        &self,
        address_env: Seq<char>,
        root: NodeIndex,
        overrides: TableView,
        entries: Seq<(OriginalID, NodeIndex)>,
        i: int,
    )
        requires
            0 <= i <= entries.len(),
            self.merge(address_env, root, overrides, entries.take(i)) is Err,
        ensures
            self.merge(address_env, root, overrides, entries) == self.merge(
                address_env,
                root,
                overrides,
                entries.take(i),
            ),
        decreases entries.len() - i,
    {
        if i < entries.len() {
            assert(entries.take(i + 1).drop_last() == entries.take(i));
            self.lemma_merge_error_stays(address_env, root, overrides, entries, i + 1);
        } else {
            assert(entries.take(i) == entries);
        }
    }
}

} // verus!
