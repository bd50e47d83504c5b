//! What a merge decides, said without the order of the entries: which
//! entries can be merged at all, and what the table then holds.

use crate::graph::{Edge, NodeIndex, PackageGraph};
use crate::linkage::{LinkageError, TableView};
use crate::package::OriginalID;
use vstd::prelude::*;

verus! {

/// Whether `entries` has an entry at `i`, and that entry is for `id`.
pub open spec fn entry_for(entries: Seq<(OriginalID, NodeIndex)>, i: int, id: OriginalID) -> bool {
    0 <= i < entries.len() && entries[i].0 == id
}

/// Whether some entry is for `id`.
pub open spec fn named(entries: Seq<(OriginalID, NodeIndex)>, id: OriginalID) -> bool {
    exists|i: int| entry_for(entries, i, id)
}

/// Whether two entries for `id` name different nodes.
pub open spec fn disputed(entries: Seq<(OriginalID, NodeIndex)>, id: OriginalID) -> bool {
    exists|i: int, j: int|
        #![trigger entry_for(entries, i, id), entry_for(entries, j, id)]
        entry_for(entries, i, id) && entry_for(entries, j, id) && entries[i].1 != entries[j].1
}

/// Whether every identity for which the entries name different nodes has an
/// override.
pub open spec fn mergeable(entries: Seq<(OriginalID, NodeIndex)>, overrides: TableView) -> bool {
    forall|id: OriginalID| #[trigger] disputed(entries, id) ==> overrides.contains_key(id)
}

/// Whether `table` holds the identities of the entries and no others, each
/// with the node that all its entries name or, where they name different
/// nodes, with the node that `overrides` gives it.
pub open spec fn settles(
    entries: Seq<(OriginalID, NodeIndex)>,
    overrides: TableView,
    table: TableView,
) -> bool {
    forall|id: OriginalID|
        #![trigger table.contains_key(id)]
        {
            &&& table.contains_key(id) <==> named(entries, id)
            &&& table.contains_key(id) ==> if disputed(entries, id) {
                overrides.contains_key(id) && table[id] == overrides[id]
            } else {
                forall|i: int| entry_for(entries, i, id) ==> entries[i].1 == table[id]
            }
        }
}

/// What one more entry changes: an entry of the longer sequence is the new
/// one or an entry of the shorter sequence.
proof fn lemma_one_more_entry(entries: Seq<(OriginalID, NodeIndex)>, id: OriginalID)
    requires
        entries.len() > 0,
    ensures
        forall|i: int|
            entry_for(entries, i, id) <==> entry_for(entries.drop_last(), i, id) || (i
                == entries.len() - 1 && entries.last().0 == id),
        named(entries, id) <==> named(entries.drop_last(), id) || entries.last().0 == id,
        disputed(entries.drop_last(), id) ==> disputed(entries, id),
        disputed(entries, id) ==> disputed(entries.drop_last(), id) || (entries.last().0 == id
            && exists|i: int|
            entry_for(entries.drop_last(), i, id) && entries[i].1 != entries.last().1),
{
    let front = entries.drop_last();
    let last = entries.len() - 1;
    assert forall|i: int|
        entry_for(entries, i, id) <==> entry_for(front, i, id) || (i == last && entries.last().0
            == id) by {}
    if entries.last().0 == id {
        assert(entry_for(entries, last, id));
    }
}

impl PackageGraph {
    /// Entries can be merged exactly when every identity for which they name
    /// different nodes has an override, in whatever order they come; and the
    /// table that the merge gives holds each identity of the entries with
    /// the one node that its entries name, or with its override.
    pub proof fn lemma_merge_decides(
        &self,
        address_env: Seq<char>,
        root: NodeIndex,
        overrides: TableView,
        entries: Seq<(OriginalID, NodeIndex)>,
    )
        ensures
            self.merge(address_env, root, overrides, entries) is Ok <==> mergeable(
                entries,
                overrides,
            ),
            self.merge(address_env, root, overrides, entries) matches Ok(table) ==> settles(
                entries,
                overrides,
                table,
            ),
        decreases entries.len(),
    {
        if entries.len() > 0 {
            let front = entries.drop_last();
            let (id0, node0) = entries.last();
            self.lemma_merge_decides(address_env, root, overrides, front);
            assert forall|id: OriginalID| #[trigger] disputed(front, id) implies disputed(
                entries,
                id,
            ) by {
                lemma_one_more_entry(entries, id);
            }
            if let Ok(before) = self.merge(address_env, root, overrides, front) {
                if before.contains_key(id0) && before[id0] != node0 {
                    // The last entry and an earlier one name different nodes.
                    if !disputed(front, id0) {
                        let i = choose|i: int| entry_for(front, i, id0);
                        assert(entry_for(entries, i, id0) && entry_for(
                            entries,
                            entries.len() - 1,
                            id0,
                        ));
                    }
                    assert(disputed(entries, id0));
                }
                if let Ok(table) = self.merge(address_env, root, overrides, entries) {
                    assert forall|id: OriginalID| #[trigger]
                        disputed(entries, id) implies overrides.contains_key(id) by {
                        lemma_one_more_entry(entries, id);
                    }
                    assert forall|id: OriginalID|
                        #![trigger table.contains_key(id)]
                        {
                            &&& table.contains_key(id) <==> named(entries, id)
                            &&& table.contains_key(id) ==> if disputed(entries, id) {
                                overrides.contains_key(id) && table[id] == overrides[id]
                            } else {
                                forall|i: int|
                                    entry_for(entries, i, id) ==> entries[i].1 == table[id]
                            }
                        } by {
                        lemma_one_more_entry(entries, id);
                    }
                }
            }
        }
    }

    /// A merge that fails blames two entries for one identity without an
    /// override that name different nodes: the later of the two is the first
    /// entry at which the merge cannot go on, and the earlier names the node
    /// that all entries for the identity before the later one name.
    pub proof fn lemma_merge_blames(
        &self,
        address_env: Seq<char>,
        root: NodeIndex,
        overrides: TableView,
        entries: Seq<(OriginalID, NodeIndex)>,
    )
        ensures
            self.merge(address_env, root, overrides, entries) matches Err(error) ==> exists|
                i: int,
                j: int,
            |
                #![trigger entries[i], entries[j]]
                0 <= i < j < entries.len() && entries[i].0 == entries[j].0 && entries[i].1
                    != entries[j].1 && !overrides.contains_key(entries[j].0) && error
                    == self.conflict(address_env, root, entries[i].1, entries[j].1),
        decreases entries.len(),
    {
        if entries.len() > 0 {
            let front = entries.drop_last();
            self.lemma_merge_blames(address_env, root, overrides, front);
            if self.merge(address_env, root, overrides, front) is Ok {
                // Where the last entry fails, the entries before it agree on
                // the node that the table holds.
                self.lemma_merge_decides(address_env, root, overrides, front);
            }
        }
    }

    /// Whether `node` marks the edge at `i` as an override in `env`.
    pub open spec fn marks(&self, env: Seq<char>, node: NodeIndex, edges: Seq<Edge>, i: int) -> bool {
        0 <= i < edges.len() && self.packages()[node as int].overrides_dependency(
            env,
            edges[i].name@,
        )
    }

    /// Whether `node` marks the edge at `i` as an override in `env`, and the
    /// package that the edge leads to is published there with the identity
    /// `id`.
    pub open spec fn overrides_with(
        &self,
        env: Seq<char>,
        node: NodeIndex,
        edges: Seq<Edge>,
        i: int,
        id: OriginalID,
    ) -> bool {
        &&& self.marks(env, node, edges, i)
        &&& self.publication_of(edges[i].target, env) matches Some(publication)
        &&& publication.original_id == id
    }

    /// The overrides on some edges can be read exactly when every edge that
    /// is marked as an override leads to a published package. They then hold
    /// the identities of those packages and no others, each with the target
    /// of the last marked edge that leads to it. Otherwise the first marked
    /// edge to an unpublished package is blamed.
    pub proof fn lemma_overrides_decide(&self, env: Seq<char>, node: NodeIndex, edges: Seq<Edge>)
        ensures
            self.overrides_among(env, node, edges) is Ok <==> forall|i: int| #[trigger]
                self.marks(env, node, edges, i) ==> self.publication_of(edges[i].target, env)
                    is Some,
            self.overrides_among(env, node, edges) matches Ok(found) ==> forall|id: OriginalID|
                #![trigger found.contains_key(id)]
                {
                    &&& found.contains_key(id) <==> exists|i: int|
                        self.overrides_with(env, node, edges, i, id)
                    &&& found.contains_key(id) ==> exists|i: int|
                        self.overrides_with(env, node, edges, i, id) && found[id]
                            == edges[i].target && forall|j: int|
                            i < j ==> !self.overrides_with(env, node, edges, j, id)
                },
            self.overrides_among(env, node, edges) matches Err(error) ==> exists|i: int|
                #![trigger self.marks(env, node, edges, i)]
                {
                    &&& self.marks(env, node, edges, i)
                    &&& self.publication_of(edges[i].target, env) is None
                    &&& error == (LinkageError::UnpublishedOverride {
                        node,
                        dependency: edges[i].target,
                    })
                    &&& forall|j: int|
                        j < i && #[trigger] self.marks(env, node, edges, j)
                            ==> self.publication_of(edges[j].target, env) is Some
                },
        decreases edges.len(),
    {
        if edges.len() > 0 {
            let front = edges.drop_last();
            let last = edges.len() - 1;
            self.lemma_overrides_decide(env, node, front);
            // An edge is the last one or one of those before it.
            assert forall|i: int|
                self.marks(env, node, edges, i) <==> self.marks(env, node, front, i) || (i == last
                    && self.marks(env, node, edges, last)) by {}
            assert forall|i: int, id: OriginalID|
                self.overrides_with(env, node, edges, i, id) <==> self.overrides_with(
                    env,
                    node,
                    front,
                    i,
                    id,
                ) || (i == last && self.overrides_with(env, node, edges, last, id)) by {}
            if let Ok(before) = self.overrides_among(env, node, front) {
                match self.overrides_among(env, node, edges) {
                    Err(_) => {
                        assert(self.marks(env, node, edges, last));
                    },
                    Ok(found) => {
                        assert forall|id: OriginalID|
                            #![trigger found.contains_key(id)]
                            {
                                &&& found.contains_key(id) <==> exists|i: int|
                                    self.overrides_with(env, node, edges, i, id)
                                &&& found.contains_key(id) ==> exists|i: int|
                                    self.overrides_with(env, node, edges, i, id) && found[id]
                                        == edges[i].target && forall|j: int|
                                        i < j ==> !self.overrides_with(env, node, edges, j, id)
                            } by {
                            // The last edge sets the identity, or the edges
                            // before it did.
                            if self.overrides_with(env, node, edges, last, id) {
                                assert(found[id] == edges[last].target);
                            } else if before.contains_key(id) {
                                assert(found[id] == before[id]);
                            }
                        }
                    },
                }
            }
        }
    }
}

} // verus!
