//! The entries of a linkage table in the order in which the table hands them
//! out: by rising identity.

use crate::graph::NodeIndex;
use crate::package::OriginalID;
use std::collections::BTreeMap;
use vstd::prelude::*;
use vstd::std_specs::cmp::OrdSpec;
use vstd::std_specs::iter::IteratorSpec;

verus! {

/// Whether `listing` holds each entry of `table` once, by rising identity.
pub open spec fn lists_in_key_order(
    table: Map<OriginalID, NodeIndex>,
    listing: Seq<(OriginalID, NodeIndex)>,
) -> bool {
    &&& forall|i: int|
        0 <= i < listing.len() ==> table.contains_key((#[trigger] listing[i]).0)
            && table[listing[i].0] == listing[i].1
    &&& forall|i: int, j: int|
        0 <= i < j < listing.len() ==> (#[trigger] listing[i]).0 < (#[trigger] listing[j]).0
    &&& forall|id: OriginalID| #[trigger]
        table.contains_key(id) ==> exists|i: int|
            0 <= i < listing.len() && (#[trigger] listing[i]).0 == id
}

/// The entries of `table` by rising identity.
pub open spec fn entries(table: Map<OriginalID, NodeIndex>) -> Seq<(OriginalID, NodeIndex)> {
    choose|listing: Seq<(OriginalID, NodeIndex)>| lists_in_key_order(table, listing)
}

/// A table has at most one listing by rising identity.
pub proof fn lemma_listing_unique(
    table: Map<OriginalID, NodeIndex>,
    a: Seq<(OriginalID, NodeIndex)>,
    b: Seq<(OriginalID, NodeIndex)>,
)
    requires
        lists_in_key_order(table, a),
        lists_in_key_order(table, b),
    ensures
        a == b,
    decreases a.len(),
{
    if a.len() == 0 {
        // An entry of `b` would be in the table, and so in `a`.
        if b.len() > 0 {
            assert(table.contains_key(b[0].0));
        }
    } else {
        // Both end with the entry of the greatest identity, and without it
        // both list the rest of the table.
        lemma_listing_without_last(table, a);
        lemma_listing_without_last(table, b);
        lemma_listing_unique(table.remove(a.last().0), a.drop_last(), b.drop_last());
        assert(a =~= a.drop_last().push(a.last()));
    }
}

/// A listing without its last entry lists the table without that entry.
proof fn lemma_listing_without_last(
    table: Map<OriginalID, NodeIndex>,
    a: Seq<(OriginalID, NodeIndex)>,
)
    requires
        lists_in_key_order(table, a),
        a.len() > 0,
    ensures
        lists_in_key_order(table.remove(a.last().0), a.drop_last()),
{
    let rest = table.remove(a.last().0);
    let front = a.drop_last();
    assert forall|id: OriginalID| #[trigger] rest.contains_key(id) implies exists|i: int|
        0 <= i < front.len() && (#[trigger] front[i]).0 == id by {
        let i = choose|i: int| 0 <= i < a.len() && (#[trigger] a[i]).0 == id;
        assert(front[i] == a[i]);
    }
}

/// Any listing of a table by rising identity is its entries.
pub proof fn lemma_entries_are(
    table: Map<OriginalID, NodeIndex>,
    listing: Seq<(OriginalID, NodeIndex)>,
)
    requires
        lists_in_key_order(table, listing),
    ensures
        entries(table) == listing,
{
    lemma_listing_unique(table, entries(table), listing);
}

/// A table without entries hands out nothing.
pub proof fn lemma_entries_of_empty()
    ensures
        entries(Map::<OriginalID, NodeIndex>::empty()) == Seq::<(OriginalID, NodeIndex)>::empty(),
{
    lemma_entries_are(Map::empty(), Seq::empty());
}

/// Identities that a `BTreeMap` hands out in its own order rise strictly.
proof fn lemma_handed_out_rising(ids: Seq<OriginalID>)
    requires
        vstd::std_specs::btree::increasing_seq(ids),
    ensures
        forall|i: int, j: int| 0 <= i < j < ids.len() ==> ids[i] < ids[j],
{
    broadcast use vstd::std_specs::btree::group_btree_axioms;

    assert forall|i: int, j: int| 0 <= i < j < ids.len() implies ids[i] < ids[j] by {
        assert(ids[i].cmp_spec(&ids[j]) is Less);
    }
}

/// The entries of `table`, by rising identity.
pub fn table_entries(table: &BTreeMap<OriginalID, NodeIndex>) -> (listing: Vec<
    (OriginalID, NodeIndex),
>)
    ensures
        listing@ == entries(table@),
{
    broadcast use vstd::std_specs::btree::group_btree_axioms;

    let mut listing: Vec<(OriginalID, NodeIndex)> = Vec::new();
    let iter = table.iter();
    let ghost handed_out = iter.remaining();
    for entry in walk: iter
        invariant
            listing@.len() == walk.index(),
            walk.seq() == handed_out,
            forall|i: int|
                0 <= i < listing@.len() ==> #[trigger] listing@[i] == (
                    *handed_out[i].0,
                    *handed_out[i].1,
                ),
    {
        listing.push((*entry.0, *entry.1));
    }
    proof {
        let ids = handed_out.map_values(|entry: (&OriginalID, &NodeIndex)| *entry.0);
        lemma_handed_out_rising(ids);
        assert forall|i: int, j: int| 0 <= i < j < listing@.len() implies (
        #[trigger] listing@[i]).0 < (#[trigger] listing@[j]).0 by {
            assert(ids[i] == listing@[i].0);
            assert(ids[j] == listing@[j].0);
        }
        assert forall|id: OriginalID| #[trigger] table@.contains_key(id) implies exists|i: int|
            0 <= i < listing@.len() && (#[trigger] listing@[i]).0 == id by {
            let i = choose|i: int|
                0 <= i < handed_out.len() && handed_out[i] == (&id, &table@[id]);
            assert(listing@[i].0 == id);
        }
        lemma_entries_are(table@, listing@);
    }
    listing
}

} // verus!
