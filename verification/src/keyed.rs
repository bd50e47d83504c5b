//! Lists of entries keyed by a string, read as maps in which a later entry
//! shadows every earlier entry with the same key.

use vstd::prelude::*;

verus! {

/// The value that `list` gives to `key`: that of the last entry whose key
/// reads `key`, if there is one.
pub open spec fn lookup<V>(list: Seq<(String, V)>, key: Seq<char>) -> Option<V>
    decreases list.len(),
{
    if list.len() == 0 {
        None
    } else if list.last().0@ == key {
        Some(list.last().1)
    } else {
        lookup(list.drop_last(), key)
    }
}

/// Whether some entry of `list` has the key `key`.
pub open spec fn has_key<V>(list: Seq<(String, V)>, key: Seq<char>) -> bool {
    lookup(list, key) is Some
}

/// `lookup` finds a value exactly when some entry carries the key, and the
/// value it finds is that of the last such entry.
pub proof fn lemma_lookup_is_last_match<V>(list: Seq<(String, V)>, key: Seq<char>)
    ensures
        lookup(list, key) is Some <==> exists|i: int|
            0 <= i < list.len() && (#[trigger] list[i]).0@ == key,
        lookup(list, key) matches Some(v) ==> exists|i: int|
            0 <= i < list.len() && (#[trigger] list[i]).0@ == key && list[i].1 == v && forall|j: int|
                i < j < list.len() ==> (#[trigger] list[j]).0@ != key,
    decreases list.len(),
{
    if list.len() > 0 && list.last().0@ != key {
        // The answer is that of the entries before the last.
        let front = list.drop_last();
        lemma_lookup_is_last_match(front, key);
        if lookup(front, key) is Some {
            let v = lookup(front, key)->0;
            let i = choose|i: int|
                0 <= i < front.len() && (#[trigger] front[i]).0@ == key && front[i].1 == v
                    && forall|j: int| i < j < front.len() ==> (#[trigger] front[j]).0@ != key;
            assert forall|j: int| i < j < list.len() implies (#[trigger] list[j]).0@ != key by {
                if j < front.len() {
                    assert(list[j] == front[j]);
                }
            }
        } else {
            assert forall|i: int| 0 <= i < list.len() implies (#[trigger] list[i]).0@ != key by {
                if i < front.len() {
                    assert(list[i] == front[i]);
                }
            }
        }
    }
}

/// Finds the value that `list` gives to `key`.
pub fn find<'a, V>(list: &'a Vec<(String, V)>, key: &String) -> (found: Option<&'a V>)
    ensures
        match found {
            Some(v) => lookup(list@, key@) == Some(*v),
            None => lookup(list@, key@) is None,
        },
{
    let mut i: usize = list.len();
    assert(list@.take(i as int) == list@);
    while i > 0
        invariant
            i <= list.len(),
            lookup(list@, key@) == lookup(list@.take(i as int), key@),
        decreases i,
    {
        i = i - 1;
        assert(list@.take(i + 1).drop_last() == list@.take(i as int));
        if list[i].0 == *key {
            return Some(&list[i].1);
        }
    }
    None
}

} // verus!
