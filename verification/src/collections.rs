//! Reading ordered collections out, and emptying them.

use std::collections::{BTreeMap, BTreeSet};

use vstd::laws_cmp::obeys_cmp;
use vstd::prelude::*;
use vstd::std_specs::cmp::OrdSpec;
use vstd::std_specs::iter::IteratorSpec;

verus! {

broadcast use {
    vstd::laws_cmp::group_laws_cmp,
    vstd::std_specs::btree::group_btree_axioms,
};

/// Whether `list` holds the entries of `map`, each once, in increasing order of their keys.
pub open spec fn lists_map<K: Ord, V>(list: Seq<(K, V)>, map: Map<K, V>) -> bool {
    &&& forall|i: int, j: int|
        #![trigger list[i], list[j]]
        0 <= i < j < list.len() ==> list[i].0.cmp_spec(&list[j].0) is Less
    &&& forall|i: int|
        0 <= i < list.len() ==> map.contains_key((#[trigger] list[i]).0) && map[list[i].0] == list[i].1
    &&& forall|k: K| #[trigger] map.contains_key(k) ==> list.contains((k, map[k]))
}

/// Whether `list` holds the items of `set`, each once, in increasing order.
pub open spec fn lists_set<K: Ord>(list: Seq<K>, set: Set<K>) -> bool {
    &&& forall|i: int, j: int|
        #![trigger list[i], list[j]]
        0 <= i < j < list.len() ==> list[i].cmp_spec(&list[j]) is Less
    &&& forall|k: K| #[trigger] set.contains(k) <==> list.contains(k)
}

/// The entries of `map`, with their values borrowed, in increasing order of their keys.
pub(crate) fn map_refs<K: Ord + Copy, V>(map: &BTreeMap<K, V>) -> (list: Vec<(K, &V)>)
    requires
        obeys_cmp::<K>(),
    ensures
        lists_map(list@.map_values(|entry: (K, &V)| (entry.0, *entry.1)), map@),
{
    let mut list: Vec<(K, &V)> = Vec::new();
    let entries = map.iter();
    let ghost all = entries.remaining();
    proof {
        let keys = all.map_values(|kv: (&K, &V)| *kv.0);
        assert forall|i: int, j: int| 0 <= i < j < all.len() implies (*all[i].0).cmp_spec(
            all[j].0,
        ) is Less by {
            assert(keys[i].cmp_spec(&keys[j]) is Less);
        }
    }
    for (k, v) in it: entries
        invariant
            it.seq() == all,
            list.len() == it.index() <= all.len(),
            forall|i: int| 0 <= i < list.len() ==> list[i] == (*all[i].0, all[i].1),
    {
        list.push((*k, v));
    }
    proof {
        let owned = list@.map_values(|entry: (K, &V)| (entry.0, *entry.1));
        assert forall|k: K| #[trigger] map@.contains_key(k) implies owned.contains((k, map@[k])) by {
            let i = choose|i: int| 0 <= i < all.len() && all[i] == (&k, &map@[k]);
            assert(owned[i] == (k, map@[k]));
        }
    }
    list
}

/// The entries of `map` in increasing order of their keys.
pub(crate) fn map_entries<K: Ord + Copy, V: Copy>(map: &BTreeMap<K, V>) -> (list: Vec<(K, V)>)
    requires
        obeys_cmp::<K>(),
    ensures
        lists_map(list@, map@),
{
    let refs = map_refs(map);
    let mut list: Vec<(K, V)> = Vec::new();
    for i in 0..refs.len()
        invariant
            list.len() == i,
            forall|j: int| 0 <= j < i ==> list[j] == (refs[j].0, *refs[j].1),
    {
        list.push((refs[i].0, *refs[i].1));
    }
    assert(list@ =~= refs@.map_values(|entry: (K, &V)| (entry.0, *entry.1)));
    list
}

/// The items of `set` in increasing order.
pub(crate) fn set_items<K: Ord + Copy>(set: &BTreeSet<K>) -> (list: Vec<K>)
    requires
        obeys_cmp::<K>(),
    ensures
        lists_set(list@, set@),
{
    let mut list: Vec<K> = Vec::new();
    let items = set.iter();
    let ghost all = items.remaining();
    for k in it: items
        invariant
            it.seq() == all,
            list.len() == it.index() <= all.len(),
            forall|i: int| 0 <= i < list.len() ==> list[i] == *all[i],
    {
        list.push(*k);
    }
    proof {
        assert(list@ == all.unref());
        assert forall|i: int, j: int| 0 <= i < j < list.len() implies list[i].cmp_spec(
            &list[j],
        ) is Less by {
            assert(OrdSpec::cmp_spec(&all[i], &all[j]) is Less);
        }
    }
    list
}

/// Calls `BTreeMap::pop_first`: takes the entry with the least key out of `map`, if there is one.
///
/// Nothing is claimed of keys whose order is not a total one.
#[verifier::external_body]
pub(crate) fn pop_first<K: Ord, V>(map: &mut BTreeMap<K, V>) -> (entry: Option<(K, V)>)
    ensures
        obeys_cmp::<K>() ==> match entry {
            Some((key, value)) => {
                &&& old(map)@.contains_key(key) && old(map)@[key] == value
                &&& forall|other: K| #[trigger]
                    old(map)@.contains_key(other) && other != key ==> key.cmp_spec(&other) is Less
                &&& final(map)@ == old(map)@.remove(key)
            },
            None => old(map)@.is_empty() && final(map)@ == old(map)@,
        },
{
    map.pop_first()
}

/// Moves the entries of `from` into `into`. Where both hold a key, the value of `from` stays.
pub(crate) fn append_map<K: Ord, V>(into: &mut BTreeMap<K, V>, from: BTreeMap<K, V>)
    ensures
        obeys_cmp::<K>() ==> final(into)@ == old(into)@.union_prefer_right(from@),
{
    let ghost target = into@.union_prefer_right(from@);
    let mut rest = from;
    let count: usize = rest.len();
    for i in 0..count
        invariant
            obeys_cmp::<K>() ==> rest@.len() == count - i,
            obeys_cmp::<K>() ==> into@.union_prefer_right(rest@) == target,
    {
        if let Some((key, value)) = pop_first(&mut rest) {
            into.insert(key, value);
        }
    }
}

} // verus!
