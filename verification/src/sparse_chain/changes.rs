//! Changes to what a chain holds.

use std::collections::BTreeMap;

use vstd::laws_cmp::obeys_cmp;
use vstd::prelude::*;

use super::laws::law_listed_where_seen;
use super::{ChainView, HeightBound, SparseChain};
use crate::block::{BlockId, TxHeight};
use crate::collections::{append_map, lists_map, map_entries};
use crate::hash::{BlockHash, Txid};
use crate::tx_graph::Additions;

verus! {

broadcast use {
    vstd::laws_cmp::group_laws_cmp,
    vstd::std_specs::btree::group_btree_axioms,
};

/// Which checkpoints and which transactions come, move or go.
#[derive(Clone, Debug, PartialEq)]
pub struct ChangeSet<P> {
    /// The new hash at each changed height; `None` where the checkpoint goes.
    pub checkpoints: BTreeMap<u32, Option<BlockHash>>,
    /// The new position of each changed transaction; `None` where the transaction goes.
    pub txids: BTreeMap<Txid, Option<P>>,
}

/// `entries` after `changes`: a changed entry gets its new value or goes.
pub open spec fn changed<A, B>(entries: Map<A, B>, changes: Map<A, Option<B>>) -> Map<A, B> {
    Map::new(
        |a: A|
            if changes.contains_key(a) {
                changes[a] is Some
            } else {
                entries.contains_key(a)
            },
        |a: A|
            if changes.contains_key(a) {
                changes[a]->0
            } else {
                entries[a]
            },
    )
}

impl<P> Default for ChangeSet<P> {
    fn default() -> (changes: Self)
        ensures
            changes.checkpoints@ == Map::<u32, Option<BlockHash>>::empty(),
            changes.txids@ == Map::<Txid, Option<P>>::empty(),
    {
        ChangeSet { checkpoints: BTreeMap::new(), txids: BTreeMap::new() }
    }
}

impl<P> ChangeSet<P> {
    /// Whether nothing changes.
    pub fn is_empty(&self) -> (empty: bool)
        ensures
            empty == (self.checkpoints@.is_empty() && self.txids@.is_empty()),
    {
        self.checkpoints.is_empty() && self.txids.is_empty()
    }

    /// Appends the changes of `other`. Where both change a thing, the change of `other` stays.
    pub fn append(&mut self, other: ChangeSet<P>)
        ensures
            final(self).checkpoints@ == old(self).checkpoints@.union_prefer_right(
                other.checkpoints@,
            ),
            final(self).txids@ == old(self).txids@.union_prefer_right(other.txids@),
    {
        append_map(&mut self.checkpoints, other.checkpoints);
        append_map(&mut self.txids, other.txids);
    }
}

impl SparseChain {
    /// What changes when this chain becomes `after`: the checkpoints and the positions of
    /// transactions that are not the same.
    pub fn changes_to(&self, after: &SparseChain) -> (changes: ChangeSet<TxHeight>)
        requires
            self.wf(),
            after.wf(),
        ensures
            changes.checkpoints@ == self@.checkpoint_changes(after@),
            changes.txids@ == self@.tx_changes(after@),
    {
        ChangeSet { checkpoints: self.changed_checkpoints(after), txids: self.changed_txids(after) }
    }

    /// The checkpoints that are not the same in `after`.
    fn changed_checkpoints(&self, after: &SparseChain) -> (changes: BTreeMap<
        u32,
        Option<BlockHash>,
    >)
        ensures
            changes@ == self@.checkpoint_changes(after@),
    {
        let ghost target = self@.checkpoint_changes(after@);
        let mut ids = self.iter_checkpoints(HeightBound::Unbounded, HeightBound::Unbounded);
        let mut new_ids = after.iter_checkpoints(HeightBound::Unbounded, HeightBound::Unbounded);
        let ghost old_ids = ids@;
        let ghost added = new_ids@;
        ids.append(&mut new_ids);
        let mut changes: BTreeMap<u32, Option<BlockHash>> = BTreeMap::new();
        for i in 0..ids.len()
            invariant
                target == self@.checkpoint_changes(after@),
                changes@.submap_of(target),
                forall|j: int|
                    0 <= j < i && target.contains_key((#[trigger] ids[j]).height)
                        ==> changes@.contains_key(ids[j].height),
        {
            let height: u32 = ids[i].height;
            let new_id = after.checkpoint_at(height);
            if self.checkpoint_at(height) != new_id {
                let hash = match new_id {
                    Some(id) => Some(id.hash),
                    None => None,
                };
                changes.insert(height, hash);
            }
        }
        proof {
            assert forall|h: u32| #[trigger] target.contains_key(h) implies changes@.contains_key(
                h,
            ) by {
                if self@.checkpoints.contains_key(h) {
                    let id = BlockId { height: h, hash: self@.checkpoints[h] };
                    assert(old_ids.contains(id));
                    let j = choose|j: int| 0 <= j < old_ids.len() && old_ids[j] == id;
                    assert(ids[j].height == h);
                } else {
                    let id = BlockId { height: h, hash: after@.checkpoints[h] };
                    assert(added.contains(id));
                    let j = choose|j: int| 0 <= j < added.len() && added[j] == id;
                    assert(ids[old_ids.len() + j].height == h);
                }
            }
        }
        changes
    }

    /// The transactions that `after` does not see where this chain does.
    fn changed_txids(&self, after: &SparseChain) -> (changes: BTreeMap<Txid, Option<TxHeight>>)
        requires
            self.wf(),
            after.wf(),
        ensures
            changes@ == self@.tx_changes(after@),
    {
        let ghost target = self@.tx_changes(after@);
        let mut txids = self.iter_txids();
        let mut new_txids = after.iter_txids();
        let ghost old_list = txids@;
        let ghost new_list = new_txids@;
        txids.append(&mut new_txids);
        let mut changes: BTreeMap<Txid, Option<TxHeight>> = BTreeMap::new();
        for i in 0..txids.len()
            invariant
                target == self@.tx_changes(after@),
                changes@.submap_of(target),
                forall|j: int|
                    0 <= j < i && target.contains_key((#[trigger] txids[j]).1)
                        ==> changes@.contains_key(txids[j].1),
        {
            let txid = txids[i].1;
            let new_height = after.transaction_height(&txid);
            if self.transaction_height(&txid) != new_height {
                changes.insert(txid, new_height);
            }
        }
        proof {
            assert forall|txid: Txid| #[trigger]
                target.contains_key(txid) implies changes@.contains_key(txid) by {
                law_listed_where_seen(self@, old_list, txid);
                law_listed_where_seen(after@, new_list, txid);
                let (list, start) = if self@.transaction_height(txid) is Some {
                    (old_list, 0)
                } else {
                    (new_list, old_list.len() as int)
                };
                let entry = if list.contains((None::<u32>, txid)) {
                    (None::<u32>, txid)
                } else if self@.transaction_height(txid) is Some {
                    (Some(self@.confirmed[txid]), txid)
                } else {
                    (Some(after@.confirmed[txid]), txid)
                };
                assert(list.contains(entry));
                let j = choose|j: int| 0 <= j < list.len() && list[j] == entry;
                assert(txids[start + j].1 == txid);
            }
        }
        changes
    }
}

/// The entries that `changes` give a value.
fn changed_from_nothing<K: Ord + Copy, V: Copy>(changes: &BTreeMap<K, Option<V>>) -> (entries:
    BTreeMap<K, V>)
    requires
        obeys_cmp::<K>(),
    ensures
        entries@ == changed(Map::empty(), changes@),
{
    let ghost target = changed(Map::<K, V>::empty(), changes@);
    let list = map_entries(changes);
    let mut entries: BTreeMap<K, V> = BTreeMap::new();
    for i in 0..list.len()
        invariant
            obeys_cmp::<K>(),
            lists_map(list@, changes@),
            target == changed(Map::<K, V>::empty(), changes@),
            entries@.submap_of(target),
            forall|j: int|
                0 <= j < i && (#[trigger] list[j]).1 is Some ==> entries@.contains_key(list[j].0),
    {
        let (key, value) = list[i];
        if let Some(value) = value {
            entries.insert(key, value);
        }
    }
    assert(entries@ =~= target);
    entries
}

/// The chain that `changes` lead to from an empty one. It keeps every checkpoint.
pub fn chain_of(changes: &ChangeSet<TxHeight>) -> (chain: SparseChain)
    ensures
        chain.wf(),
        chain@.checkpoints == changed(Map::empty(), changes.checkpoints@),
        chain@.positions() == changed(Map::empty(), changes.txids@),
        chain@.limit is None,
        forall|h: u32| #[trigger]
            chain@.checkpoints.contains_key(h) <==> changes.checkpoints@.contains_key(h)
                && changes.checkpoints@[h] is Some,
        forall|h: u32| #[trigger]
            chain@.checkpoints.contains_key(h) ==> changes.checkpoints@[h] == Some(
                chain@.checkpoints[h],
            ),
        forall|txid: Txid| #[trigger]
            chain@.mempool.contains(txid) <==> changes.txids@.contains_key(txid)
                && changes.txids@[txid] == Some(TxHeight::Unconfirmed),
        forall|txid: Txid, h: u32| #[trigger]
            chain@.confirmed.contains_pair(txid, h) <==> changes.txids@.contains_key(txid)
                && changes.txids@[txid] == Some(TxHeight::Confirmed(h)),
{
    let mut chain: SparseChain = Default::default();
    chain.checkpoints = changed_from_nothing(&changes.checkpoints);
    let txids = changed_from_nothing(&changes.txids);
    chain.insert_txs(&txids);
    assert(chain@.positions() =~= txids@);
    proof {
        law_chain_of_changes(chain@, changes.checkpoints@, changes.txids@);
    }
    chain
}

/// Whether `txid` comes or moves by `changes` and is not known as a whole.
pub open spec fn is_wanted(changes: &ChangeSet<TxHeight>, known: &Additions, txid: Txid) -> bool {
    changes.txids@.contains_key(txid) && changes.txids@[txid] is Some && !known.tx@.contains_key(
        txid,
    )
}

/// The transactions that come or move by `changes` and are not known as a whole.
pub fn txids_to_fetch(changes: &ChangeSet<TxHeight>, known: &Additions) -> (list: Vec<Txid>)
    ensures
        list@.no_duplicates(),
        forall|txid: Txid| #[trigger]
            list@.contains(txid) <==> is_wanted(changes, known, txid),
        forall|txid: Txid| #[trigger]
            list@.contains(txid) <==> changes.txids@.contains_key(txid)
                && changes.txids@[txid] is Some && !known.tx@.contains_key(txid),
{
    let txids = map_entries(&changes.txids);
    let mut list: Vec<Txid> = Vec::new();
    for i in 0..txids.len()
        invariant
            lists_map(txids@, changes.txids@),
            list@.no_duplicates(),
            forall|j: int| 0 <= j < list.len() ==> is_wanted(changes, known, #[trigger] list[j]),
            forall|j: int, k: int|
                #![trigger list[j], txids[k]]
                0 <= j < list.len() && i <= k < txids.len() ==> list[j] != txids[k].0,
            forall|k: int|
                0 <= k < i && is_wanted(changes, known, (#[trigger] txids[k]).0) ==> list@.contains(
                    txids[k].0,
                ),
    {
        let (txid, height) = txids[i];
        if height.is_some() && !known.tx.contains_key(&txid) {
            let ghost prev = list@;
            list.push(txid);
            assert(list@[prev.len() as int] == txid);
            assert(forall|t: Txid| #[trigger] prev.contains(t) ==> list@.contains(t)) by {
                assert(forall|j: int| 0 <= j < prev.len() ==> list@[j] == #[trigger] prev[j]);
            }
        }
    }
    list
}

/// An entry that is changed gets its new value or goes; any other stays as it was.
pub proof fn law_changed_entry<A, B>(entries: Map<A, B>, changes: Map<A, Option<B>>, a: A)
    ensures
        !changes.contains_key(a) ==> (changed(entries, changes).contains_key(a)
            <==> entries.contains_key(a)) && (entries.contains_key(a) ==> changed(
            entries,
            changes,
        )[a] == entries[a]),
        changes.contains_key(a) && changes[a] is None ==> !changed(entries, changes).contains_key(
            a,
        ),
        forall|b: B|
            changes.contains_key(a) && changes[a] == Some(b) ==> changed(
                entries,
                changes,
            ).contains_key(a) && #[trigger] changed(entries, changes)[a] == b,
{
}

/// A chain that changes lead to from an empty one has a checkpoint exactly where they give a hash,
/// and sees a transaction exactly where they give it a place, confirmed or not.
pub proof fn law_chain_of_changes(
    chain: ChainView,
    checkpoints: Map<u32, Option<BlockHash>>,
    txids: Map<Txid, Option<TxHeight>>,
)
    requires
        chain.valid(),
        chain.checkpoints == changed(Map::empty(), checkpoints),
        chain.positions() == changed(Map::empty(), txids),
    ensures
        forall|h: u32| #[trigger]
            chain.checkpoints.contains_key(h) <==> checkpoints.contains_key(h)
                && checkpoints[h] is Some,
        forall|h: u32| #[trigger]
            chain.checkpoints.contains_key(h) ==> checkpoints[h] == Some(chain.checkpoints[h]),
        forall|txid: Txid| #[trigger]
            chain.mempool.contains(txid) <==> txids.contains_key(txid) && txids[txid] == Some(
                TxHeight::Unconfirmed,
            ),
        forall|txid: Txid, h: u32| #[trigger]
            chain.confirmed.contains_pair(txid, h) <==> txids.contains_key(txid) && txids[txid]
                == Some(TxHeight::Confirmed(h)),
{
    assert forall|txid: Txid|
        chain.transaction_height(txid) == if txids.contains_key(txid) {
            txids[txid]
        } else {
            None
        } by {
        let positions = changed(Map::<Txid, TxHeight>::empty(), txids);
        assert(chain.positions().contains_key(txid) <==> positions.contains_key(txid));
        assert(chain.positions()[txid] == positions[txid]);
    }
    assert forall|txid: Txid| #[trigger]
        chain.mempool.contains(txid) <==> txids.contains_key(txid) && txids[txid] == Some(
            TxHeight::Unconfirmed,
        ) by {
        assert(chain.transaction_height(txid) == if txids.contains_key(txid) {
            txids[txid]
        } else {
            None
        });
    }
    assert forall|txid: Txid, h: u32| #[trigger]
        chain.confirmed.contains_pair(txid, h) <==> txids.contains_key(txid) && txids[txid] == Some(
            TxHeight::Confirmed(h),
        ) by {
        assert(chain.transaction_height(txid) == if txids.contains_key(txid) {
            txids[txid]
        } else {
            None
        });
    }
}

/// Once the listed transactions have been fetched, every transaction that the changes give a place,
/// confirmed or unconfirmed, is known as a whole. None of the listed ones was known before, and none
/// of them goes by the changes.
pub proof fn law_fetching_makes_known(
    changes: ChangeSet<TxHeight>,
    known: Additions,
    list: Seq<Txid>,
    whole: Set<Txid>,
)
    requires
        forall|txid: Txid| #[trigger]
            list.contains(txid) <==> is_wanted(&changes, &known, txid),
        forall|txid: Txid| #[trigger]
            whole.contains(txid) <==> known.tx@.contains_key(txid) || list.contains(txid),
    ensures
        forall|txid: Txid| #[trigger]
            changes.txids@.contains_key(txid) && changes.txids@[txid] is Some ==> whole.contains(
                txid,
            ),
        forall|txid: Txid| #[trigger]
            list.contains(txid) ==> !known.tx@.contains_key(txid) && changes.txids@.contains_key(
                txid,
            ) && changes.txids@[txid] is Some,
{
}

} // verus!
