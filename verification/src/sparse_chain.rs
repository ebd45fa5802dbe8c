//! A chain of which only some blocks are known, and the transactions seen in it.

use std::collections::{BTreeMap, BTreeSet};

use vstd::prelude::*;

use crate::block::BlockId;
pub use crate::block::TxHeight;
use crate::collections::{lists_map, lists_set, map_entries, set_items};
use crate::hash::{reversed_hex, txid_all_zeros, txid_to_string, BlockHash, Txid};
pub use crate::tx_graph::FullTxOut;
use crate::tx_graph::{OutPoint, TxGraph};

pub mod changes;
pub mod laws;
pub mod outcomes;
pub mod view;

pub use changes::ChangeSet;
pub use view::{ChainView, UpdateView};
use outcomes::law_spent_output_shows_spender;
use view::confirmed_before;

verus! {

broadcast use {
    vstd::laws_cmp::group_laws_cmp,
    vstd::std_specs::btree::group_btree_axioms,
};

/// Block checkpoints, the transactions confirmed up to them, and the unconfirmed ones.
#[derive(Debug)]
pub struct SparseChain {
    /// Block height to checkpoint data.
    checkpoints: BTreeMap<u32, BlockHash>,
    /// Txids prepended by confirmation height.
    txid_by_height: BTreeSet<(u32, Txid)>,
    /// Confirmation heights of txids.
    txid_to_index: BTreeMap<Txid, u32>,
    /// The mempool txids.
    mempool: BTreeSet<Txid>,
    /// Limit number of checkpoints.
    checkpoint_limit: Option<usize>,
}

/// Represents an update failure of [`SparseChain`].
#[derive(Clone, Copy, Debug, PartialEq)]
pub enum UpdateFailure {
    /// The [`Update`] is total bogus. Cannot be applied to any [`SparseChain`].
    Bogus(BogusReason),
    /// The [`Update`] cannot be applied to this [`SparseChain`] because the `last_valid` value does
    /// not match with the current state of the chain.
    Stale { got_last_valid: Option<BlockId>, expected_last_valid: Option<BlockId> },
    /// The [`Update`] cannot be applied, because there are inconsistent tx states.
    /// This only reports the first inconsistency.
    Inconsistent { inconsistent_txid: Txid, original_height: TxHeight, update_height: TxHeight },
}

/// Why an [`Update`] makes no sense.
#[derive(Clone, Copy, Debug, PartialEq)]
pub enum BogusReason {
    /// `last_valid` conflicts with `new_tip`.
    LastValidConflictsNewTip { new_tip: BlockId, last_valid: BlockId },
    /// At least one `txid` has a confirmation height greater than `new_tip`.
    TxHeightGreaterThanTip { new_tip: BlockId, tx: (Txid, TxHeight) },
}

/// How a block that may be missing is shown.
pub open spec fn block_opt_text(id: Option<BlockId>) -> Seq<char> {
    match id {
        Some(id) => id.text(),
        None => "None"@,
    }
}

/// The text of a block that may be missing.
fn block_opt_to_string(id: &Option<BlockId>) -> (text: String)
    ensures
        text@ == block_opt_text(*id),
{
    match id {
        Some(id) => id.to_string(),
        None => String::from_str("None"),
    }
}

impl UpdateFailure {
    /// How a failure is shown.
    pub open spec fn text(self) -> Seq<char> {
        match self {
            UpdateFailure::Bogus(
                BogusReason::LastValidConflictsNewTip { new_tip, last_valid },
            ) => "bogus update: "@ + "last_valid ("@ + last_valid.text() + ") conflicts new_tip ("@
                + new_tip.text() + ")"@,
            UpdateFailure::Bogus(BogusReason::TxHeightGreaterThanTip { new_tip, tx }) =>
            "bogus update: "@ + "tx ("@ + reversed_hex(tx.0.0, tx.0.1) + ") confirmation height ("@
                + tx.1.text() + ") is greater than new_tip ("@ + new_tip.text() + ")"@,
            UpdateFailure::Stale { got_last_valid, expected_last_valid } =>
            "stale update: got last_valid ("@ + block_opt_text(got_last_valid)
                + ") when expecting ("@ + block_opt_text(expected_last_valid) + ")"@,
            UpdateFailure::Inconsistent { inconsistent_txid, original_height, update_height } =>
            "inconsistent update: first inconsistent tx is ("@ + reversed_hex(
                inconsistent_txid.0,
                inconsistent_txid.1,
            ) + ") which had confirmation height ("@ + original_height.text() + "), but is ("@
                + update_height.text() + ") in the update"@,
        }
    }

    /// The failure in words.
    pub fn to_string(&self) -> (text: String)
        ensures
            text@ == self.text(),
            match *self {
                UpdateFailure::Bogus(
                    BogusReason::LastValidConflictsNewTip { new_tip, last_valid },
                ) => text@ == "bogus update: "@ + "last_valid ("@ + last_valid.text()
                    + ") conflicts new_tip ("@ + new_tip.text() + ")"@,
                UpdateFailure::Bogus(BogusReason::TxHeightGreaterThanTip { new_tip, tx }) => text@
                    == "bogus update: "@ + "tx ("@ + reversed_hex(tx.0.0, tx.0.1)
                    + ") confirmation height ("@ + tx.1.text() + ") is greater than new_tip ("@
                    + new_tip.text() + ")"@,
                UpdateFailure::Stale { got_last_valid, expected_last_valid } => text@
                    == "stale update: got last_valid ("@ + (match got_last_valid {
                    Some(id) => id.text(),
                    None => "None"@,
                }) + ") when expecting ("@ + (match expected_last_valid {
                    Some(id) => id.text(),
                    None => "None"@,
                }) + ")"@,
                UpdateFailure::Inconsistent { inconsistent_txid, original_height, update_height } =>
                text@ == "inconsistent update: first inconsistent tx is ("@ + reversed_hex(
                    inconsistent_txid.0,
                    inconsistent_txid.1,
                ) + ") which had confirmation height ("@ + original_height.text() + "), but is ("@
                    + update_height.text() + ") in the update"@,
            },
    {
        let mut text = String::new();
        match self {
            UpdateFailure::Bogus(reason) => {
                text.append("bogus update: ");
                match reason {
                    BogusReason::LastValidConflictsNewTip { new_tip, last_valid } => {
                        text.append("last_valid (");
                        text.append(last_valid.to_string().as_str());
                        text.append(") conflicts new_tip (");
                        text.append(new_tip.to_string().as_str());
                        text.append(")");
                    },
                    BogusReason::TxHeightGreaterThanTip { new_tip, tx } => {
                        text.append("tx (");
                        text.append(txid_to_string(tx.0).as_str());
                        text.append(") confirmation height (");
                        text.append(tx.1.to_string().as_str());
                        text.append(") is greater than new_tip (");
                        text.append(new_tip.to_string().as_str());
                        text.append(")");
                    },
                }
            },
            UpdateFailure::Stale { got_last_valid, expected_last_valid } => {
                text.append("stale update: got last_valid (");
                text.append(block_opt_to_string(got_last_valid).as_str());
                text.append(") when expecting (");
                text.append(block_opt_to_string(expected_last_valid).as_str());
                text.append(")");
            },
            UpdateFailure::Inconsistent { inconsistent_txid, original_height, update_height } => {
                text.append("inconsistent update: first inconsistent tx is (");
                text.append(txid_to_string(*inconsistent_txid).as_str());
                text.append(") which had confirmation height (");
                text.append(original_height.to_string().as_str());
                text.append("), but is (");
                text.append(update_height.to_string().as_str());
                text.append(") in the update");
            },
        }
        text
    }
}

/// One end of a range of heights.
#[derive(Clone, Copy, Debug, PartialEq, Eq, Structural)]
pub enum HeightBound {
    /// The range ends with this height.
    Included(u32),
    /// The range ends next to this height.
    Excluded(u32),
    /// The range does not end.
    Unbounded,
}

impl HeightBound {
    /// Whether a range that starts here reaches down to `height`.
    pub open spec fn is_start_of(self, height: u32) -> bool {
        match self {
            HeightBound::Included(start) => start <= height,
            HeightBound::Excluded(start) => start < height,
            HeightBound::Unbounded => true,
        }
    }

    /// Whether a range that ends here reaches up to `height`.
    pub open spec fn is_end_of(self, height: u32) -> bool {
        match self {
            HeightBound::Included(end) => height <= end,
            HeightBound::Excluded(end) => height < end,
            HeightBound::Unbounded => true,
        }
    }

    /// Whether the two ends are in order: the start does not lie after the end, and where they
    /// meet they do not both leave the height out.
    pub open spec fn is_range(self, end: HeightBound) -> bool {
        match (self, end) {
            (HeightBound::Included(a), HeightBound::Included(b)) => a <= b,
            (HeightBound::Included(a), HeightBound::Excluded(b)) => a <= b,
            (HeightBound::Excluded(a), HeightBound::Included(b)) => a <= b,
            (HeightBound::Excluded(a), HeightBound::Excluded(b)) => a < b,
            _ => true,
        }
    }
}

/// Represents an [`Update`] that could be applied to [`SparseChain`].
#[derive(Debug, PartialEq)]
pub struct Update {
    /// List of transactions in this checkpoint. They need to be consistent with [`SparseChain`]'s
    /// state for the [`Update`] to be applied.
    pub txids: BTreeMap<Txid, TxHeight>,
    /// This should be the latest valid checkpoint of [`SparseChain`]; used to avoid conflicts.
    /// If `invalidate == None`, then this would be the latest checkpoint of [`SparseChain`].
    /// If `invalidate == Some`, then this would be the checkpoint directly preceding `invalidate`.
    /// If [`SparseChain`] is empty, `last_valid` should be `None`.
    pub last_valid: Option<BlockId>,
    /// Invalidates all checkpoints from this checkpoint (inclusive).
    pub invalidate: Option<BlockId>,
    /// The latest tip that this [`Update`] is aware of. Introduced transactions cannot surpass this
    /// tip.
    pub new_tip: BlockId,
}

impl View for Update {
    type V = UpdateView;

    open spec fn view(&self) -> UpdateView {
        UpdateView {
            txids: self.txids@,
            last_valid: self.last_valid,
            invalidate: self.invalidate,
            new_tip: self.new_tip,
        }
    }
}

impl View for SparseChain {
    type V = ChainView;

    closed spec fn view(&self) -> ChainView {
        ChainView {
            checkpoints: self.checkpoints@,
            confirmed: self.txid_to_index@,
            mempool: self.mempool@,
            limit: self.checkpoint_limit,
        }
    }
}

/// Whether the two indexes of the confirmed transactions hold the same.
spec fn indexes_agree(by_height: Set<(u32, Txid)>, to_index: Map<Txid, u32>) -> bool {
    forall|h: u32, txid: Txid| #[trigger]
        by_height.contains((h, txid)) <==> to_index.contains_key(txid) && to_index[txid] == h
}

impl Update {
    /// Helper function to create a template update.
    pub fn new(last_valid: Option<BlockId>, new_tip: BlockId) -> (update: Self)
        ensures
            update@ == (UpdateView { txids: Map::empty(), last_valid, invalidate: None, new_tip }),
    {
        Update { txids: BTreeMap::new(), last_valid, invalidate: None, new_tip }
    }
}

impl Clone for Update {
    fn clone(&self) -> (copy: Self)
        ensures
            copy@ == self@,
    {
        Update {
            txids: self.txids.clone(),
            last_valid: self.last_valid,
            invalidate: self.invalidate,
            new_tip: self.new_tip,
        }
    }
}

impl Clone for SparseChain {
    fn clone(&self) -> (copy: Self)
        ensures
            self.wf() ==> copy.wf(),
            copy@ == self@,
    {
        SparseChain {
            checkpoints: self.checkpoints.clone(),
            txid_by_height: self.txid_by_height.clone(),
            txid_to_index: self.txid_to_index.clone(),
            mempool: self.mempool.clone(),
            checkpoint_limit: self.checkpoint_limit,
        }
    }
}

impl Default for SparseChain {
    /// The chain that knows nothing and keeps every checkpoint.
    fn default() -> (chain: Self)
        ensures
            chain.wf(),
            chain@ == ChainView::empty(),
            chain@.checkpoints == Map::<u32, BlockHash>::empty(),
            chain@.confirmed == Map::<Txid, u32>::empty(),
            chain@.mempool == Set::<Txid>::empty(),
            chain@.limit is None,
    {
        SparseChain {
            checkpoints: BTreeMap::new(),
            txid_by_height: BTreeSet::new(),
            txid_to_index: BTreeMap::new(),
            mempool: BTreeSet::new(),
            checkpoint_limit: None,
        }
    }
}

impl SparseChain {
    /// The invariant: the contents are valid, and the two indexes of the confirmed transactions
    /// agree.
    pub closed spec fn wf(&self) -> bool {
        &&& self@.valid()
        &&& indexes_agree(self.txid_by_height@, self.txid_to_index@)
    }

    /// The contents of a chain that keeps its invariant are valid.
    pub proof fn law_chain_is_valid(&self)
        requires
            self.wf(),
        ensures
            self@.valid(),
            self@.checkpoints.dom().finite(),
            self@.confirmed.dom().finite(),
            self@.mempool.finite(),
            forall|txid: Txid| #[trigger]
                self@.mempool.contains(txid) ==> !self@.confirmed.contains_key(txid),
    {
    }

    /// The last checkpoint below `bound`, or the last one of all without a bound.
    fn last_checkpoint_below(&self, bound: Option<u32>) -> (last: Option<BlockId>)
        ensures
            last == match bound {
                Some(b) => self@.last_below(b as int),
                None => self@.latest_checkpoint(),
            },
    {
        let ghost limit: int = match bound {
            Some(b) => b as int,
            None => u32::MAX + 1,
        };
        let list = map_entries(&self.checkpoints);
        let mut i: usize = list.len();
        while i > 0
            invariant
                i <= list.len(),
                lists_map(list@, self.checkpoints@),
                limit == match bound {
                    Some(b) => b as int,
                    None => u32::MAX + 1,
                },
                forall|j: int| i <= j < list.len() ==> (#[trigger] list[j]).0 >= limit,
            decreases i,
        {
            i -= 1;
            let (height, hash) = list[i];
            let below = match bound {
                Some(b) => height < b,
                None => true,
            };
            if below {
                proof {
                    self@.lemma_last_below(limit, height);
                }
                return Some(BlockId { height, hash });
            }
        }
        None
    }

    /// Get the BlockId for the last known tip.
    pub fn latest_checkpoint(&self) -> (latest: Option<BlockId>)
        ensures
            latest == self@.latest_checkpoint(),
    {
        self.last_checkpoint_below(None)
    }

    /// Get the checkpoint id at the given height if it exists
    pub fn checkpoint_at(&self, height: u32) -> (id: Option<BlockId>)
        ensures
            id == self@.checkpoint_at(height),
    {
        match self.checkpoints.get(&height) {
            Some(hash) => Some(BlockId { height, hash: *hash }),
            None => None,
        }
    }

    /// Return height of tx (if any).
    pub fn transaction_height(&self, txid: &Txid) -> (height: Option<TxHeight>)
        ensures
            height == self@.transaction_height(*txid),
    {
        if self.mempool.contains(txid) {
            Some(TxHeight::Unconfirmed)
        } else {
            match self.txid_to_index.get(txid) {
                Some(height) => Some(TxHeight::Confirmed(*height)),
                None => None,
            }
        }
    }

    /// Get the transaction ids in a particular checkpoint.
    ///
    /// The `Txid`s are ordered first by their confirmation height (ascending) and then lexically by their `Txid`.
    pub fn checkpoint_txids(&self, block_id: BlockId) -> (list: Vec<(u32, Txid)>)
        requires
            self.wf(),
            self@.checkpoint_at(block_id.height) == Some(block_id),
        ensures
            self@.lists_confirmed_at(block_id.height, list@),
    {
        let h = block_id.height;
        let first = (h, txid_all_zeros());
        let all = set_items(&self.txid_by_height);
        let mut list: Vec<(u32, Txid)> = Vec::new();
        let mut i: usize = 0;
        while i < all.len() && all[i].0 <= h
            invariant
                i <= all.len(),
                first == (h, (0u128, 0u128)),
                lists_set(all@, self.txid_by_height@),
                forall|j: int, k: int|
                    #![trigger list[j], list[k]]
                    0 <= j < k < list.len() ==> confirmed_before(list[j], list[k]),
                forall|j: int, k: int|
                    #![trigger list[j], all[k]]
                    0 <= j < list.len() && i <= k < all.len() ==> confirmed_before(list[j], all[k]),
                forall|j: int|
                    0 <= j < list.len() ==> all@.contains(#[trigger] list[j]) && list[j].0 == h,
                forall|k: int| 0 <= k < i && (#[trigger] all[k]).0 == h ==> list@.contains(all[k]),
            decreases all.len() - i,
        {
            let entry = all[i];
            let ghost prev = list@;
            if !is_before(&entry, &first) {
                list.push(entry);
                assert(list@[list@.len() - 1] == entry);
            }
            proof {
                assert forall|k: int| 0 <= k < i + 1 && (#[trigger] all[k]).0 == h implies list@.contains(
                    all[k],
                ) by {
                    if k < i {
                        let j = choose|j: int| 0 <= j < prev.len() && prev[j] == all[k];
                        assert(list@[j] == all[k]);
                    }
                }
            }
            i += 1;
        }
        proof {
            assert forall|height: u32, txid: Txid| #[trigger]
                list@.contains((height, txid)) <==> self@.confirmed.contains_key(txid)
                    && self@.confirmed[txid] == height && height == h by {
                assert(self.txid_by_height@.contains((height, txid)) <==> all@.contains(
                    (height, txid),
                ));
            }
        }
        list
    }

    /// Return the checkpoint locations in a height range, the lowest first.
    pub fn iter_checkpoints(&self, start: HeightBound, end: HeightBound) -> (list: Vec<BlockId>)
        requires
            start.is_range(end),
        ensures
            self@.lists_checkpoints(start, end, list@),
    {
        let all = map_entries(&self.checkpoints);
        let mut list: Vec<BlockId> = Vec::new();
        let mut i: usize = 0;
        while i < all.len()
            invariant
                i <= all.len(),
                lists_map(all@, self.checkpoints@),
                forall|j: int, k: int|
                    #![trigger list[j], list[k]]
                    0 <= j < k < list.len() ==> list[j].height < list[k].height,
                forall|j: int, k: int|
                    #![trigger list[j], all[k]]
                    0 <= j < list.len() && i <= k < all.len() ==> list[j].height < all[k].0,
                forall|j: int|
                    0 <= j < list.len() ==> self@.checkpoint_at((#[trigger] list[j]).height)
                        == Some(list[j]) && start.is_start_of(list[j].height) && end.is_end_of(
                        list[j].height,
                    ),
                forall|k: int|
                    0 <= k < i && start.is_start_of((#[trigger] all[k]).0) && end.is_end_of(
                        all[k].0,
                    ) ==> list@.contains(BlockId { height: all[k].0, hash: all[k].1 }),
            decreases all.len() - i,
        {
            let (height, hash) = all[i];
            let ghost prev = list@;
            let after_start = match start {
                HeightBound::Included(h) => h <= height,
                HeightBound::Excluded(h) => h < height,
                HeightBound::Unbounded => true,
            };
            let before_end = match end {
                HeightBound::Included(h) => height <= h,
                HeightBound::Excluded(h) => height < h,
                HeightBound::Unbounded => true,
            };
            if after_start && before_end {
                list.push(BlockId { height, hash });
                assert(list@[list@.len() - 1] == BlockId { height, hash });
            }
            proof {
                assert forall|k: int|
                    0 <= k < i + 1 && start.is_start_of((#[trigger] all[k]).0) && end.is_end_of(
                        all[k].0,
                    ) implies list@.contains(BlockId { height: all[k].0, hash: all[k].1 }) by {
                    if k < i {
                        let id = BlockId { height: all[k].0, hash: all[k].1 };
                        let j = choose|j: int| 0 <= j < prev.len() && prev[j] == id;
                        assert(list@[j] == id);
                    }
                }
            }
            i += 1;
        }
        list
    }

    /// Apply transactions that are all confirmed in a given block
    pub fn apply_block_txs(&mut self, block_id: BlockId, transactions: Vec<Txid>) -> (result: Result<
        (),
        UpdateFailure,
    >)
        requires
            old(self).wf(),
            !old(self)@.prunes_past_end(old(self)@.block_update(block_id, transactions@)),
        ensures
            final(self).wf(),
            match old(self)@.rejection(old(self)@.block_update(block_id, transactions@)) {
                Some(failure) => result == Err::<(), UpdateFailure>(failure) && final(self)@ == old(
                    self,
                )@,
                None => result is Ok && final(self)@ == old(self)@.updated(
                    old(self)@.block_update(block_id, transactions@),
                ),
            },
    {
        let mut txids: BTreeMap<Txid, TxHeight> = BTreeMap::new();
        let mut i: usize = 0;
        while i < transactions.len()
            invariant
                i <= transactions.len(),
                forall|txid: Txid| #[trigger]
                    txids@.contains_key(txid) <==> exists|j: int|
                        0 <= j < i && transactions[j] == txid,
                forall|txid: Txid| #[trigger]
                    txids@.contains_key(txid) ==> txids@[txid] == TxHeight::Confirmed(
                        block_id.height,
                    ),
            decreases transactions.len() - i,
        {
            txids.insert(transactions[i], TxHeight::Confirmed(block_id.height));
            i += 1;
        }
        let mut checkpoint = Update {
            txids,
            last_valid: self.latest_checkpoint(),
            invalidate: None,
            new_tip: block_id,
        };

        let matching_checkpoint = self.checkpoint_at(block_id.height);
        if let Some(id) = matching_checkpoint {
            if id != block_id {
                checkpoint.invalidate = matching_checkpoint;
            }
        }
        assert(checkpoint@ =~= self@.block_update(block_id, transactions@));
        self.apply_update(checkpoint)
    }

    /// The confirmed txids, in increasing confirmations.
    pub fn iter_confirmed_txids(&self) -> (list: Vec<(u32, Txid)>)
        requires
            self.wf(),
        ensures
            self@.lists_confirmed(list@),
    {
        let all = set_items(&self.txid_by_height);
        let mut list: Vec<(u32, Txid)> = Vec::new();
        let mut i: usize = all.len();
        while i > 0
            invariant
                i <= all.len(),
                list.len() == all.len() - i,
                forall|j: int| 0 <= j < list.len() ==> list[j] == all[all.len() - 1 - j],
            decreases i,
        {
            i -= 1;
            list.push(all[i]);
        }
        proof {
            assert forall|h: u32, txid: Txid| #[trigger]
                list@.contains((h, txid)) <==> self@.confirmed.contains_key(txid)
                    && self@.confirmed[txid] == h by {
                assert(self.txid_by_height@.contains((h, txid)) <==> all@.contains((h, txid)));
                if all@.contains((h, txid)) {
                    let k = choose|k: int| 0 <= k < all.len() && all[k] == (h, txid);
                    assert(list[all.len() - 1 - k] == (h, txid));
                }
            }
        }
        list
    }

    /// The unconfirmed txids.
    pub fn iter_mempool_txids(&self) -> (list: Vec<Txid>)
        ensures
            self@.lists_mempool(list@),
    {
        set_items(&self.mempool)
    }

    /// The unconfirmed txids, and after them the confirmed ones with their heights, in increasing
    /// confirmations.
    pub fn iter_txids(&self) -> (list: Vec<(Option<u32>, Txid)>)
        requires
            self.wf(),
        ensures
            self@.lists_txids(list@),
    {
        let mempool = self.iter_mempool_txids();
        let confirmed = self.iter_confirmed_txids();
        let mut list: Vec<(Option<u32>, Txid)> = Vec::new();
        for i in 0..mempool.len()
            invariant
                list.len() == i,
                forall|j: int| 0 <= j < i ==> list[j] == (None::<u32>, mempool[j]),
        {
            list.push((None, mempool[i]));
        }
        for i in 0..confirmed.len()
            invariant
                list.len() == mempool.len() + i,
                forall|j: int| 0 <= j < mempool.len() ==> list[j] == (None::<u32>, mempool[j]),
                forall|j: int|
                    0 <= j < i ==> list[mempool.len() + j] == (Some(confirmed[j].0), confirmed[j].1),
        {
            list.push((Some(confirmed[i].0), confirmed[i].1));
        }
        proof {
            assert(list@ =~= mempool@.map_values(|txid: Txid| (None::<u32>, txid))
                + confirmed@.map_values(|entry: (u32, Txid)| (Some(entry.0), entry.1)));
        }
        list
    }

    /// What the chain and `graph` know of the output at `outpoint`: where the chain sees its
    /// transaction, and which confirmed transaction spends it.
    pub fn full_txout(&self, graph: &TxGraph, outpoint: OutPoint) -> (full: Option<FullTxOut>)
        requires
            self@.transaction_height(outpoint.txid) is Some && graph.txouts@.contains_key(
                outpoint.key(),
            ) ==> self@.no_double_spend(graph.spenders(outpoint)),
        ensures
            full is Some <==> self@.transaction_height(outpoint.txid) is Some
                && graph.txouts@.contains_key(outpoint.key()),
            full matches Some(found) ==> {
                &&& found.outpoint == outpoint
                &&& found.txout@ == graph.txouts@[outpoint.key()]@
                &&& Some(found.height) == self@.transaction_height(outpoint.txid)
                &&& found.spent_by == self@.confirmed_spender(graph.spenders(outpoint))
            },
            full is Some <==> (self@.mempool.contains(outpoint.txid)
                || self@.confirmed.contains_key(outpoint.txid)) && graph.txouts@.contains_key(
                (outpoint.txid, outpoint.vout),
            ),
            full matches Some(found) ==> {
                let key = (outpoint.txid, outpoint.vout);
                &&& found.txout.value == graph.txouts@[key].value
                &&& found.txout.script_pubkey@ == graph.txouts@[key].script_pubkey@
                &&& found.height == if self@.mempool.contains(outpoint.txid) {
                    TxHeight::Unconfirmed
                } else {
                    TxHeight::Confirmed(self@.confirmed[outpoint.txid])
                }
                &&& forall|txid: Txid| #[trigger]
                    self@.confirmed.contains_key(txid) && graph.spends@.contains_key(key)
                        && graph.spends@[key]@.contains(txid) ==> found.spent_by == Some(txid)
                &&& found.spent_by matches Some(txid) ==> self@.confirmed.contains_key(txid)
                    && graph.spends@.contains_key(key) && graph.spends@[key]@.contains(txid)
            },
    {
        let height = match self.transaction_height(&outpoint.txid) {
            Some(height) => height,
            None => {
                return None;
            },
        };
        let txout = match graph.txout(&outpoint) {
            Some(txout) => txout.clone(),
            None => {
                return None;
            },
        };
        let spent_by = match graph.outspend(&outpoint) {
            Some(txids) => self.find_confirmed(txids),
            None => None,
        };
        proof {
            law_spent_output_shows_spender(self@, *graph, outpoint, spent_by);
        }
        Some(FullTxOut { outpoint, txout, height, spent_by })
    }

    /// The confirmed one of `txids`, if there is one.
    fn find_confirmed(&self, txids: &BTreeSet<Txid>) -> (found: Option<Txid>)
        requires
            self@.no_double_spend(txids@),
        ensures
            found == self@.confirmed_spender(txids@),
    {
        let list = set_items(txids);
        let mut i: usize = 0;
        while i < list.len()
            invariant
                i <= list.len(),
                lists_set(list@, txids@),
                self@.no_double_spend(txids@),
                forall|j: int|
                    0 <= j < i ==> !self@.is_confirmed_spender(txids@, #[trigger] list[j]),
            decreases list.len() - i,
        {
            let txid = list[i];
            if self.txid_to_index.contains_key(&txid) {
                assert(self@.is_confirmed_spender(txids@, txid));
                return Some(txid);
            }
            i += 1;
        }
        None
    }

    /// Sets how many checkpoints are kept from the next update on; all of them if `None`.
    pub fn set_checkpoint_limit(&mut self, limit: Option<usize>)
        requires
            old(self).wf(),
        ensures
            final(self).wf(),
            final(self)@ == (ChainView { limit, ..old(self)@ }),
    {
        self.checkpoint_limit = limit;
    }

    /// Clear the mempool list. Use with caution.
    pub fn clear_mempool(&mut self)
        requires
            old(self).wf(),
        ensures
            final(self).wf(),
            final(self)@ == (ChainView { mempool: Set::empty(), ..old(self)@ }),
    {
        self.mempool.clear()
    }

    /// Reverse everything of the Block with given hash and height.
    pub fn disconnect_block(&mut self, block_id: BlockId)
        requires
            old(self).wf(),
        ensures
            final(self).wf(),
            final(self)@ == old(self)@.disconnected(block_id),
    {
        let connected = match self.checkpoints.get(&block_id.height) {
            Some(checkpoint_hash) => *checkpoint_hash == block_id.hash,
            None => false,
        };
        if connected {
            // Can't guarantee that mempool is consistent with chain after we disconnect a block so we
            // clear it.
            self.invalidate_checkpoints(block_id.height);
            self.clear_mempool();
        }
    }

    /// Invalidate all checkpoints from the given height
    fn invalidate_checkpoints(&mut self, height: u32)
        requires
            old(self).wf(),
        ensures
            final(self).wf(),
            final(self)@ == old(self)@.invalidated(height),
    {
        let ghost before = *self;
        self.remove_checkpoints_from(height);

        let first_removed = (height, txid_all_zeros());
        let confirmed = set_items(&self.txid_by_height);
        let mut removed_any = false;
        let mut i: usize = 0;
        while i < confirmed.len()
            invariant
                i <= confirmed.len(),
                first_removed == (height, (0u128, 0u128)),
                lists_set(confirmed@, before.txid_by_height@),
                before.wf(),
                indexes_agree(self.txid_by_height@, self.txid_to_index@),
                self.checkpoints@ == before@.invalidated(height).checkpoints,
                self.mempool == before.mempool,
                self.checkpoint_limit == before.checkpoint_limit,
                forall|txid: Txid| #[trigger]
                    self.txid_to_index@.contains_key(txid) ==> before.txid_to_index@.contains_key(
                        txid,
                    ) && self.txid_to_index@[txid] == before.txid_to_index@[txid],
                forall|txid: Txid| #[trigger]
                    before.txid_to_index@.contains_key(txid) && before.txid_to_index@[txid] < height
                        ==> self.txid_to_index@.contains_key(txid),
                forall|j: int|
                    0 <= j < i && (#[trigger] confirmed[j]).0 >= height
                        ==> !self.txid_to_index@.contains_key(confirmed[j].1),
                removed_any <==> exists|j: int| 0 <= j < i && (#[trigger] confirmed[j]).0 >= height,
            decreases confirmed.len() - i,
        {
            let entry = confirmed[i];
            assert(before.txid_by_height@.contains(entry));
            if !is_before(&entry, &first_removed) {
                self.txid_by_height.remove(&entry);
                self.txid_to_index.remove(&entry.1);
                removed_any = true;
            }
            i += 1;
        }
        proof {
            assert forall|txid: Txid| #[trigger]
                before.txid_to_index@.contains_key(txid) && before.txid_to_index@[txid]
                    >= height implies !self.txid_to_index@.contains_key(txid) && removed_any by {
                let entry = (before.txid_to_index@[txid], txid);
                assert(before.txid_by_height@.contains(entry));
            }
            if removed_any {
                let j = choose|j: int|
                    0 <= j < confirmed.len() && (#[trigger] confirmed[j]).0 >= height;
                assert(before.txid_by_height@.contains((confirmed[j].0, confirmed[j].1)));
            }
        }
        if removed_any {
            self.mempool.clear()
        }
    }

    /// Applies a new [`Update`] to the tracker.
    #[must_use]
    pub fn apply_update(&mut self, update: Update) -> (result: Result<(), UpdateFailure>)
        requires
            old(self).wf(),
            !old(self)@.prunes_past_end(update@),
        ensures
            final(self).wf(),
            match old(self)@.rejection(update@) {
                Some(failure) => result == Err::<(), UpdateFailure>(failure) && final(self)@ == old(
                    self,
                )@,
                None => result is Ok && final(self)@ == old(self)@.updated(update@),
            },
    {
        let ghost before = self@;
        // if there is no `invalidate`, `last_valid` should be the last checkpoint in sparsechain
        // if there is `invalidate`, `last_valid` should be the checkpoint preceding `invalidate`
        let expected_last_valid = match update.invalidate {
            Some(block) => self.last_checkpoint_below(Some(block.height)),
            None => self.last_checkpoint_below(None),
        };
        if update.last_valid != expected_last_valid {
            return Err(
                UpdateFailure::Stale { got_last_valid: update.last_valid, expected_last_valid },
            );
        }
        // `new_tip.height` should be greater or equal to `last_valid.height`
        // if `new_tip.height` is equal to `last_valid.height`, the hashes should also be the same

        if let Some(last_valid) = expected_last_valid {
            if update.new_tip.height < last_valid.height || update.new_tip.height
                == last_valid.height && update.new_tip.hash != last_valid.hash {
                return Err(
                    UpdateFailure::Bogus(
                        BogusReason::LastValidConflictsNewTip {
                            new_tip: update.new_tip,
                            last_valid,
                        },
                    ),
                );
            }
        }
        match self.first_offence(&update) {
            Some(failure) => {
                return Err(failure);
            },
            None => {},
        }

        if let Some(invalid) = update.invalidate {
            self.invalidate_checkpoints(invalid.height);
        }
        // record latest checkpoint (if any)

        if !self.checkpoints.contains_key(&update.new_tip.height) {
            self.checkpoints.insert(update.new_tip.height, update.new_tip.hash);
        }

        proof {
            assert forall|txid: Txid| #[trigger]
                self@.confirmed.contains_key(txid) && update.txids@.contains_key(
                    txid,
                ) implies update.txids@[txid] == TxHeight::Confirmed(self@.confirmed[txid]) by {
                assert(!before.offends(update@, txid));
            }
        }
        self.insert_txs(&update.txids);
        proof {
            if before.limit == Some(0usize) && self@.checkpoints.contains_key(u32::MAX)
                && update.new_tip.height < u32::MAX {
                before.lemma_last_below(u32::MAX + 1, u32::MAX);
            }
        }
        self.prune_checkpoints();
        Ok(())
    }

    /// What is wrong with the first transaction of `update` with which something is, if there
    /// is one.
    fn first_offence(&self, update: &Update) -> (failure: Option<UpdateFailure>)
        ensures
            failure is None <==> forall|txid: Txid| !self@.offends(update@, txid),
            failure is Some ==> (exists|txid: Txid| self@.is_first_offender(update@, txid))
                && failure == self@.offence(
                update@,
                choose|txid: Txid| self@.is_first_offender(update@, txid),
            ),
    {
        let txids = map_entries(&update.txids);
        let mut i: usize = 0;
        while i < txids.len()
            invariant
                i <= txids.len(),
                lists_map(txids@, update.txids@),
                forall|j: int| 0 <= j < i ==> !self@.offends(update@, (#[trigger] txids[j]).0),
            decreases txids.len() - i,
        {
            let (txid, tx_height) = txids[i];
            let failure = self.check_height(update, txid, tx_height);
            if failure.is_some() {
                assert(self@.is_first_offender(update@, txid));
                return failure;
            }
            i += 1;
        }
        None
    }

    /// What is wrong with `update` seeing `txid` at `tx_height`, if anything is.
    fn check_height(&self, update: &Update, txid: Txid, tx_height: TxHeight) -> (failure: Option<
        UpdateFailure,
    >)
        requires
            update.txids@.contains_key(txid),
            update.txids@[txid] == tx_height,
        ensures
            failure == self@.offence(update@, txid),
    {
        // ensure new_height does not surpass latest checkpoint
        let surpasses = match tx_height {
            TxHeight::Confirmed(h) => h > update.new_tip.height,
            TxHeight::Unconfirmed => false,
        };
        if surpasses {
            return Some(
                UpdateFailure::Bogus(
                    BogusReason::TxHeightGreaterThanTip {
                        new_tip: update.new_tip,
                        tx: (txid, tx_height),
                    },
                ),
            );
        }
        // ensure all currently confirmed txs are still at the same height (unless, if they are
        // to be invalidated)

        match self.txid_to_index.get(&txid) {
            Some(height) => {
                // no need to check consistency if height will be invalidated
                let invalidated = match update.invalidate {
                    Some(invalid) => *height >= invalid.height,
                    None => false,
                };
                // tx is consistent if height stays the same
                if invalidated || tx_height == TxHeight::Confirmed(*height) {
                    None
                } else {
                    Some(
                        UpdateFailure::Inconsistent {
                            inconsistent_txid: txid,
                            original_height: TxHeight::Confirmed(*height),
                            update_height: tx_height,
                        },
                    )
                }
            },
            None => None,
        }
    }

    /// Records where `txids` sees its transactions. None of them is confirmed elsewhere.
    fn insert_txs(&mut self, txids: &BTreeMap<Txid, TxHeight>)
        requires
            old(self).wf(),
            forall|txid: Txid| #[trigger]
                old(self)@.confirmed.contains_key(txid) && txids@.contains_key(txid)
                    ==> txids@[txid] == TxHeight::Confirmed(old(self)@.confirmed[txid]),
        ensures
            final(self).wf(),
            final(self)@ == old(self)@.with_txs(txids@),
    {
        let ghost before = *self;
        let list = map_entries(txids);
        let mut i: usize = 0;
        while i < list.len()
            invariant
                i <= list.len(),
                lists_map(list@, txids@),
                before.wf(),
                self.wf(),
                self.checkpoints == before.checkpoints,
                self.checkpoint_limit == before.checkpoint_limit,
                forall|txid: Txid| #[trigger]
                    before@.confirmed.contains_key(txid) && txids@.contains_key(txid)
                        ==> txids@[txid] == TxHeight::Confirmed(before@.confirmed[txid]),
                forall|j: int|
                    0 <= j < i ==> self@.transaction_height((#[trigger] list[j]).0) == Some(
                        list[j].1,
                    ),
                forall|txid: Txid|
                    !is_listed(list@, i as int, txid) ==> #[trigger] self@.transaction_height(txid)
                        == before@.transaction_height(txid),
            decreases list.len() - i,
        {
            let (txid, conf) = list[i];
            let ghost prev = *self;
            match conf {
                TxHeight::Confirmed(height) => {
                    if self.txid_by_height.insert((height, txid)) {
                        self.txid_to_index.insert(txid, height);
                        self.mempool.remove(&txid);
                    }
                },
                TxHeight::Unconfirmed => {
                    self.mempool.insert(txid);
                },
            }
            assert(forall|other: Txid|
                other != txid ==> #[trigger] self@.transaction_height(other)
                    == prev@.transaction_height(other));
            i += 1;
        }
        proof {
            lemma_heights_fix_txs(self@, before@.with_txs(txids@));
        }
    }

    /// Discards the earliest checkpoints above the limit, and returns them if there are any.
    fn prune_checkpoints(&mut self) -> (pruned: Option<BTreeMap<u32, BlockHash>>)
        requires
            old(self).wf(),
            old(self)@.limit == Some(0usize) ==> !old(self)@.checkpoints.contains_key(u32::MAX),
        ensures
            final(self).wf(),
            final(self)@ == old(self)@.pruned(),
            pruned is Some <==> (old(self)@.limit matches Some(n) && old(self)@.checkpoints.len()
                > n),
            pruned matches Some(map) ==> map@ == old(self)@.checkpoints.remove_keys(
                final(self)@.checkpoints.dom(),
            ),
    {
        let ghost before = *self;
        let list = map_entries(&self.checkpoints);
        proof {
            assert forall|i: int| 0 <= i < list.len() implies before@.above(
                (#[trigger] list[i]).0,
            ).len() == list.len() - 1 - i by {
                lemma_count_above(before@, list@, i);
            }
            lemma_count_all(before@, list@);
        }
        let limit: usize = match self.checkpoint_limit {
            Some(limit) => limit,
            None => {
                return None;
            },
        };
        if list.len() <= limit {
            return None;
        }
        // find last height to be pruned

        let last: usize = list.len() - 1 - limit;
        let last_height: u32 = list[last].0;
        proof {
            if limit > 0 {
                assert(list[last as int].0 < list[last + 1].0);
            }
        }
        // first height to be kept
        let keep_height: u32 = last_height + 1;

        let mut split: BTreeMap<u32, BlockHash> = BTreeMap::new();
        let mut i: usize = 0;
        while i < list.len()
            invariant
                i <= list.len(),
                lists_map(list@, before.checkpoints@),
                self.txid_by_height == before.txid_by_height,
                self.txid_to_index == before.txid_to_index,
                self.mempool == before.mempool,
                self.checkpoint_limit == before.checkpoint_limit,
                forall|h: u32| #[trigger]
                    self.checkpoints@.contains_key(h) ==> before.checkpoints@.contains_key(h)
                        && self.checkpoints@[h] == before.checkpoints@[h],
                forall|h: u32| #[trigger]
                    split@.contains_key(h) ==> before.checkpoints@.contains_key(h) && split@[h]
                        == before.checkpoints@[h] && h < keep_height,
                forall|h: u32| #[trigger]
                    before.checkpoints@.contains_key(h) && h >= keep_height
                        ==> self.checkpoints@.contains_key(h),
                forall|j: int|
                    0 <= j < i && (#[trigger] list[j]).0 < keep_height
                        ==> !self.checkpoints@.contains_key(list[j].0) && split@.contains_key(
                        list[j].0,
                    ),
            decreases list.len() - i,
        {
            let (height, hash) = list[i];
            if height < keep_height {
                self.checkpoints.remove(&height);
                split.insert(height, hash);
            }
            i += 1;
        }
        Some(split)
    }

    /// Removes the checkpoints at `height` and above.
    fn remove_checkpoints_from(&mut self, height: u32)
        ensures
            final(self).checkpoints@ == old(self)@.invalidated(height).checkpoints,
            final(self).txid_by_height == old(self).txid_by_height,
            final(self).txid_to_index == old(self).txid_to_index,
            final(self).mempool == old(self).mempool,
            final(self).checkpoint_limit == old(self).checkpoint_limit,
    {
        let ghost before = *self;
        let list = map_entries(&self.checkpoints);
        let mut i: usize = 0;
        while i < list.len()
            invariant
                i <= list.len(),
                lists_map(list@, before.checkpoints@),
                self.txid_by_height == before.txid_by_height,
                self.txid_to_index == before.txid_to_index,
                self.mempool == before.mempool,
                self.checkpoint_limit == before.checkpoint_limit,
                forall|h: u32| #[trigger]
                    self.checkpoints@.contains_key(h) ==> before.checkpoints@.contains_key(h)
                        && self.checkpoints@[h] == before.checkpoints@[h],
                forall|h: u32| #[trigger]
                    before.checkpoints@.contains_key(h) && h < height
                        ==> self.checkpoints@.contains_key(h),
                forall|j: int|
                    0 <= j < i && (#[trigger] list[j]).0 >= height
                        ==> !self.checkpoints@.contains_key(list[j].0),
            decreases list.len() - i,
        {
            let h = list[i].0;
            if h >= height {
                self.checkpoints.remove(&h);
            }
            i += 1;
        }
    }
}

/// Whether `txid` is among the first `n` of `list`.
spec fn is_listed(list: Seq<(Txid, TxHeight)>, n: int, txid: Txid) -> bool {
    exists|j: int| 0 <= j < n && (#[trigger] list[j]).0 == txid
}

/// The number of checkpoints above entry `i` of the ordered list of them.
proof fn lemma_count_above(chain: ChainView, list: Seq<(u32, BlockHash)>, i: int)
    requires
        lists_map(list, chain.checkpoints),
        0 <= i < list.len(),
    ensures
        chain.above(list[i].0).len() == list.len() - 1 - i,
{
    let heights = Seq::new((list.len() - 1 - i) as nat, |k: int| list[i + 1 + k].0);
    assert forall|h: u32| heights.to_set().contains(h) <==> chain.above(list[i].0).contains(h) by {
        if chain.above(list[i].0).contains(h) {
            let j = choose|j: int| 0 <= j < list.len() && list[j] == (h, chain.checkpoints[h]);
            assert(heights[j - i - 1] == h);
        }
    }
    assert(heights.to_set() =~= chain.above(list[i].0));
    heights.unique_seq_to_set();
}

/// The number of checkpoints is the length of the ordered list of them.
proof fn lemma_count_all(chain: ChainView, list: Seq<(u32, BlockHash)>)
    requires
        lists_map(list, chain.checkpoints),
    ensures
        chain.checkpoints.len() == list.len(),
{
    let heights = Seq::new(list.len(), |k: int| list[k].0);
    assert forall|h: u32| heights.to_set().contains(h) <==> chain.checkpoints.dom().contains(h) by {
        if chain.checkpoints.contains_key(h) {
            let j = choose|j: int| 0 <= j < list.len() && list[j] == (h, chain.checkpoints[h]);
            assert(heights[j] == h);
        }
    }
    assert(heights.to_set() =~= chain.checkpoints.dom());
    heights.unique_seq_to_set();
}

/// Where a chain sees its transactions fixes which are confirmed, where, and which are not.
proof fn lemma_heights_fix_txs(a: ChainView, b: ChainView)
    requires
        a.valid(),
        forall|txid: Txid| #[trigger]
            b.mempool.contains(txid) ==> !b.confirmed.contains_key(txid),
        forall|txid: Txid| #[trigger] a.transaction_height(txid) == b.transaction_height(txid),
    ensures
        a.confirmed == b.confirmed,
        a.mempool == b.mempool,
{
    assert forall|txid: Txid| a.mempool.contains(txid) <==> b.mempool.contains(txid) by {
        assert(a.transaction_height(txid) == b.transaction_height(txid));
    }
    assert forall|txid: Txid|
        (#[trigger] a.confirmed.contains_key(txid) <==> b.confirmed.contains_key(txid)) && (
        a.confirmed.contains_key(txid) ==> a.confirmed[txid] == b.confirmed[txid]) by {
        assert(a.transaction_height(txid) == b.transaction_height(txid));
    }
}

/// Whether `a` comes before `b`: by height, then by id.
fn is_before(a: &(u32, Txid), b: &(u32, Txid)) -> (before: bool)
    ensures
        before == confirmed_before(*a, *b),
{
    a.0 < b.0 || a.0 == b.0 && (a.1.0 < b.1.0 || a.1.0 == b.1.0 && a.1.1 < b.1.1)
}

/// The contents of an update are its fields.
pub proof fn law_update_contents(update: Update)
    ensures
        update@.txids == update.txids@,
        update@.last_valid == update.last_valid,
        update@.invalidate == update.invalidate,
        update@.new_tip == update.new_tip,
{
}

} // verus!
