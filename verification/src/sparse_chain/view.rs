//! What a sparse chain holds, what an update asks of it, and what comes of the update.

use vstd::prelude::*;

use super::{BogusReason, HeightBound, UpdateFailure};
use crate::block::{BlockId, TxHeight};
use crate::hash::{BlockHash, Txid};

verus! {

/// The contents of a sparse chain.
#[verifier::ext_equal]
pub struct ChainView {
    /// The hash of each checkpoint, by its height.
    pub checkpoints: Map<u32, BlockHash>,
    /// The height of each confirmed transaction.
    pub confirmed: Map<Txid, u32>,
    /// The unconfirmed transactions.
    pub mempool: Set<Txid>,
    /// How many checkpoints are kept.
    pub limit: Option<usize>,
}

/// The contents of an update.
#[verifier::ext_equal]
pub struct UpdateView {
    /// Where the update sees each of its transactions.
    pub txids: Map<Txid, TxHeight>,
    /// The checkpoint that the update builds on.
    pub last_valid: Option<BlockId>,
    /// The checkpoint from which on the chain is discarded.
    pub invalidate: Option<BlockId>,
    /// The block up to which the update speaks.
    pub new_tip: BlockId,
}

/// The order of transaction ids: that of their bytes.
pub open spec fn txid_le(a: Txid, b: Txid) -> bool {
    a.0 < b.0 || a.0 == b.0 && a.1 <= b.1
}

/// The order of confirmed transactions: by height, then by id.
pub open spec fn confirmed_before(a: (u32, Txid), b: (u32, Txid)) -> bool {
    a.0 < b.0 || a.0 == b.0 && a.1 != b.1 && txid_le(a.1, b.1)
}

impl ChainView {
    /// The chain that knows nothing.
    pub open spec fn empty() -> ChainView {
        ChainView {
            checkpoints: Map::empty(),
            confirmed: Map::empty(),
            mempool: Set::empty(),
            limit: None,
        }
    }

    /// What holds of every chain: it is finite, and no transaction is both confirmed and
    /// unconfirmed.
    pub open spec fn valid(self) -> bool {
        &&& self.checkpoints.dom().finite()
        &&& self.confirmed.dom().finite()
        &&& self.mempool.finite()
        &&& forall|txid: Txid| #[trigger]
            self.mempool.contains(txid) ==> !self.confirmed.contains_key(txid)
    }

    /// The checkpoint at `height`, if there is one.
    pub open spec fn checkpoint_at(self, height: u32) -> Option<BlockId> {
        if self.checkpoints.contains_key(height) {
            Some(BlockId { height, hash: self.checkpoints[height] })
        } else {
            None
        }
    }

    /// Whether `height` is that of the last checkpoint below `bound`.
    pub open spec fn is_last_below(self, bound: int, height: u32) -> bool {
        &&& self.checkpoints.contains_key(height)
        &&& height < bound
        &&& forall|h: u32| #[trigger]
            self.checkpoints.contains_key(h) && h < bound ==> h <= height
    }

    /// The last checkpoint below `bound`, if there is one.
    pub open spec fn last_below(self, bound: int) -> Option<BlockId> {
        if exists|h: u32| self.is_last_below(bound, h) {
            self.checkpoint_at(choose|h: u32| self.is_last_below(bound, h))
        } else {
            None
        }
    }

    /// There is only one last checkpoint below a bound.
    pub proof fn lemma_last_below(self, bound: int, height: u32)
        requires
            self.is_last_below(bound, height),
        ensures
            self.last_below(bound) == self.checkpoint_at(height),
    {
    }

    /// The last checkpoint of all, if there is one.
    pub open spec fn latest_checkpoint(self) -> Option<BlockId> {
        self.last_below(u32::MAX + 1)
    }

    /// Where the chain sees a transaction, if it does.
    pub open spec fn transaction_height(self, txid: Txid) -> Option<TxHeight> {
        if self.mempool.contains(txid) {
            Some(TxHeight::Unconfirmed)
        } else if self.confirmed.contains_key(txid) {
            Some(TxHeight::Confirmed(self.confirmed[txid]))
        } else {
            None
        }
    }

    /// Where the chain sees each of its transactions.
    pub open spec fn positions(self) -> Map<Txid, TxHeight> {
        Map::new(
            |txid: Txid| self.transaction_height(txid) is Some,
            |txid: Txid| self.transaction_height(txid)->0,
        )
    }

    /// The checkpoints that are not the same in `after`, as they are there; `None` where there
    /// is none.
    pub open spec fn checkpoint_changes(self, after: ChainView) -> Map<u32, Option<BlockHash>> {
        Map::new(
            |h: u32| self.checkpoint_at(h) != after.checkpoint_at(h),
            |h: u32|
                if after.checkpoints.contains_key(h) {
                    Some(after.checkpoints[h])
                } else {
                    None
                },
        )
    }

    /// The transactions that `after` does not see where this chain does, as it sees them; `None`
    /// where it does not see one at all.
    pub open spec fn tx_changes(self, after: ChainView) -> Map<Txid, Option<TxHeight>> {
        Map::new(
            |txid: Txid| self.transaction_height(txid) != after.transaction_height(txid),
            |txid: Txid| after.transaction_height(txid),
        )
    }

    /// Whether `list` holds the checkpoints from `start` to `end`, earliest first.
    pub open spec fn lists_checkpoints(
        self,
        start: HeightBound,
        end: HeightBound,
        list: Seq<BlockId>,
    ) -> bool {
        &&& forall|i: int, j: int|
            #![trigger list[i], list[j]]
            0 <= i < j < list.len() ==> list[i].height < list[j].height
        &&& forall|id: BlockId| #[trigger]
            list.contains(id) <==> self.checkpoint_at(id.height) == Some(id) && start.is_start_of(
                id.height,
            ) && end.is_end_of(id.height)
    }

    /// Whether `list` holds the transactions confirmed at `height`, in increasing order.
    pub open spec fn lists_confirmed_at(self, height: u32, list: Seq<(u32, Txid)>) -> bool {
        &&& forall|i: int, j: int|
            #![trigger list[i], list[j]]
            0 <= i < j < list.len() ==> confirmed_before(list[i], list[j])
        &&& forall|h: u32, txid: Txid| #[trigger]
            list.contains((h, txid)) <==> self.confirmed.contains_key(txid) && self.confirmed[txid]
                == h && h == height
    }

    /// Whether `list` holds the confirmed transactions, latest first.
    pub open spec fn lists_confirmed(self, list: Seq<(u32, Txid)>) -> bool {
        &&& forall|i: int, j: int|
            #![trigger list[i], list[j]]
            0 <= i < j < list.len() ==> confirmed_before(list[j], list[i])
        &&& forall|h: u32, txid: Txid| #[trigger]
            list.contains((h, txid)) <==> self.confirmed.contains_key(txid) && self.confirmed[txid]
                == h
    }

    /// Whether `list` holds the unconfirmed transactions, each once.
    pub open spec fn lists_mempool(self, list: Seq<Txid>) -> bool {
        &&& list.no_duplicates()
        &&& forall|txid: Txid| #[trigger] list.contains(txid) <==> self.mempool.contains(txid)
    }

    /// Whether `list` holds the unconfirmed transactions and after them the confirmed ones,
    /// latest first.
    pub open spec fn lists_txids(self, list: Seq<(Option<u32>, Txid)>) -> bool {
        exists|mempool: Seq<Txid>, confirmed: Seq<(u32, Txid)>|
            {
                &&& #[trigger] self.lists_mempool(mempool)
                &&& #[trigger] self.lists_confirmed(confirmed)
                &&& list == mempool.map_values(|txid: Txid| (None::<u32>, txid))
                    + confirmed.map_values(|entry: (u32, Txid)| (Some(entry.0), entry.1))
            }
    }

    /// Whether `txid` is confirmed and among `spenders`.
    pub open spec fn is_confirmed_spender(self, spenders: Set<Txid>, txid: Txid) -> bool {
        spenders.contains(txid) && self.confirmed.contains_key(txid)
    }

    /// Whether no two of `spenders` are confirmed.
    pub open spec fn no_double_spend(self, spenders: Set<Txid>) -> bool {
        forall|a: Txid, b: Txid| #[trigger]
            self.is_confirmed_spender(spenders, a) && #[trigger] self.is_confirmed_spender(
                spenders,
                b,
            ) ==> a == b
    }

    /// The confirmed one of `spenders`, if there is one.
    pub open spec fn confirmed_spender(self, spenders: Set<Txid>) -> Option<Txid> {
        if exists|txid: Txid| self.is_confirmed_spender(spenders, txid) {
            Some(choose|txid: Txid| self.is_confirmed_spender(spenders, txid))
        } else {
            None
        }
    }

    /// The checkpoint that an update has to build on: the one before the first that it
    /// invalidates, or the latest if it invalidates none.
    pub open spec fn expected_last_valid(self, update: UpdateView) -> Option<BlockId> {
        match update.invalidate {
            Some(block) => self.last_below(block.height as int),
            None => self.latest_checkpoint(),
        }
    }

    /// Whether the height at which `txid` is confirmed goes when `update` is applied.
    pub open spec fn is_invalidated(self, update: UpdateView, txid: Txid) -> bool {
        update.invalidate matches Some(block) && self.confirmed[txid] >= block.height
    }

    /// What is wrong with where `update` sees `txid`, if anything is.
    pub open spec fn offence(self, update: UpdateView, txid: Txid) -> Option<UpdateFailure> {
        let seen = update.txids[txid];
        if seen matches TxHeight::Confirmed(h) && h > update.new_tip.height {
            Some(
                UpdateFailure::Bogus(
                    BogusReason::TxHeightGreaterThanTip {
                        new_tip: update.new_tip,
                        tx: (txid, seen),
                    },
                ),
            )
        } else if self.confirmed.contains_key(txid) && !self.is_invalidated(update, txid) && seen
            != TxHeight::Confirmed(self.confirmed[txid]) {
            Some(
                UpdateFailure::Inconsistent {
                    inconsistent_txid: txid,
                    original_height: TxHeight::Confirmed(self.confirmed[txid]),
                    update_height: seen,
                },
            )
        } else {
            None
        }
    }

    /// Whether `update` holds `txid` and something is wrong with where it sees it.
    pub open spec fn offends(self, update: UpdateView, txid: Txid) -> bool {
        update.txids.contains_key(txid) && self.offence(update, txid) is Some
    }

    /// Whether `txid` is the first transaction of `update` with which something is wrong.
    pub open spec fn is_first_offender(self, update: UpdateView, txid: Txid) -> bool {
        &&& self.offends(update, txid)
        &&& forall|other: Txid| #[trigger] self.offends(update, other) ==> txid_le(txid, other)
    }

    /// Why `update` cannot be applied, or `None` if it can.
    pub open spec fn rejection(self, update: UpdateView) -> Option<UpdateFailure> {
        let expected = self.expected_last_valid(update);
        if update.last_valid != expected {
            Some(
                UpdateFailure::Stale {
                    got_last_valid: update.last_valid,
                    expected_last_valid: expected,
                },
            )
        } else if expected matches Some(last_valid) && (update.new_tip.height < last_valid.height
            || update.new_tip.height == last_valid.height && update.new_tip.hash
            != last_valid.hash) {
            Some(
                UpdateFailure::Bogus(
                    BogusReason::LastValidConflictsNewTip {
                        new_tip: update.new_tip,
                        last_valid: expected->0,
                    },
                ),
            )
        } else if exists|txid: Txid| self.is_first_offender(update, txid) {
            self.offence(update, choose|txid: Txid| self.is_first_offender(update, txid))
        } else {
            None
        }
    }

    /// The chain without what lies at `height` or above. Where a transaction goes, so do all
    /// unconfirmed ones, which may depend on it.
    pub open spec fn invalidated(self, height: u32) -> ChainView {
        ChainView {
            checkpoints: Map::new(
                |h: u32| self.checkpoints.contains_key(h) && h < height,
                |h: u32| self.checkpoints[h],
            ),
            confirmed: Map::new(
                |txid: Txid| self.confirmed.contains_key(txid) && self.confirmed[txid] < height,
                |txid: Txid| self.confirmed[txid],
            ),
            mempool: if exists|txid: Txid| #[trigger]
                self.confirmed.contains_key(txid) && self.confirmed[txid] >= height {
                Set::empty()
            } else {
                self.mempool
            },
            limit: self.limit,
        }
    }

    /// The chain with a checkpoint at `tip`, unless it has one at that height.
    pub open spec fn with_tip(self, tip: BlockId) -> ChainView {
        ChainView {
            checkpoints: if self.checkpoints.contains_key(tip.height) {
                self.checkpoints
            } else {
                self.checkpoints.insert(tip.height, tip.hash)
            },
            ..self
        }
    }

    /// The chain that sees the transactions of `txids` where that does.
    pub open spec fn with_txs(self, txids: Map<Txid, TxHeight>) -> ChainView {
        ChainView {
            confirmed: Map::new(
                |txid: Txid|
                    self.confirmed.contains_key(txid) || txids.contains_key(txid)
                        && txids[txid] is Confirmed,
                |txid: Txid|
                    if txids.contains_key(txid) && txids[txid] is Confirmed {
                        txids[txid]->Confirmed_0
                    } else {
                        self.confirmed[txid]
                    },
            ),
            mempool: Set::new(
                |txid: Txid|
                    if txids.contains_key(txid) {
                        txids[txid] is Unconfirmed
                    } else {
                        self.mempool.contains(txid)
                    },
            ),
            ..self
        }
    }

    /// The heights of the checkpoints above `height`.
    pub open spec fn above(self, height: u32) -> Set<u32> {
        self.checkpoints.dom().filter(|h: u32| h > height)
    }

    /// Whether the checkpoint at `height` is among the latest that the limit lets stay.
    pub open spec fn is_kept(self, height: u32) -> bool {
        self.limit matches Some(n) ==> self.above(height).len() < n
    }

    /// The chain with no more checkpoints than its limit, the latest ones.
    pub open spec fn pruned(self) -> ChainView {
        ChainView {
            checkpoints: Map::new(
                |h: u32| self.checkpoints.contains_key(h) && self.is_kept(h),
                |h: u32| self.checkpoints[h],
            ),
            ..self
        }
    }

    /// The chain without what `update` invalidates.
    pub open spec fn discarded(self, update: UpdateView) -> ChainView {
        match update.invalidate {
            Some(block) => self.invalidated(block.height),
            None => self,
        }
    }

    /// The chain to which `update` has been applied.
    pub open spec fn updated(self, update: UpdateView) -> ChainView {
        self.discarded(update).with_tip(update.new_tip).with_txs(update.txids).pruned()
    }

    /// Whether no height follows the last one that pruning discards after `update`: the limit
    /// is zero and the new tip lies at the greatest height there is.
    pub open spec fn prunes_past_end(self, update: UpdateView) -> bool {
        &&& self.rejection(update) is None
        &&& self.limit == Some(0usize)
        &&& update.new_tip.height == u32::MAX
    }

    /// The update that puts `txids` into `block`. A checkpoint with another hash at that height
    /// is invalidated.
    pub open spec fn block_update(self, block: BlockId, txids: Seq<Txid>) -> UpdateView {
        UpdateView {
            txids: Map::new(
                |txid: Txid| txids.contains(txid),
                |txid: Txid| TxHeight::Confirmed(block.height),
            ),
            last_valid: self.latest_checkpoint(),
            invalidate: match self.checkpoint_at(block.height) {
                Some(id) => if id != block {
                    Some(id)
                } else {
                    None
                },
                None => None,
            },
            new_tip: block,
        }
    }

    /// The chain without `block` and what lies above it, if it has a checkpoint there. The
    /// unconfirmed transactions go too.
    pub open spec fn disconnected(self, block: BlockId) -> ChainView {
        if self.checkpoint_at(block.height) == Some(block) {
            ChainView { mempool: Set::empty(), ..self.invalidated(block.height) }
        } else {
            self
        }
    }
}

} // verus!
