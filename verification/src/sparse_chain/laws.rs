//! What holds of every sparse chain and every update.

use vstd::prelude::*;

use super::changes::changed;
use super::view::{ChainView, UpdateView};
use super::{HeightBound, UpdateFailure};
use crate::block::{BlockId, TxHeight};
use crate::hash::Txid;

verus! {

impl ChainView {
    /// Where some checkpoint lies below a bound, a last one does.
    pub(crate) proof fn lemma_last_below_exists(self, bound: int, height: u32)
        requires
            self.checkpoints.contains_key(height),
            height < bound,
        ensures
            self.last_below(bound) is Some,
            height <= self.last_below(bound)->0.height < bound,
            self.checkpoint_at(self.last_below(bound)->0.height) == self.last_below(bound),
        decreases bound - height,
    {
        if !self.is_last_below(bound, height) {
            let higher = choose|h: u32| #[trigger]
                self.checkpoints.contains_key(h) && h < bound && h > height;
            self.lemma_last_below_exists(bound, higher);
        }
    }

    /// The last checkpoint below a bound is a checkpoint, and no other below the bound is later.
    pub(crate) proof fn lemma_last_below_is_last(self, bound: int)
        ensures
            self.last_below(bound) matches Some(id) ==> self.is_last_below(bound, id.height)
                && self.checkpoint_at(id.height) == Some(id),
            self.last_below(bound) is None ==> forall|h: u32| #[trigger]
                self.checkpoints.contains_key(h) ==> h >= bound,
    {
        if self.last_below(bound) is None {
            assert forall|h: u32| #[trigger] self.checkpoints.contains_key(h) implies h >= bound by {
                if h < bound {
                    self.lemma_last_below_exists(bound, h);
                }
            }
        }
    }

    /// Where something is wrong with a transaction of an update, something is with a first one.
    pub(crate) proof fn lemma_first_offender_exists(self, update: UpdateView, txid: Txid)
        requires
            self.offends(update, txid),
        ensures
            exists|first: Txid| self.is_first_offender(update, first),
        decreases txid.0, txid.1,
    {
        if !self.is_first_offender(update, txid) {
            let earlier = choose|other: Txid| #[trigger]
                self.offends(update, other) && !super::view::txid_le(txid, other);
            self.lemma_first_offender_exists(update, earlier);
        }
    }

    /// What holds of an update that can be applied.
    pub(crate) proof fn lemma_accepted(self, update: UpdateView)
        requires
            self.rejection(update) is None,
        ensures
            update.last_valid == self.expected_last_valid(update),
            update.last_valid matches Some(id) ==> id.height <= update.new_tip.height && (id.height
                == update.new_tip.height ==> id == update.new_tip),
            forall|txid: Txid| !self.offends(update, txid),
    {
        assert forall|txid: Txid| !self.offends(update, txid) by {
            if self.offends(update, txid) {
                self.lemma_first_offender_exists(update, txid);
            }
        }
    }

    /// The checkpoints that an accepted update leaves standing lie below its tip, or are its tip.
    pub(crate) proof fn lemma_discarded_below_tip(self, update: UpdateView, height: u32)
        requires
            self.rejection(update) is None,
            self.discarded(update).checkpoints.contains_key(height),
        ensures
            self.checkpoints.contains_key(height),
            self.discarded(update).checkpoints[height] == self.checkpoints[height],
            height <= update.new_tip.height,
            height == update.new_tip.height ==> self.checkpoints[height] == update.new_tip.hash,
    {
        let bound: int = match update.invalidate {
            Some(block) => block.height as int,
            None => u32::MAX + 1,
        };
        self.lemma_last_below_exists(bound, height);
    }
}

/// No transaction is lost or doubled: an accepted update turns a valid chain into a valid chain.
pub proof fn law_update_keeps_validity(chain: ChainView, update: UpdateView)
    requires
        chain.valid(),
        update.txids.dom().finite(),
        chain.rejection(update) is None,
    ensures
        chain.updated(update).valid(),
{
    chain.lemma_accepted(update);
    let kept = chain.discarded(update);
    let tipped = kept.with_tip(update.new_tip);
    let after = chain.updated(update);
    vstd::set_lib::lemma_set_subset_finite(chain.checkpoints.dom(), kept.checkpoints.dom());
    vstd::set_lib::lemma_set_subset_finite(tipped.checkpoints.dom(), after.checkpoints.dom());
    let txids = chain.confirmed.dom().union(update.txids.dom());
    vstd::set_lib::lemma_set_subset_finite(txids, after.confirmed.dom());
    let pending = chain.mempool.union(update.txids.dom());
    vstd::set_lib::lemma_set_subset_finite(pending, after.mempool);
    assert forall|txid: Txid| #[trigger] after.mempool.contains(
        txid,
    ) implies !after.confirmed.contains_key(txid) by {
        if update.txids.contains_key(txid) {
            assert(!chain.offends(update, txid));
        }
    }
}

/// After an update, the chain sees each transaction of the update where the update does, and
/// every other one where it saw it once what the update invalidates was gone.
pub proof fn law_update_sets_heights(chain: ChainView, update: UpdateView, txid: Txid)
    requires
        chain.valid(),
        chain.rejection(update) is None,
    ensures
        update.txids.contains_key(txid) ==> chain.updated(update).transaction_height(txid) == Some(
            update.txids[txid],
        ),
        !update.txids.contains_key(txid) ==> chain.updated(update).transaction_height(txid)
            == chain.discarded(update).transaction_height(txid),
{
}

/// A transaction confirmed below what an update invalidates stays where it is.
pub proof fn law_update_keeps_confirmed(chain: ChainView, update: UpdateView, txid: Txid)
    requires
        chain.valid(),
        chain.rejection(update) is None,
        chain.confirmed.contains_key(txid),
        !chain.is_invalidated(update, txid),
    ensures
        chain.updated(update).transaction_height(txid) == Some(
            TxHeight::Confirmed(chain.confirmed[txid]),
        ),
{
    chain.lemma_accepted(update);
    if update.txids.contains_key(txid) {
        assert(!chain.offends(update, txid));
    }
}

/// Transactions that an accepted update introduces do not surpass its tip.
pub proof fn law_introduced_within_tip(chain: ChainView, update: UpdateView, txid: Txid, height: u32)
    requires
        chain.rejection(update) is None,
        update.txids.contains_key(txid),
        update.txids[txid] == TxHeight::Confirmed(height),
    ensures
        height <= update.new_tip.height,
{
    chain.lemma_accepted(update);
    assert(!chain.offends(update, txid));
}

/// After an update its tip is the latest checkpoint, unless no checkpoint may be kept.
pub proof fn law_tip_is_latest(chain: ChainView, update: UpdateView)
    requires
        chain.valid(),
        chain.rejection(update) is None,
        chain.limit != Some(0usize),
    ensures
        chain.updated(update).latest_checkpoint() == Some(update.new_tip),
{
    let tip = update.new_tip;
    let tipped = chain.discarded(update).with_tip(tip);
    let after = chain.updated(update);
    assert forall|h: u32| #[trigger] tipped.checkpoints.contains_key(h) implies h <= tip.height by {
        if h != tip.height {
            chain.lemma_discarded_below_tip(update, h);
        }
    }
    if chain.discarded(update).checkpoints.contains_key(tip.height) {
        chain.lemma_discarded_below_tip(update, tip.height);
    }
    let with_txs = tipped.with_txs(update.txids);
    assert(with_txs.above(tip.height) =~= Set::empty());
    after.lemma_last_below(u32::MAX + 1, tip.height);
}

/// After an update that invalidates a checkpoint, nothing from its height on is left but what the
/// update brought.
pub proof fn law_invalidate_discards(chain: ChainView, update: UpdateView, invalid: BlockId)
    requires
        update.invalidate == Some(invalid),
    ensures
        forall|h: u32| #[trigger]
            chain.updated(update).checkpoints.contains_key(h) && h >= invalid.height ==> h
                == update.new_tip.height && chain.updated(update).checkpoints[h]
                == update.new_tip.hash,
        forall|txid: Txid| #[trigger]
            chain.updated(update).confirmed.contains_key(txid)
                && chain.updated(update).confirmed[txid] >= invalid.height
                ==> update.txids.contains_key(txid),
{
}

/// No more checkpoints stay than the limit allows, and the ones that stay are the latest: where
/// one stays, so does every later one. Where there are not too many, all stay.
pub proof fn law_pruned_within_limit(chain: ChainView, limit: usize)
    requires
        chain.valid(),
        chain.limit == Some(limit),
    ensures
        chain.pruned().checkpoints.len() <= limit,
        forall|a: u32, b: u32|
            #![trigger chain.pruned().checkpoints.contains_key(a), chain.checkpoints.contains_key(b)]
            chain.pruned().checkpoints.contains_key(a) && chain.checkpoints.contains_key(b) && a
                < b ==> chain.pruned().checkpoints.contains_key(b),
        chain.checkpoints.len() <= limit ==> chain.pruned() == chain,
{
    let kept = chain.pruned().checkpoints.dom();
    if kept.len() > 0 {
        let least = lemma_least(kept, kept.choose());
        vstd::set_lib::lemma_len_subset(kept.remove(least), chain.above(least));
    }
    assert forall|a: u32, b: u32|
        #![trigger chain.pruned().checkpoints.contains_key(a), chain.checkpoints.contains_key(b)]
        chain.pruned().checkpoints.contains_key(a) && chain.checkpoints.contains_key(b) && a
            < b implies chain.pruned().checkpoints.contains_key(b) by {
        vstd::set_lib::lemma_len_subset(chain.above(b), chain.above(a));
    }
    if chain.checkpoints.len() <= limit {
        assert forall|h: u32| #[trigger] chain.checkpoints.contains_key(h) implies chain.is_kept(
            h,
        ) by {
            vstd::set_lib::lemma_len_subset(chain.above(h), chain.checkpoints.dom().remove(h));
        }
    }
}

/// After an update there are no more checkpoints than the limit allows.
pub proof fn law_update_within_limit(chain: ChainView, update: UpdateView, limit: usize)
    requires
        chain.valid(),
        update.txids.dom().finite(),
        chain.rejection(update) is None,
        chain.limit == Some(limit),
    ensures
        chain.updated(update).checkpoints.len() <= limit,
{
    lemma_unpruned_valid(chain, update);
    law_pruned_within_limit(
        chain.discarded(update).with_tip(update.new_tip).with_txs(update.txids),
        limit,
    );
}

/// A set of heights that is not empty has a least one.
pub(crate) proof fn lemma_least(heights: Set<u32>, some: u32) -> (least: u32)
    requires
        heights.contains(some),
    ensures
        heights.contains(least),
        forall|h: u32| #[trigger] heights.contains(h) ==> least <= h,
    decreases some,
{
    if forall|h: u32| #[trigger] heights.contains(h) ==> some <= h {
        some
    } else {
        let lower = choose|h: u32| #[trigger] heights.contains(h) && h < some;
        lemma_least(heights, lower)
    }
}

/// Pruning a chain that was pruned changes nothing.
proof fn lemma_pruned_twice(chain: ChainView)
    requires
        chain.valid(),
    ensures
        chain.pruned().pruned() == chain.pruned(),
{
    let pruned = chain.pruned();
    if chain.limit is Some {
        law_pruned_within_limit(chain, chain.limit->0);
        assert forall|h: u32| #[trigger] pruned.checkpoints.contains_key(h) implies pruned.is_kept(
            h,
        ) by {
            assert(chain.above(h) =~= pruned.above(h));
        }
    }
}

/// Applying the transactions of a block a second time is accepted and changes nothing.
pub proof fn law_block_applies_once(chain: ChainView, block: BlockId, txids: Seq<Txid>)
    requires
        chain.valid(),
        chain.rejection(chain.block_update(block, txids)) is None,
    ensures
        ({
            let after = chain.updated(chain.block_update(block, txids));
            &&& after.rejection(after.block_update(block, txids)) is None
            &&& after.updated(after.block_update(block, txids)) == after
        }),
{
    let first = chain.block_update(block, txids);
    vstd::seq_lib::seq_to_set_is_finite(txids);
    if chain.limit != Some(0usize) {
        law_tip_is_latest(chain, first);
        lemma_unpruned_valid(chain, first);
        lemma_pruned_twice(chain.discarded(first).with_tip(block).with_txs(first.txids));
    }
}

/// An accepted update turns a valid chain into a valid chain before it is pruned, too.
pub(crate) proof fn lemma_unpruned_valid(chain: ChainView, update: UpdateView)
    requires
        chain.valid(),
        update.txids.dom().finite(),
        chain.rejection(update) is None,
    ensures
        chain.discarded(update).with_tip(update.new_tip).with_txs(update.txids).valid(),
{
    law_update_keeps_validity(chain, update);
    let kept = chain.discarded(update);
    vstd::set_lib::lemma_set_subset_finite(chain.checkpoints.dom(), kept.checkpoints.dom());
}

/// Disconnecting a block of the chain leaves nothing at its height or above and no unconfirmed
/// transaction, and everything below as it was. Disconnecting any other block changes nothing.
pub proof fn law_disconnect_discards(chain: ChainView, block: BlockId)
    ensures
        chain.checkpoint_at(block.height) == Some(block) ==> {
            let after = chain.disconnected(block);
            &&& forall|h: u32| #[trigger]
                after.checkpoint_at(h) == if h < block.height {
                    chain.checkpoint_at(h)
                } else {
                    None
                }
            &&& forall|txid: Txid| #[trigger]
                after.transaction_height(txid) == if chain.confirmed.contains_key(txid)
                    && chain.confirmed[txid] < block.height {
                    Some(TxHeight::Confirmed(chain.confirmed[txid]))
                } else {
                    None
                }
        },
        chain.checkpoint_at(block.height) != Some(block) ==> chain.disconnected(block) == chain,
{
}

/// Disconnecting a block that was just put on top of the chain brings back the checkpoints and
/// the confirmed transactions that were there before; no transaction is left unconfirmed.
pub proof fn law_disconnect_reverses_block(chain: ChainView, block: BlockId, txids: Seq<Txid>)
    requires
        chain.valid(),
        chain.rejection(chain.block_update(block, txids)) is None,
        forall|h: u32| #[trigger] chain.checkpoints.contains_key(h) ==> h < block.height,
        forall|txid: Txid| #[trigger]
            chain.confirmed.contains_key(txid) ==> chain.confirmed[txid] < block.height,
        chain.limit matches Some(n) ==> chain.checkpoints.len() < n,
    ensures
        chain.updated(chain.block_update(block, txids)).disconnected(block) == (ChainView {
            mempool: Set::empty(),
            ..chain
        }),
{
    let update = chain.block_update(block, txids);
    let unpruned = chain.with_tip(block).with_txs(update.txids);
    vstd::seq_lib::seq_to_set_is_finite(txids);
    lemma_unpruned_valid(chain, update);
    if chain.limit is Some {
        law_pruned_within_limit(unpruned, chain.limit->0);
    }
    chain.lemma_accepted(update);
    assert forall|txid: Txid| #[trigger] update.txids.contains_key(
        txid,
    ) implies !chain.confirmed.contains_key(txid) by {
        assert(!chain.offends(update, txid));
    }
}

/// A block at a height where the chain has another one is refused, whatever its transactions: the
/// update it makes still builds on the latest checkpoint.
pub proof fn law_conflicting_block_refused(chain: ChainView, block: BlockId, txids: Seq<Txid>)
    requires
        chain.checkpoints.contains_key(block.height),
        chain.checkpoints[block.height] != block.hash,
    ensures
        chain.rejection(chain.block_update(block, txids)) == Some(
            UpdateFailure::Stale {
                got_last_valid: chain.latest_checkpoint(),
                expected_last_valid: chain.last_below(block.height as int),
            },
        ),
{
    chain.lemma_last_below_exists(u32::MAX + 1, block.height);
}

/// Of two updates that build on the same latest checkpoint and invalidate none, the second is
/// refused once the first has moved the tip.
pub proof fn law_outdated_update_refused(chain: ChainView, first: UpdateView, second: UpdateView)
    requires
        chain.valid(),
        chain.limit != Some(0usize),
        chain.rejection(first) is None,
        first.invalidate is None,
        second.invalidate is None,
        second.last_valid == first.last_valid,
        first.last_valid != Some(first.new_tip),
    ensures
        chain.updated(first).rejection(second) == Some(
            UpdateFailure::Stale {
                got_last_valid: second.last_valid,
                expected_last_valid: Some(first.new_tip),
            },
        ),
{
    law_tip_is_latest(chain, first);
}

/// An empty chain takes an update as outdated exactly if it builds on some checkpoint.
pub proof fn law_empty_chain_builds_on_nothing(update: UpdateView)
    ensures
        ChainView::empty().rejection(update) matches Some(UpdateFailure::Stale { .. })
            <==> update.last_valid is Some,
{
}

/// An update is refused only for one of the stated reasons: it builds on the wrong checkpoint, its
/// tip contradicts that checkpoint, or something is wrong with one of its transactions.
pub proof fn law_accepted_exactly_if(chain: ChainView, update: UpdateView)
    ensures
        chain.rejection(update) is None <==> {
            &&& update.last_valid == chain.expected_last_valid(update)
            &&& update.last_valid matches Some(id) ==> id.height <= update.new_tip.height && (
            id.height == update.new_tip.height ==> id == update.new_tip)
            &&& forall|txid: Txid| !chain.offends(update, txid)
        },
{
    if chain.rejection(update) is None {
        chain.lemma_accepted(update);
    }
}

/// An update that makes no sense to one chain cannot be applied to any chain.
pub proof fn law_bogus_for_every_chain(chain: ChainView, update: UpdateView, other: ChainView)
    requires
        chain.rejection(update) matches Some(UpdateFailure::Bogus(_)),
    ensures
        other.rejection(update) is Some,
{
    if other.rejection(update) is None {
        other.lemma_accepted(update);
        let txid = choose|txid: Txid| chain.is_first_offender(update, txid);
        assert(!other.offends(update, txid));
    }
}

/// A template update that builds on the latest checkpoint is accepted exactly if its tip is that
/// checkpoint or lies above it, and all it does is to move the tip.
pub proof fn law_template_moves_tip(chain: ChainView, update: UpdateView)
    requires
        chain.valid(),
        update.txids == Map::<Txid, TxHeight>::empty(),
        update.last_valid == chain.latest_checkpoint(),
        update.invalidate is None,
    ensures
        chain.rejection(update) is None <==> (chain.latest_checkpoint() matches Some(id) ==> id
            == update.new_tip || id.height < update.new_tip.height),
        chain.rejection(update) is None ==> chain.updated(update) == chain.with_tip(
            update.new_tip,
        ).pruned(),
{
}

/// The changes from one chain to another lead from the one to the other, and there are none where
/// the chains are the same.
pub proof fn law_changes_lead_to(chain: ChainView, after: ChainView)
    ensures
        changed(chain.checkpoints, chain.checkpoint_changes(after)) == after.checkpoints,
        changed(chain.positions(), chain.tx_changes(after)) == after.positions(),
        chain.checkpoint_changes(chain).is_empty(),
        chain.tx_changes(chain).is_empty(),
{
}

/// A chain that the changes from an empty chain to another lead to holds what that one does.
pub proof fn law_rebuilt_from_changes(chain: ChainView, rebuilt: ChainView)
    requires
        chain.valid(),
        rebuilt.valid(),
        rebuilt.checkpoints == changed(
            Map::empty(),
            ChainView::empty().checkpoint_changes(chain),
        ),
        rebuilt.positions() == changed(Map::empty(), ChainView::empty().tx_changes(chain)),
    ensures
        rebuilt.checkpoints == chain.checkpoints,
        rebuilt.confirmed == chain.confirmed,
        rebuilt.mempool == chain.mempool,
{
    law_changes_lead_to(ChainView::empty(), chain);
    assert(ChainView::empty().positions() =~= Map::empty());
    assert forall|txid: Txid| #[trigger]
        rebuilt.transaction_height(txid) == chain.transaction_height(txid) by {
        assert(rebuilt.positions().contains_key(txid) <==> chain.positions().contains_key(txid));
        assert(rebuilt.positions()[txid] == chain.positions()[txid]);
    }
    super::lemma_heights_fix_txs(rebuilt, chain);
}

/// A list of all transactions holds each exactly where the chain sees it.
pub proof fn law_listed_where_seen(chain: ChainView, list: Seq<(Option<u32>, Txid)>, txid: Txid)
    requires
        chain.valid(),
        chain.lists_txids(list),
    ensures
        forall|h: u32|
            list.contains((Some(h), txid)) <==> chain.transaction_height(txid) == Some(
                TxHeight::Confirmed(h),
            ),
        list.contains((None::<u32>, txid)) <==> chain.transaction_height(txid) == Some(
            TxHeight::Unconfirmed,
        ),
{
    let (mempool, confirmed) = choose|mempool: Seq<Txid>, confirmed: Seq<(u32, Txid)>|
        {
            &&& #[trigger] chain.lists_mempool(mempool)
            &&& #[trigger] chain.lists_confirmed(confirmed)
            &&& list == mempool.map_values(|txid: Txid| (None::<u32>, txid)) + confirmed.map_values(
                |entry: (u32, Txid)| (Some(entry.0), entry.1),
            )
        };
    assert forall|h: u32|
        list.contains((Some(h), txid)) <==> chain.transaction_height(txid) == Some(
            TxHeight::Confirmed(h),
        ) by {
        if list.contains((Some(h), txid)) {
            assert(confirmed.contains((h, txid)));
        }
        if chain.transaction_height(txid) == Some(TxHeight::Confirmed(h)) {
            assert(confirmed.contains((h, txid)));
            let i = choose|i: int| 0 <= i < confirmed.len() && confirmed[i] == (h, txid);
            assert(list[mempool.len() + i] == (Some(h), txid));
        }
    }
    if list.contains((None::<u32>, txid)) {
        assert(mempool.contains(txid));
    }
    if chain.transaction_height(txid) == Some(TxHeight::Unconfirmed) {
        assert(mempool.contains(txid));
        let i = choose|i: int| 0 <= i < mempool.len() && mempool[i] == txid;
        assert(list[i] == (None::<u32>, txid));
    }
}

/// A list of all transactions holds each only once: none is confirmed at two heights, and none is
/// both confirmed and unconfirmed.
pub proof fn law_listed_once(chain: ChainView, list: Seq<(Option<u32>, Txid)>)
    requires
        chain.valid(),
        chain.lists_txids(list),
    ensures
        forall|i: int, j: int| 0 <= i < j < list.len() ==> list[i].1 != list[j].1,
{
    let (mempool, confirmed) = choose|mempool: Seq<Txid>, confirmed: Seq<(u32, Txid)>|
        {
            &&& #[trigger] chain.lists_mempool(mempool)
            &&& #[trigger] chain.lists_confirmed(confirmed)
            &&& list == mempool.map_values(|txid: Txid| (None::<u32>, txid)) + confirmed.map_values(
                |entry: (u32, Txid)| (Some(entry.0), entry.1),
            )
        };
    assert forall|i: int, j: int| 0 <= i < j < list.len() implies list[i].1 != list[j].1 by {
        if j >= mempool.len() {
            let later = confirmed[j - mempool.len()];
            assert(confirmed.contains((later.0, later.1)));
            if i < mempool.len() {
                assert(mempool.contains(mempool[i]));
            } else {
                let earlier = confirmed[i - mempool.len()];
                assert(confirmed.contains((earlier.0, earlier.1)));
                assert(super::view::confirmed_before(later, earlier));
            }
        }
    }
}

/// A list of the confirmed transactions holds each exactly at the height where the chain sees it.
pub proof fn law_confirmed_listed_where_seen(
    chain: ChainView,
    list: Seq<(u32, Txid)>,
    height: u32,
    txid: Txid,
)
    requires
        chain.valid(),
        chain.lists_confirmed(list),
    ensures
        list.contains((height, txid)) <==> chain.transaction_height(txid) == Some(
            TxHeight::Confirmed(height),
        ),
{
}

/// Whether an update is accepted or refused, afterwards a list of all transactions holds each only
/// once, and a list of the confirmed ones holds each exactly where the chain sees it.
pub proof fn law_listed_once_after_update(
    chain: ChainView,
    update: UpdateView,
    after: ChainView,
    all: Seq<(Option<u32>, Txid)>,
    confirmed: Seq<(u32, Txid)>,
)
    requires
        chain.valid(),
        update.txids.dom().finite(),
        after == match chain.rejection(update) {
            Some(_) => chain,
            None => chain.updated(update),
        },
        after.lists_txids(all),
        after.lists_confirmed(confirmed),
    ensures
        forall|i: int, j: int| 0 <= i < j < all.len() ==> all[i].1 != all[j].1,
        forall|height: u32, txid: Txid| #[trigger]
            confirmed.contains((height, txid)) <==> after.transaction_height(txid) == Some(
                TxHeight::Confirmed(height),
            ),
{
    if chain.rejection(update) is None {
        law_update_keeps_validity(chain, update);
    }
    law_listed_once(after, all);
    assert forall|height: u32, txid: Txid| #[trigger]
        confirmed.contains((height, txid)) <==> after.transaction_height(txid) == Some(
            TxHeight::Confirmed(height),
        ) by {
        law_confirmed_listed_where_seen(after, confirmed, height, txid);
    }
}

/// A list of what is in a checkpoint is a part of the list of all confirmed transactions: the part
/// at the height of the checkpoint.
pub proof fn law_checkpoint_lists_its_height(
    chain: ChainView,
    height: u32,
    list: Seq<(u32, Txid)>,
    all: Seq<(u32, Txid)>,
)
    requires
        chain.lists_confirmed_at(height, list),
        chain.lists_confirmed(all),
    ensures
        forall|entry: (u32, Txid)| #[trigger]
            list.contains(entry) <==> all.contains(entry) && entry.0 == height,
{
    assert forall|entry: (u32, Txid)| #[trigger]
        list.contains(entry) <==> all.contains(entry) && entry.0 == height by {
        assert(list.contains((entry.0, entry.1)) <==> all.contains((entry.0, entry.1)) && entry.0
            == height);
    }
}

/// The latest checkpoint is the last of the list of all checkpoints.
pub proof fn law_latest_listed_last(chain: ChainView, list: Seq<BlockId>)
    requires
        chain.lists_checkpoints(HeightBound::Unbounded, HeightBound::Unbounded, list),
    ensures
        chain.latest_checkpoint() == if list.len() == 0 {
            None
        } else {
            Some(list.last())
        },
{
    chain.lemma_last_below_is_last(u32::MAX + 1);
    if chain.latest_checkpoint() is Some {
        assert(list.contains(chain.latest_checkpoint()->0));
    }
    if list.len() > 0 {
        assert(list.contains(list.last()));
    }
}

} // verus!
