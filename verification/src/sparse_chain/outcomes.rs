//! What comes of each operation on a chain, told by checkpoints, heights and unconfirmed
//! transactions alone.

use vstd::prelude::*;

use super::laws::{
    law_accepted_exactly_if, law_conflicting_block_refused, law_pruned_within_limit,
    law_update_keeps_validity,
};
use super::view::{ChainView, UpdateView};
use super::{BogusReason, HeightBound, UpdateFailure};
use crate::block::{BlockId, TxHeight};
use crate::hash::Txid;
use crate::tx_graph::{OutPoint, TxGraph};

verus! {

/// Where a chain sees a transaction: unconfirmed if it is in the mempool, else confirmed at the
/// height that it is recorded at, if it is at all.
pub proof fn law_seen_where_recorded(chain: ChainView, txid: Txid)
    requires
        chain.valid(),
    ensures
        chain.transaction_height(txid) == Some(TxHeight::Unconfirmed) <==> chain.mempool.contains(
            txid,
        ),
        forall|h: u32|
            chain.transaction_height(txid) == Some(TxHeight::Confirmed(h))
                <==> chain.confirmed.contains_key(txid) && chain.confirmed[txid] == h,
        chain.transaction_height(txid) is None <==> !chain.mempool.contains(txid)
            && !chain.confirmed.contains_key(txid),
{
}

/// The checkpoint at a height is the block whose hash is recorded there.
pub proof fn law_checkpoint_where_recorded(chain: ChainView, height: u32)
    ensures
        chain.checkpoint_at(height) is Some <==> chain.checkpoints.contains_key(height),
        chain.checkpoint_at(height) matches Some(id) ==> id.height == height && id.hash
            == chain.checkpoints[height],
{
}

/// The latest checkpoint is a checkpoint that no other lies above; there is none only where there
/// is no checkpoint at all.
pub proof fn law_latest_is_highest(chain: ChainView)
    ensures
        chain.latest_checkpoint() matches Some(id) ==> chain.checkpoints.contains_key(id.height)
            && chain.checkpoints[id.height] == id.hash && forall|h: u32| #[trigger]
            chain.checkpoints.contains_key(h) ==> h <= id.height,
        chain.latest_checkpoint() is None ==> forall|h: u32| !chain.checkpoints.contains_key(h),
{
    chain.lemma_last_below_is_last(u32::MAX + 1);
}

/// The checkpoint that an update has to build on is the highest one below what it invalidates, or
/// the highest of all if it invalidates nothing; none if there is no such checkpoint.
pub proof fn law_expected_is_highest_left(chain: ChainView, update: UpdateView)
    ensures
        chain.expected_last_valid(update) matches Some(id) ==> {
            &&& chain.checkpoints.contains_key(id.height)
            &&& chain.checkpoints[id.height] == id.hash
            &&& update.invalidate matches Some(block) ==> id.height < block.height
            &&& forall|h: u32| #[trigger]
                chain.checkpoints.contains_key(h) && h > id.height
                    ==> update.invalidate is Some && h >= update.invalidate->0.height
        },
        chain.expected_last_valid(update) is None ==> forall|h: u32| #[trigger]
            chain.checkpoints.contains_key(h) ==> update.invalidate is Some && h >= update.invalidate->0.height,
{
    let bound: int = match update.invalidate {
        Some(block) => block.height as int,
        None => u32::MAX + 1,
    };
    chain.lemma_last_below_is_last(bound);
}

/// An update is accepted exactly if
///
/// - it builds on the highest checkpoint that it does not invalidate, or on none if none is left;
/// - its tip is that checkpoint or lies above it;
/// - it sees no transaction above its tip; and
/// - each of its transactions that the chain has confirmed is either invalidated, wherever the
///   update sees it now, or seen at the height where it was.
pub proof fn law_accepted_on_heights(chain: ChainView, update: UpdateView)
    ensures
        chain.rejection(update) is None <==> {
            &&& match update.last_valid {
                Some(id) => {
                    &&& chain.checkpoints.contains_key(id.height)
                    &&& chain.checkpoints[id.height] == id.hash
                    &&& update.invalidate matches Some(block) ==> id.height < block.height
                    &&& forall|h: u32| #[trigger]
                        chain.checkpoints.contains_key(h) && h > id.height
                            ==> update.invalidate is Some && h >= update.invalidate->0.height
                    &&& id.height < update.new_tip.height || id == update.new_tip
                },
                None => forall|h: u32| #[trigger]
                    chain.checkpoints.contains_key(h) ==> update.invalidate is Some && h >= update.invalidate->0.height,
            }
            &&& forall|txid: Txid| #[trigger]
                update.txids.contains_key(txid) ==> {
                    &&& update.txids[txid] matches TxHeight::Confirmed(h) ==> h
                        <= update.new_tip.height
                    &&& chain.confirmed.contains_key(txid) ==> (update.invalidate is Some && chain.confirmed[txid] >= update.invalidate->0.height) || update.txids[txid]
                        == TxHeight::Confirmed(chain.confirmed[txid])
                }
        },
{
    law_accepted_exactly_if(chain, update);
    law_expected_is_highest_left(chain, update);
    let expected = chain.expected_last_valid(update);
    if let Some(id) = update.last_valid {
        if let Some(other) = expected {
            assert(chain.checkpoints.contains_key(other.height));
            assert(chain.checkpoints.contains_key(id.height) ==> (id.height == other.height
                || id.height < other.height || id.height > other.height));
        }
    } else if let Some(other) = expected {
        assert(chain.checkpoints.contains_key(other.height));
    }
    assert forall|txid: Txid| #[trigger] update.txids.contains_key(txid) implies (chain.offends(
        update,
        txid,
    ) <==> !{
        &&& update.txids[txid] matches TxHeight::Confirmed(h) ==> h <= update.new_tip.height
        &&& chain.confirmed.contains_key(txid) ==> (update.invalidate matches Some(block)
            && chain.confirmed[txid] >= block.height) || update.txids[txid] == TxHeight::Confirmed(
            chain.confirmed[txid],
        )
    }) by {}
    assert((forall|txid: Txid| !chain.offends(update, txid)) ==> forall|txid: Txid| #[trigger]
        update.txids.contains_key(txid) ==> !chain.offends(update, txid));
}

/// The reason that is given for a refusal is one that the update and the chain show:
///
/// - an outdated update is told what it builds on, and the highest checkpoint left that it should;
/// - every other refused update builds on that checkpoint, and is told that its tip contradicts it;
/// - failing that, it is told of its least transaction that surpasses the tip or was moved, and
///   where that is seen.
pub proof fn law_refusal_tells_why(chain: ChainView, update: UpdateView)
    ensures
        match chain.rejection(update) {
            None => true,
            Some(UpdateFailure::Stale { got_last_valid, expected_last_valid }) => {
                &&& got_last_valid == update.last_valid
                &&& got_last_valid != expected_last_valid
                &&& expected_last_valid matches Some(id) ==> {
                    &&& chain.checkpoints.contains_key(id.height)
                    &&& chain.checkpoints[id.height] == id.hash
                    &&& update.invalidate matches Some(block) ==> id.height < block.height
                }
                &&& forall|h: u32| #[trigger]
                    chain.checkpoints.contains_key(h) && (expected_last_valid is None || h
                        > expected_last_valid->0.height) ==> update.invalidate is Some && h
                        >= update.invalidate->0.height
            },
            Some(
                UpdateFailure::Bogus(BogusReason::LastValidConflictsNewTip { new_tip, last_valid }),
            ) => {
                &&& new_tip == update.new_tip
                &&& update.last_valid == Some(last_valid)
                &&& new_tip.height < last_valid.height || new_tip.height == last_valid.height
                    && new_tip.hash != last_valid.hash
            },
            Some(UpdateFailure::Bogus(BogusReason::TxHeightGreaterThanTip { new_tip, tx })) => {
                &&& new_tip == update.new_tip
                &&& update.txids.contains_key(tx.0)
                &&& update.txids[tx.0] == tx.1
                &&& tx.1 is Confirmed && tx.1->Confirmed_0 > new_tip.height
            },
            Some(
                UpdateFailure::Inconsistent { inconsistent_txid, original_height, update_height },
            ) => {
                &&& update.txids.contains_key(inconsistent_txid)
                &&& update.txids[inconsistent_txid] == update_height
                &&& chain.confirmed.contains_key(inconsistent_txid)
                &&& original_height == TxHeight::Confirmed(chain.confirmed[inconsistent_txid])
                &&& update_height != original_height
                &&& update.invalidate is Some ==> chain.confirmed[inconsistent_txid]
                    < update.invalidate->0.height
                &&& update_height matches TxHeight::Confirmed(h) ==> h <= update.new_tip.height
            },
        },
        chain.rejection(update) is Some && !(chain.rejection(update)->0 is Stale) ==> {
            &&& update.last_valid matches Some(id) ==> {
                &&& chain.checkpoints.contains_key(id.height)
                &&& chain.checkpoints[id.height] == id.hash
                &&& update.invalidate matches Some(block) ==> id.height < block.height
            }
            &&& forall|h: u32| #[trigger]
                chain.checkpoints.contains_key(h) && (update.last_valid is None || h
                    > update.last_valid->0.height) ==> update.invalidate is Some && h
                    >= update.invalidate->0.height
        },
{
    law_expected_is_highest_left(chain, update);
    if exists|txid: Txid| chain.is_first_offender(update, txid) {
        let first = choose|txid: Txid| chain.is_first_offender(update, txid);
        assert(chain.is_first_offender(update, first));
    }
}

/// A transaction that a refusal names is the least with which something is wrong: the update's tip
/// fits what it builds on, and every lesser transaction is seen within the tip and where it was,
/// unless that is invalidated.
pub proof fn law_least_offender_reported(chain: ChainView, update: UpdateView, txid: Txid)
    requires
        ({
            ||| chain.rejection(update) matches Some(UpdateFailure::Inconsistent {
                inconsistent_txid,
                ..
            }) && inconsistent_txid == txid
            ||| chain.rejection(update) matches Some(
                UpdateFailure::Bogus(BogusReason::TxHeightGreaterThanTip { tx, .. }),
            ) && tx.0 == txid
        }),
    ensures
        update.last_valid matches Some(id) ==> id.height < update.new_tip.height || id
            == update.new_tip,
        forall|other: Txid| #[trigger]
            update.txids.contains_key(other) && (other.0 < txid.0 || other.0 == txid.0 && other.1
                < txid.1) ==> {
                &&& update.txids[other] matches TxHeight::Confirmed(h) ==> h
                    <= update.new_tip.height
                &&& chain.confirmed.contains_key(other) ==> (update.invalidate is Some
                    && chain.confirmed[other] >= update.invalidate->0.height)
                    || update.txids[other] == TxHeight::Confirmed(chain.confirmed[other])
            },
{
    let first = choose|first: Txid| chain.is_first_offender(update, first);
    assert(chain.is_first_offender(update, first));
    assert forall|other: Txid| #[trigger]
        update.txids.contains_key(other) && (other.0 < first.0 || other.0 == first.0 && other.1
            < first.1) implies !chain.offends(update, other) by {}
}

/// After an accepted update a transaction that it lists is where the update sees it and nowhere
/// else. A confirmed one that it does not list stays, unless it is invalidated.
pub proof fn law_update_moves_transactions(chain: ChainView, update: UpdateView, txid: Txid)
    requires
        chain.valid(),
        chain.rejection(update) is None,
    ensures
        ({
            let after = chain.updated(update);
            if update.txids.contains_key(txid) {
                match update.txids[txid] {
                    TxHeight::Confirmed(h) => after.confirmed.contains_key(txid)
                        && after.confirmed[txid] == h && !after.mempool.contains(txid),
                    TxHeight::Unconfirmed => after.mempool.contains(txid)
                        && !after.confirmed.contains_key(txid),
                }
            } else {
                &&& after.confirmed.contains_key(txid) <==> chain.confirmed.contains_key(txid) && (
                update.invalidate is Some ==> chain.confirmed[txid] < update.invalidate->0.height)
                &&& after.confirmed.contains_key(txid) ==> after.confirmed[txid]
                    == chain.confirmed[txid]
            }
        }),
{
    law_accepted_on_heights(chain, update);
}

/// Where an accepted update takes a transaction out of the chain, the unconfirmed transactions are
/// afterwards exactly those that the update lists as unconfirmed: any other may depend on what is
/// gone.
pub proof fn law_reorganisation_clears_mempool(
    chain: ChainView,
    update: UpdateView,
    invalid: BlockId,
    gone: Txid,
)
    requires
        chain.rejection(update) is None,
        update.invalidate == Some(invalid),
        chain.confirmed.contains_key(gone),
        chain.confirmed[gone] >= invalid.height,
    ensures
        forall|txid: Txid|
            chain.updated(update).mempool.contains(txid) <==> update.txids.contains_key(txid)
                && update.txids[txid] == TxHeight::Unconfirmed,
{
}

/// Where an accepted update takes no transaction out of the chain, the unconfirmed transactions
/// that it does not list stay, and no other becomes unconfirmed but those that it lists so.
pub proof fn law_update_keeps_mempool(chain: ChainView, update: UpdateView, txid: Txid)
    requires
        chain.rejection(update) is None,
        update.invalidate is Some ==> forall|t: Txid| #[trigger]
            chain.confirmed.contains_key(t) ==> chain.confirmed[t] < update.invalidate->0.height,
    ensures
        chain.updated(update).mempool.contains(txid) <==> if update.txids.contains_key(txid) {
            update.txids[txid] == TxHeight::Unconfirmed
        } else {
            chain.mempool.contains(txid)
        },
{
}

/// The checkpoints that lie highest among `heights`, `n` of them or all.
proof fn lemma_count_highest(heights: Set<u32>, n: nat)
    requires
        heights.finite(),
    ensures
        ({
            let highest = heights.filter(|h: u32| heights.filter(|k: u32| k > h).len() < n);
            highest.finite() && highest.len() == if heights.len() <= n {
                heights.len()
            } else {
                n
            }
        }),
    decreases heights.len(),
{
    let highest = heights.filter(|h: u32| heights.filter(|k: u32| k > h).len() < n);
    if heights.len() == 0 {
        assert(highest =~= heights);
    } else {
        let least = super::laws::lemma_least(heights, heights.choose());
        let rest = heights.remove(least);
        lemma_count_highest(rest, n);
        let rest_highest = rest.filter(|h: u32| rest.filter(|k: u32| k > h).len() < n);
        assert forall|h: u32| rest.contains(h) implies heights.filter(|k: u32| k > h)
            == rest.filter(|k: u32| k > h) by {
            assert(heights.filter(|k: u32| k > h) =~= rest.filter(|k: u32| k > h));
        }
        assert(heights.filter(|k: u32| k > least) =~= rest);
        if rest.len() < n {
            assert(highest =~= rest_highest.insert(least));
        } else {
            assert(highest =~= rest_highest);
        }
    }
}

/// After an accepted update without a limit, the checkpoints are those that it does not invalidate,
/// with their hashes, and its tip.
pub proof fn law_update_moves_checkpoints(chain: ChainView, update: UpdateView, height: u32)
    requires
        chain.rejection(update) is None,
        chain.limit is None,
    ensures
        ({
            let after = chain.updated(update);
            &&& after.checkpoints.contains_key(height) <==> height == update.new_tip.height || (
            chain.checkpoints.contains_key(height) && (update.invalidate is Some ==> height
                < update.invalidate->0.height))
            &&& after.checkpoints.contains_key(height) ==> after.checkpoints[height] == if height
                == update.new_tip.height {
                update.new_tip.hash
            } else {
                chain.checkpoints[height]
            }
            &&& after.limit is None
        }),
{
    if chain.discarded(update).checkpoints.contains_key(height) {
        chain.lemma_discarded_below_tip(update, height);
    }
}

/// A limit changes nothing about an update but how many checkpoints stay afterwards: of those that
/// would stay without it, the highest, as many as the limit allows. It stays itself.
pub proof fn law_limit_keeps_highest(chain: ChainView, update: UpdateView, limit: usize)
    requires
        chain.valid(),
        update.txids.dom().finite(),
        chain.limit is None,
        chain.rejection(update) is None,
    ensures
        ({
            let limited = ChainView { limit: Some(limit), ..chain };
            let all = chain.updated(update).checkpoints;
            let kept = limited.updated(update).checkpoints;
            &&& limited.rejection(update) is None
            &&& kept.submap_of(all)
            &&& kept.len() == if all.len() <= limit {
                all.len()
            } else {
                limit as nat
            }
            &&& forall|a: u32, b: u32| #[trigger]
                kept.contains_key(a) && #[trigger] all.contains_key(b) && a < b
                    ==> kept.contains_key(b)
            &&& limited.updated(update).confirmed == chain.updated(update).confirmed
            &&& limited.updated(update).mempool == chain.updated(update).mempool
            &&& limited.updated(update).limit == Some(limit)
        }),
{
    let limited = ChainView { limit: Some(limit), ..chain };
    law_accepted_on_heights(chain, update);
    law_accepted_on_heights(limited, update);
    super::laws::lemma_unpruned_valid(limited, update);
    law_update_keeps_validity(chain, update);
    let unpruned = limited.discarded(update).with_tip(update.new_tip).with_txs(update.txids);
    law_pruned_within_limit(unpruned, limit);
    let all = chain.updated(update).checkpoints;
    let kept = limited.updated(update).checkpoints;
    assert(all =~= unpruned.checkpoints);
    let heights = all.dom();
    lemma_count_highest(heights, limit as nat);
    assert forall|h: u32| heights.contains(h) implies unpruned.above(h) == heights.filter(
        |k: u32| k > h,
    ) by {
        assert(unpruned.above(h) =~= heights.filter(|k: u32| k > h));
    }
    assert(kept.dom() =~= heights.filter(
        |h: u32| heights.filter(|k: u32| k > h).len() < limit as nat,
    ));
    assert(limited.updated(update).confirmed =~= chain.updated(update).confirmed);
    assert(limited.updated(update).mempool =~= chain.updated(update).mempool);
}

/// Only one update is left out of what can be applied: one that is accepted at the greatest height
/// there is while no checkpoint may be kept.
pub proof fn law_updates_that_can_be_pruned(chain: ChainView, update: UpdateView)
    ensures
        chain.prunes_past_end(update) ==> chain.limit == Some(0usize) && update.new_tip.height
            == u32::MAX && chain.rejection(update) is None,
{
}

/// A block is accepted exactly if every checkpoint lies below it or is the block itself, and each of
/// its transactions that the chain has confirmed is confirmed at its height.
pub proof fn law_block_accepted_on_heights(chain: ChainView, block: BlockId, txids: Seq<Txid>)
    ensures
        chain.rejection(chain.block_update(block, txids)) is None <==> {
            &&& forall|h: u32| #[trigger]
                chain.checkpoints.contains_key(h) ==> h < block.height || h == block.height
                    && chain.checkpoints[h] == block.hash
            &&& forall|i: int|
                0 <= i < txids.len() && chain.confirmed.contains_key(#[trigger] txids[i])
                    ==> chain.confirmed[txids[i]] == block.height
        },
{
    let update = chain.block_update(block, txids);
    if chain.checkpoints.contains_key(block.height) && chain.checkpoints[block.height]
        != block.hash {
        law_conflicting_block_refused(chain, block, txids);
    } else {
        law_accepted_on_heights(chain, update);
        law_latest_is_highest(chain);
        assert forall|i: int| 0 <= i < txids.len() implies update.txids.contains_key(
            #[trigger] txids[i],
        ) by {}
        if chain.latest_checkpoint() is Some {
            assert(chain.checkpoints.contains_key(chain.latest_checkpoint()->0.height));
        }
    }
}

/// Applying a block confirms every one of its transactions at its height, whatever the chain saw of
/// it before, and takes it out of the unconfirmed ones.
pub proof fn law_block_confirms(chain: ChainView, block: BlockId, txids: Seq<Txid>, i: int)
    requires
        chain.rejection(chain.block_update(block, txids)) is None,
        0 <= i < txids.len(),
    ensures
        ({
            let after = chain.updated(chain.block_update(block, txids));
            &&& after.confirmed.contains_key(txids[i])
            &&& after.confirmed[txids[i]] == block.height
            &&& !after.mempool.contains(txids[i])
            &&& after.transaction_height(txids[i]) == Some(TxHeight::Confirmed(block.height))
        }),
{
    assert(txids.contains(txids[i]));
    assert(chain.block_update(block, txids).txids.contains_key(txids[i]));
}

/// Applying a block leaves every transaction that is not in it as it was.
pub proof fn law_block_leaves_others(
    chain: ChainView,
    block: BlockId,
    txids: Seq<Txid>,
    other: Txid,
)
    requires
        chain.rejection(chain.block_update(block, txids)) is None,
        forall|i: int| 0 <= i < txids.len() ==> txids[i] != other,
    ensures
        ({
            let after = chain.updated(chain.block_update(block, txids));
            &&& after.confirmed.contains_key(other) <==> chain.confirmed.contains_key(other)
            &&& after.confirmed.contains_key(other) ==> after.confirmed[other]
                == chain.confirmed[other]
            &&& after.mempool.contains(other) <==> chain.mempool.contains(other)
        }),
{
    if chain.checkpoints.contains_key(block.height) && chain.checkpoints[block.height]
        != block.hash {
        law_conflicting_block_refused(chain, block, txids);
    }
}

/// Applying a block without a limit adds it to the checkpoints and leaves all others.
pub proof fn law_block_adds_checkpoint(chain: ChainView, block: BlockId, txids: Seq<Txid>)
    requires
        chain.rejection(chain.block_update(block, txids)) is None,
        chain.limit is None,
    ensures
        chain.updated(chain.block_update(block, txids)).checkpoints == chain.checkpoints.insert(
            block.height,
            block.hash,
        ),
{
    let update = chain.block_update(block, txids);
    if chain.checkpoints.contains_key(block.height) && chain.checkpoints[block.height]
        != block.hash {
        law_conflicting_block_refused(chain, block, txids);
    }
    assert(chain.updated(update).checkpoints =~= chain.checkpoints.insert(
        block.height,
        block.hash,
    ));
}

/// A block is refused as outdated where the chain has another block at its height, else as
/// contradicting the latest checkpoint where that lies above it, else for its least transaction that
/// is confirmed at another height.
pub proof fn law_block_refusal_tells_why(chain: ChainView, block: BlockId, txids: Seq<Txid>)
    ensures
        match chain.rejection(chain.block_update(block, txids)) {
            None => true,
            Some(UpdateFailure::Stale { got_last_valid, expected_last_valid }) => {
                &&& chain.checkpoints.contains_key(block.height)
                &&& chain.checkpoints[block.height] != block.hash
                &&& got_last_valid is Some
                &&& chain.checkpoints.contains_key(got_last_valid->0.height)
                &&& chain.checkpoints[got_last_valid->0.height] == got_last_valid->0.hash
                &&& forall|h: u32| #[trigger]
                    chain.checkpoints.contains_key(h) ==> h <= got_last_valid->0.height
                &&& expected_last_valid is Some ==> expected_last_valid->0.height < block.height
                    && chain.checkpoints.contains_key(expected_last_valid->0.height)
                    && chain.checkpoints[expected_last_valid->0.height]
                    == expected_last_valid->0.hash
                &&& forall|h: u32| #[trigger]
                    chain.checkpoints.contains_key(h) && h < block.height ==> expected_last_valid
                        is Some && h <= expected_last_valid->0.height
            },
            Some(
                UpdateFailure::Bogus(BogusReason::LastValidConflictsNewTip { new_tip, last_valid }),
            ) => {
                &&& new_tip == block
                &&& last_valid.height > block.height
                &&& chain.checkpoints.contains_key(last_valid.height)
                &&& chain.checkpoints[last_valid.height] == last_valid.hash
                &&& forall|h: u32| #[trigger]
                    chain.checkpoints.contains_key(h) ==> h <= last_valid.height
            },
            Some(UpdateFailure::Bogus(BogusReason::TxHeightGreaterThanTip { .. })) => false,
            Some(
                UpdateFailure::Inconsistent { inconsistent_txid, original_height, update_height },
            ) => {
                &&& exists|i: int| 0 <= i < txids.len() && #[trigger] txids[i] == inconsistent_txid
                &&& chain.confirmed.contains_key(inconsistent_txid)
                &&& chain.confirmed[inconsistent_txid] != block.height
                &&& original_height == TxHeight::Confirmed(chain.confirmed[inconsistent_txid])
                &&& update_height == TxHeight::Confirmed(block.height)
                &&& forall|i: int|
                    0 <= i < txids.len() && chain.confirmed.contains_key(#[trigger] txids[i])
                        && chain.confirmed[txids[i]] != block.height ==> inconsistent_txid.0
                        < txids[i].0 || inconsistent_txid.0 == txids[i].0 && inconsistent_txid.1
                        <= txids[i].1
            },
        },
{
    let update = chain.block_update(block, txids);
    law_refusal_tells_why(chain, update);
    law_latest_is_highest(chain);
    if chain.checkpoints.contains_key(block.height) && chain.checkpoints[block.height]
        != block.hash {
        law_conflicting_block_refused(chain, block, txids);
        chain.lemma_last_below_is_last(block.height as int);
    } else {
        assert(update.invalidate is None);
        assert forall|i: int| 0 <= i < txids.len() implies update.txids.contains_key(
            #[trigger] txids[i],
        ) by {}
        if let Some(UpdateFailure::Inconsistent { inconsistent_txid, .. }) = chain.rejection(
            update,
        ) {
            law_least_offender_reported(chain, update, inconsistent_txid);
            assert(txids.contains(inconsistent_txid));
        }
    }
}

/// Disconnecting a block of the chain takes away the checkpoints and the confirmed transactions at
/// its height and above, and all unconfirmed ones; nothing else. Any other block changes nothing.
pub proof fn law_disconnect_outcome(chain: ChainView, block: BlockId, height: u32, txid: Txid)
    ensures
        ({
            let after = chain.disconnected(block);
            let connected = chain.checkpoints.contains_key(block.height)
                && chain.checkpoints[block.height] == block.hash;
            &&& after.checkpoints.contains_key(height) <==> chain.checkpoints.contains_key(height)
                && (connected ==> height < block.height)
            &&& after.checkpoints.contains_key(height) ==> after.checkpoints[height]
                == chain.checkpoints[height]
            &&& after.confirmed.contains_key(txid) <==> chain.confirmed.contains_key(txid) && (
            connected ==> chain.confirmed[txid] < block.height)
            &&& after.confirmed.contains_key(txid) ==> after.confirmed[txid]
                == chain.confirmed[txid]
            &&& after.mempool.contains(txid) <==> chain.mempool.contains(txid) && !connected
            &&& after.limit == chain.limit
        }),
{
}

/// Whoever of the spenders of an output is confirmed, at whatever height, is the one that is found;
/// and none is found only where none is confirmed.
pub proof fn law_confirmed_spender_found(chain: ChainView, spenders: Set<Txid>)
    requires
        forall|a: Txid, b: Txid|
            #![trigger chain.confirmed.contains_key(a), chain.confirmed.contains_key(b)]
            spenders.contains(a) && chain.confirmed.contains_key(a) && spenders.contains(b)
                && chain.confirmed.contains_key(b) ==> a == b,
    ensures
        chain.no_double_spend(spenders),
        forall|txid: Txid| #[trigger]
            spenders.contains(txid) && chain.confirmed.contains_key(txid)
                ==> chain.confirmed_spender(spenders) == Some(txid),
        chain.confirmed_spender(spenders) matches Some(txid) ==> spenders.contains(txid)
            && chain.confirmed.contains_key(txid),
{
    assert forall|txid: Txid| #[trigger]
        spenders.contains(txid) && chain.confirmed.contains_key(
            txid,
        ) implies chain.confirmed_spender(spenders) == Some(txid) by {
        assert(chain.is_confirmed_spender(spenders, txid));
        let found = choose|t: Txid| chain.is_confirmed_spender(spenders, t);
        assert(chain.is_confirmed_spender(spenders, found));
    }
}

/// A list of what is in a checkpoint holds, each once and in increasing order of their ids, the
/// transactions confirmed at its height and no others.
pub proof fn law_checkpoint_list(chain: ChainView, height: u32, list: Seq<(u32, Txid)>, txid: Txid)
    requires
        chain.lists_confirmed_at(height, list),
    ensures
        (exists|i: int| 0 <= i < list.len() && #[trigger] list[i] == (height, txid))
            <==> chain.confirmed.contains_key(txid) && chain.confirmed[txid] == height,
        forall|i: int| 0 <= i < list.len() ==> (#[trigger] list[i]).0 == height,
        forall|i: int, j: int|
            #![trigger list[i], list[j]]
            0 <= i < j < list.len() ==> list[i].1.0 < list[j].1.0 || list[i].1.0 == list[j].1.0
                && list[i].1.1 < list[j].1.1,
{
    assert forall|i: int| 0 <= i < list.len() implies (#[trigger] list[i]).0 == height by {
        assert(list.contains((list[i].0, list[i].1)));
    }
    if chain.confirmed.contains_key(txid) && chain.confirmed[txid] == height {
        assert(list.contains((height, txid)));
    }
    if exists|i: int| 0 <= i < list.len() && #[trigger] list[i] == (height, txid) {
        assert(list.contains((height, txid)));
    }
}

/// A list of the confirmed transactions holds each once with its height: the highest first, and the
/// greatest id first at one height.
pub proof fn law_confirmed_list(chain: ChainView, list: Seq<(u32, Txid)>, height: u32, txid: Txid)
    requires
        chain.lists_confirmed(list),
    ensures
        (exists|i: int| 0 <= i < list.len() && #[trigger] list[i] == (height, txid))
            <==> chain.confirmed.contains_key(txid) && chain.confirmed[txid] == height,
        forall|i: int, j: int|
            #![trigger list[i], list[j]]
            0 <= i < j < list.len() ==> list[i].0 > list[j].0 || list[i].0 == list[j].0 && (
            list[i].1.0 > list[j].1.0 || list[i].1.0 == list[j].1.0 && list[i].1.1 > list[j].1.1),
{
    if chain.confirmed.contains_key(txid) && chain.confirmed[txid] == height {
        assert(list.contains((height, txid)));
    }
    if exists|i: int| 0 <= i < list.len() && #[trigger] list[i] == (height, txid) {
        assert(list.contains((height, txid)));
    }
}

/// A list of the unconfirmed transactions holds each of them once and no others.
pub proof fn law_mempool_list(chain: ChainView, list: Seq<Txid>, txid: Txid)
    requires
        chain.lists_mempool(list),
    ensures
        (exists|i: int| 0 <= i < list.len() && #[trigger] list[i] == txid)
            <==> chain.mempool.contains(txid),
        forall|i: int, j: int| 0 <= i < j < list.len() ==> list[i] != list[j],
{
    if chain.mempool.contains(txid) {
        assert(list.contains(txid));
    }
    if exists|i: int| 0 <= i < list.len() && #[trigger] list[i] == txid {
        assert(list.contains(txid));
    }
}

/// A list of all transactions holds the unconfirmed ones first, and then the confirmed ones with
/// their heights: the highest first, and the greatest id first at one height.
pub proof fn law_full_list(chain: ChainView, list: Seq<(Option<u32>, Txid)>, txid: Txid)
    requires
        chain.valid(),
        chain.lists_txids(list),
    ensures
        (exists|i: int| 0 <= i < list.len() && #[trigger] list[i] == (None::<u32>, txid))
            <==> chain.mempool.contains(txid),
        forall|h: u32|
            (exists|i: int| 0 <= i < list.len() && #[trigger] list[i] == (Some(h), txid))
                <==> #[trigger] chain.confirmed.contains_pair(txid, h),
        forall|i: int, j: int|
            #![trigger list[i], list[j]]
            0 <= i < j < list.len() && list[i].0 is Some ==> list[j].0 is Some && (list[i].0->0
                > list[j].0->0 || list[i].0 == list[j].0 && (list[i].1.0 > list[j].1.0
                || list[i].1.0 == list[j].1.0 && list[i].1.1 > list[j].1.1)),
{
    super::laws::law_listed_where_seen(chain, list, txid);
    assert forall|h: u32|
        (exists|i: int| 0 <= i < list.len() && #[trigger] list[i] == (Some(h), txid))
            <==> #[trigger] chain.confirmed.contains_pair(txid, h) by {
        assert((exists|i: int| 0 <= i < list.len() && #[trigger] list[i] == (Some(h), txid))
            <==> list.contains((Some(h), txid)));
    }
    assert((exists|i: int| 0 <= i < list.len() && #[trigger] list[i] == (None::<u32>, txid))
        <==> list.contains((None::<u32>, txid)));
    let (mempool, confirmed) = choose|mempool: Seq<Txid>, confirmed: Seq<(u32, Txid)>|
        {
            &&& #[trigger] chain.lists_mempool(mempool)
            &&& #[trigger] chain.lists_confirmed(confirmed)
            &&& list == mempool.map_values(|txid: Txid| (None::<u32>, txid)) + confirmed.map_values(
                |entry: (u32, Txid)| (Some(entry.0), entry.1),
            )
        };
    assert forall|i: int, j: int|
        #![trigger list[i], list[j]]
        0 <= i < j < list.len() && list[i].0 is Some implies list[j].0 is Some && (list[i].0->0
            > list[j].0->0 || list[i].0 == list[j].0 && (list[i].1.0 > list[j].1.0 || list[i].1.0
            == list[j].1.0 && list[i].1.1 > list[j].1.1)) by {
        assert(super::view::confirmed_before(
            confirmed[j - mempool.len()],
            confirmed[i - mempool.len()],
        ));
    }
}

/// A list of the checkpoints in a range holds, the lowest first, each checkpoint that lies neither
/// before the start nor after the end, and no others.
pub proof fn law_checkpoints_in_range(
    chain: ChainView,
    start: HeightBound,
    end: HeightBound,
    list: Seq<BlockId>,
    id: BlockId,
)
    requires
        chain.lists_checkpoints(start, end, list),
    ensures
        (exists|i: int| 0 <= i < list.len() && #[trigger] list[i] == id) <==> {
            &&& chain.checkpoints.contains_key(id.height)
            &&& chain.checkpoints[id.height] == id.hash
            &&& match start {
                HeightBound::Included(low) => id.height >= low,
                HeightBound::Excluded(low) => id.height > low,
                HeightBound::Unbounded => true,
            }
            &&& match end {
                HeightBound::Included(high) => id.height <= high,
                HeightBound::Excluded(high) => id.height < high,
                HeightBound::Unbounded => true,
            }
        },
        forall|i: int, j: int|
            #![trigger list[i], list[j]]
            0 <= i < j < list.len() ==> list[i].height < list[j].height,
{
    assert((exists|i: int| 0 <= i < list.len() && #[trigger] list[i] == id) <==> list.contains(id));
}

/// Every pair of ends is a range unless the start lies after the end, or both leave out the same
/// height.
pub proof fn law_ends_make_range(start: HeightBound, end: HeightBound, low: u32, high: u32)
    requires
        start == HeightBound::Included(low) || start == HeightBound::Excluded(low) || start
            == HeightBound::Unbounded,
        end == HeightBound::Included(high) || end == HeightBound::Excluded(high) || end
            == HeightBound::Unbounded,
        low < high || low == high && !(start is Excluded && end is Excluded),
    ensures
        start.is_range(end),
{
}

/// The changes from one chain to another give each checkpoint that is not the same its new hash, or
/// none where it goes; and each transaction that is not seen where it was its new place, or none
/// where it is not seen any more.
pub proof fn law_changes_are_differences(
    chain: ChainView,
    after: ChainView,
    height: u32,
    txid: Txid,
)
    requires
        chain.valid(),
        after.valid(),
    ensures
        ({
            let changes = chain.checkpoint_changes(after);
            let had = chain.checkpoints.contains_key(height);
            let has = after.checkpoints.contains_key(height);
            &&& !changes.contains_key(height) <==> had == has && (had ==> chain.checkpoints[height]
                == after.checkpoints[height])
            &&& changes.contains_key(height) ==> (changes[height] is Some <==> has) && (has
                ==> changes[height] == Some(after.checkpoints[height]))
        }),
        ({
            let changes = chain.tx_changes(after);
            let was_in = chain.confirmed.contains_key(txid);
            let is_in = after.confirmed.contains_key(txid);
            &&& !changes.contains_key(txid) <==> was_in == is_in && chain.mempool.contains(txid)
                == after.mempool.contains(txid) && (was_in ==> chain.confirmed[txid]
                == after.confirmed[txid])
            &&& changes.contains_key(txid) ==> {
                &&& changes[txid] == Some(TxHeight::Unconfirmed) <==> after.mempool.contains(txid)
                &&& is_in ==> changes[txid] == Some(TxHeight::Confirmed(after.confirmed[txid]))
                &&& changes[txid] is None <==> !is_in && !after.mempool.contains(txid)
            }
        }),
{
}

/// An output that a graph knows to be spent by a confirmed transaction, at whatever height, shows
/// that transaction; and it shows none only where no known spender is confirmed.
pub proof fn law_spent_output_shows_spender(
    chain: ChainView,
    graph: TxGraph,
    outpoint: OutPoint,
    spent_by: Option<Txid>,
)
    requires
        chain.no_double_spend(graph.spenders(outpoint)),
        spent_by == chain.confirmed_spender(graph.spenders(outpoint)),
    ensures
        forall|txid: Txid| #[trigger]
            chain.confirmed.contains_key(txid) && graph.spends@.contains_key(
                (outpoint.txid, outpoint.vout),
            ) && graph.spends@[(outpoint.txid, outpoint.vout)]@.contains(txid) ==> spent_by == Some(
                txid,
            ),
        spent_by matches Some(txid) ==> chain.confirmed.contains_key(txid)
            && graph.spends@.contains_key((outpoint.txid, outpoint.vout))
            && graph.spends@[(outpoint.txid, outpoint.vout)]@.contains(txid),
{
    let spenders = graph.spenders(outpoint);
    assert forall|txid: Txid| #[trigger]
        chain.confirmed.contains_key(txid) && spenders.contains(txid) implies spent_by == Some(
        txid,
    ) by {
        assert(chain.is_confirmed_spender(spenders, txid));
        let found = choose|t: Txid| chain.is_confirmed_spender(spenders, t);
        assert(chain.is_confirmed_spender(spenders, found));
    }
}

} // verus!
