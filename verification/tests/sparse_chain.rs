use std::collections::BTreeSet;

use bdk_chain::hash::{BlockHash, Txid};
use bdk_chain::sparse_chain::changes::{chain_of, txids_to_fetch};
use bdk_chain::sparse_chain::{
    BogusReason, ChangeSet, FullTxOut, HeightBound, SparseChain, TxHeight, Update, UpdateFailure,
};
use bdk_chain::tx_graph::{Additions, OutPoint, Transaction, TxGraph, TxOut};
use bdk_chain::BlockId;

fn block(height: u32, lo: u128) -> BlockId {
    BlockId { height, hash: BlockHash { hi: 0, lo } }
}

fn tx(n: u128) -> Txid {
    (n, 0)
}

/// A chain with checkpoints at the given heights; the hash of each is its height.
fn chain_of_heights(heights: &[u32]) -> SparseChain {
    let mut chain = SparseChain::default();
    for height in heights {
        let update = Update::new(chain.latest_checkpoint(), block(*height, *height as u128));
        assert_eq!(chain.apply_update(update), Ok(()));
    }
    chain
}

fn heights_of(chain: &SparseChain) -> Vec<u32> {
    chain
        .iter_checkpoints(HeightBound::Unbounded, HeightBound::Unbounded)
        .iter()
        .map(|id| id.height)
        .collect()
}

fn update_of(
    chain: &SparseChain,
    txids: &[(Txid, TxHeight)],
    tip: BlockId,
) -> Update {
    let mut update = Update::new(chain.latest_checkpoint(), tip);
    for (txid, height) in txids {
        update.txids.insert(*txid, *height);
    }
    update
}

#[test]
fn empty_chain_knows_nothing() {
    let chain = SparseChain::default();
    assert_eq!(chain.latest_checkpoint(), None);
    assert_eq!(chain.checkpoint_at(0), None);
    assert_eq!(chain.transaction_height(&tx(1)), None);
    assert_eq!(chain.iter_txids(), vec![]);
    assert_eq!(heights_of(&chain), Vec::<u32>::new());
}

#[test]
fn template_update_moves_tip_only() {
    let mut chain = chain_of_heights(&[3]);
    let update = Update::new(Some(block(3, 3)), block(7, 7));
    assert!(update.txids.is_empty());
    assert_eq!(update.invalidate, None);
    assert_eq!(chain.apply_update(update), Ok(()));
    assert_eq!(chain.latest_checkpoint(), Some(block(7, 7)));
    assert_eq!(heights_of(&chain), vec![3, 7]);
    assert_eq!(chain.iter_txids(), vec![]);
}

#[test]
fn update_puts_transactions_where_it_sees_them() {
    let mut chain = chain_of_heights(&[3]);
    let update = update_of(
        &chain,
        &[
            (tx(1), TxHeight::Confirmed(2)),
            (tx(2), TxHeight::Confirmed(9)),
            (tx(3), TxHeight::Unconfirmed),
        ],
        block(9, 9),
    );
    assert_eq!(chain.apply_update(update), Ok(()));
    assert_eq!(chain.transaction_height(&tx(1)), Some(TxHeight::Confirmed(2)));
    assert_eq!(chain.transaction_height(&tx(2)), Some(TxHeight::Confirmed(9)));
    assert_eq!(chain.transaction_height(&tx(3)), Some(TxHeight::Unconfirmed));
    assert_eq!(chain.transaction_height(&tx(4)), None);
    assert_eq!(chain.checkpoint_at(9), Some(block(9, 9)));
    assert_eq!(chain.checkpoint_at(2), None);
}

#[test]
fn confirming_takes_out_of_mempool() {
    let mut chain = chain_of_heights(&[1]);
    let update = update_of(&chain, &[(tx(1), TxHeight::Unconfirmed)], block(1, 1));
    assert_eq!(chain.apply_update(update), Ok(()));
    assert_eq!(chain.iter_mempool_txids(), vec![tx(1)]);
    let update = update_of(&chain, &[(tx(1), TxHeight::Confirmed(2))], block(2, 2));
    assert_eq!(chain.apply_update(update), Ok(()));
    assert_eq!(chain.iter_mempool_txids(), vec![]);
    assert_eq!(chain.iter_confirmed_txids(), vec![(2, tx(1))]);
}

#[test]
fn stale_without_invalidate() {
    let mut chain = chain_of_heights(&[1, 2]);
    let failure = UpdateFailure::Stale {
        got_last_valid: Some(block(1, 1)),
        expected_last_valid: Some(block(2, 2)),
    };
    let before = chain.iter_checkpoints(HeightBound::Unbounded, HeightBound::Unbounded);
    let update = Update::new(Some(block(1, 1)), block(3, 3));
    assert_eq!(chain.apply_update(update), Err(failure));
    assert_eq!(
        chain.iter_checkpoints(HeightBound::Unbounded, HeightBound::Unbounded),
        before
    );
}

#[test]
fn stale_on_empty_chain() {
    let mut chain = SparseChain::default();
    let update = Update::new(Some(block(1, 1)), block(3, 3));
    assert_eq!(
        chain.apply_update(update),
        Err(UpdateFailure::Stale {
            got_last_valid: Some(block(1, 1)),
            expected_last_valid: None,
        })
    );
}

#[test]
fn stale_with_invalidate() {
    let mut chain = chain_of_heights(&[1, 2, 3]);
    let mut update = Update::new(Some(block(2, 2)), block(4, 4));
    update.invalidate = Some(block(2, 2));
    assert_eq!(
        chain.apply_update(update),
        Err(UpdateFailure::Stale {
            got_last_valid: Some(block(2, 2)),
            expected_last_valid: Some(block(1, 1)),
        })
    );
}

#[test]
fn second_of_two_updates_on_one_base_is_stale() {
    let mut chain = chain_of_heights(&[1]);
    let first = Update::new(Some(block(1, 1)), block(2, 2));
    let second = Update::new(Some(block(1, 1)), block(3, 3));
    assert_eq!(chain.apply_update(first), Ok(()));
    assert_eq!(
        chain.apply_update(second),
        Err(UpdateFailure::Stale {
            got_last_valid: Some(block(1, 1)),
            expected_last_valid: Some(block(2, 2)),
        })
    );
}

#[test]
fn tip_below_last_valid_is_bogus() {
    let mut chain = chain_of_heights(&[5]);
    let failure = UpdateFailure::Bogus(BogusReason::LastValidConflictsNewTip {
        new_tip: block(4, 4),
        last_valid: block(5, 5),
    });
    let update = Update::new(Some(block(5, 5)), block(4, 4));
    assert_eq!(chain.apply_update(update.clone()), Err(failure));
    // No other chain takes it.
    assert!(SparseChain::default().apply_update(update.clone()).is_err());
    assert!(chain_of_heights(&[1, 5]).apply_update(update).is_err());
}

#[test]
fn tip_with_other_hash_at_last_valid_is_bogus() {
    let mut chain = chain_of_heights(&[5]);
    let update = Update::new(Some(block(5, 5)), block(5, 6));
    assert_eq!(
        chain.apply_update(update),
        Err(UpdateFailure::Bogus(BogusReason::LastValidConflictsNewTip {
            new_tip: block(5, 6),
            last_valid: block(5, 5),
        }))
    );
    let update = Update::new(Some(block(5, 5)), block(5, 5));
    assert_eq!(chain.apply_update(update), Ok(()));
    assert_eq!(chain.latest_checkpoint(), Some(block(5, 5)));
}

#[test]
fn transaction_above_tip_is_bogus() {
    let mut chain = chain_of_heights(&[5]);
    let update = update_of(&chain, &[(tx(1), TxHeight::Confirmed(8))], block(7, 7));
    assert_eq!(
        chain.apply_update(update.clone()),
        Err(UpdateFailure::Bogus(BogusReason::TxHeightGreaterThanTip {
            new_tip: block(7, 7),
            tx: (tx(1), TxHeight::Confirmed(8)),
        }))
    );
    assert_eq!(chain.transaction_height(&tx(1)), None);
    assert_eq!(chain.latest_checkpoint(), Some(block(5, 5)));
    // No other chain takes it.
    assert!(SparseChain::default().apply_update(update).is_err());
}

#[test]
fn moving_a_confirmed_transaction_is_inconsistent() {
    let mut chain = chain_of_heights(&[5]);
    let update = update_of(&chain, &[(tx(1), TxHeight::Confirmed(4))], block(5, 5));
    assert_eq!(chain.apply_update(update), Ok(()));
    let update = update_of(&chain, &[(tx(1), TxHeight::Confirmed(6))], block(6, 6));
    assert_eq!(
        chain.apply_update(update),
        Err(UpdateFailure::Inconsistent {
            inconsistent_txid: tx(1),
            original_height: TxHeight::Confirmed(4),
            update_height: TxHeight::Confirmed(6),
        })
    );
    let update = update_of(&chain, &[(tx(1), TxHeight::Unconfirmed)], block(6, 6));
    assert_eq!(
        chain.apply_update(update),
        Err(UpdateFailure::Inconsistent {
            inconsistent_txid: tx(1),
            original_height: TxHeight::Confirmed(4),
            update_height: TxHeight::Unconfirmed,
        })
    );
    let update = update_of(&chain, &[(tx(1), TxHeight::Confirmed(4))], block(6, 6));
    assert_eq!(chain.apply_update(update), Ok(()));
    assert_eq!(chain.transaction_height(&tx(1)), Some(TxHeight::Confirmed(4)));
}

#[test]
fn only_the_first_inconsistency_is_reported() {
    let mut chain = chain_of_heights(&[5]);
    let update = update_of(
        &chain,
        &[(tx(2), TxHeight::Confirmed(4)), (tx(1), TxHeight::Confirmed(3))],
        block(5, 5),
    );
    assert_eq!(chain.apply_update(update), Ok(()));
    let update = update_of(
        &chain,
        &[(tx(2), TxHeight::Unconfirmed), (tx(1), TxHeight::Unconfirmed)],
        block(5, 5),
    );
    assert_eq!(
        chain.apply_update(update),
        Err(UpdateFailure::Inconsistent {
            inconsistent_txid: tx(1),
            original_height: TxHeight::Confirmed(3),
            update_height: TxHeight::Unconfirmed,
        })
    );
}

#[test]
fn invalidate_replaces_the_end_of_the_chain() {
    let mut chain = chain_of_heights(&[1, 2]);
    let update = update_of(
        &chain,
        &[
            (tx(1), TxHeight::Confirmed(1)),
            (tx(2), TxHeight::Confirmed(2)),
            (tx(3), TxHeight::Confirmed(3)),
            (tx(4), TxHeight::Unconfirmed),
        ],
        block(3, 3),
    );
    assert_eq!(chain.apply_update(update), Ok(()));

    let mut update = Update::new(Some(block(1, 1)), block(4, 14));
    update.invalidate = Some(block(2, 2));
    update.txids.insert(tx(2), TxHeight::Confirmed(4));
    assert_eq!(chain.apply_update(update), Ok(()));
    assert_eq!(heights_of(&chain), vec![1, 4]);
    assert_eq!(chain.latest_checkpoint(), Some(block(4, 14)));
    assert_eq!(chain.transaction_height(&tx(1)), Some(TxHeight::Confirmed(1)));
    assert_eq!(chain.transaction_height(&tx(2)), Some(TxHeight::Confirmed(4)));
    assert_eq!(chain.transaction_height(&tx(3)), None);
    assert_eq!(chain.transaction_height(&tx(4)), None);
}

#[test]
fn invalidating_no_transaction_keeps_the_mempool() {
    let mut chain = chain_of_heights(&[1]);
    let update = update_of(&chain, &[(tx(4), TxHeight::Unconfirmed)], block(3, 3));
    assert_eq!(chain.apply_update(update), Ok(()));
    let mut update = Update::new(Some(block(1, 1)), block(3, 13));
    update.invalidate = Some(block(3, 3));
    assert_eq!(chain.apply_update(update), Ok(()));
    assert_eq!(chain.checkpoint_at(3), Some(block(3, 13)));
    assert_eq!(chain.transaction_height(&tx(4)), Some(TxHeight::Unconfirmed));
}

#[test]
fn latest_checkpoint_at_the_greatest_height() {
    let mut chain = chain_of_heights(&[1, u32::MAX]);
    let top = block(u32::MAX, u32::MAX as u128);
    assert_eq!(chain.latest_checkpoint(), Some(top));
    let update = update_of(&chain, &[(tx(1), TxHeight::Confirmed(u32::MAX))], top);
    assert_eq!(chain.apply_update(update), Ok(()));
    assert_eq!(chain.transaction_height(&tx(1)), Some(TxHeight::Confirmed(u32::MAX)));
    assert_eq!(
        chain.apply_update(Update::new(Some(block(1, 1)), top)),
        Err(UpdateFailure::Stale {
            got_last_valid: Some(block(1, 1)),
            expected_last_valid: Some(top),
        })
    );
}

#[test]
fn block_applies_once() {
    let mut chain = chain_of_heights(&[1]);
    assert_eq!(chain.apply_block_txs(block(4, 4), vec![tx(1), tx(2), tx(1)]), Ok(()));
    let txids = chain.iter_txids();
    assert_eq!(txids, vec![(Some(4), tx(2)), (Some(4), tx(1))]);
    assert_eq!(chain.apply_block_txs(block(4, 4), vec![tx(1), tx(2)]), Ok(()));
    assert_eq!(chain.iter_txids(), txids);
    assert_eq!(heights_of(&chain), vec![1, 4]);
}

#[test]
fn conflicting_block_is_refused() {
    let mut chain = chain_of_heights(&[1, 4]);
    assert_eq!(
        chain.apply_block_txs(block(4, 5), vec![]),
        Err(UpdateFailure::Stale {
            got_last_valid: Some(block(4, 4)),
            expected_last_valid: Some(block(1, 1)),
        })
    );
    assert_eq!(chain.checkpoint_at(4), Some(block(4, 4)));
}

#[test]
fn block_below_the_tip_is_bogus() {
    let mut chain = chain_of_heights(&[1, 4]);
    assert_eq!(
        chain.apply_block_txs(block(2, 2), vec![tx(1)]),
        Err(UpdateFailure::Bogus(BogusReason::LastValidConflictsNewTip {
            new_tip: block(2, 2),
            last_valid: block(4, 4),
        }))
    );
}

#[test]
fn disconnect_reverses_block() {
    let mut chain = chain_of_heights(&[1]);
    assert_eq!(chain.apply_block_txs(block(2, 2), vec![tx(1)]), Ok(()));
    let before = chain.clone();
    assert_eq!(chain.apply_block_txs(block(3, 3), vec![tx(2)]), Ok(()));
    chain.disconnect_block(block(3, 3));
    assert_eq!(heights_of(&chain), heights_of(&before));
    assert_eq!(chain.iter_txids(), before.iter_txids());
}

#[test]
fn disconnect_clears_the_mempool() {
    let mut chain = chain_of_heights(&[1, 2]);
    let update = update_of(&chain, &[(tx(1), TxHeight::Unconfirmed)], block(2, 2));
    assert_eq!(chain.apply_update(update), Ok(()));
    chain.disconnect_block(block(2, 9));
    chain.disconnect_block(block(3, 3));
    assert_eq!(heights_of(&chain), vec![1, 2]);
    assert_eq!(chain.iter_mempool_txids(), vec![tx(1)]);
    chain.disconnect_block(block(2, 2));
    assert_eq!(heights_of(&chain), vec![1]);
    assert_eq!(chain.iter_mempool_txids(), vec![]);
}

#[test]
fn clear_mempool_leaves_the_rest() {
    let mut chain = chain_of_heights(&[1]);
    let update = update_of(
        &chain,
        &[(tx(1), TxHeight::Unconfirmed), (tx(2), TxHeight::Confirmed(1))],
        block(1, 1),
    );
    assert_eq!(chain.apply_update(update), Ok(()));
    chain.clear_mempool();
    assert_eq!(chain.iter_txids(), vec![(Some(1), tx(2))]);
    assert_eq!(heights_of(&chain), vec![1]);
}

#[test]
fn checkpoint_txids_in_one_checkpoint() {
    let mut chain = SparseChain::default();
    assert_eq!(chain.apply_block_txs(block(1, 11), vec![tx(1)]), Ok(()));
    assert_eq!(chain.apply_block_txs(block(2, 12), vec![tx(2)]), Ok(()));
    assert_eq!(chain.checkpoint_txids(block(1, 11)), vec![(1, tx(1))]);
    assert_eq!(chain.checkpoint_txids(block(2, 12)), vec![(2, tx(2))]);
}

#[test]
fn checkpoint_txids_at_the_height_of_the_checkpoint() {
    let mut chain = chain_of_heights(&[1, 2]);
    let zero = (0, 0);
    let update = update_of(
        &chain,
        &[
            (tx(9), TxHeight::Confirmed(1)),
            (tx(2), TxHeight::Confirmed(2)),
            (zero, TxHeight::Confirmed(2)),
            ((1, 5), TxHeight::Confirmed(2)),
            (tx(1), TxHeight::Confirmed(3)),
        ],
        block(4, 4),
    );
    assert_eq!(chain.apply_update(update), Ok(()));
    assert_eq!(
        chain.checkpoint_txids(block(2, 2)),
        vec![(2, zero), (2, (1, 5)), (2, tx(2))]
    );
    assert_eq!(chain.checkpoint_txids(block(1, 1)), vec![(1, tx(9))]);
    assert_eq!(chain.checkpoint_txids(block(4, 4)), vec![]);
}

#[test]
fn checkpoints_in_a_range() {
    let chain = chain_of_heights(&[1, 3, 5, 7]);
    let list = |start, end| -> Vec<u32> {
        chain.iter_checkpoints(start, end).iter().map(|id| id.height).collect()
    };
    assert_eq!(list(HeightBound::Included(3), HeightBound::Excluded(7)), vec![3, 5]);
    assert_eq!(list(HeightBound::Excluded(3), HeightBound::Included(7)), vec![5, 7]);
    assert_eq!(list(HeightBound::Unbounded, HeightBound::Included(4)), vec![1, 3]);
    assert_eq!(list(HeightBound::Included(8), HeightBound::Unbounded), vec![]);
    assert_eq!(list(HeightBound::Included(3), HeightBound::Excluded(3)), vec![]);
    let all = chain.iter_checkpoints(HeightBound::Unbounded, HeightBound::Unbounded);
    assert_eq!(all.last().copied(), chain.latest_checkpoint());
}

#[test]
fn txids_in_increasing_confirmations() {
    let mut chain = chain_of_heights(&[1]);
    let update = update_of(
        &chain,
        &[
            (tx(1), TxHeight::Confirmed(1)),
            (tx(2), TxHeight::Confirmed(1)),
            (tx(3), TxHeight::Confirmed(2)),
            (tx(4), TxHeight::Unconfirmed),
            (tx(5), TxHeight::Unconfirmed),
        ],
        block(2, 2),
    );
    assert_eq!(chain.apply_update(update), Ok(()));
    assert_eq!(chain.iter_confirmed_txids(), vec![(2, tx(3)), (1, tx(2)), (1, tx(1))]);
    let mempool: BTreeSet<Txid> = chain.iter_mempool_txids().into_iter().collect();
    assert_eq!(mempool, BTreeSet::from([tx(4), tx(5)]));
    let all = chain.iter_txids();
    assert_eq!(all.len(), 5);
    assert!(all[..2].iter().all(|(height, txid)| height.is_none() && mempool.contains(txid)));
    assert_eq!(all[2..], [(Some(2), tx(3)), (Some(1), tx(2)), (Some(1), tx(1))]);
}

#[test]
fn limit_keeps_the_latest_checkpoints() {
    let mut chain = chain_of_heights(&[1, 2, 3]);
    chain.set_checkpoint_limit(Some(2));
    assert_eq!(heights_of(&chain), vec![1, 2, 3]);
    assert_eq!(chain.apply_block_txs(block(9, 9), vec![tx(1)]), Ok(()));
    assert_eq!(heights_of(&chain), vec![3, 9]);
    assert_eq!(chain.apply_block_txs(block(10, 10), vec![]), Ok(()));
    assert_eq!(heights_of(&chain), vec![9, 10]);
    assert_eq!(chain.transaction_height(&tx(1)), Some(TxHeight::Confirmed(9)));
    chain.set_checkpoint_limit(None);
    assert_eq!(chain.apply_block_txs(block(11, 11), vec![]), Ok(()));
    assert_eq!(heights_of(&chain), vec![9, 10, 11]);
}

#[test]
fn limit_of_zero_keeps_no_checkpoint() {
    let mut chain = SparseChain::default();
    chain.set_checkpoint_limit(Some(0));
    assert_eq!(chain.apply_block_txs(block(1, 1), vec![tx(1)]), Ok(()));
    assert_eq!(chain.latest_checkpoint(), None);
    assert_eq!(chain.transaction_height(&tx(1)), Some(TxHeight::Confirmed(1)));
    assert_eq!(chain.apply_block_txs(block(1, 1), vec![tx(1)]), Ok(()));
    assert_eq!(chain.latest_checkpoint(), None);
    assert_eq!(chain.iter_txids(), vec![(Some(1), tx(1))]);
}

#[test]
fn limit_at_the_number_of_checkpoints_keeps_all() {
    let mut chain = SparseChain::default();
    chain.set_checkpoint_limit(Some(2));
    assert_eq!(chain.apply_block_txs(block(1, 1), vec![]), Ok(()));
    assert_eq!(chain.apply_block_txs(block(2, 2), vec![]), Ok(()));
    assert_eq!(heights_of(&chain), vec![1, 2]);
}

#[test]
fn full_txout_of_known_output() {
    let mut chain = chain_of_heights(&[1]);
    let update = update_of(
        &chain,
        &[
            (tx(1), TxHeight::Confirmed(1)),
            (tx(2), TxHeight::Unconfirmed),
            (tx(3), TxHeight::Confirmed(2)),
        ],
        block(2, 2),
    );
    assert_eq!(chain.apply_update(update), Ok(()));
    let mut graph = TxGraph::default();
    let outpoint = OutPoint { txid: tx(1), vout: 7 };
    let txout = TxOut { value: 500, script_pubkey: vec![1, 2, 3] };
    assert_eq!(chain.full_txout(&graph, outpoint), None);
    graph.txouts.insert(outpoint.key(), txout.clone());
    let unspent = FullTxOut {
        outpoint,
        txout: txout.clone(),
        height: TxHeight::Confirmed(1),
        spent_by: None,
    };
    assert_eq!(chain.full_txout(&graph, outpoint), Some(unspent.clone()));
    // A spender that is not confirmed does not count.
    graph.spends.insert(outpoint.key(), BTreeSet::from([tx(2), tx(9)]));
    assert_eq!(chain.full_txout(&graph, outpoint), Some(unspent.clone()));
    graph.spends.insert(outpoint.key(), BTreeSet::from([tx(2), tx(3), tx(9)]));
    assert_eq!(
        chain.full_txout(&graph, outpoint),
        Some(FullTxOut { spent_by: Some(tx(3)), ..unspent })
    );
    // The chain does not see this transaction.
    let unseen = OutPoint { txid: tx(9), vout: 0 };
    graph.txouts.insert(unseen.key(), txout.clone());
    assert_eq!(chain.full_txout(&graph, unseen), None);
    let pending = OutPoint { txid: tx(2), vout: 0 };
    graph.txouts.insert(pending.key(), txout);
    assert_eq!(
        chain.full_txout(&graph, pending).map(|full| full.height),
        Some(TxHeight::Unconfirmed)
    );
}

#[test]
fn changes_between_two_chains() {
    let mut before = chain_of_heights(&[1, 2]);
    assert_eq!(before.apply_block_txs(block(3, 3), vec![tx(1), tx(2)]), Ok(()));
    let mut after = before.clone();
    let changes = before.changes_to(&after);
    assert!(changes.is_empty());
    after.disconnect_block(block(3, 3));
    let update = update_of(
        &after,
        &[(tx(1), TxHeight::Unconfirmed), (tx(3), TxHeight::Confirmed(3))],
        block(4, 14),
    );
    assert_eq!(after.apply_update(update), Ok(()));
    let changes = before.changes_to(&after);
    assert_eq!(
        changes.checkpoints.into_iter().collect::<Vec<_>>(),
        vec![(3, None), (4, Some(block(4, 14).hash))]
    );
    assert_eq!(
        changes.txids.into_iter().collect::<Vec<_>>(),
        vec![
            (tx(1), Some(TxHeight::Unconfirmed)),
            (tx(2), None),
            (tx(3), Some(TxHeight::Confirmed(3))),
        ]
    );
}

#[test]
fn txids_are_listed_once_after_any_update() {
    let mut chain = chain_of_heights(&[1]);
    let updates = [
        (vec![(tx(1), TxHeight::Unconfirmed), (tx(2), TxHeight::Confirmed(1))], 2),
        (vec![(tx(1), TxHeight::Confirmed(2)), (tx(2), TxHeight::Confirmed(1))], 3),
        (vec![(tx(1), TxHeight::Unconfirmed)], 4),
        (vec![(tx(3), TxHeight::Unconfirmed), (tx(1), TxHeight::Confirmed(2))], 5),
    ];
    let mut accepted = Vec::new();
    for (txids, height) in updates {
        let update = update_of(&chain, &txids, block(height, height as u128));
        accepted.push(chain.apply_update(update).is_ok());
        let list = chain.iter_txids();
        let distinct: BTreeSet<Txid> = list.iter().map(|(_, txid)| *txid).collect();
        assert_eq!(distinct.len(), list.len());
        for (height, txid) in chain.iter_confirmed_txids() {
            assert_eq!(chain.transaction_height(&txid), Some(TxHeight::Confirmed(height)));
        }
    }
    assert_eq!(accepted, vec![true, true, false, true]);
}

#[test]
fn chain_rebuilt_from_its_changes() {
    let mut chain = chain_of_heights(&[1, 2]);
    let update = update_of(
        &chain,
        &[(tx(1), TxHeight::Confirmed(2)), (tx(2), TxHeight::Unconfirmed)],
        block(3, 3),
    );
    assert_eq!(chain.apply_update(update), Ok(()));
    let mut changes = SparseChain::default().changes_to(&chain);
    changes.checkpoints.insert(9, None);
    changes.txids.insert(tx(9), None);
    let rebuilt = chain_of(&changes);
    assert_eq!(heights_of(&rebuilt), vec![1, 2, 3]);
    assert_eq!(rebuilt.latest_checkpoint(), Some(block(3, 3)));
    assert_eq!(rebuilt.iter_txids(), chain.iter_txids());
}

#[test]
fn chain_without_checkpoints_is_rebuilt() {
    let mut chain = SparseChain::default();
    chain.set_checkpoint_limit(Some(0));
    assert_eq!(chain.apply_block_txs(block(4, 4), vec![tx(1)]), Ok(()));
    let rebuilt = chain_of(&SparseChain::default().changes_to(&chain));
    assert_eq!(rebuilt.latest_checkpoint(), None);
    assert_eq!(rebuilt.transaction_height(&tx(1)), Some(TxHeight::Confirmed(4)));
}

#[test]
fn changes_need_the_unknown_transactions() {
    let mut changes = ChangeSet::<TxHeight>::default();
    changes.txids.insert(tx(1), Some(TxHeight::Confirmed(1)));
    changes.txids.insert(tx(2), None);
    changes.txids.insert(tx(3), Some(TxHeight::Unconfirmed));
    changes.txids.insert(tx(4), Some(TxHeight::Confirmed(2)));
    let mut known = Additions::default();
    known.tx.insert(tx(3), Transaction { input: vec![], output: vec![] });
    known.txout.insert((tx(1), 0), TxOut { value: 1, script_pubkey: vec![] });
    let mut list = txids_to_fetch(&changes, &known);
    list.sort();
    assert_eq!(list, vec![tx(1), tx(4)]);
}

#[test]
fn height_from_option() {
    assert_eq!(TxHeight::from(Some(5)), TxHeight::Confirmed(5));
    assert_eq!(TxHeight::from(None), TxHeight::Unconfirmed);
    assert!(TxHeight::Confirmed(0).is_confirmed());
    assert!(!TxHeight::Unconfirmed.is_confirmed());
}
