use std::collections::BTreeMap;

use bdk_chain::block::TxHeight;
use bdk_chain::chain_graph;
use bdk_chain::hash::BlockHash;
use bdk_chain::keychain::{KeychainChangeSet, KeychainScan};
use bdk_chain::tx_graph::{OutPoint, Transaction, TxGraph, TxOut};

#[test]
fn append_keychain_derivation_indices() {
    #[derive(Ord, PartialOrd, Eq, PartialEq, Clone, Debug)]
    enum Keychain {
        One,
        Two,
        Three,
        Four,
    }
    let mut lhs_di = BTreeMap::<Keychain, u32>::default();
    let mut rhs_di = BTreeMap::<Keychain, u32>::default();
    lhs_di.insert(Keychain::One, 7);
    lhs_di.insert(Keychain::Two, 0);
    rhs_di.insert(Keychain::One, 3);
    rhs_di.insert(Keychain::Two, 5);
    lhs_di.insert(Keychain::Three, 3);
    rhs_di.insert(Keychain::Four, 4);
    let mut lhs = KeychainChangeSet {
        derivation_indices: lhs_di,
        chain_graph: chain_graph::ChangeSet::<TxHeight>::default(),
    };

    let rhs = KeychainChangeSet {
        derivation_indices: rhs_di,
        chain_graph: chain_graph::ChangeSet::<TxHeight>::default(),
    };

    lhs.append(rhs);

    assert_eq!(lhs.derivation_indices.get(&Keychain::One), Some(&7));
    assert_eq!(lhs.derivation_indices.get(&Keychain::Two), Some(&5));
    assert_eq!(lhs.derivation_indices.get(&Keychain::Three), Some(&3));
    assert_eq!(lhs.derivation_indices.get(&Keychain::Four), Some(&4));
}

fn hash(lo: u128) -> BlockHash {
    BlockHash { hi: 0, lo }
}

fn txout(value: u64) -> TxOut {
    TxOut { value, script_pubkey: vec![value as u8] }
}

fn changes(index: u32, height: u32, value: u64) -> KeychainChangeSet<u32, TxHeight> {
    let mut changes = KeychainChangeSet::<u32, TxHeight>::default();
    changes.derivation_indices.insert(1, index);
    changes.chain_graph.chain.checkpoints.insert(height, Some(hash(height as u128)));
    changes.chain_graph.chain.txids.insert((1, 1), Some(TxHeight::Confirmed(height)));
    changes.chain_graph.graph.txout.insert(((2, 2), 0), txout(value));
    changes
}

#[test]
fn appended_changes_take_the_place_of_earlier_ones() {
    let mut both = changes(7, 10, 100);
    let mut later = changes(3, 11, 200);
    later.chain_graph.chain.checkpoints.insert(10, None);
    both.append(later);
    assert_eq!(both.derivation_indices.get(&1), Some(&7));
    assert_eq!(both.chain_graph.chain.checkpoints.get(&10), Some(&None));
    assert_eq!(both.chain_graph.chain.checkpoints.get(&11), Some(&Some(hash(11))));
    assert_eq!(
        both.chain_graph.chain.txids.get(&(1, 1)),
        Some(&Some(TxHeight::Confirmed(11)))
    );
    assert_eq!(both.chain_graph.graph.txout.get(&((2, 2), 0)), Some(&txout(200)));
}

#[test]
fn appending_groups_in_any_way() {
    let (a, b, c) = (changes(1, 10, 100), changes(5, 11, 200), changes(4, 10, 300));
    let mut left = a.clone();
    left.append(b.clone());
    left.append(c.clone());
    let mut tail = b;
    tail.append(c);
    let mut right = a;
    right.append(tail);
    assert_eq!(left.derivation_indices, right.derivation_indices);
    assert_eq!(left.derivation_indices.get(&1), Some(&5));
    assert_eq!(left.chain_graph, right.chain_graph);
}

#[test]
fn appending_nothing_changes_nothing() {
    let mut some = changes(7, 10, 100);
    some.append(KeychainChangeSet::default());
    assert_eq!(some.derivation_indices, changes(7, 10, 100).derivation_indices);
    assert_eq!(some.chain_graph, changes(7, 10, 100).chain_graph);
    let mut none = KeychainChangeSet::default();
    none.append(changes(7, 10, 100));
    assert_eq!(none.derivation_indices, some.derivation_indices);
    assert_eq!(none.chain_graph, some.chain_graph);
}

#[test]
fn changes_are_empty_only_without_any() {
    let mut changes = KeychainChangeSet::<u32, TxHeight>::default();
    assert!(changes.is_empty());
    changes.derivation_indices.insert(0, 0);
    assert!(!changes.is_empty());

    let mut changes = KeychainChangeSet::<u32, TxHeight>::default();
    changes.chain_graph.chain.checkpoints.insert(0, None);
    assert!(!changes.is_empty());

    let mut changes = KeychainChangeSet::<u32, TxHeight>::default();
    changes.chain_graph.chain.txids.insert((0, 0), None);
    assert!(!changes.is_empty());

    let mut changes = KeychainChangeSet::<u32, TxHeight>::default();
    changes.chain_graph.graph.txout.insert(((0, 0), 0), txout(0));
    assert!(!changes.is_empty());

    let mut changes = KeychainChangeSet::<u32, TxHeight>::default();
    changes.chain_graph.graph.tx.insert((0, 0), Transaction { input: vec![], output: vec![] });
    assert!(!changes.is_empty());
}

#[test]
fn changes_of_the_chain_alone() {
    let graph_changes = changes(7, 10, 100).chain_graph;
    let changes: KeychainChangeSet<u32, TxHeight> = graph_changes.clone().into();
    assert!(changes.derivation_indices.is_empty());
    assert_eq!(changes.chain_graph, graph_changes);
}

#[test]
fn outputs_of_changes() {
    let mut changes = changes(7, 10, 100);
    changes.chain_graph.graph.tx.insert(
        (9, 9),
        Transaction {
            input: vec![OutPoint { txid: (2, 2), vout: 0 }],
            output: vec![txout(40), txout(50)],
        },
    );
    changes.chain_graph.graph.tx.insert(
        (8, 8),
        Transaction { input: vec![], output: vec![txout(30)] },
    );
    assert_eq!(
        changes.txouts(),
        vec![
            (OutPoint { txid: (8, 8), vout: 0 }, &txout(30)),
            (OutPoint { txid: (9, 9), vout: 0 }, &txout(40)),
            (OutPoint { txid: (9, 9), vout: 1 }, &txout(50)),
            (OutPoint { txid: (2, 2), vout: 0 }, &txout(100)),
        ]
    );
}

#[test]
fn scan_shows_its_graph() {
    let mut scan = KeychainScan::<u32, TxHeight>::default();
    assert!(scan.last_active_indexes.is_empty());
    assert!(scan.update.checkpoints.is_empty());
    assert!(scan.update.positions.is_empty());
    let graph: &TxGraph = scan.as_ref();
    assert_eq!(graph, &TxGraph::default());
    scan.update.graph.txouts.insert(((1, 1), 0), txout(5));
    let graph: &TxGraph = scan.as_ref();
    assert_eq!(graph.txout(&OutPoint { txid: (1, 1), vout: 0 }), Some(&txout(5)));
    assert_eq!(graph.outspend(&OutPoint { txid: (1, 1), vout: 0 }), None);
}
