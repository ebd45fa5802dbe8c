use bdk_chain::electrum::{
    gap_reached, last_active_index, reported_height, Network, ScanOption, SyncTargets,
    DEFAULT_STOP_GAP,
};
use bdk_chain::TxHeight;

fn targets(unused: bool, unspent: bool, all: bool) -> SyncTargets {
    SyncTargets { unused, unspent, all }
}

#[test]
fn server_of_each_network() {
    assert_eq!(Network::Bitcoin.electrum_url(), "ssl://electrum.blockstream.info:50002");
    assert_eq!(Network::Testnet.electrum_url(), "ssl://electrum.blockstream.info:60002");
    assert_eq!(Network::Regtest.electrum_url(), "ssl://localhost:60401");
    assert_eq!(Network::Signet.electrum_url(), "tcp://signet-electrumx.wakiyamap.dev:50001");
}

#[test]
fn only_the_main_network_validates_the_domain() {
    assert!(Network::Bitcoin.validates_domain());
    assert!(!Network::Testnet.validates_domain());
    assert!(!Network::Regtest.validates_domain());
    assert!(!Network::Signet.validates_domain());
}

#[test]
fn default_options() {
    assert_eq!(ScanOption::default(), ScanOption { batch_size: 25 });
    assert_eq!(DEFAULT_STOP_GAP, 5);
}

#[test]
fn nothing_asked_for_is_unused_and_unspent() {
    assert_eq!(targets(false, false, false).resolve(), targets(true, true, false));
}

#[test]
fn all_includes_the_rest() {
    assert_eq!(targets(false, false, true).resolve(), targets(false, false, true));
    assert_eq!(targets(true, true, true).resolve(), targets(false, false, true));
}

#[test]
fn what_is_asked_for_is_scanned() {
    assert_eq!(targets(true, false, false).resolve(), targets(true, false, false));
    assert_eq!(targets(false, true, false).resolve(), targets(false, true, false));
    assert_eq!(targets(true, true, false).resolve(), targets(true, true, false));
}

#[test]
fn scripts_in_order() {
    let (unused, all, unspent) = (vec![vec![1], vec![2]], vec![vec![3]], vec![vec![4], vec![1]]);
    let select = |t: SyncTargets| t.select_scripts(unused.clone(), all.clone(), unspent.clone());
    assert_eq!(select(targets(true, true, false)), vec![vec![1], vec![2], vec![4], vec![1]]);
    assert_eq!(select(targets(false, false, true)), vec![vec![3]]);
    assert_eq!(
        select(targets(true, true, true)),
        vec![vec![1], vec![2], vec![3], vec![4], vec![1]]
    );
    assert_eq!(select(targets(false, false, false)), Vec::<Vec<u8>>::new());
}

#[test]
fn gap_ends_a_scan() {
    assert!(gap_reached(&vec![], 0));
    assert!(!gap_reached(&vec![], 1));
    assert!(!gap_reached(&vec![false, false, true, false], 2));
    assert!(gap_reached(&vec![true, false, false], 2));
    assert!(!gap_reached(&vec![true, false, false], 3));
    assert!(gap_reached(&vec![false, false, false], 3));
}

#[test]
fn last_active_script() {
    assert_eq!(last_active_index(&vec![]), None);
    assert_eq!(last_active_index(&vec![false, false]), None);
    assert_eq!(last_active_index(&vec![true, false, true, false]), Some(2));
    assert_eq!(last_active_index(&vec![true]), Some(0));
}

#[test]
fn height_that_a_server_reports() {
    assert_eq!(reported_height(700000), TxHeight::Confirmed(700000));
    assert_eq!(reported_height(i32::MAX), TxHeight::Confirmed(2147483647));
    assert_eq!(reported_height(0), TxHeight::Unconfirmed);
    assert_eq!(reported_height(-1), TxHeight::Unconfirmed);
}
