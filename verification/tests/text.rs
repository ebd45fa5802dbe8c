use bdk_chain::balance::Balance;
use bdk_chain::hash::{BlockHash, Txid};
use bdk_chain::sparse_chain::{BogusReason, UpdateFailure};
use bdk_chain::{BlockId, TxHeight};

/// The bytes 0, 1, 2, ...
const COUNTING: (u128, u128) = (
    0x000102030405060708090a0b0c0d0e0f,
    0x101112131415161718191a1b1c1d1e1f,
);

const COUNTING_TEXT: &str = "1f1e1d1c1b1a191817161514131211100f0e0d0c0b0a09080706050403020100";

fn block(height: u32) -> BlockId {
    BlockId { height, hash: BlockHash { hi: COUNTING.0, lo: COUNTING.1 } }
}

#[test]
fn block_is_shown_by_hash_and_height() {
    assert_eq!(block(0).to_string(), format!("{} @ 0", COUNTING_TEXT));
    assert_eq!(block(u32::MAX).to_string(), format!("{} @ 4294967295", COUNTING_TEXT));
}

#[test]
fn block_is_shown_as_its_bytes_are() {
    let mut bytes = [0u8; 32];
    for (i, byte) in bytes.iter_mut().enumerate() {
        *byte = (i * 37 + 11) as u8;
    }
    let mut hi = [0u8; 16];
    hi.copy_from_slice(&bytes[..16]);
    let mut lo = [0u8; 16];
    lo.copy_from_slice(&bytes[16..]);
    let hash: bitcoin::BlockHash = bitcoin::hashes::Hash::from_inner(bytes);
    let id = BlockId {
        height: 1000,
        hash: BlockHash { hi: u128::from_be_bytes(hi), lo: u128::from_be_bytes(lo) },
    };
    assert_eq!(id.to_string(), format!("{} @ {}", hash, 1000));
}

#[test]
fn height_is_shown() {
    assert_eq!(TxHeight::Confirmed(0).to_string(), "confirmed_at(0)");
    assert_eq!(TxHeight::Confirmed(700123).to_string(), "confirmed_at(700123)");
    assert_eq!(TxHeight::Unconfirmed.to_string(), "unconfirmed");
}

#[test]
fn conflicting_tip_is_shown() {
    let failure = UpdateFailure::Bogus(BogusReason::LastValidConflictsNewTip {
        new_tip: block(4),
        last_valid: block(5),
    });
    assert_eq!(
        failure.to_string(),
        format!(
            "bogus update: last_valid ({} @ 5) conflicts new_tip ({} @ 4)",
            COUNTING_TEXT, COUNTING_TEXT
        )
    );
}

#[test]
fn transaction_above_tip_is_shown() {
    let txid: Txid = COUNTING;
    let failure = UpdateFailure::Bogus(BogusReason::TxHeightGreaterThanTip {
        new_tip: block(4),
        tx: (txid, TxHeight::Confirmed(12)),
    });
    assert_eq!(
        failure.to_string(),
        format!(
            "bogus update: tx ({}) confirmation height (confirmed_at(12)) is greater than new_tip ({} @ 4)",
            COUNTING_TEXT, COUNTING_TEXT
        )
    );
}

#[test]
fn stale_update_is_shown() {
    let failure = UpdateFailure::Stale {
        got_last_valid: None,
        expected_last_valid: Some(block(10)),
    };
    assert_eq!(
        failure.to_string(),
        format!(
            "stale update: got last_valid (None) when expecting ({} @ 10)",
            COUNTING_TEXT
        )
    );
}

#[test]
fn inconsistent_update_is_shown() {
    let failure = UpdateFailure::Inconsistent {
        inconsistent_txid: (0, 0xab),
        original_height: TxHeight::Confirmed(9),
        update_height: TxHeight::Unconfirmed,
    };
    assert_eq!(
        failure.to_string(),
        "inconsistent update: first inconsistent tx is (ab00000000000000000000000000000000000000000000000000000000000000) which had confirmation height (confirmed_at(9)), but is (unconfirmed) in the update"
    );
}

#[test]
fn balance_is_shown() {
    let balance = Balance {
        immature: 1,
        trusted_pending: 0,
        untrusted_pending: 30,
        confirmed: u64::MAX,
    };
    assert_eq!(
        balance.to_string(),
        "{ immature: 1, trusted_pending: 0, untrusted_pending: 30, confirmed: 18446744073709551615 }"
    );
}
