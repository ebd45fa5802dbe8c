use bdk_chain::keychain::Balance;

const A: Balance =
    Balance { immature: 1, trusted_pending: 20, untrusted_pending: 300, confirmed: 4000 };
const B: Balance =
    Balance { immature: 5, trusted_pending: 60, untrusted_pending: 700, confirmed: 8000 };

#[test]
fn sums_of_a_balance() {
    assert_eq!(A.trusted_spendable(), 4020);
    assert_eq!(A.total(), 4321);
    assert_eq!(Balance::default().total(), 0);
    let full = Balance { confirmed: u64::MAX, ..Balance::default() };
    assert_eq!(full.trusted_spendable(), u64::MAX);
    assert_eq!(full.total(), u64::MAX);
}

#[test]
fn balances_add_by_category() {
    let sum =
        Balance { immature: 6, trusted_pending: 80, untrusted_pending: 1000, confirmed: 12000 };
    assert_eq!(A + B, sum);
    assert_eq!(B + A, sum);
    assert_eq!(A + Balance::default(), A);
    assert_eq!((A + B).total(), A.total() + B.total());
    assert_eq!((A + B).trusted_spendable(), A.trusted_spendable() + B.trusted_spendable());
}

#[test]
fn spendable_is_part_of_total() {
    assert_eq!(A.total(), A.trusted_spendable() + A.untrusted_pending + A.immature);
}
