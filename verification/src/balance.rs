//! What a wallet holds.

use vstd::prelude::*;
use vstd::std_specs::ops::AddSpec;

use crate::text::{decimal, push_decimal};

verus! {

/// Balance differentiated in various categories
#[derive(Clone, Copy, Debug, PartialEq, Eq, Structural)]
pub struct Balance {
    /// All coinbase outputs not yet matured
    pub immature: u64,
    /// Unconfirmed UTXOs generated by a wallet tx
    pub trusted_pending: u64,
    /// Unconfirmed UTXOs received from an external wallet
    pub untrusted_pending: u64,
    /// Confirmed and immediately spendable balance
    pub confirmed: u64,
}

impl Default for Balance {
    fn default() -> (balance: Self)
        ensures
            balance == Balance::zero(),
            balance.immature == 0 && balance.trusted_pending == 0 && balance.untrusted_pending == 0
                && balance.confirmed == 0,
    {
        Balance { immature: 0, trusted_pending: 0, untrusted_pending: 0, confirmed: 0 }
    }
}

impl Balance {
    /// No coins.
    pub open spec fn zero() -> Balance {
        Balance { immature: 0, trusted_pending: 0, untrusted_pending: 0, confirmed: 0 }
    }

    /// The coins that nobody else can take back.
    pub open spec fn spendable_sum(self) -> int {
        self.confirmed + self.trusted_pending
    }

    /// All coins.
    pub open spec fn sum(self) -> int {
        self.confirmed + self.trusted_pending + self.untrusted_pending + self.immature
    }

    /// Get sum of trusted_pending and confirmed coins.
    ///
    /// This is the balance you can spend right now that shouldn't get cancelled via another party
    /// double spending it.
    pub fn trusted_spendable(&self) -> (sum: u64)
        requires
            self.spendable_sum() <= u64::MAX,
        ensures
            sum == self.spendable_sum(),
            sum == self.trusted_pending + self.confirmed,
    {
        self.confirmed + self.trusted_pending
    }

    /// Get the whole balance visible to the wallet.
    pub fn total(&self) -> (sum: u64)
        requires
            self.sum() <= u64::MAX,
        ensures
            sum == self.sum(),
            sum == self.immature + self.trusted_pending + self.untrusted_pending + self.confirmed,
    {
        self.confirmed + self.trusted_pending + self.untrusted_pending + self.immature
    }

    /// How a balance is shown.
    pub open spec fn text(self) -> Seq<char> {
        "{ immature: "@ + decimal(self.immature as nat) + ", trusted_pending: "@ + decimal(
            self.trusted_pending as nat,
        ) + ", untrusted_pending: "@ + decimal(self.untrusted_pending as nat) + ", confirmed: "@
            + decimal(self.confirmed as nat) + " }"@
    }

    /// The balance in each category.
    pub fn to_string(&self) -> (text: String)
        ensures
            text@ == self.text(),
    {
        let mut text = String::from_str("{ immature: ");
        push_decimal(&mut text, self.immature);
        text.append(", trusted_pending: ");
        push_decimal(&mut text, self.trusted_pending);
        text.append(", untrusted_pending: ");
        push_decimal(&mut text, self.untrusted_pending);
        text.append(", confirmed: ");
        push_decimal(&mut text, self.confirmed);
        text.append(" }");
        text
    }
}

impl core::ops::Add for Balance {
    type Output = Balance;

    fn add(self, other: Balance) -> Balance {
        Balance {
            immature: self.immature + other.immature,
            trusted_pending: self.trusted_pending + other.trusted_pending,
            untrusted_pending: self.untrusted_pending + other.untrusted_pending,
            confirmed: self.confirmed + other.confirmed,
        }
    }
}

impl vstd::std_specs::ops::AddSpecImpl for Balance {
    open spec fn obeys_add_spec() -> bool {
        true
    }

    /// The sum of each category fits.
    open spec fn add_req(self, other: Balance) -> bool {
        &&& self.immature + other.immature <= u64::MAX
        &&& self.trusted_pending + other.trusted_pending <= u64::MAX
        &&& self.untrusted_pending + other.untrusted_pending <= u64::MAX
        &&& self.confirmed + other.confirmed <= u64::MAX
    }

    open spec fn add_spec(self, other: Balance) -> Balance {
        Balance {
            immature: (self.immature + other.immature) as u64,
            trusted_pending: (self.trusted_pending + other.trusted_pending) as u64,
            untrusted_pending: (self.untrusted_pending + other.untrusted_pending) as u64,
            confirmed: (self.confirmed + other.confirmed) as u64,
        }
    }
}

/// The sums of two balances add up to the sums of their sum.
pub proof fn law_sums_add_up(a: Balance, b: Balance)
    requires
        a.add_req(b),
    ensures
        a.add_spec(b).spendable_sum() == a.spendable_sum() + b.spendable_sum(),
        a.add_spec(b).sum() == a.sum() + b.sum(),
{
}

/// Balances may be added in any order, and adding no coins changes nothing.
pub proof fn law_addition_in_any_order(a: Balance, b: Balance, c: Balance)
    requires
        a.add_req(b),
        b.add_req(c),
        a.add_spec(b).add_req(c),
    ensures
        b.add_req(a) && a.add_spec(b) == b.add_spec(a),
        a.add_req(b.add_spec(c)) && a.add_spec(b).add_spec(c) == a.add_spec(b.add_spec(c)),
        a.add_req(Balance::zero()) && a.add_spec(Balance::zero()) == a,
{
}

/// What can be spent is part of the whole balance: the rest is pending from others or immature.
pub proof fn law_spendable_is_part_of_total(balance: Balance)
    ensures
        balance.sum() == balance.spendable_sum() + balance.untrusted_pending + balance.immature,
        balance.spendable_sum() <= balance.sum(),
{
}

/// Each category of the sum of two balances is the sum of that category, and two balances can be
/// added whenever these sums fit.
pub proof fn law_categories_add_up(a: Balance, b: Balance)
    requires
        a.immature + b.immature <= u64::MAX,
        a.trusted_pending + b.trusted_pending <= u64::MAX,
        a.untrusted_pending + b.untrusted_pending <= u64::MAX,
        a.confirmed + b.confirmed <= u64::MAX,
    ensures
        a.add_req(b),
        a.add_spec(b).immature == a.immature + b.immature,
        a.add_spec(b).trusted_pending == a.trusted_pending + b.trusted_pending,
        a.add_spec(b).untrusted_pending == a.untrusted_pending + b.untrusted_pending,
        a.add_spec(b).confirmed == a.confirmed + b.confirmed,
{
}

/// The coins that can be spent are the confirmed and the trusted pending ones, and all coins are
/// those of the four categories.
pub proof fn law_sums_of_categories(balance: Balance)
    ensures
        balance.spendable_sum() == balance.trusted_pending + balance.confirmed,
        balance.sum() == balance.immature + balance.trusted_pending + balance.untrusted_pending
            + balance.confirmed,
{
}

} // verus!
