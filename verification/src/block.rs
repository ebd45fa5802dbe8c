//! Positions in the chain.

use vstd::prelude::*;

use crate::hash::{block_hash_to_string, reversed_hex, BlockHash};
use crate::text::{decimal, push_decimal};

verus! {

/// A block, by its height and its hash.
#[derive(Clone, Copy, Debug, PartialEq, Eq, Structural, Hash)]
pub struct BlockId {
    pub height: u32,
    pub hash: BlockHash,
}

impl BlockId {
    /// How a block is shown.
    pub open spec fn text(self) -> Seq<char> {
        reversed_hex(self.hash.hi, self.hash.lo) + " @ "@ + decimal(self.height as nat)
    }

    /// The hash of the block and its height.
    pub fn to_string(&self) -> (text: String)
        ensures
            text@ == self.text(),
            text@ == reversed_hex(self.hash.hi, self.hash.lo) + " @ "@ + decimal(
                self.height as nat,
            ),
    {
        let mut text = block_hash_to_string(self.hash);
        text.append(" @ ");
        push_decimal(&mut text, self.height as u64);
        text
    }
}

/// Represents the height in which a transaction is confirmed at.
#[derive(Clone, Copy, Debug, PartialEq, Eq, Structural, PartialOrd, Ord, Hash)]
pub enum TxHeight {
    Confirmed(u32),
    Unconfirmed,
}

impl TxHeight {
    /// How a height is shown.
    pub open spec fn text(self) -> Seq<char> {
        match self {
            TxHeight::Confirmed(h) => "confirmed_at("@ + decimal(h as nat) + ")"@,
            TxHeight::Unconfirmed => "unconfirmed"@,
        }
    }

    /// The height, or that there is none.
    pub fn to_string(&self) -> (text: String)
        ensures
            text@ == self.text(),
            text@ == match *self {
                TxHeight::Confirmed(h) => "confirmed_at("@ + decimal(h as nat) + ")"@,
                TxHeight::Unconfirmed => "unconfirmed"@,
            },
    {
        match self {
            TxHeight::Confirmed(h) => {
                let mut text = String::from_str("confirmed_at(");
                push_decimal(&mut text, *h as u64);
                text.append(")");
                text
            },
            TxHeight::Unconfirmed => String::from_str("unconfirmed"),
        }
    }

    /// Whether the transaction is in a block.
    pub fn is_confirmed(&self) -> (confirmed: bool)
        ensures
            confirmed == (*self is Confirmed),
    {
        matches!(self, TxHeight::Confirmed(_))
    }
}

impl From<Option<u32>> for TxHeight {
    fn from(opt: Option<u32>) -> Self {
        match opt {
            Some(h) => TxHeight::Confirmed(h),
            None => TxHeight::Unconfirmed,
        }
    }
}

impl vstd::std_specs::convert::FromSpecImpl<Option<u32>> for TxHeight {
    open spec fn obeys_from_spec() -> bool {
        true
    }

    open spec fn from_spec(opt: Option<u32>) -> Self {
        match opt {
            Some(h) => TxHeight::Confirmed(h),
            None => TxHeight::Unconfirmed,
        }
    }
}

/// A height that is there is that of a confirmed transaction; without one it is unconfirmed.
pub proof fn law_height_from_option(h: u32)
    ensures
        <TxHeight as vstd::std_specs::convert::FromSpec<Option<u32>>>::from_spec(Some(h))
            == TxHeight::Confirmed(h),
        <TxHeight as vstd::std_specs::convert::FromSpec<Option<u32>>>::from_spec(None)
            == TxHeight::Unconfirmed,
{
}

} // verus!
