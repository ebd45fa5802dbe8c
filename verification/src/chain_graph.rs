//! A chain together with the transactions seen in it.

use std::collections::BTreeMap;

use vstd::prelude::*;

use crate::hash::{BlockHash, Txid};
use crate::sparse_chain;
use crate::tx_graph::{
    lists_txouts, owned_txouts, Additions, OutPoint, Transaction, TxGraph, TxOut,
};

verus! {

/// Checkpoints, the positions of transactions, and what is known of the transactions.
#[derive(Clone, Debug, PartialEq)]
pub struct ChainGraph<P> {
    pub checkpoints: BTreeMap<u32, BlockHash>,
    pub positions: BTreeMap<Txid, P>,
    pub graph: TxGraph,
}

impl<P> Default for ChainGraph<P> {
    fn default() -> (chain: Self)
        ensures
            chain.checkpoints@ == Map::<u32, BlockHash>::empty(),
            chain.positions@ == Map::<Txid, P>::empty(),
            chain.graph.txouts@.is_empty(),
            chain.graph.spends@.is_empty(),
    {
        ChainGraph {
            checkpoints: BTreeMap::new(),
            positions: BTreeMap::new(),
            graph: Default::default(),
        }
    }
}

impl<P> ChainGraph<P> {
    /// What is known of the transactions.
    pub fn graph(&self) -> (graph: &TxGraph)
        ensures
            *graph == self.graph,
    {
        &self.graph
    }
}

/// Changes to a chain and to what is known of its transactions.
#[derive(Clone, Debug, PartialEq)]
pub struct ChangeSet<P> {
    pub chain: sparse_chain::ChangeSet<P>,
    pub graph: Additions,
}

/// The contents of a [`ChangeSet`].
#[verifier::ext_equal]
pub struct Changes<P> {
    pub checkpoints: Map<u32, Option<BlockHash>>,
    pub txids: Map<Txid, Option<P>>,
    pub tx: Map<Txid, Transaction>,
    pub txout: Map<(Txid, u32), TxOut>,
}

impl<P> View for ChangeSet<P> {
    type V = Changes<P>;

    open spec fn view(&self) -> Changes<P> {
        Changes {
            checkpoints: self.chain.checkpoints@,
            txids: self.chain.txids@,
            tx: self.graph.tx@,
            txout: self.graph.txout@,
        }
    }
}

impl<P> Changes<P> {
    /// No changes.
    pub open spec fn empty() -> Changes<P> {
        Changes {
            checkpoints: Map::empty(),
            txids: Map::empty(),
            tx: Map::empty(),
            txout: Map::empty(),
        }
    }

    /// These changes and then those of `other`.
    pub open spec fn appended(self, other: Changes<P>) -> Changes<P> {
        Changes {
            checkpoints: self.checkpoints.union_prefer_right(other.checkpoints),
            txids: self.txids.union_prefer_right(other.txids),
            tx: self.tx.union_prefer_right(other.tx),
            txout: self.txout.union_prefer_right(other.txout),
        }
    }
}

impl<P> Default for ChangeSet<P> {
    fn default() -> (changes: Self)
        ensures
            changes@ == Changes::<P>::empty(),
            changes.chain.checkpoints@.is_empty(),
            changes.chain.txids@.is_empty(),
            changes.graph.tx@.is_empty(),
            changes.graph.txout@.is_empty(),
    {
        ChangeSet { chain: Default::default(), graph: Default::default() }
    }
}

impl<P> ChangeSet<P> {
    /// Whether nothing changes.
    pub fn is_empty(&self) -> (empty: bool)
        ensures
            empty == (self@ == Changes::<P>::empty()),
            empty == (self.chain.checkpoints@.is_empty() && self.chain.txids@.is_empty()
                && self.graph.tx@.is_empty() && self.graph.txout@.is_empty()),
    {
        let empty = self.chain.is_empty() && self.graph.is_empty();
        proof {
            if empty {
                assert(self@ =~= Changes::<P>::empty());
            }
        }
        empty
    }

    /// Appends the changes of `other`. Where both change a thing, the change of `other` stays.
    pub fn append(&mut self, other: ChangeSet<P>)
        ensures
            final(self)@ == old(self)@.appended(other@),
            final(self).chain.checkpoints@ == old(self).chain.checkpoints@.union_prefer_right(
                other.chain.checkpoints@,
            ),
            final(self).chain.txids@ == old(self).chain.txids@.union_prefer_right(
                other.chain.txids@,
            ),
            final(self).graph.tx@ == old(self).graph.tx@.union_prefer_right(other.graph.tx@),
            final(self).graph.txout@ == old(self).graph.txout@.union_prefer_right(
                other.graph.txout@,
            ),
    {
        self.chain.append(other.chain);
        self.graph.append(other.graph);
    }

    /// The outputs that come to be known.
    pub fn txouts(&self) -> (list: Vec<(OutPoint, &TxOut)>)
        ensures
            lists_txouts(owned_txouts(list@), self@.tx, self@.txout),
            lists_txouts(owned_txouts(list@), self.graph.tx@, self.graph.txout@),
    {
        self.graph.txouts()
    }
}

/// The contents of a change set are its four collections.
pub proof fn law_change_set_contents<P>(changes: ChangeSet<P>)
    ensures
        changes@.checkpoints == changes.chain.checkpoints@,
        changes@.txids == changes.chain.txids@,
        changes@.tx == changes.graph.tx@,
        changes@.txout == changes.graph.txout@,
{
}

/// Of a thing that two change sets change, the second one's change stays; of any other, the only
/// one.
pub proof fn law_later_change_stays<P>(
    first: Changes<P>,
    second: Changes<P>,
    height: u32,
    txid: Txid,
    key: (Txid, u32),
)
    ensures
        ({
            let both = first.appended(second);
            &&& both.checkpoints.contains_key(height) <==> first.checkpoints.contains_key(height)
                || second.checkpoints.contains_key(height)
            &&& second.checkpoints.contains_key(height) ==> both.checkpoints[height]
                == second.checkpoints[height]
            &&& first.checkpoints.contains_key(height) && !second.checkpoints.contains_key(height)
                ==> both.checkpoints[height] == first.checkpoints[height]
            &&& both.txids.contains_key(txid) <==> first.txids.contains_key(txid)
                || second.txids.contains_key(txid)
            &&& second.txids.contains_key(txid) ==> both.txids[txid] == second.txids[txid]
            &&& first.txids.contains_key(txid) && !second.txids.contains_key(txid)
                ==> both.txids[txid] == first.txids[txid]
            &&& both.tx.contains_key(txid) <==> first.tx.contains_key(txid)
                || second.tx.contains_key(txid)
            &&& second.tx.contains_key(txid) ==> both.tx[txid] == second.tx[txid]
            &&& first.tx.contains_key(txid) && !second.tx.contains_key(txid) ==> both.tx[txid]
                == first.tx[txid]
            &&& both.txout.contains_key(key) <==> first.txout.contains_key(key)
                || second.txout.contains_key(key)
            &&& second.txout.contains_key(key) ==> both.txout[key] == second.txout[key]
            &&& first.txout.contains_key(key) && !second.txout.contains_key(key)
                ==> both.txout[key] == first.txout[key]
        }),
{
}

} // verus!
