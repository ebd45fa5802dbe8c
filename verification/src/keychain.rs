//! Modules for keychain based structures.
//!
//! A keychain here is a set of application defined indexes for a miniscript descriptor where we can
//! derive script pubkeys at a particular derivation index. The application's index is simply
//! anything that implements `Ord`.

use std::collections::BTreeMap;

use vstd::laws_cmp::obeys_cmp;
use vstd::prelude::*;

pub use crate::balance::Balance;
use crate::chain_graph::{self, ChainGraph, Changes};
use crate::collections::pop_first;
use crate::hash::{BlockHash, Txid};
use crate::sparse_chain::changes::changed;
use crate::tx_graph::{lists_txouts, owned_txouts, OutPoint, Transaction, TxGraph, TxOut};

verus! {

broadcast use vstd::std_specs::btree::group_btree_axioms;

/// An update that includes the last active indexes of each keychain.
#[derive(Clone, Debug, PartialEq)]
pub struct KeychainScan<K, P> {
    /// The update data in the form of a chain that could be applied
    pub update: ChainGraph<P>,
    /// The last active indexes of each keychain
    pub last_active_indexes: BTreeMap<K, u32>,
}

impl<K, P> Default for KeychainScan<K, P> {
    fn default() -> (scan: Self)
        ensures
            scan.last_active_indexes@ == Map::<K, u32>::empty(),
            scan.update.checkpoints@.is_empty(),
            scan.update.positions@.is_empty(),
            scan.update.graph.txouts@.is_empty(),
            scan.update.graph.spends@.is_empty(),
    {
        KeychainScan { update: Default::default(), last_active_indexes: BTreeMap::new() }
    }
}

impl<K, P> AsRef<TxGraph> for KeychainScan<K, P> {
    /// What the update knows of transactions.
    fn as_ref(&self) -> (graph: &TxGraph)
        ensures
            *graph == self.update.graph,
    {
        self.update.graph()
    }
}

/// Changes to the derivation indices of keychains and to the chain.
#[derive(Clone, Debug)]
#[must_use]
pub struct KeychainChangeSet<K, P> {
    /// The changes in local keychain derivation indices
    pub derivation_indices: BTreeMap<K, u32>,
    /// The changes that have occurred in the blockchain
    pub chain_graph: chain_graph::ChangeSet<P>,
}

impl<K, P> Default for KeychainChangeSet<K, P> {
    fn default() -> (changes: Self)
        ensures
            changes.derivation_indices@ == Map::<K, u32>::empty(),
            changes.chain_graph@ == Changes::<P>::empty(),
            changes.chain_graph.chain.checkpoints@.is_empty(),
            changes.chain_graph.chain.txids@.is_empty(),
            changes.chain_graph.graph.tx@.is_empty(),
            changes.chain_graph.graph.txout@.is_empty(),
    {
        KeychainChangeSet { derivation_indices: BTreeMap::new(), chain_graph: Default::default() }
    }
}

impl<K, P> KeychainChangeSet<K, P> {
    /// Whether nothing changes.
    pub fn is_empty(&self) -> (empty: bool)
        ensures
            empty == (self.chain_graph@ == Changes::<P>::empty()
                && self.derivation_indices@.is_empty()),
            empty == (self.derivation_indices@.is_empty()
                && self.chain_graph.chain.checkpoints@.is_empty()
                && self.chain_graph.chain.txids@.is_empty() && self.chain_graph.graph.tx@.is_empty()
                && self.chain_graph.graph.txout@.is_empty()),
    {
        self.chain_graph.is_empty() && self.derivation_indices.is_empty()
    }

    /// Appends the changes in `other` into `self` such that applying `self` afterwards has the same
    /// effect as sequentially applying the original `self` and `other`.
    ///
    /// Note the derivation indices cannot be decreased so `other` will only change the derivation
    /// index for a keychain if its entry is higher than the one in `self`.
    pub fn append(&mut self, other: KeychainChangeSet<K, P>) where K: Ord
        ensures
            obeys_cmp::<K>() ==> final(self).derivation_indices@ == greatest_indices(
                old(self).derivation_indices@,
                other.derivation_indices@,
            ),
            final(self).chain_graph@ == old(self).chain_graph@.appended(other.chain_graph@),
            obeys_cmp::<K>() ==> forall|k: K| #[trigger]
                final(self).derivation_indices@.contains_key(k) <==> old(
                    self,
                ).derivation_indices@.contains_key(k) || other.derivation_indices@.contains_key(k),
            obeys_cmp::<K>() ==> forall|k: K| #[trigger]
                final(self).derivation_indices@.contains_key(k) ==> {
                    let index = final(self).derivation_indices@[k];
                    let (mine, others) = (old(self).derivation_indices@, other.derivation_indices@);
                    &&& mine.contains_key(k) ==> index >= mine[k]
                    &&& others.contains_key(k) ==> index >= others[k]
                    &&& mine.contains_key(k) && index == mine[k] || others.contains_key(k) && index
                        == others[k]
                },
            final(self).chain_graph.chain.checkpoints@ == old(
                self,
            ).chain_graph.chain.checkpoints@.union_prefer_right(
                other.chain_graph.chain.checkpoints@,
            ),
            final(self).chain_graph.chain.txids@ == old(
                self,
            ).chain_graph.chain.txids@.union_prefer_right(other.chain_graph.chain.txids@),
            final(self).chain_graph.graph.tx@ == old(
                self,
            ).chain_graph.graph.tx@.union_prefer_right(other.chain_graph.graph.tx@),
            final(self).chain_graph.graph.txout@ == old(
                self,
            ).chain_graph.graph.txout@.union_prefer_right(other.chain_graph.graph.txout@),
    {
        append_greatest(&mut self.derivation_indices, other.derivation_indices);
        self.chain_graph.append(other.chain_graph);
    }

    /// The outputs that come to be known.
    pub fn txouts(&self) -> (list: Vec<(OutPoint, &TxOut)>)
        ensures
            lists_txouts(owned_txouts(list@), self.chain_graph@.tx, self.chain_graph@.txout),
            lists_txouts(
                owned_txouts(list@),
                self.chain_graph.graph.tx@,
                self.chain_graph.graph.txout@,
            ),
    {
        self.chain_graph.txouts()
    }
}

impl<K, P> From<chain_graph::ChangeSet<P>> for KeychainChangeSet<K, P> {
    fn from(changeset: chain_graph::ChangeSet<P>) -> (changes: Self)
        ensures
            changes.derivation_indices@ == Map::<K, u32>::empty(),
            changes.chain_graph == changeset,
    {
        KeychainChangeSet { derivation_indices: BTreeMap::new(), chain_graph: changeset }
    }
}

/// A map is known by its contents only, so what comes out is stated by the clauses of `from`.
impl<K, P> vstd::std_specs::convert::FromSpecImpl<chain_graph::ChangeSet<P>> for KeychainChangeSet<K, P> {
    open spec fn obeys_from_spec() -> bool {
        false
    }

    open spec fn from_spec(changeset: chain_graph::ChangeSet<P>) -> Self {
        arbitrary()
    }
}

/// The greater index of the two for each key; the only one where only one map has the key.
pub open spec fn greatest_indices<K>(a: Map<K, u32>, b: Map<K, u32>) -> Map<K, u32> {
    Map::new(
        |k: K| a.contains_key(k) || b.contains_key(k),
        |k: K|
            if !b.contains_key(k) || a.contains_key(k) && a[k] >= b[k] {
                a[k]
            } else {
                b[k]
            },
    )
}

/// Moves the entries of `from` into `into`. Where both hold a key, the greater index stays.
fn append_greatest<K: Ord>(into: &mut BTreeMap<K, u32>, from: BTreeMap<K, u32>)
    ensures
        obeys_cmp::<K>() ==> final(into)@ == greatest_indices(old(into)@, from@),
{
    let ghost target = greatest_indices(into@, from@);
    let mut rest = from;
    let count: usize = rest.len();
    for i in 0..count
        invariant
            obeys_cmp::<K>() ==> rest@.len() == count - i,
            obeys_cmp::<K>() ==> greatest_indices(into@, rest@) == target,
    {
        if let Some((key, index)) = pop_first(&mut rest) {
            let known: u32 = match into.get(&key) {
                Some(known) => *known,
                None => 0,
            };
            into.insert(
                key,
                if known >= index {
                    known
                } else {
                    index
                },
            );
        }
    }
}

/// What changes are applied to: the derivation index of each keychain, the checkpoints, the
/// positions of transactions, and the known transactions and outputs.
#[verifier::ext_equal]
#[verifier::reject_recursive_types(K)]
pub struct KeychainState<K, P> {
    pub derivation_indices: Map<K, u32>,
    pub checkpoints: Map<u32, BlockHash>,
    pub positions: Map<Txid, P>,
    pub tx: Map<Txid, Transaction>,
    pub txout: Map<(Txid, u32), TxOut>,
}

impl<K, P> KeychainState<K, P> {
    /// The state to which changes have been applied. A derivation index is never decreased.
    pub open spec fn applied(self, indices: Map<K, u32>, changes: Changes<P>) -> KeychainState<
        K,
        P,
    > {
        KeychainState {
            derivation_indices: greatest_indices(self.derivation_indices, indices),
            checkpoints: changed(self.checkpoints, changes.checkpoints),
            positions: changed(self.positions, changes.txids),
            tx: self.tx.union_prefer_right(changes.tx),
            txout: self.txout.union_prefer_right(changes.txout),
        }
    }
}

/// Applying appended changes has the same effect as applying the changes one after the other.
pub proof fn law_append_applies_in_sequence<K, P>(
    state: KeychainState<K, P>,
    indices: Map<K, u32>,
    changes: Changes<P>,
    other_indices: Map<K, u32>,
    other_changes: Changes<P>,
)
    ensures
        state.applied(
            greatest_indices(indices, other_indices),
            changes.appended(other_changes),
        ) == state.applied(indices, changes).applied(other_indices, other_changes),
{
}

/// Appending changes never decreases a derivation index, and changes one only if the appended
/// index is higher or the keychain had none.
pub proof fn law_append_never_decreases_index<K>(
    indices: Map<K, u32>,
    other: Map<K, u32>,
    keychain: K,
)
    requires
        indices.contains_key(keychain),
    ensures
        greatest_indices(indices, other).contains_key(keychain),
        greatest_indices(indices, other)[keychain] >= indices[keychain],
        greatest_indices(indices, other)[keychain] != indices[keychain] <==> other.contains_key(
            keychain,
        ) && other[keychain] > indices[keychain],
{
}

/// Changes may be appended in any grouping, and appending no changes, or to none, adds nothing.
pub proof fn law_append_in_any_grouping<K, P>(
    a_indices: Map<K, u32>,
    a: Changes<P>,
    b_indices: Map<K, u32>,
    b: Changes<P>,
    c_indices: Map<K, u32>,
    c: Changes<P>,
)
    ensures
        greatest_indices(greatest_indices(a_indices, b_indices), c_indices) == greatest_indices(
            a_indices,
            greatest_indices(b_indices, c_indices),
        ),
        a.appended(b).appended(c) == a.appended(b.appended(c)),
        greatest_indices(a_indices, Map::empty()) == a_indices,
        greatest_indices(Map::empty(), a_indices) == a_indices,
        a.appended(Changes::empty()) == a,
        Changes::empty().appended(a) == a,
{
}

/// After appending, a keychain has an index exactly if it had one in either, and it is the greatest
/// of those that it had.
pub proof fn law_append_takes_greatest_index<K>(a: Map<K, u32>, b: Map<K, u32>, keychain: K)
    ensures
        ({
            let both = greatest_indices(a, b);
            &&& both.contains_key(keychain) <==> a.contains_key(keychain) || b.contains_key(
                keychain,
            )
            &&& a.contains_key(keychain) ==> both[keychain] >= a[keychain]
            &&& b.contains_key(keychain) ==> both[keychain] >= b[keychain]
            &&& both.contains_key(keychain) ==> a.contains_key(keychain) && both[keychain]
                == a[keychain] || b.contains_key(keychain) && both[keychain] == b[keychain]
        }),
{
}

} // verus!
