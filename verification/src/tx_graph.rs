//! Transactions, their outputs, and who spends them.

use std::collections::{BTreeMap, BTreeSet};

use vstd::prelude::*;

use crate::block::TxHeight;
use crate::collections::{append_map, lists_map, map_refs};
use crate::hash::Txid;

verus! {

broadcast use {
    vstd::laws_cmp::group_laws_cmp,
    vstd::std_specs::btree::group_btree_axioms,
};

/// A transaction output, by the transaction and its place there.
#[derive(Clone, Copy, Debug, PartialEq, Eq)]
pub struct OutPoint {
    pub txid: Txid,
    pub vout: u32,
}

impl OutPoint {
    /// The pair under which collections hold what belongs to the output.
    pub open spec fn spec_key(self) -> (Txid, u32) {
        (self.txid, self.vout)
    }

    /// The pair under which collections hold what belongs to the output.
    #[verifier::when_used_as_spec(spec_key)]
    pub fn key(self) -> (key: (Txid, u32))
        ensures
            key == self.key(),
            key == (self.txid, self.vout),
    {
        (self.txid, self.vout)
    }
}

/// What a transaction pays, and to which script.
#[derive(Debug, PartialEq, Eq)]
pub struct TxOut {
    pub value: u64,
    pub script_pubkey: Vec<u8>,
}

/// The contents of a [`TxOut`].
#[verifier::ext_equal]
pub struct TxOutView {
    pub value: u64,
    pub script_pubkey: Seq<u8>,
}

impl View for TxOut {
    type V = TxOutView;

    open spec fn view(&self) -> TxOutView {
        TxOutView { value: self.value, script_pubkey: self.script_pubkey@ }
    }
}

impl Clone for TxOut {
    fn clone(&self) -> (copy: Self)
        ensures
            copy@ == self@,
            copy.value == self.value,
            copy.script_pubkey@ == self.script_pubkey@,
    {
        TxOut { value: self.value, script_pubkey: self.script_pubkey.clone() }
    }
}

/// A `TxOut` with as much data as we can retrieve about it
#[derive(Debug, PartialEq)]
pub struct FullTxOut {
    pub outpoint: OutPoint,
    pub txout: TxOut,
    pub height: TxHeight,
    pub spent_by: Option<Txid>,
}

impl Clone for FullTxOut {
    fn clone(&self) -> (copy: Self)
        ensures
            copy.outpoint == self.outpoint,
            copy.txout@ == self.txout@,
            copy.height == self.height,
            copy.spent_by == self.spent_by,
    {
        FullTxOut {
            outpoint: self.outpoint,
            txout: self.txout.clone(),
            height: self.height,
            spent_by: self.spent_by,
        }
    }
}

/// The known outputs, and for each output the known transactions that spend it.
#[derive(Clone, Debug, PartialEq)]
pub struct TxGraph {
    pub txouts: BTreeMap<(Txid, u32), TxOut>,
    pub spends: BTreeMap<(Txid, u32), BTreeSet<Txid>>,
}

impl TxGraph {
    /// The output at `outpoint`, if it is known.
    pub fn txout(&self, outpoint: &OutPoint) -> (txout: Option<&TxOut>)
        ensures
            txout is Some <==> self.txouts@.contains_key(outpoint.key()),
            txout matches Some(found) ==> *found == self.txouts@[outpoint.key()],
            txout is Some <==> self.txouts@.contains_key((outpoint.txid, outpoint.vout)),
            txout matches Some(found) ==> *found == self.txouts@[(outpoint.txid, outpoint.vout)],
    {
        self.txouts.get(&outpoint.key())
    }

    /// The transactions that spend the output at `outpoint`, if any are known.
    pub fn outspend(&self, outpoint: &OutPoint) -> (spenders: Option<&BTreeSet<Txid>>)
        ensures
            spenders is Some <==> self.spends@.contains_key(outpoint.key()),
            spenders matches Some(found) ==> *found == self.spends@[outpoint.key()],
            spenders is Some <==> self.spends@.contains_key((outpoint.txid, outpoint.vout)),
            spenders matches Some(found) ==> *found == self.spends@[(
                outpoint.txid,
                outpoint.vout,
            )],
    {
        self.spends.get(&outpoint.key())
    }

    /// The transactions that spend the output at `outpoint`.
    pub open spec fn spenders(self, outpoint: OutPoint) -> Set<Txid> {
        if self.spends@.contains_key(outpoint.key()) {
            self.spends@[outpoint.key()]@
        } else {
            Set::empty()
        }
    }
}

impl Default for TxGraph {
    fn default() -> (graph: Self)
        ensures
            graph.txouts@ == Map::<(Txid, u32), TxOut>::empty(),
            graph.spends@ == Map::<(Txid, u32), BTreeSet<Txid>>::empty(),
    {
        TxGraph { txouts: BTreeMap::new(), spends: BTreeMap::new() }
    }
}

/// What a transaction spends and what it pays.
#[derive(Clone, Debug, PartialEq, Eq)]
pub struct Transaction {
    pub input: Vec<OutPoint>,
    pub output: Vec<TxOut>,
}

/// Transactions and outputs that come to be known.
#[derive(Clone, Debug, PartialEq)]
pub struct Additions {
    /// Whole transactions.
    pub tx: BTreeMap<Txid, Transaction>,
    /// Outputs of which the transaction is not known.
    pub txout: BTreeMap<(Txid, u32), TxOut>,
}

impl Default for Additions {
    fn default() -> (additions: Self)
        ensures
            additions.tx@ == Map::<Txid, Transaction>::empty(),
            additions.txout@ == Map::<(Txid, u32), TxOut>::empty(),
    {
        Additions { tx: BTreeMap::new(), txout: BTreeMap::new() }
    }
}

impl Additions {
    /// Whether nothing comes to be known.
    pub fn is_empty(&self) -> (empty: bool)
        ensures
            empty == (self.tx@.is_empty() && self.txout@.is_empty()),
    {
        self.tx.is_empty() && self.txout.is_empty()
    }

    /// Appends the additions of `other`.
    pub fn append(&mut self, other: Additions)
        ensures
            final(self).tx@ == old(self).tx@.union_prefer_right(other.tx@),
            final(self).txout@ == old(self).txout@.union_prefer_right(other.txout@),
    {
        append_map(&mut self.tx, other.tx);
        append_map(&mut self.txout, other.txout);
    }

    /// The outputs that come to be known: those of the whole transactions, and then the others.
    pub fn txouts(&self) -> (list: Vec<(OutPoint, &TxOut)>)
        ensures
            lists_txouts(owned_txouts(list@), self.tx@, self.txout@),
    {
        let txs = map_refs(&self.tx);
        let ghost owned_txs = txs@.map_values(|tx: (Txid, &Transaction)| (tx.0, *tx.1));
        let mut list: Vec<(OutPoint, &TxOut)> = Vec::new();
        for i in 0..txs.len()
            invariant
                owned_txs == txs@.map_values(|tx: (Txid, &Transaction)| (tx.0, *tx.1)),
                owned_txouts(list@) == whole_txouts(owned_txs.take(i as int)),
        {
            let (txid, tx) = txs[i];
            let ghost before = owned_txouts(list@);
            for vout in 0..tx.output.len()
                invariant
                    owned_txouts(list@) == before + tx_txouts((txid, *tx)).take(vout as int),
            {
                let ghost prev = list@;
                list.push((OutPoint { txid, vout: vout as u32 }, &tx.output[vout]));
                proof {
                    let outs = tx_txouts((txid, *tx));
                    assert(owned_txouts(list@) =~= owned_txouts(prev).push(outs[vout as int]));
                }
            }
            assert(owned_txs.take(i + 1).drop_last() =~= owned_txs.take(i as int));
        }
        assert(owned_txs.take(txs.len() as int) =~= owned_txs);

        let others = map_refs(&self.txout);
        let ghost owned_others = others@.map_values(|out: ((Txid, u32), &TxOut)| (out.0, *out.1));
        let ghost whole = owned_txouts(list@);
        for i in 0..others.len()
            invariant
                owned_others == others@.map_values(
                    |out: ((Txid, u32), &TxOut)| (out.0, *out.1),
                ),
                owned_txouts(list@) == whole + single_txouts(owned_others.take(i as int)),
        {
            let (key, txout) = others[i];
            let ghost prev = list@;
            list.push((OutPoint { txid: key.0, vout: key.1 }, txout));
            proof {
                let last = (OutPoint { txid: key.0, vout: key.1 }, *txout);
                assert(owned_txouts(list@) =~= owned_txouts(prev).push(last));
                assert(single_txouts(owned_others.take(i + 1)) =~= single_txouts(
                    owned_others.take(i as int),
                ).push(last));
            }
        }
        assert(owned_others.take(others.len() as int) =~= owned_others);
        list
    }
}

/// The outputs of a list of borrowed ones.
pub open spec fn owned_txouts(list: Seq<(OutPoint, &TxOut)>) -> Seq<(OutPoint, TxOut)> {
    list.map_values(|out: (OutPoint, &TxOut)| (out.0, *out.1))
}

/// The outputs of one transaction, in order.
pub open spec fn tx_txouts(tx: (Txid, Transaction)) -> Seq<(OutPoint, TxOut)> {
    Seq::new(
        tx.1.output@.len(),
        |i: int| (OutPoint { txid: tx.0, vout: i as u32 }, tx.1.output@[i]),
    )
}

/// The outputs of one transaction after another.
pub open spec fn whole_txouts(txs: Seq<(Txid, Transaction)>) -> Seq<(OutPoint, TxOut)>
    decreases txs.len(),
{
    if txs.len() == 0 {
        Seq::empty()
    } else {
        whole_txouts(txs.drop_last()) + tx_txouts(txs.last())
    }
}

/// Single outputs, one after another.
pub open spec fn single_txouts(outs: Seq<((Txid, u32), TxOut)>) -> Seq<(OutPoint, TxOut)> {
    outs.map_values(
        |out: ((Txid, u32), TxOut)| (OutPoint { txid: out.0.0, vout: out.0.1 }, out.1),
    )
}

/// Whether `list` holds the outputs of the transactions of `tx` and after them those of `txout`,
/// both in the order of their keys.
pub open spec fn lists_txouts(
    list: Seq<(OutPoint, TxOut)>,
    tx: Map<Txid, Transaction>,
    txout: Map<(Txid, u32), TxOut>,
) -> bool {
    exists|txs: Seq<(Txid, Transaction)>, outs: Seq<((Txid, u32), TxOut)>|
        {
            &&& #[trigger] lists_map(txs, tx)
            &&& #[trigger] lists_map(outs, txout)
            &&& list == whole_txouts(txs) + single_txouts(outs)
        }
}

/// What belongs to an output is held under its transaction and its place there.
pub proof fn law_output_key(outpoint: OutPoint)
    ensures
        outpoint.key() == (outpoint.txid, outpoint.vout),
{
}

/// The contents of an output are its value and the bytes of its script.
pub proof fn law_txout_contents(txout: TxOut)
    ensures
        txout@.value == txout.value,
        txout@.script_pubkey == txout.script_pubkey@,
{
}

/// The spenders of an output are the transactions that the graph lists for it.
pub proof fn law_spenders_are_listed(graph: TxGraph, outpoint: OutPoint, txid: Txid)
    ensures
        graph.spenders(outpoint).contains(txid) <==> graph.spends@.contains_key(
            (outpoint.txid, outpoint.vout),
        ) && graph.spends@[(outpoint.txid, outpoint.vout)]@.contains(txid),
{
}

/// A borrowed output is listed as it is.
pub proof fn law_borrowed_txouts(list: Seq<(OutPoint, &TxOut)>)
    ensures
        owned_txouts(list).len() == list.len(),
        forall|i: int|
            0 <= i < list.len() ==> (#[trigger] owned_txouts(list)[i]).0 == list[i].0
                && owned_txouts(list)[i].1 == *list[i].1,
{
}

/// Whether `out` is an output of one of `txs`.
spec fn has_output(txs: Seq<(Txid, Transaction)>, out: (OutPoint, TxOut)) -> bool {
    exists|k: int, i: int|
        0 <= k < txs.len() && 0 <= i < txs[k].1.output@.len() && out == (
            OutPoint { txid: txs[k].0, vout: i as u32 },
            #[trigger] txs[k].1.output@[i],
        )
}

/// The outputs of transactions one after another are the outputs of each of them.
proof fn lemma_whole_txouts(txs: Seq<(Txid, Transaction)>)
    ensures
        forall|k: int, i: int|
            0 <= k < txs.len() && 0 <= i < txs[k].1.output@.len() ==> whole_txouts(txs).contains(
                (OutPoint { txid: txs[k].0, vout: i as u32 }, #[trigger] txs[k].1.output@[i]),
            ),
        forall|n: int|
            0 <= n < whole_txouts(txs).len() ==> has_output(txs, #[trigger] whole_txouts(txs)[n]),
    decreases txs.len(),
{
    if txs.len() > 0 {
        let init = txs.drop_last();
        let head = whole_txouts(init);
        let tail = tx_txouts(txs.last());
        lemma_whole_txouts(init);
        assert forall|k: int, i: int|
            0 <= k < txs.len() && 0 <= i < txs[k].1.output@.len() implies whole_txouts(
            txs,
        ).contains((OutPoint { txid: txs[k].0, vout: i as u32 }, #[trigger] txs[k].1.output@[i])) by {
            let out = (OutPoint { txid: txs[k].0, vout: i as u32 }, txs[k].1.output@[i]);
            if k < init.len() {
                assert(init[k] == txs[k]);
                assert(init[k].1.output@[i] == txs[k].1.output@[i]);
                assert(head.contains(out));
                let n = choose|n: int| 0 <= n < head.len() && head[n] == out;
                assert(whole_txouts(txs)[n] == out);
            } else {
                assert(tail[i] == out);
                assert(whole_txouts(txs)[head.len() + i] == out);
            }
        }
        assert forall|n: int| 0 <= n < whole_txouts(txs).len() implies has_output(
            txs,
            #[trigger] whole_txouts(txs)[n],
        ) by {
            if n < head.len() {
                assert(head[n] == whole_txouts(txs)[n]);
                let (k, i) = choose|k: int, i: int|
                    0 <= k < init.len() && 0 <= i < init[k].1.output@.len() && head[n] == (
                        OutPoint { txid: init[k].0, vout: i as u32 },
                        #[trigger] init[k].1.output@[i],
                    );
                assert(init[k] == txs[k]);
                assert(txs[k].1.output@[i] == init[k].1.output@[i]);
            } else {
                let k = txs.len() - 1;
                let i = n - head.len();
                assert(tail[i] == whole_txouts(txs)[n]);
                assert(txs[k].1.output@[i] == whole_txouts(txs)[n].1);
            }
        }
    }
}

/// A list of the outputs that come to be known holds every output of every whole transaction, by its
/// place there, and every single output; and nothing else.
pub proof fn law_txouts_listed(
    list: Seq<(OutPoint, TxOut)>,
    tx: Map<Txid, Transaction>,
    txout: Map<(Txid, u32), TxOut>,
)
    requires
        lists_txouts(list, tx, txout),
    ensures
        forall|txid: Txid, i: int|
            tx.contains_key(txid) && 0 <= i < tx[txid].output@.len() ==> list.contains(
                (OutPoint { txid, vout: i as u32 }, #[trigger] tx[txid].output@[i]),
            ),
        forall|txid: Txid, vout: u32| #[trigger]
            txout.contains_key((txid, vout)) ==> list.contains(
                (OutPoint { txid, vout }, txout[(txid, vout)]),
            ),
        forall|n: int|
            0 <= n < list.len() ==> {
                let out = #[trigger] list[n];
                ||| txout.contains_key((out.0.txid, out.0.vout)) && txout[(
                    out.0.txid,
                    out.0.vout,
                )] == out.1
                ||| tx.contains_key(out.0.txid) && exists|i: int|
                    0 <= i < tx[out.0.txid].output@.len() && out.0.vout == i as u32
                        && #[trigger] tx[out.0.txid].output@[i] == out.1
            },
{
    let (txs, outs) = choose|txs: Seq<(Txid, Transaction)>, outs: Seq<((Txid, u32), TxOut)>|
        {
            &&& #[trigger] lists_map(txs, tx)
            &&& #[trigger] lists_map(outs, txout)
            &&& list == whole_txouts(txs) + single_txouts(outs)
        };
    let whole = whole_txouts(txs);
    let single = single_txouts(outs);
    lemma_whole_txouts(txs);
    assert forall|txid: Txid, i: int|
        tx.contains_key(txid) && 0 <= i < tx[txid].output@.len() implies list.contains(
        (OutPoint { txid, vout: i as u32 }, #[trigger] tx[txid].output@[i]),
    ) by {
        let k = choose|k: int| 0 <= k < txs.len() && txs[k] == (txid, tx[txid]);
        let out = (OutPoint { txid, vout: i as u32 }, txs[k].1.output@[i]);
        assert(whole.contains(out));
        let n = choose|n: int| 0 <= n < whole.len() && whole[n] == out;
        assert(list[n] == out);
    }
    assert forall|txid: Txid, vout: u32| #[trigger]
        txout.contains_key((txid, vout)) implies list.contains(
        (OutPoint { txid, vout }, txout[(txid, vout)]),
    ) by {
        let k = choose|k: int|
            0 <= k < outs.len() && outs[k] == ((txid, vout), txout[(txid, vout)]);
        assert(list[whole.len() + k] == (OutPoint { txid, vout }, txout[(txid, vout)]));
    }
    assert forall|n: int| 0 <= n < list.len() implies {
        let out = #[trigger] list[n];
        ||| txout.contains_key((out.0.txid, out.0.vout)) && txout[(out.0.txid, out.0.vout)] == out.1
        ||| tx.contains_key(out.0.txid) && exists|i: int|
            0 <= i < tx[out.0.txid].output@.len() && out.0.vout == i as u32
                && #[trigger] tx[out.0.txid].output@[i] == out.1
    } by {
        if n < whole.len() {
            assert(whole[n] == list[n]);
            let (k, i) = choose|k: int, i: int|
                0 <= k < txs.len() && 0 <= i < txs[k].1.output@.len() && whole[n] == (
                    OutPoint { txid: txs[k].0, vout: i as u32 },
                    #[trigger] txs[k].1.output@[i],
                );
            assert(tx.contains_key(txs[k].0) && tx[txs[k].0] == txs[k].1);
            assert(tx[list[n].0.txid].output@[i] == list[n].1);
        } else {
            assert(single[n - whole.len()] == list[n]);
            assert(txout.contains_key(outs[n - whole.len()].0));
        }
    }
}

} // verus!
