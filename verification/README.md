# bdk_chain

What a wallet needs to know of the block chain, verified with Verus.

- `src/sparse_chain.rs` holds the chain: checkpoints, confirmed and unconfirmed transactions, and
  the updates that are applied to them or refused. `src/sparse_chain/view.rs` says what a chain is
  and what comes of an update; `src/sparse_chain/laws.rs` proves what holds of every chain.
- `src/keychain.rs` holds the changes to keychains and to the chain, and how they are appended.
- `src/balance.rs` holds the balance of a wallet.
- `src/electrum.rs` decides what is asked of an Electrum server.
- `src/hash.rs`, `src/block.rs`, `src/tx_graph.rs`, `src/chain_graph.rs`, `src/collections.rs` and
  `src/text.rs` hold what these build on. Calls into the `bitcoin` crate stand in `src/hash.rs`.
- `app/` is a command that scans a wallet's scripts through `electrum_client` and keeps the changes
  in a file.

The wallet file of the command is JSON: for each keychain a list of scripts in derivation order.

```json
{ "external": [{ "script": "0014...", "used": true, "unspent": ["<txid>:0"] }] }
```
