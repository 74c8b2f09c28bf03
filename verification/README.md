# callchain

The rules of the Callchain ledger as a Verus library: balances, assets, fees, governance and the
execution of transactions on the protocol layer, and the stateful precompiles through which the EVM
reaches them. Every function states what it returns and changes, and Verus proves it.

## Layout

- `src/words.rs`, `bytes.rs`, `vec_map.rs`: words, addresses, byte strings and maps.
- `src/crypto.rs`: hashes and signatures, taken from `alloy-primitives` and `ed25519-dalek`.
- `src/protocol/`: accounts, assets, issuers, compliance, fees, sponsors, smart accounts, receipts,
  governance, the price oracle, the instructions of a transaction and what they ask of services.
- `src/precompiles/`: the precompiles (assets, agents, bridge, compliance, governance, oracle,
  shielded pool, switch, validators), the storage that they run on, and the runner that chooses
  among them and the standard ones of `revm-precompile`.
- `tests/`: what the rules come to on concrete values.
- `app/`: the node around the library: revm's journal behind the storage, the state of a block, the
  services that instructions ask, and serialised forms.

## How it is stated

A precompile acts on a `World`: slots, transient slots, native balances, logs, gas and open
checkpoints. Each method has a spec function, named `.._effect`, from a world and an input to an
outcome and a world, and the method is proved to do exactly that on any store, also on one that
fails. The protocol layer is stated in the same way over maps: `Ledger`, `Chamber`, `OracleBook`,
`Traffic`.

Public proof functions named `law_..` say what holds across operations: that the payments of a
transaction keep totals, also where an account pays itself, that a failed transaction is taken back,
that a proposal is executed at most once, that a nullifier pays once and a stake is paid back once,
that the stored root is always the root of all commitments. Where a law speaks of slots, it asks
that the hashes behind them do not collide.

## What is not proved

The contracts of the functions marked `external_body` are taken on trust; each names the function
that it stands for. The hash of the commitment tree, the verifier of zero-knowledge proofs, the
builder of the receipt root and the services behind instructions are handed in by the caller.
