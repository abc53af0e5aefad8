# launchpad

The decision logic of a token launchpad on a CosmWasm chain, verified with
Verus: a faucet, a staking pool, a staking-tier controller, a token sale
with a merkle-tree whitelist, and a vesting schedule with refunds.

## Layout

- `src/` — the verified library. Each contract module keeps the state its
  contract stores as plain values and has one function per operation, from
  the state the operation reads and the message's inputs to the state it
  writes back and the payments it makes. Contracts are stated over spec
  functions; each module ends with the laws that hold across operations.
  - `common.rs` — chain errors, ownership, coins, payments, powers of ten.
  - `merkle.rs` — whitelist proofs (SHA-256 from `sha2`, hex from `hex`).
  - `faucet.rs`, `stake.rs`, `stake_controller.rs`, `sale.rs`, `vesting.rs`.
- `tests/` — scenarios run against the library.
- `app/` — the contracts' entry points: storage, queries to other
  contracts, messages, hooks and ownership, around the library's decisions.
