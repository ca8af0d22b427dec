# solana-tx-retry

Sends Solana transactions until they land. A transaction that is submitted once may be lost on its
way to the leader, outlive its block hash, or come back to a crowd of other clients that retry at
the same moment. This project decides when to simulate, submit, wait, sign anew, back off or give
up, and proves with Verus that it decides as stated.

## Layout

- `src/`: the library. It makes every decision and talks to no network.
  - `retry_engine.rs`: a session that turns events into actions, from the first simulation to the
    last attempt; `session_laws.rs` states what holds of every session.
  - `backoff.rs`: exponential backoff, capped, moved by up to a fifth to either side.
  - `preflight_cache.rs`: simulations, remembered under the key of the transaction and its block
    hash for a minute.
  - `transaction.rs`: transactions as plain values, their cache keys, and signing anew.
  - `tx_monitor.rs`: reading the status of a signature, and when to stop asking.
  - `leader_tracker.rs`: the leader schedule and the addresses of the leaders.
  - `config.rs`, `error.rs`, `keys.rs`, `text.rs`, `time.rs`: what the others are made of.
- `app/`: the engine on a live RPC connection. It asks the network, sleeps, and hands the answers to
  the library. It uses `solana-rpc-client` and `solana-rpc-client-api`, which `solana-client`
  re-exports, since the rest of that crate brings hundreds of others that nothing here needs. It
  has no channel to the leaders' ports, so it answers that no leader was handed the transaction.
- `tests/`: the library on concrete values.

## How a session runs

1. Simulate the transaction, unless the cache knows the answer. A transaction that would fail is
   not sent.
2. Hand it to the current leader where routing is on and that can be done. Otherwise submit it to
   the RPC node, which is told neither to simulate nor to retry.
3. Wait until it reaches the commitment level asked for.
4. Where it does not, ask whether its block hash has expired. If so, sign it anew and go back to
   the first step; this does not count against the attempts allowed. Otherwise wait for the backoff
   delay and go back to the first step.
5. Give up once all attempts allowed are used, or once the hard timeout has passed where there is
   one (the safe preset has one of a minute).

## What is trusted

The proofs rest on short contracts for the outside functions that the library calls: those of
`dashmap`, `rand`, `solana_sdk` and the standard library. Each stands beside its call, with a
comment that says what is claimed.
