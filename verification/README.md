# stableroute_contracts

The routing rules of the StableRoute router, a Soroban contract, as a verified
library. For one invocation at a time the library decides whether a request is
accepted, which persistent slots change and which events are published. Verus
proves that each entrypoint does exactly what its contract says.

- `src/rules.rs` says, over mathematical values, why each request is refused and
  what it changes when it is accepted. The contracts of all entrypoints refer to it.
- `src/governance.rs`, `src/pairs.rs`, `src/routing.rs`, `src/queries.rs` and
  `src/tag.rs` hold the entrypoints, as functions of `StableRouteRouter`.
- `src/storage.rs` models the persistent slots, `src/invocation.rs` one invocation,
  `src/ident.rs` symbols and addresses.
- `src/request.rs` gathers the requests in one type; the modules under `src/laws/`
  state and prove what holds of all of them, and of any run of them.
- `app/` binds the library to the Soroban host: it loads the slots a request
  depends on, demands the signatures, writes the slots back and publishes the events.
- `tests/` runs the entrypoints.

A request that lacks a signature is answered `Rejection::Unauthorized` with the
address that has to sign; one that a rule refuses is answered
`Rejection::Contract` with a `RouterError`, whose numeric codes are fixed. A
refused request changes nothing. While the router is paused, every request that
may change the state is refused, but for pausing, unpausing and upgrading.

Route tags are the one thing computed outside: the XDR encoding and the Keccak-256
digest come from `soroban_sdk`, behind the two wrappers in `src/tag.rs`.
