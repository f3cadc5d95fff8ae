# poker_table

A poker table contract and the decisions of its MPC coordinator, verified with
Verus.

- `src/table/` is the table: seats, rebuys, hands, showdown, administration and
  hand history. Every operation takes what the ledger held and returns either a
  refusal or everything that has to be stored, moved and published.
  `src/table/laws.rs` states what holds of a table whatever is done with it:
  chips are conserved, seats stay numbered, a pause suspends all players, and a
  wallet's list of tables is exact.
- `src/mpc_heartbeat.rs`, `src/node_reliability.rs`, `src/circuit_pins.rs` and
  `src/proof_cache.rs` are the coordinator: liveness and failover of the nodes,
  their reliability scores, the circuits that a session is bound to, and the
  proofs that need not be submitted again. Each ends with what it promises.
- `src/hashing.rs`, `src/clock.rs` and `src/table/showdown.rs` hold the calls into
  other crates and the standard library, with what is taken for granted of them.
- `app/` runs a table on a Soroban ledger and keeps the coordinator's state. The
  rules of a hand (dealing, betting, settling, timeouts) are a parameter of it.
- `tests/` runs the library on concrete values.
