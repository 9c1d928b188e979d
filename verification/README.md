# dupwork

A job marketplace contract for NEAR: requesters post tasks with the pay of
every participant in escrow, workers register with a bond and submit proofs
of work, requesters approve (paying price and bond) or reject them, and close
the task with a refund of the unused places.

- `src/` is the verified library. `model.rs` states the contract as a state
  machine: for each call, the error it is refused with or the new state and
  result. `contract.rs`, `ext.rs` and `views.rs` implement the calls and prove
  them against it; `invariants.rs` proves that every call keeps reachable
  states consistent, and `laws.rs` proves properties that span calls. `table.rs`
  holds the insertion-ordered tables and identifier sets of the state,
  `text.rs` account, task and category identifiers.
- `app/` is the NEAR contract around it: it reads the call context from the
  chain, performs the payments and callbacks the library returns, stores the
  state with Borsh and renders JSON.
