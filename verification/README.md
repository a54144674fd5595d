# spot_lite

The clearing house of a spot market on the Sei exchange module, as a verified
library with a thin CosmWasm contract around it.

- `src/` is the library, verified with Verus. The contract's storage is modelled
  by `storage::Storage` (balances by account and denom, orders by id, orders by
  account and id, and the recorded contract version). Each handler in
  `contract.rs` is specified by a spec function of the storage and the message
  (`settlement_flow`, `placement_flow`, `cancellation_flow`, `deposit_flow`,
  `withdraw_flow`, `migrate_flow`, ...) that says what the storage becomes, which
  transfers are asked of the bank, which data is returned, which error refuses
  the call (with the storage as it stands at that point), and on which inputs
  the call aborts. `laws.rs` proves properties
  across calls: reading back what was written, that no balance ever has more
  withheld than it holds, that settlements only ever fill orders, and that a
  withdrawal undoes a deposit and a cancellation undoes a placement.
- `app/` holds the entry points: it reads the state out of the chain storage
  (`cw-storage-plus`, `cw2`), converts the JSON messages, calls the library,
  writes the state back and encodes the answers.
- `tests/` exercise the library on concrete values.
