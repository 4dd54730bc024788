# whirlpool

The verified core of a concentrated-liquidity pool program, written in Verus.

- `src/tick.rs`, `src/tick_manager.rs`: ticks, usable and start tick indexes,
  and the fee and reward growth accounting around a tick.
- `src/tick_array.rs`, `src/fixed_tick_array.rs`, `src/dynamic_tick_array.rs`,
  `src/dynamic_tick_layout.rs`, `src/tick_array_loader.rs`: tick arrays stored
  with a fixed or a variable size, decoded from and encoded to account bytes.
- `src/sparse_swap.rs`: choosing the tick arrays a swap walks from the
  accounts a caller supplies.
- `src/position.rs`, `src/position_bundle.rs`, `src/liquidity_manager.rs`:
  positions, bundles of positions and storing a liquidity change.
- `src/oracle.rs`, `src/oracle_accessor.rs`, `src/adaptive_fee_tier.rs`: the
  adaptive fee state and its account.
- `src/laws.rs`: properties that relate several operations.
- `app/lib.rs`: glue to the Solana account model (snapshots of accounts,
  writing data back, error codes).
