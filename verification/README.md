# percolator

A verified risk engine for a perpetual-futures exchange, written in Verus.

- `src/engine/`: the slab engine. `state.rs` defines `RiskEngine` and its
  mathematical view `EngineModel`; every public operation states its effect
  as an equation on that view (`final(self)@ == ..._spec(old(self)@, ...)`)
  together with its result, errors included. Modules follow the engine's
  concerns: ledger aggregates, positions and A/K side indices, settlement,
  margin, funding, trades, liquidation, closing and dust collection, the
  keeper crank, the full account refresh and the `_not_atomic` entry points
  (`refresh.rs`, `trade_na.rs`), the conservation check, and `guarantees.rs` with
  properties proved across states and operations.
- `src/v14.rs`, `src/v14_market.rs`: the account-local layout (errors,
  modes, provenance headers, little-endian storage cells) and the market
  group's H-lock horizon selection and account provenance check.
- `src/num.rs`, `src/wide_math.rs`: 128-bit wrappers and exact
  multiply-divide helpers.
- `tests/`: scenarios and unit tests run against the compiled library.
