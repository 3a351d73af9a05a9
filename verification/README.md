# keystone_xdtl

A lending engine between pooled vaults, written in Verus: vaults take deposits for shares,
lend to other vaults against collateral, collect scheduled repayments, default and liquidate
overdue loans, and distribute realized interest to their shareholders. Every state change is
recorded in a journal whose digests are chained.

## Layout

- `src/` — the verified library. Each public function states its result in its `ensures`
  over spec functions; `engine.rs` ties the vaults, loans, policy, oracle and journal together
  and proves that each operation keeps the ledger balanced, that a refused operation changes
  nothing, and by how much each operation changes the vaults' total value; `laws.rs` and
  `accounting.rs` hold the properties that span several functions as proof functions;
  `scenario.rs` runs the named demonstration scenarios, and `script.rs` states, step by
  step, what each of them runs.
- `tests/` — executable tests of the library.
- `app/` — the command-line runner: `keystone_xdtl [scenario | --list]` runs a named
  scenario and prints its report as JSON.

Hashing (BLAKE3) and hexadecimal encoding are done by the `blake3` and `hex` crates behind
three small trusted wrappers in `src/ids.rs`; the JSON that is hashed is produced by verified
writers in `src/json.rs` and `src/canon.rs`.
