# polymarket_cli

The verified core of the `polymarket` command line's CLOB race-test runner
and of its authentication helpers, written in Verus.

- `src/race.rs` — the `--signer`, `--order` and `--step` specs and their
  parsers, each proved equal to a model over `Seq<char>`.
- `src/plan.rs` — `RaceArgs` and the structural checks of a race plan.
- `src/run.rs` — which wallets a run authenticates, how each order is read
  before the timed phase, and the ledger that dispatches each step to the
  order's own signer.
- `src/order_id.rs` — the EIP-712 domain an order id is derived under.
- `src/auth.rs` — signature-type choice and funder-address checks.
- `src/laws.rs` — properties that span these functions.
- `src/text.rs`, `src/number.rs` — string search/split, ASCII case and
  white-space models, and `u64` parsing.
- `src/trusted.rs` — every call into std string functions that vstd leaves
  unspecified, into alloy and into rust_decimal, with the contract believed
  for each.
- `app/` — the command line itself: clap arguments, configuration, the
  Polymarket SDK calls, timing and JSON output.
