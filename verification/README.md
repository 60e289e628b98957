# joystream_pallets

Verified core of a set of Joystream runtime modules, written in Verus.

- `src/bounty.rs` — crowd-funded bounties: creation, cancellation, veto, member funding and
  withdrawal, and the bounty stage computation. `src/bounty_laws.rs` states and proves the
  properties that span these operations.
- `src/membership.rs` — memberships: purchase, invitation, profile and account updates,
  invitations, staking accounts, the handle registry and the genesis import.
  `src/membership_laws.rs` holds its cross-operation properties.
- `src/handle_hash.rs` — the one trusted item: BLAKE2b-256 hashing of handles via `sp-core`.
- `src/codex.rs` — rules of text proposals.
- `src/council_mock.rs`, `src/governance_mock.rs` — configurations of the test runtimes.
- `src/origin.rs` — call origins and dispatch errors.

Each module's storage is an explicit value; what a module reads from the rest of the runtime
(block number, balances, council budget, verdicts of origin validators) is passed in, and
what it asks of the runtime (charges, payouts, events) is returned.

`app/` holds the SCALE/serde encodable copies of the types and the text proposal call that
prints an approved proposal. `tests/` exercises the modules on concrete scenarios.
