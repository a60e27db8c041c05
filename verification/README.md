# comebackhere

Verified state machines of the COMEBACKHERE payment contracts, written in
Verus.

- `src/compliance.rs` — the allowlist / blocklist: `is_allowed` precedence,
  time-bound allows and blocks, bulk operations with their cooldown, the
  capped address index, the expiry sweep and the snapshots.
- `src/invoice/` — the invoice escrow lifecycle (`contract.rs`), the creation
  rules (`validation.rs`), the refund fee arithmetic (`refund.rs`), the types
  (`types.rs`) and the laws that span entrypoints (`laws.rs`).
- `src/workflow.rs` — the compliance gate in front of treasury settlement and
  the all-or-nothing emergency pause.
- `app/` — the Soroban contracts: storage, address mapping, authorization,
  cross-contract calls and events around the library.
- `tests/` — scenarios, each run against the library.

Every entrypoint's contract states, over the state's view, exactly what it
returns and how the state changes; a failed call changes nothing. Calls to
other contracts are made by the host glue, which hands their outcomes to the
library (`refund_plan` / `process_refund`, `pause_plan` /
`emergency_pause_all`, `resume_plan` / `resume_all`, and the compliance
result given to `execute_with_compliance` / `batch_settlement_calls`, which
also fix the treasury call handed to the host).

## Roles in the compliance contract

The admin makes every decision. The operator may read `address_status`,
place blocks (`block_address`, `block_address_until`) and lift or renew the
blocks it placed itself; each block records its placer (`get_block_placer`).
A block placed by anyone else, the admin above all, is out of the
operator's reach: clearing it or blocking it again is refused with
`OperatorCannotClearAdminBlock`, and the block stays as it was. Allowing,
revoking, the bulk calls, pausing and the operator assignment stay with the
admin, and an operator's attempt at any of them is refused with
`Unauthorized`. So an operator *can* block an address that is not blocked:
the tests that expected every operator block to be refused were dropped.

## Payments and the grace window

A pending invoice can be paid while `now < expires_at + grace_window`, the
sum taken without bound; a grace window that reaches past the largest
timestamp keeps the invoice payable.
