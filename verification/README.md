# single_rwa_vault

Verified core of a single real-world-asset (RWA) vault and of the factory
that registers such vaults, written in Verus.

The vault is a share ledger over a pool of assets. It moves through a
Funding → Active → Matured → Closed lifecycle (or Funding → Cancelled, with
refunds, when funding fails by its deadline), issues and burns shares at the
pool's price (rounding always in the vault's favour), distributes yield in
epochs, pro rata to the shares held when each epoch is opened, and counts
deposits, withdrawals, transfers, redemptions and yield claims per epoch and
over its lifetime. Pending yield vests linearly over the vault's
vesting period after each distribution (at once when the period is zero),
and a claim pays out the vested part. A treasury manager can put the vault
into emergency mode, where holders claim their pro-rata share of the
remaining assets; holders can ask for early redemption, which a lifecycle
manager processes at the early-redemption fee or rejects; critical admin
actions wait out a timelock before they can be executed; freeze flags stop
withdrawals and redemptions or yield claims; and the vault can be set to
require pending yield to be claimed before shares are burned, or receivers
of transfers to have passed KYC.

## Layout

- `src/math.rs` — `a * b / c` with an exact 256-bit intermediate product,
  rounded down or up.
- `src/types.rs` — the shared records (vault state, roles, epoch data,
  fee previews, timelock actions, activity counters, …).
- `src/ledger.rs` — holder accounts, allowances and per-epoch yield records,
  with the sums over them.
- `src/books.rs` — the per-epoch yield books that show all holders together
  are never owed more than was distributed.
- `src/vault.rs` — the vault: its abstract state (`VaultView`), its
  invariant (`VaultView::wf`), and every operation with a contract that
  states, for each input, the error it fails with or the state it produces.
- `src/laws.rs` — properties spanning several operations.
- `src/factory.rs` — the factory's registry, parameter checks and schema
  version guard (a factory can be restored at an older stored schema and
  must then be migrated).
- `app/lib.rs` — Soroban `#[contracttype]` / `#[contracterror]` copies of the
  plain types and error codes, with conversions.

This crate holds no contract entry points. Token transfers, authorization,
the KYC verifier, the ledger clock, storage and events are left to a Soroban
contract built on the library: their results are passed in as arguments.
