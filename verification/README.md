# nova_fund

Verified core of the NovaFund contract suite on Soroban: milestone escrow
with validator voting, commit–reveal jury disputes with appeals, yield
routing into a lending pool, a fee-charging token, KYC identity registries,
a DAO-gated treasury, and an upgrade audit trail.

- `src/` is the library, verified with Verus. Each contract is a state
  machine whose mathematical view (`@`) is related to a spec function per
  operation: `(final(self)@, result) == old(self)@.spec_op(..)`. Host
  concerns stay outside: ledger time, jury randomness, other contracts'
  balances are passed in; token transfers, pool calls and code upgrades are
  returned as `Effect` values; events are returned as values.
- `src/*_laws.rs` and the `law_*` proof functions state properties across
  operations (funds never overdrawn, one vote per validator, pauses and
  time-locks, jury eligibility, commit–reveal binding, fee arithmetic,
  replay protection).
- `tests/` exercises the library on concrete scenarios.
- `app/` holds the Soroban contract entry points: storage, authorisation,
  address numbering, token and pool calls, events.
