//! Verified core of the NovaFund contract suite: escrow with milestone
//! voting, dispute resolution and yield routing, a fee-charging token,
//! identity registries, a DAO-gated treasury and upgrade audit records.
//!
//! Every contract is a plain state machine. Host concerns (authorisation,
//! ledger time, storage persistence, event publication) stay with the
//! caller: ledger time is passed in, and work for other contracts (token
//! transfers, pool calls, wasm updates) is queued as `Effect` values.

pub mod errors;
pub mod types;
pub mod constants;
pub mod maps;
pub mod host;
pub mod yield_router;
pub mod escrow;
pub mod escrow_admin;
pub mod escrow_dispute;
pub mod escrow_resolution;
pub mod escrow_tally;
pub mod base_token;
pub mod identity;
pub mod identity_registry;
pub mod treasury;
pub mod upgrade_audit;
pub mod project_launch;
pub mod audit_query;
pub mod limit_orders;
pub mod escrow_laws;
pub mod escrow_limits;
