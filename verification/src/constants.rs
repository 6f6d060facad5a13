use vstd::prelude::*;

verus! {

/// Minimum number of validators an escrow must have.
pub const MIN_VALIDATORS: u32 = 3;
/// Smallest accepted approval threshold, in basis points (51%).
pub const MIN_APPROVAL_THRESHOLD: u32 = 5100;
/// Largest accepted approval threshold, in basis points (100%).
pub const MAX_APPROVAL_THRESHOLD: u32 = 10000;
/// Basis-point denominator.
pub const BPS_DENOMINATOR: u32 = 10000;
/// Seconds a pause must last before the contract may resume (24 hours).
pub const RESUME_TIME_DELAY: u64 = 86400;
/// Seconds between scheduling an upgrade and executing it (48 hours).
pub const UPGRADE_TIME_LOCK_SECS: u64 = 172800;
/// Smallest stake accepted from a juror.
pub const MIN_JUROR_STAKE: i128 = 1000000000;
/// Jurors drawn for a first-instance dispute.
pub const JURY_SIZE: u32 = 7;
/// Jurors drawn after an appeal.
pub const APPEAL_JURY_SIZE: u32 = 11;
/// Seconds during which jurors may commit blinded votes.
pub const VOTING_COMMIT_PERIOD: u64 = 259200;
/// Seconds after the commit phase during which votes may be revealed.
pub const VOTING_REVEAL_PERIOD: u64 = 172800;
/// Seconds after a resolution during which it may be appealed.
pub const APPEAL_WINDOW_PERIOD: u64 = 172800;
/// Maximum number of appeals per dispute.
pub const MAX_APPEALS: u32 = 2;
/// Fee paid by an appellant into the dispute fee pool.
pub const APPEAL_FEE: i128 = 1000000000;
/// Smallest contribution that lets a backer open a dispute.
pub const MIN_CONTRIBUTION: i128 = 100000000;
/// Ledger sequences during which a pool approval stays valid.
pub const POOL_APPROVAL_LEDGERS: u32 = 1000;

} // verus!
