use vstd::prelude::*;

verus! {

/// An account or contract on the ledger, identified by a number.
pub type Address = u64;
/// A token amount in the smallest unit.
pub type Amount = i128;
/// A ledger timestamp in seconds.
pub type Timestamp = u64;
/// A 32-byte digest (wasm hashes, proof hashes, vote commitments).
pub type Hash32 = [u8; 32];

/// The all-zero digest.
pub open spec fn spec_zero_hash() -> Seq<u8> {
    Seq::new(32, |i: int| 0u8)
}

/// Returns the all-zero digest.
pub fn zero_hash() -> (h: Hash32)
    ensures
        h@ == spec_zero_hash(),
{
    let h: Hash32 = [0u8; 32];
    assert(h@ =~= spec_zero_hash());
    h
}

/// Compares two digests byte by byte.
pub fn hash_eq(a: &Hash32, b: &Hash32) -> (r: bool)
    ensures
        r == (a@ == b@),
{
    let mut i: usize = 0;
    while i < 32
        invariant
            i <= 32,
            a@.len() == 32,
            b@.len() == 32,
            forall|j: int| 0 <= j < i ==> a@[j] == b@[j],
        decreases 32 - i,
    {
        if a[i] != b[i] {
            return false;
        }
        i = i + 1;
    }
    assert(a@ =~= b@);
    true
}

/// Lifecycle of a milestone.
#[derive(Clone, Copy, Debug, PartialEq, Eq, Structural)]
pub enum MilestoneStatus {
    Pending,
    Submitted,
    Approved,
    Rejected,
}

/// Lifecycle of a dispute.
#[derive(Clone, Copy, Debug, PartialEq, Eq, Structural)]
pub enum DisputeStatus {
    Pending,
    Voting,
    Resolved,
    Appealed,
    FinalResolved,
}

/// Outcome a juror votes for, and the outcome a dispute ends with.
#[derive(Clone, Copy, Debug, PartialEq, Eq, Structural)]
pub enum DisputeResolution {
    RelFunds,
    RefBackers,
    PartRel,
    NoRes,
}

/// Status of an upgrade attempt.
#[derive(Clone, Copy, Debug, PartialEq, Eq, Structural)]
pub enum UpgradeStatus {
    Scheduled,
    Executed,
    Cancelled,
    Failed,
}

/// Audit record of one upgrade attempt.
#[derive(Clone, Debug)]
pub struct UpgradeAuditLog {
    pub upgrade_id: u64,
    /// Code hash before the upgrade.
    pub old_hash: Hash32,
    /// Code hash after the upgrade.
    pub new_hash: Hash32,
    /// Governance proposal behind the upgrade.
    pub proposal_id: u64,
    /// Who executed (or scheduled) the upgrade.
    pub executor: Address,
    /// Who proposed the upgrade.
    pub initiator: Address,
    pub status: UpgradeStatus,
    pub scheduled_at: Timestamp,
    /// 0 until executed.
    pub executed_at: Timestamp,
    /// 0 unless cancelled.
    pub cancelled_at: Timestamp,
    /// End of the 48-hour time-lock.
    pub time_lock_expires: Timestamp,
    /// Reason for the upgrade or its cancellation.
    pub reason: String,
}

/// A jurisdiction for identity verification.
#[derive(Clone, Copy, Debug, PartialEq, Eq, Structural)]
pub enum Jurisdiction {
    Global,
    UnitedStates,
    EuropeanUnion,
    UnitedKingdom,
}

/// Per-project escrow record.
#[derive(Debug)]
pub struct EscrowInfo {
    pub project_id: u64,
    pub creator: Address,
    pub token: Address,
    pub total_deposited: Amount,
    pub released_amount: Amount,
    pub validators: Vec<Address>,
    pub approval_threshold: u32,
    pub management_fee_bps: u32,
}

/// Mathematical view of an escrow record.
pub struct EscrowSpec {
    pub project_id: u64,
    pub creator: Address,
    pub token: Address,
    pub total_deposited: Amount,
    pub released_amount: Amount,
    pub validators: Seq<Address>,
    pub approval_threshold: u32,
    pub management_fee_bps: u32,
}

impl View for EscrowInfo {
    type V = EscrowSpec;

    open spec fn view(&self) -> EscrowSpec {
        EscrowSpec {
            project_id: self.project_id,
            creator: self.creator,
            token: self.token,
            total_deposited: self.total_deposited,
            released_amount: self.released_amount,
            validators: self.validators@,
            approval_threshold: self.approval_threshold,
            management_fee_bps: self.management_fee_bps,
        }
    }
}

/// A milestone of a project escrow.
#[derive(Clone, Copy, Debug)]
pub struct Milestone {
    pub id: u64,
    pub project_id: u64,
    pub description_hash: Hash32,
    pub amount: Amount,
    pub status: MilestoneStatus,
    pub proof_hash: Hash32,
    pub approval_count: u32,
    pub rejection_count: u32,
    pub created_at: Timestamp,
}

/// A dispute over a milestone.
#[derive(Clone, Copy, Debug)]
pub struct Dispute {
    pub id: u64,
    pub milestone_id: u64,
    pub project_id: u64,
    pub initiator: Address,
    pub status: DisputeStatus,
    pub created_at: Timestamp,
    pub resolution: DisputeResolution,
    pub resolution_payload: u32,
    pub appeal_count: u32,
}

/// A registered juror.
#[derive(Clone, Copy, Debug)]
pub struct JurorInfo {
    pub address: Address,
    pub staked_amount: Amount,
    pub active_disputes: u32,
    pub successful_votes: u32,
    pub missed_votes: u32,
}

/// A juror's blinded vote and, once revealed, its content.
#[derive(Clone, Copy, Debug)]
pub struct VoteCommitment {
    pub hash: Hash32,
    pub revealed: bool,
    pub vote: DisputeResolution,
    pub vote_payload: u32,
}

/// Whether the contract is paused, and since when.
#[derive(Clone, Copy, Debug)]
pub struct PauseState {
    pub paused: bool,
    pub paused_at: Timestamp,
    pub resume_not_before: Timestamp,
}

/// An upgrade waiting for its time-lock.
#[derive(Clone, Copy, Debug)]
pub struct PendingUpgrade {
    pub wasm_hash: Hash32,
    pub execute_not_before: Timestamp,
}

/// Work for other contracts that a state transition hands to the host.
#[derive(Clone, Copy, Debug)]
pub enum Effect {
    /// Move `amount` of `token` from `from` to `to`.
    Transfer { token: Address, from: Address, to: Address, amount: Amount },
    /// Allow `spender` to pull `amount` of `token` from `from` until the ledger sequence given.
    Approve { token: Address, from: Address, spender: Address, amount: Amount, expiration_ledger: u32 },
    /// Call `deposit(depositor, amount)` on a lending pool.
    PoolDeposit { pool: Address, depositor: Address, amount: Amount },
    /// Call `withdraw(recipient, amount)` on a lending pool.
    PoolWithdraw { pool: Address, recipient: Address, amount: Amount },
    /// Call `deposit_profits(project_id, depositor, amount)` on a profit-distribution contract.
    ProfitDeposit { contract: Address, project_id: u64, depositor: Address, amount: Amount },
    /// Replace the running contract's code.
    UpdateWasm { wasm_hash: Hash32 },
}

/// What the escrow contract announces to observers, in the order it does.
#[derive(Clone, Copy, Debug, PartialEq, Eq)]
pub enum EscrowEvent {
    EscrowInitialized { project_id: u64, creator: Address, token: Address },
    FundsLocked { project_id: u64, amount: Amount },
    MilestoneCreated { project_id: u64, milestone_id: u64, amount: Amount, description_hash: Hash32 },
    MilestoneSubmitted { project_id: u64, milestone_id: u64, proof_hash: Hash32 },
    MilestoneApproved { project_id: u64, milestone_id: u64, approval_count: u32 },
    FundsReleased { project_id: u64, milestone_id: u64, amount: Amount },
    MilestoneRejected { project_id: u64, milestone_id: u64, rejection_count: u32 },
    /// The escrow's validators were replaced (the new list is the escrow's).
    ValidatorsUpdated { project_id: u64 },
    ContractPaused { admin: Address, at: Timestamp },
    ContractResumed { admin: Address, at: Timestamp },
    EmergencyWithdrawApproved { project_id: u64, validator: Address, approval_count: u32 },
    EmergencyWithdrawExecuted { project_id: u64, admin: Address, rescued_amount: Amount },
    /// A jury was drawn (the jurors are the dispute's assignment).
    JurySelected { dispute_id: u64 },
    VoteCommitted { dispute_id: u64, juror: Address },
    VoteRevealed { dispute_id: u64, juror: Address },
    DisputeResolved { dispute_id: u64, resolution: DisputeResolution },
    JurorSlashed { juror: Address, slashed: Amount },
    AppealResolved { dispute_id: u64, resolution: DisputeResolution },
    DisputeAppealed { dispute_id: u64, appellant: Address },
    UpgradeScheduled { admin: Address, wasm_hash: Hash32, execute_not_before: Timestamp },
    UpgradeExecuted { admin: Address, wasm_hash: Hash32 },
    UpgradeCancelled { admin: Address },
    YieldClaimed { project_id: u64, total_yield: Amount, fee_amount: Amount, investor_amount: Amount },
    YieldConfigured { admin: Address, liquidity_reserve_bps: u32 },
    YieldDeployed { project_id: u64, amount: Amount },
    YieldWithdrawn { project_id: u64, pool_balance: Amount, yield_earned: Amount },
    YieldPartiallyWithdrawn { project_id: u64, amount: Amount, yield_earned: Amount },
    YieldRescued { project_id: u64, pool_balance: Amount },
}

} // verus!
