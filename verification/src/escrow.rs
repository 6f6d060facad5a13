use vstd::prelude::*;
use std::collections::HashMap;
use crate::constants::{MAX_APPROVAL_THRESHOLD, MIN_APPROVAL_THRESHOLD, MIN_VALIDATORS};
use crate::errors::Error;
use crate::maps::{make_pair_key, pair_key, vec_contains, vec_copy};
use crate::types::{
    spec_zero_hash, Address, Amount, Dispute, DisputeResolution, Effect, EscrowEvent, EscrowInfo, EscrowSpec, Hash32, JurorInfo,
    Milestone, MilestoneStatus, PauseState, PendingUpgrade, Timestamp, VoteCommitment,
};
use crate::yield_router::{spec_default_yield_state, EscrowYieldState, YieldRouterConfig};

verus! {

broadcast use vstd::std_specs::hash::group_hash_axioms, crate::maps::group_map_lemmas;

/// Progress of an emergency rescue of pooled funds.
#[derive(Clone, Copy, Debug, PartialEq, Eq, Structural)]
pub enum EmergencyWithdrawStatus {
    Idle,
    Pending,
    Executed,
}

/// Emergency rescue record of one escrow.
#[derive(Debug)]
pub struct EmergencyWithdrawState {
    pub status: EmergencyWithdrawStatus,
    pub approvals: Vec<Address>,
    pub rescued_amount: Amount,
    pub executed_at: u64,
}

/// Mathematical view of an emergency rescue record.
pub struct EmergencySpec {
    pub status: EmergencyWithdrawStatus,
    pub approvals: Seq<Address>,
    pub rescued_amount: Amount,
    pub executed_at: u64,
}

impl View for EmergencyWithdrawState {
    type V = EmergencySpec;

    open spec fn view(&self) -> EmergencySpec {
        EmergencySpec {
            status: self.status,
            approvals: self.approvals@,
            rescued_amount: self.rescued_amount,
            executed_at: self.executed_at,
        }
    }
}

/// The rescue record of an escrow for which nothing was ever approved.
pub open spec fn spec_idle_emergency() -> EmergencySpec {
    EmergencySpec {
        status: EmergencyWithdrawStatus::Idle,
        approvals: Seq::empty(),
        rescued_amount: 0,
        executed_at: 0,
    }
}

/// The escrow contract: project escrows, milestones and their votes,
/// pause and upgrade control, emergency rescue, yield routing, jurors
/// and disputes.
pub struct EscrowContract {
    /// The contract's own account, source of all payouts.
    pub contract_address: Address,
    pub admin: Option<Address>,
    pub escrows: HashMap<u64, EscrowInfo>,
    /// Milestones of each project; a milestone's id is its position.
    pub milestones: HashMap<u64, Vec<Milestone>>,
    /// Validators that voted on each milestone, keyed by `pair_key(project, milestone)`.
    pub voters: HashMap<u128, Vec<Address>>,
    pub pause_state: PauseState,
    pub pending_upgrade: Option<PendingUpgrade>,
    pub emergency: HashMap<u64, EmergencyWithdrawState>,
    pub yield_config: Option<YieldRouterConfig>,
    pub yield_states: HashMap<u64, EscrowYieldState>,
    pub juror_token: Option<Address>,
    pub jurors: HashMap<u64, JurorInfo>,
    pub active_jurors: Vec<Address>,
    pub disputes: HashMap<u64, Dispute>,
    pub next_dispute_id: u64,
    pub juror_assignments: HashMap<u64, Vec<Address>>,
    /// Juror commitments, keyed by `pair_key(dispute, juror)`.
    pub dispute_votes: HashMap<u128, VoteCommitment>,
    pub dispute_fee_pool: Amount,
    /// Work for other contracts, in the order it must be performed.
    pub effects: Vec<Effect>,
    /// Announcements for observers, oldest first.
    pub events: Vec<EscrowEvent>,
}

/// Mathematical view of the escrow contract.
#[verifier::ext_equal]
pub struct EscrowState {
    pub contract_address: Address,
    pub admin: Option<Address>,
    pub escrows: Map<u64, EscrowSpec>,
    pub milestones: Map<u64, Seq<Milestone>>,
    pub voters: Map<u128, Seq<Address>>,
    pub pause: PauseState,
    pub pending_upgrade: Option<PendingUpgrade>,
    pub emergency: Map<u64, EmergencySpec>,
    pub yield_config: Option<YieldRouterConfig>,
    pub yield_states: Map<u64, EscrowYieldState>,
    pub juror_token: Option<Address>,
    pub jurors: Map<u64, JurorInfo>,
    pub active_jurors: Seq<Address>,
    pub disputes: Map<u64, Dispute>,
    pub next_dispute_id: u64,
    pub assignments: Map<u64, Seq<Address>>,
    pub votes: Map<u128, VoteCommitment>,
    pub fee_pool: Amount,
    pub effects: Seq<Effect>,
    pub events: Seq<EscrowEvent>,
}

/// Sum of the amounts of a list of milestones.
pub open spec fn milestone_total(ms: Seq<Milestone>) -> int
    decreases ms.len(),
{
    if ms.len() == 0 {
        0
    } else {
        milestone_total(ms.drop_last()) + ms.last().amount
    }
}

/// Approvals a milestone needs: `threshold` basis points of the validators, rounded down.
pub open spec fn required_approvals_for(num_validators: int, threshold: int) -> int {
    (num_validators * threshold) / 10000
}

/// What the well-formedness of one project escrow demands.
pub open spec fn escrow_ok(p: u64, e: EscrowSpec, ms: Seq<Milestone>) -> bool {
    &&& e.project_id == p
    &&& 0 <= e.released_amount <= e.total_deposited
    &&& milestone_total(ms) <= e.total_deposited
    &&& e.validators.len() >= MIN_VALIDATORS
    &&& MIN_APPROVAL_THRESHOLD <= e.approval_threshold <= MAX_APPROVAL_THRESHOLD
    &&& e.management_fee_bps <= 10000
    &&& forall|i: int|
        0 <= i < ms.len() ==> (#[trigger] ms[i]).id == i && ms[i].project_id == p && ms[i].amount > 0
}

impl View for EscrowContract {
    type V = EscrowState;

    open spec fn view(&self) -> EscrowState {
        EscrowState {
            contract_address: self.contract_address,
            admin: self.admin,
            escrows: self.escrows@.map_values(|e: EscrowInfo| e@),
            milestones: self.milestones@.map_values(|v: Vec<Milestone>| v@),
            voters: self.voters@.map_values(|v: Vec<Address>| v@),
            pause: self.pause_state,
            pending_upgrade: self.pending_upgrade,
            emergency: self.emergency@.map_values(|e: EmergencyWithdrawState| e@),
            yield_config: self.yield_config,
            yield_states: self.yield_states@,
            juror_token: self.juror_token,
            jurors: self.jurors@,
            active_jurors: self.active_jurors@,
            disputes: self.disputes@,
            next_dispute_id: self.next_dispute_id,
            assignments: self.juror_assignments@.map_values(|v: Vec<Address>| v@),
            votes: self.dispute_votes@,
            fee_pool: self.dispute_fee_pool,
            effects: self.effects@,
            events: self.events@,
        }
    }
}

impl EscrowState {
    /// The invariant every reachable state satisfies.
    pub open spec fn wf(self) -> bool {
        &&& forall|p: u64| #[trigger]
            self.escrows.contains_key(p) <==> self.milestones.contains_key(p)
        &&& forall|p: u64| #[trigger]
            self.escrows.contains_key(p) ==> escrow_ok(p, self.escrows[p], self.milestones[p])
        &&& self.juror_wf()
        &&& self.assignments_wf()
        &&& self.votes_wf()
    }

    /// A revealed vote is always for an actual resolution.
    pub open spec fn votes_wf(self) -> bool {
        forall|k: u128| #[trigger]
            self.votes.contains_key(k) && self.votes[k].revealed ==> self.votes[k].vote != DisputeResolution::NoRes
    }

    /// Registered jurors and the active list describe the same accounts, each once.
    pub open spec fn juror_wf(self) -> bool {
        &&& self.active_jurors.no_duplicates()
        &&& forall|j: u64| #[trigger]
            self.jurors.contains_key(j) <==> self.active_jurors.contains(j)
        &&& forall|j: u64| #[trigger]
            self.jurors.contains_key(j) ==> self.jurors[j].address == j && self.jurors[j].staked_amount >= 0
        &&& self.fee_pool >= 0
    }

    pub open spec fn is_paused(self) -> bool {
        self.pause.paused
    }

    /// Validators that already voted on a milestone.
    pub open spec fn voters_of(self, p: u64, m: u64) -> Seq<Address> {
        if self.voters.contains_key(pair_key(p, m)) {
            self.voters[pair_key(p, m)]
        } else {
            Seq::empty()
        }
    }

    /// The emergency record of a project (idle when none was stored).
    pub open spec fn emergency_of(self, p: u64) -> EmergencySpec {
        if self.emergency.contains_key(p) {
            self.emergency[p]
        } else {
            spec_idle_emergency()
        }
    }

    /// The yield state of a project (all zero when none was stored).
    pub open spec fn yield_state_of(self, p: u64) -> EscrowYieldState {
        if self.yield_states.contains_key(p) {
            self.yield_states[p]
        } else {
            spec_default_yield_state()
        }
    }

    /// Whether `m` names an existing milestone of project `p`.
    pub open spec fn has_milestone(self, p: u64, m: u64) -> bool {
        self.milestones.contains_key(p) && m < self.milestones[p].len()
    }

    pub open spec fn milestone(self, p: u64, m: u64) -> Milestone {
        self.milestones[p][m as int]
    }

    /// Replaces one milestone.
    pub open spec fn with_milestone(self, p: u64, m: u64, ms: Milestone) -> EscrowState {
        EscrowState {
            milestones: self.milestones.insert(p, self.milestones[p].update(m as int, ms)),
            ..self
        }
    }

    /// Replaces one escrow record.
    pub open spec fn with_escrow(self, p: u64, e: EscrowSpec) -> EscrowState {
        EscrowState { escrows: self.escrows.insert(p, e), ..self }
    }

    // ----- initialize_admin -----
    pub open spec fn spec_initialize_admin(self, admin: Address) -> (EscrowState, Result<(), Error>) {
        if self.admin is Some {
            (self, Err(Error::AlreadyInit))
        } else {
            (EscrowState { admin: Some(admin), ..self }, Ok(()))
        }
    }

    // ----- initialize -----
    pub open spec fn spec_initialize(
        self,
        project_id: u64,
        creator: Address,
        token: Address,
        validators: Seq<Address>,
        approval_threshold: u32,
        management_fee_bps: u32,
    ) -> (EscrowState, Result<(), Error>) {
        if validators.len() < MIN_VALIDATORS {
            (self, Err(Error::InvInput))
        } else if management_fee_bps > 10000 {
            (self, Err(Error::InvInput))
        } else if self.escrows.contains_key(project_id) {
            (self, Err(Error::AlreadyInit))
        } else if !(MIN_APPROVAL_THRESHOLD <= approval_threshold <= MAX_APPROVAL_THRESHOLD) {
            (self, Err(Error::InvInput))
        } else {
            let e = EscrowSpec {
                project_id,
                creator,
                token,
                total_deposited: 0,
                released_amount: 0,
                validators,
                approval_threshold,
                management_fee_bps,
            };
            (
                EscrowState {
                    escrows: self.escrows.insert(project_id, e),
                    milestones: self.milestones.insert(project_id, Seq::empty()),
                    events: self.events.push(EscrowEvent::EscrowInitialized { project_id, creator, token }),
                    ..self
                },
                Ok(()),
            )
        }
    }

    // ----- deposit -----
    pub open spec fn spec_deposit(self, project_id: u64, amount: Amount) -> (EscrowState, Result<(), Error>) {
        if !self.escrows.contains_key(project_id) {
            (self, Err(Error::NotFound))
        } else if amount <= 0 {
            (self, Err(Error::InvInput))
        } else if self.is_paused() {
            (self, Err(Error::Paused))
        } else if self.escrows[project_id].total_deposited + amount > i128::MAX {
            (self, Err(Error::InvInput))
        } else {
            let e = self.escrows[project_id];
            let s1 = self.with_escrow(
                project_id,
                EscrowSpec { total_deposited: (e.total_deposited + amount) as i128, ..e },
            );
            (
                EscrowState { events: self.events.push(EscrowEvent::FundsLocked { project_id, amount }), ..s1 },
                Ok(()),
            )
        }
    }

    // ----- create_milestone -----
    pub open spec fn spec_create_milestone(
        self,
        project_id: u64,
        description_hash: Hash32,
        amount: Amount,
        now: Timestamp,
    ) -> (EscrowState, Result<(), Error>) {
        if !self.escrows.contains_key(project_id) {
            (self, Err(Error::NotFound))
        } else if amount <= 0 {
            (self, Err(Error::InvInput))
        } else if milestone_total(self.milestones[project_id]) + amount > i128::MAX {
            (self, Err(Error::InvInput))
        } else if milestone_total(self.milestones[project_id]) + amount
            > self.escrows[project_id].total_deposited {
            (self, Err(Error::EscrowInsuf))
        } else if self.is_paused() {
            (self, Err(Error::Paused))
        } else if self.milestones[project_id].len() + 1 > u64::MAX {
            (self, Err(Error::InvInput))
        } else {
            let ms = self.milestones[project_id];
            let new_milestone = Milestone {
                id: ms.len() as u64,
                project_id,
                description_hash,
                amount,
                status: MilestoneStatus::Pending,
                proof_hash: self.zero_hash_value(),
                approval_count: 0,
                rejection_count: 0,
                created_at: now,
            };
            (
                EscrowState {
                    milestones: self.milestones.insert(project_id, ms.push(new_milestone)),
                    events: self.events.push(
                        EscrowEvent::MilestoneCreated {
                            project_id,
                            milestone_id: ms.len() as u64,
                            amount,
                            description_hash,
                        },
                    ),
                    ..self
                },
                Ok(()),
            )
        }
    }

    /// The digest whose bytes are all zero.
    pub open spec fn zero_hash_value(self) -> Hash32 {
        vstd::array::spec_array_fill_for_copy_type::<u8, 32>(0u8)
    }

    // ----- submit_milestone -----
    pub open spec fn spec_submit_milestone(
        self,
        project_id: u64,
        milestone_id: u64,
        proof_hash: Hash32,
    ) -> (EscrowState, Result<(), Error>) {
        if !self.escrows.contains_key(project_id) {
            (self, Err(Error::NotFound))
        } else if !self.has_milestone(project_id, milestone_id) {
            (self, Err(Error::NotFound))
        } else if self.milestone(project_id, milestone_id).status != MilestoneStatus::Pending {
            (self, Err(Error::MstoneInv))
        } else if self.is_paused() {
            (self, Err(Error::Paused))
        } else {
            let ms = self.milestone(project_id, milestone_id);
            let submitted = Milestone {
                status: MilestoneStatus::Submitted,
                proof_hash,
                approval_count: 0,
                rejection_count: 0,
                ..ms
            };
            let s1 = self.with_milestone(project_id, milestone_id, submitted);
            (
                EscrowState {
                    voters: s1.voters.insert(pair_key(project_id, milestone_id), Seq::empty()),
                    events: self.events.push(EscrowEvent::MilestoneSubmitted { project_id, milestone_id, proof_hash }),
                    ..s1
                },
                Ok(()),
            )
        }
    }

    // ----- vote_milestone -----
    /// Whether counting the vote would overflow the milestone's counter.
    pub open spec fn vote_count_overflows(self, p: u64, m: u64, approve: bool) -> bool {
        let ms = self.milestone(p, m);
        if approve {
            ms.approval_count + 1 > u32::MAX
        } else {
            ms.rejection_count + 1 > u32::MAX
        }
    }

    /// Whether a vote passes every check and gets as far as working out the
    /// approvals the milestone needs.
    pub open spec fn vote_reaches_threshold(self, p: u64, m: u64, voter: Address, approve: bool) -> bool {
        &&& self.escrows.contains_key(p)
        &&& self.escrows[p].validators.contains(voter)
        &&& self.has_milestone(p, m)
        &&& self.milestone(p, m).status == MilestoneStatus::Submitted
        &&& !self.voters_of(p, m).contains(voter)
        &&& !self.vote_count_overflows(p, m, approve)
        &&& !self.is_paused()
    }

    /// The milestone after counting one vote.
    pub open spec fn counted_milestone(self, p: u64, m: u64, approve: bool) -> Milestone {
        let ms = self.milestone(p, m);
        if approve {
            Milestone { approval_count: (ms.approval_count + 1) as u32, ..ms }
        } else {
            Milestone { rejection_count: (ms.rejection_count + 1) as u32, ..ms }
        }
    }

    pub open spec fn spec_vote_milestone(
        self,
        p: u64,
        m: u64,
        voter: Address,
        approve: bool,
    ) -> (EscrowState, Result<(), Error>) {
        if !self.escrows.contains_key(p) {
            (self, Err(Error::NotFound))
        } else if !self.escrows[p].validators.contains(voter) {
            (self, Err(Error::NotValidator))
        } else if !self.has_milestone(p, m) {
            (self, Err(Error::NotFound))
        } else if self.milestone(p, m).status != MilestoneStatus::Submitted {
            (self, Err(Error::MstoneInv))
        } else if self.voters_of(p, m).contains(voter) {
            (self, Err(Error::AlreadyVoted))
        } else if self.vote_count_overflows(p, m, approve) {
            (self, Err(Error::InvInput))
        } else if self.is_paused() {
            (self, Err(Error::Paused))
        } else {
            let counted = self.counted_milestone(p, m, approve);
            let e = self.escrows[p];
            let n = e.validators.len() as int;
            let req = required_approvals_for(n, e.approval_threshold as int);
            let recorded = EscrowState {
                voters: self.voters.insert(pair_key(p, m), self.voters_of(p, m).push(voter)),
                ..self
            };
            if counted.approval_count >= req {
                let approved = Milestone { status: MilestoneStatus::Approved, ..counted };
                if e.released_amount + approved.amount > i128::MAX {
                    (self, Err(Error::InvInput))
                } else if e.released_amount + approved.amount > e.total_deposited {
                    (self, Err(Error::EscrowInsuf))
                } else {
                    let paid = recorded.with_escrow(
                        p,
                        EscrowSpec { released_amount: (e.released_amount + approved.amount) as i128, ..e },
                    ).with_milestone(p, m, approved);
                    (
                        EscrowState {
                            effects: self.effects.push(
                                Effect::Transfer {
                                    token: e.token,
                                    from: self.contract_address,
                                    to: e.creator,
                                    amount: approved.amount,
                                },
                            ),
                            events: self.events.push(
                                EscrowEvent::MilestoneApproved {
                                    project_id: p,
                                    milestone_id: m,
                                    approval_count: approved.approval_count,
                                },
                            ).push(EscrowEvent::FundsReleased { project_id: p, milestone_id: m, amount: approved.amount }),
                            ..paid
                        },
                        Ok(()),
                    )
                }
            } else if counted.rejection_count > n - req {
                let s1 = recorded.with_milestone(p, m, Milestone { status: MilestoneStatus::Rejected, ..counted });
                (
                    EscrowState {
                        events: self.events.push(
                            EscrowEvent::MilestoneRejected {
                                project_id: p,
                                milestone_id: m,
                                rejection_count: counted.rejection_count,
                            },
                        ),
                        ..s1
                    },
                    Ok(()),
                )
            } else {
                (recorded.with_milestone(p, m, counted), Ok(()))
            }
        }
    }

    // ----- update_validators -----
    pub open spec fn spec_update_validators(self, p: u64, new_validators: Seq<Address>) -> (
        EscrowState,
        Result<(), Error>,
    ) {
        if self.admin is None {
            (self, Err(Error::NotInit))
        } else if new_validators.len() < MIN_VALIDATORS {
            (self, Err(Error::InvInput))
        } else if !self.escrows.contains_key(p) {
            (self, Err(Error::NotFound))
        } else {
            let s1 = self.with_escrow(p, EscrowSpec { validators: new_validators, ..self.escrows[p] });
            (EscrowState { events: self.events.push(EscrowEvent::ValidatorsUpdated { project_id: p }), ..s1 }, Ok(()))
        }
    }
}

/// Amount released to the creator once a milestone is settled, as a
/// separate helper: adds `amount` to the released total unless that would
/// overflow or exceed the deposits.
pub open spec fn spec_release(e: EscrowSpec, amount: Amount) -> Result<Amount, Error> {
    if e.released_amount + amount > i128::MAX || e.released_amount + amount < i128::MIN {
        Err(Error::InvInput)
    } else if e.released_amount + amount > e.total_deposited {
        Err(Error::EscrowInsuf)
    } else {
        Ok((e.released_amount + amount) as i128)
    }
}

/// Checks that releasing `amount` more keeps the escrow within its deposits
/// and returns the new released total.
pub fn release_milestone_funds(escrow: &EscrowInfo, amount: Amount) -> (r: Result<Amount, Error>)
    ensures
        r == spec_release(escrow@, amount),
{
    let new_released = match escrow.released_amount.checked_add(amount) {
        Some(v) => v,
        None => return Err(Error::InvInput),
    };
    if new_released > escrow.total_deposited {
        return Err(Error::EscrowInsuf);
    }
    Ok(new_released)
}

/// Partial sums of milestone amounts never exceed the full sum.
pub proof fn lemma_milestone_total_prefix(ms: Seq<Milestone>, i: int)
    requires
        0 <= i <= ms.len(),
        forall|k: int| 0 <= k < ms.len() ==> (#[trigger] ms[k]).amount > 0,
    ensures
        0 <= milestone_total(ms.take(i)) <= milestone_total(ms),
    decreases ms.len(),
{
    if ms.len() == 0 {
        assert(ms.take(i) =~= ms);
    } else if i == ms.len() {
        assert(ms.take(i) =~= ms);
        lemma_milestone_total_prefix(ms.drop_last(), i - 1);
        assert(ms.drop_last().take(i - 1) =~= ms.drop_last());
    } else {
        assert(ms.take(i) =~= ms.drop_last().take(i));
        lemma_milestone_total_prefix(ms.drop_last(), i);
    }
}

/// The total after pushing a milestone adds its amount.
pub proof fn lemma_milestone_total_push(ms: Seq<Milestone>, m: Milestone)
    ensures
        milestone_total(ms.push(m)) == milestone_total(ms) + m.amount,
{
    assert(ms.push(m).drop_last() =~= ms);
}

/// Replacing a milestone by one with the same amount keeps the total.
pub proof fn lemma_milestone_total_update(ms: Seq<Milestone>, i: int, m: Milestone)
    requires
        0 <= i < ms.len(),
        m.amount == ms[i].amount,
    ensures
        milestone_total(ms.update(i, m)) == milestone_total(ms),
    decreases ms.len(),
{
    if i == ms.len() - 1 {
        assert(ms.update(i, m).drop_last() =~= ms.drop_last());
    } else {
        assert(ms.update(i, m).drop_last() =~= ms.drop_last().update(i, m));
        lemma_milestone_total_update(ms.drop_last(), i, m);
    }
}

impl EscrowContract {
    /// The invariant of the contract state.
    pub open spec fn wf(&self) -> bool {
        self@.wf()
    }

    /// A contract with no admin, no escrows and nothing pending, running at `contract_address`.
    pub fn new(contract_address: Address) -> (c: EscrowContract)
        ensures
            c.wf(),
            c@.contract_address == contract_address,
            c@.admin is None,
            c@.escrows == Map::<u64, EscrowSpec>::empty(),
            c@.milestones == Map::<u64, Seq<Milestone>>::empty(),
            c@.voters == Map::<u128, Seq<Address>>::empty(),
            c@.pause == (PauseState { paused: false, paused_at: 0, resume_not_before: 0 }),
            c@.pending_upgrade is None,
            c@.emergency == Map::<u64, EmergencySpec>::empty(),
            c@.yield_config is None,
            c@.yield_states == Map::<u64, EscrowYieldState>::empty(),
            c@.juror_token is None,
            c@.jurors == Map::<u64, JurorInfo>::empty(),
            c@.active_jurors == Seq::<Address>::empty(),
            c@.disputes == Map::<u64, Dispute>::empty(),
            c@.next_dispute_id == 0,
            c@.assignments == Map::<u64, Seq<Address>>::empty(),
            c@.votes == Map::<u128, VoteCommitment>::empty(),
            c@.fee_pool == 0,
            c@.effects == Seq::<Effect>::empty(),
            c@.events == Seq::<EscrowEvent>::empty(),
    {
        let c = EscrowContract {
            contract_address,
            admin: None,
            escrows: HashMap::new(),
            milestones: HashMap::new(),
            voters: HashMap::new(),
            pause_state: PauseState { paused: false, paused_at: 0, resume_not_before: 0 },
            pending_upgrade: None,
            emergency: HashMap::new(),
            yield_config: None,
            yield_states: HashMap::new(),
            juror_token: None,
            jurors: HashMap::new(),
            active_jurors: Vec::new(),
            disputes: HashMap::new(),
            next_dispute_id: 0,
            juror_assignments: HashMap::new(),
            dispute_votes: HashMap::new(),
            dispute_fee_pool: 0,
            effects: Vec::new(),
            events: Vec::new(),
        };
        assert(c@.escrows =~= Map::<u64, EscrowSpec>::empty());
        assert(c@.milestones =~= Map::<u64, Seq<Milestone>>::empty());
        assert(c@.voters =~= Map::<u128, Seq<Address>>::empty());
        assert(c@.emergency =~= Map::<u64, EmergencySpec>::empty());
        assert(c@.assignments =~= Map::<u64, Seq<Address>>::empty());
        c
    }

    /// Hands over the queued work for other contracts, oldest first.
    pub fn take_effects(&mut self) -> (out: Vec<Effect>)
        requires
            old(self).wf(),
        ensures
            final(self).wf(),
            out@ == old(self)@.effects,
            final(self)@ == (EscrowState { effects: Seq::empty(), ..old(self)@ }),
    {
        let mut out = Vec::new();
        std::mem::swap(&mut out, &mut self.effects);
        assert(final(self)@ =~= (EscrowState { effects: Seq::empty(), ..old(self)@ }));
        out
    }

    /// Hands over the announcements made so far, oldest first.
    pub fn take_events(&mut self) -> (out: Vec<EscrowEvent>)
        requires
            old(self).wf(),
        ensures
            final(self).wf(),
            out@ == old(self)@.events,
            final(self)@ == (EscrowState { events: Seq::empty(), ..old(self)@ }),
    {
        let mut out = Vec::new();
        std::mem::swap(&mut out, &mut self.events);
        assert(final(self)@ =~= (EscrowState { events: Seq::empty(), ..old(self)@ }));
        out
    }

    /// Sets the platform admin once.
    pub fn initialize_admin(&mut self, admin: Address) -> (result: Result<(), Error>)
        requires
            old(self).wf(),
        ensures
            final(self).wf(),
            (final(self)@, result) == old(self)@.spec_initialize_admin(admin),
    {
        if self.admin.is_some() {
            return Err(Error::AlreadyInit);
        }
        let ghost old_state = self@;
        self.admin = Some(admin);
        assert(self@ =~= (EscrowState { admin: Some(admin), ..old_state }));
        Ok(())
    }

    /// Opens an escrow for a project with its validators, approval threshold
    /// (basis points) and management fee (basis points).
    pub fn initialize(
        &mut self,
        project_id: u64,
        creator: Address,
        token: Address,
        validators: Vec<Address>,
        approval_threshold: u32,
        management_fee_bps: u32,
    ) -> (result: Result<(), Error>)
        requires
            old(self).wf(),
        ensures
            final(self).wf(),
            (final(self)@, result) == old(self)@.spec_initialize(
                project_id,
                creator,
                token,
                validators@,
                approval_threshold,
                management_fee_bps,
            ),
    {
        if validators.len() < MIN_VALIDATORS as usize {
            return Err(Error::InvInput);
        }
        if management_fee_bps > 10000 {
            return Err(Error::InvInput);
        }
        if self.escrows.contains_key(&project_id) {
            return Err(Error::AlreadyInit);
        }
        if !(MIN_APPROVAL_THRESHOLD <= approval_threshold && approval_threshold <= MAX_APPROVAL_THRESHOLD) {
            return Err(Error::InvInput);
        }
        let ghost old_state = self@;
        let escrow = EscrowInfo {
            project_id,
            creator,
            token,
            total_deposited: 0,
            released_amount: 0,
            validators,
            approval_threshold,
            management_fee_bps,
        };
        self.escrows.insert(project_id, escrow);
        self.milestones.insert(project_id, Vec::new());
        self.events.push(EscrowEvent::EscrowInitialized { project_id, creator, token });
        proof {
            let expected = old_state.spec_initialize(
                project_id,
                creator,
                token,
                escrow.validators@,
                approval_threshold,
                management_fee_bps,
            ).0;
            assert(self@.milestones =~= expected.milestones);
            assert(self@ =~= expected);
            assert(milestone_total(Seq::<Milestone>::empty()) == 0);
            assert forall|p: u64| #[trigger] self@.escrows.contains_key(p) implies escrow_ok(
                p,
                self@.escrows[p],
                self@.milestones[p],
            ) by {
                if p != project_id {
                    assert(old_state.escrows.contains_key(p));
                }
            }
        }
        Ok(())
    }

    /// Records a deposit into a project's escrow.
    pub fn deposit(&mut self, project_id: u64, amount: Amount) -> (result: Result<(), Error>)
        requires
            old(self).wf(),
        ensures
            final(self).wf(),
            (final(self)@, result) == old(self)@.spec_deposit(project_id, amount),
    {
        let current = match self.escrows.get(&project_id) {
            Some(e) => e.total_deposited,
            None => return Err(Error::NotFound),
        };
        if amount <= 0 {
            return Err(Error::InvInput);
        }
        if self.pause_state.paused {
            return Err(Error::Paused);
        }
        let new_total = match current.checked_add(amount) {
            Some(t) => t,
            None => return Err(Error::InvInput),
        };
        let ghost old_state = self@;
        let mut e = self.escrows.remove(&project_id).unwrap();
        e.total_deposited = new_total;
        self.escrows.insert(project_id, e);
        self.events.push(EscrowEvent::FundsLocked { project_id, amount });
        proof {
            let expected = old_state.spec_deposit(project_id, amount).0;
            assert(self@.escrows =~= expected.escrows);
            assert(self@ =~= expected);
            assert forall|p: u64| #[trigger] self@.escrows.contains_key(p) implies escrow_ok(
                p,
                self@.escrows[p],
                self@.milestones[p],
            ) by {
                assert(old_state.escrows.contains_key(p));
            }
        }
        Ok(())
    }

    /// Sum of the amounts of a project's milestones.
    pub fn get_total_milestone_amount(&self, project_id: u64) -> (result: Result<Amount, Error>)
        requires
            self.wf(),
        ensures
            self@.escrows.contains_key(project_id) ==> result == Ok::<Amount, Error>(
                milestone_total(self@.milestones[project_id]) as Amount,
            ),
            !self@.escrows.contains_key(project_id) ==> result == Err::<Amount, Error>(Error::NotFound),
    {
        if !self.escrows.contains_key(&project_id) {
            return Err(Error::NotFound);
        }
        assert(self@.escrows.contains_key(project_id));
        assert(self@.milestones.contains_key(project_id));
        let ghost e = self@.escrows[project_id];
        let ms = self.milestones.get(&project_id).unwrap();
        let ghost s = ms@;
        proof {
            assert(escrow_ok(project_id, e, s));
        }
        let mut total: Amount = 0;
        let mut i: usize = 0;
        while i < ms.len()
            invariant
                i <= ms.len(),
                s == ms@,
                total == milestone_total(s.take(i as int)),
                milestone_total(s) <= e.total_deposited,
                e.total_deposited <= i128::MAX,
                forall|k: int| 0 <= k < s.len() ==> (#[trigger] s[k]).amount > 0,
            decreases ms.len() - i,
        {
            proof {
                assert(s.take(i + 1).drop_last() =~= s.take(i as int));
                lemma_milestone_total_prefix(s, i + 1);
            }
            total = total + ms[i].amount;
            i = i + 1;
        }
        assert(s.take(i as int) =~= s);
        Ok(total)
    }

    /// Deposited funds not yet released.
    pub fn get_available_balance(&self, project_id: u64) -> (result: Result<Amount, Error>)
        requires
            self.wf(),
        ensures
            self@.escrows.contains_key(project_id) ==> result == Ok::<Amount, Error>(
                (self@.escrows[project_id].total_deposited - self@.escrows[project_id].released_amount) as Amount,
            ),
            !self@.escrows.contains_key(project_id) ==> result == Err::<Amount, Error>(Error::NotFound),
    {
        match self.escrows.get(&project_id) {
            Some(e) => {
                assert(self@.escrows.contains_key(project_id));
                assert(escrow_ok(project_id, self@.escrows[project_id], self@.milestones[project_id]));
                Ok(e.total_deposited - e.released_amount)
            },
            None => Err(Error::NotFound),
        }
    }

    /// A copy of a project's escrow record.
    pub fn get_escrow(&self, project_id: u64) -> (result: Result<EscrowInfo, Error>)
        ensures
            self@.escrows.contains_key(project_id) ==> result is Ok && result->Ok_0@
                == self@.escrows[project_id],
            !self@.escrows.contains_key(project_id) ==> result == Err::<EscrowInfo, Error>(Error::NotFound),
    {
        match self.escrows.get(&project_id) {
            Some(e) => {
                let validators = vec_copy(&e.validators);
                Ok(
                    EscrowInfo {
                        project_id: e.project_id,
                        creator: e.creator,
                        token: e.token,
                        total_deposited: e.total_deposited,
                        released_amount: e.released_amount,
                        validators,
                        approval_threshold: e.approval_threshold,
                        management_fee_bps: e.management_fee_bps,
                    },
                )
            },
            None => Err(Error::NotFound),
        }
    }

    /// A project's milestone.
    pub fn get_milestone(&self, project_id: u64, milestone_id: u64) -> (result: Result<Milestone, Error>)
        ensures
            self@.has_milestone(project_id, milestone_id) ==> result == Ok::<Milestone, Error>(
                self@.milestone(project_id, milestone_id),
            ),
            !self@.has_milestone(project_id, milestone_id) ==> result == Err::<Milestone, Error>(
                Error::NotFound,
            ),
    {
        match self.milestones.get(&project_id) {
            Some(ms) => {
                if milestone_id < ms.len() as u64 {
                    Ok(ms[milestone_id as usize])
                } else {
                    Err(Error::NotFound)
                }
            },
            None => Err(Error::NotFound),
        }
    }

    /// Adds a milestone worth `amount` to a project, stamped with `now`.
    pub fn create_milestone(
        &mut self,
        project_id: u64,
        description_hash: Hash32,
        amount: Amount,
        now: Timestamp,
    ) -> (result: Result<(), Error>)
        requires
            old(self).wf(),
        ensures
            final(self).wf(),
            (final(self)@, result) == old(self)@.spec_create_milestone(
                project_id,
                description_hash,
                amount,
                now,
            ),
    {
        let total_deposited = match self.escrows.get(&project_id) {
            Some(e) => e.total_deposited,
            None => return Err(Error::NotFound),
        };
        if amount <= 0 {
            return Err(Error::InvInput);
        }
        let total_milestones = match self.get_total_milestone_amount(project_id) {
            Ok(t) => t,
            Err(e) => return Err(e),
        };
        proof {
            assert(self@.escrows.contains_key(project_id));
            assert(escrow_ok(project_id, self@.escrows[project_id], self@.milestones[project_id]));
            lemma_milestone_total_prefix(self@.milestones[project_id], 0);
        }
        let new_total = match total_milestones.checked_add(amount) {
            Some(t) => t,
            None => return Err(Error::InvInput),
        };
        if new_total > total_deposited {
            return Err(Error::EscrowInsuf);
        }
        if self.pause_state.paused {
            return Err(Error::Paused);
        }
        let ghost old_state = self@;
        assert(self@.milestones.contains_key(project_id));
        let mut ms = self.milestones.remove(&project_id).unwrap();
        let milestone_id = ms.len() as u64;
        if milestone_id.checked_add(1).is_none() {
            self.milestones.insert(project_id, ms);
            assert(self@ =~= old_state);
            return Err(Error::InvInput);
        }
        let milestone = Milestone {
            id: milestone_id,
            project_id,
            description_hash,
            amount,
            status: MilestoneStatus::Pending,
            proof_hash: [0u8; 32],
            approval_count: 0,
            rejection_count: 0,
            created_at: now,
        };
        ms.push(milestone);
        self.milestones.insert(project_id, ms);
        self.events.push(
            EscrowEvent::MilestoneCreated { project_id, milestone_id: milestone.id, amount, description_hash },
        );
        proof {
            let expected = old_state.spec_create_milestone(project_id, description_hash, amount, now).0;
            assert(self@.milestones =~= expected.milestones);
            assert(self@ =~= expected);
            lemma_milestone_total_push(old_state.milestones[project_id], milestone);
            assert forall|p: u64| #[trigger] self@.escrows.contains_key(p) implies escrow_ok(
                p,
                self@.escrows[p],
                self@.milestones[p],
            ) by {
                assert(old_state.escrows.contains_key(p));
            }
        }
        Ok(())
    }

    /// Submits a pending milestone with its proof; its vote record starts afresh.
    pub fn submit_milestone(
        &mut self,
        project_id: u64,
        milestone_id: u64,
        proof_hash: Hash32,
    ) -> (result: Result<(), Error>)
        requires
            old(self).wf(),
        ensures
            final(self).wf(),
            (final(self)@, result) == old(self)@.spec_submit_milestone(project_id, milestone_id, proof_hash),
    {
        if !self.escrows.contains_key(&project_id) {
            return Err(Error::NotFound);
        }
        let current = match self.get_milestone(project_id, milestone_id) {
            Ok(m) => m,
            Err(e) => return Err(e),
        };
        if current.status != MilestoneStatus::Pending {
            return Err(Error::MstoneInv);
        }
        if self.pause_state.paused {
            return Err(Error::Paused);
        }
        let ghost old_state = self@;
        let submitted = Milestone {
            status: MilestoneStatus::Submitted,
            proof_hash,
            approval_count: 0,
            rejection_count: 0,
            ..current
        };
        self.put_milestone(project_id, milestone_id, submitted);
        let key = make_pair_key(project_id, milestone_id);
        self.voters.insert(key, Vec::new());
        self.events.push(EscrowEvent::MilestoneSubmitted { project_id, milestone_id, proof_hash });
        proof {
            let expected = old_state.spec_submit_milestone(project_id, milestone_id, proof_hash).0;
            assert(self@.milestones =~= expected.milestones);
            assert(self@.voters =~= expected.voters);
            assert(self@ =~= expected);
            lemma_milestone_total_update(old_state.milestones[project_id], milestone_id as int, submitted);
            assert forall|p: u64| #[trigger] self@.escrows.contains_key(p) implies escrow_ok(
                p,
                self@.escrows[p],
                self@.milestones[p],
            ) by {
                assert(old_state.escrows.contains_key(p));
            }
        }
        Ok(())
    }

    /// Replaces an existing milestone.
    pub(crate) fn put_milestone(&mut self, project_id: u64, milestone_id: u64, milestone: Milestone)
        requires
            old(self)@.has_milestone(project_id, milestone_id),
        ensures
            final(self)@ == old(self)@.with_milestone(project_id, milestone_id, milestone),
    {
        let ghost old_state = self@;
        let ghost old_seq = old_state.milestones[project_id];
        let mut ms = self.milestones.remove(&project_id).unwrap();
        assert(ms@ == old_seq);
        let n = ms.len();
        assert(milestone_id < n);
        let idx = milestone_id as usize;
        ms.set(idx, milestone);
        assert(ms@ =~= old_seq.update(milestone_id as int, milestone));
        self.milestones.insert(project_id, ms);
        assert(self@.milestones =~= old_state.with_milestone(project_id, milestone_id, milestone).milestones);
        assert(self@ =~= old_state.with_milestone(project_id, milestone_id, milestone));
    }

    /// Validators that already voted on a milestone.
    /// Whether the approvals a vote needs can be worked out in `u32` on the
    /// path the vote takes (see `vote_reaches_threshold`).
    pub fn vote_fits(&self, project_id: u64, milestone_id: u64, voter: Address, approve: bool) -> (r: bool)
        requires
            self.wf(),
        ensures
            r == (self@.vote_reaches_threshold(project_id, milestone_id, voter, approve) ==> self@.escrows[project_id].validators.len()
                * self@.escrows[project_id].approval_threshold <= u32::MAX),
    {
        let (n, threshold) = match self.escrows.get(&project_id) {
            Some(e) => {
                if !vec_contains(&e.validators, voter) {
                    return true;
                }
                (e.validators.len(), e.approval_threshold)
            },
            None => return true,
        };
        let ms = match self.get_milestone(project_id, milestone_id) {
            Ok(m) => m,
            Err(_) => return true,
        };
        if ms.status != MilestoneStatus::Submitted {
            return true;
        }
        let voters = self.voters_copy(project_id, milestone_id);
        if vec_contains(&voters, voter) {
            return true;
        }
        if (approve && ms.approval_count == u32::MAX) || (!approve && ms.rejection_count == u32::MAX) {
            return true;
        }
        if self.pause_state.paused {
            return true;
        }
        match (n as u64).checked_mul(threshold as u64) {
            Some(x) => x <= u32::MAX as u64,
            None => false,
        }
    }

    fn voters_copy(&self, project_id: u64, milestone_id: u64) -> (v: Vec<Address>)
        ensures
            v@ == self@.voters_of(project_id, milestone_id),
    {
        let key = make_pair_key(project_id, milestone_id);
        match self.voters.get(&key) {
            Some(v) => vec_copy(v),
            None => Vec::new(),
        }
    }

    /// Records a validator's vote on a submitted milestone. Reaching the
    /// approval threshold approves it and pays its amount to the creator;
    /// enough rejections that the threshold can no longer be reached reject it.
    pub fn vote_milestone(
        &mut self,
        project_id: u64,
        milestone_id: u64,
        voter: Address,
        approve: bool,
    ) -> (result: Result<(), Error>)
        requires
            old(self).wf(),
            old(self)@.vote_reaches_threshold(project_id, milestone_id, voter, approve) ==> old(
                self,
            )@.escrows[project_id].validators.len() * old(self)@.escrows[project_id].approval_threshold
                <= u32::MAX,
        ensures
            final(self).wf(),
            (final(self)@, result) == old(self)@.spec_vote_milestone(project_id, milestone_id, voter, approve),
    {
        let ghost old_state = self@;
        let (num_validators, threshold, released, total_deposited, token, creator) = match self.escrows.get(&project_id) {
            Some(e) => {
                if !vec_contains(&e.validators, voter) {
                    return Err(Error::NotValidator);
                }
                (e.validators.len(), e.approval_threshold, e.released_amount, e.total_deposited, e.token, e.creator)
            },
            None => return Err(Error::NotFound),
        };
        let current = match self.get_milestone(project_id, milestone_id) {
            Ok(m) => m,
            Err(e) => return Err(e),
        };
        if current.status != MilestoneStatus::Submitted {
            return Err(Error::MstoneInv);
        }
        let mut voters = self.voters_copy(project_id, milestone_id);
        if vec_contains(&voters, voter) {
            return Err(Error::AlreadyVoted);
        }
        let mut counted = current;
        if approve {
            match current.approval_count.checked_add(1) {
                Some(c) => { counted.approval_count = c; },
                None => return Err(Error::InvInput),
            }
        } else {
            match current.rejection_count.checked_add(1) {
                Some(c) => { counted.rejection_count = c; },
                None => return Err(Error::InvInput),
            }
        }
        if self.pause_state.paused {
            return Err(Error::Paused);
        }
        proof {
            assert(old_state.escrows.contains_key(project_id));
            assert(escrow_ok(project_id, old_state.escrows[project_id], old_state.milestones[project_id]));
            assert(num_validators as int <= num_validators * threshold) by (nonlinear_arith)
                requires threshold >= 1;
            assert(num_validators * threshold / 10000 <= num_validators) by (nonlinear_arith)
                requires threshold <= 10000;
        }
        let n = num_validators as u32;
        let required = (n * threshold) / 10000;
        assert(counted == old_state.counted_milestone(project_id, milestone_id, approve));
        if counted.approval_count >= required {
            let new_released = match released.checked_add(counted.amount) {
                Some(v) => v,
                None => return Err(Error::InvInput),
            };
            if new_released > total_deposited {
                return Err(Error::EscrowInsuf);
            }
            let approved = Milestone { status: MilestoneStatus::Approved, ..counted };
            voters.push(voter);
            self.voters.insert(make_pair_key(project_id, milestone_id), voters);
            let mut e = self.escrows.remove(&project_id).unwrap();
            e.released_amount = new_released;
            self.escrows.insert(project_id, e);
            self.put_milestone(project_id, milestone_id, approved);
            self.effects.push(
                Effect::Transfer { token, from: self.contract_address, to: creator, amount: approved.amount },
            );
            self.events.push(
                EscrowEvent::MilestoneApproved {
                    project_id,
                    milestone_id,
                    approval_count: approved.approval_count,
                },
            );
            self.events.push(EscrowEvent::FundsReleased { project_id, milestone_id, amount: approved.amount });
            proof {
                let expected = old_state.spec_vote_milestone(project_id, milestone_id, voter, approve).0;
                assert(self@.escrows =~= expected.escrows);
                assert(self@.voters =~= expected.voters);
                assert(self@.milestones =~= expected.milestones);
                assert(self@ =~= expected);
                lemma_milestone_total_update(old_state.milestones[project_id], milestone_id as int, approved);
            }
        } else if counted.rejection_count > n - required {
            let rejected = Milestone { status: MilestoneStatus::Rejected, ..counted };
            voters.push(voter);
            self.voters.insert(make_pair_key(project_id, milestone_id), voters);
            self.put_milestone(project_id, milestone_id, rejected);
            self.events.push(
                EscrowEvent::MilestoneRejected { project_id, milestone_id, rejection_count: rejected.rejection_count },
            );
            proof {
                let expected = old_state.spec_vote_milestone(project_id, milestone_id, voter, approve).0;
                assert(self@.voters =~= expected.voters);
                assert(self@ =~= expected);
                lemma_milestone_total_update(old_state.milestones[project_id], milestone_id as int, rejected);
            }
        } else {
            voters.push(voter);
            self.voters.insert(make_pair_key(project_id, milestone_id), voters);
            self.put_milestone(project_id, milestone_id, counted);
            proof {
                let expected = old_state.spec_vote_milestone(project_id, milestone_id, voter, approve).0;
                assert(self@.voters =~= expected.voters);
                assert(self@ =~= expected);
                lemma_milestone_total_update(old_state.milestones[project_id], milestone_id as int, counted);
            }
        }
        proof {
            assert forall|p: u64| #[trigger] self@.escrows.contains_key(p) implies escrow_ok(
                p,
                self@.escrows[p],
                self@.milestones[p],
            ) by {
                assert(old_state.escrows.contains_key(p));
            }
        }
        Ok(())
    }

    /// Replaces a project's validators (admin).
    pub fn update_validators(&mut self, project_id: u64, new_validators: Vec<Address>) -> (result: Result<
        (),
        Error,
    >)
        requires
            old(self).wf(),
        ensures
            final(self).wf(),
            (final(self)@, result) == old(self)@.spec_update_validators(project_id, new_validators@),
    {
        if self.admin.is_none() {
            return Err(Error::NotInit);
        }
        if new_validators.len() < MIN_VALIDATORS as usize {
            return Err(Error::InvInput);
        }
        if !self.escrows.contains_key(&project_id) {
            return Err(Error::NotFound);
        }
        let ghost old_state = self@;
        let ghost nv = new_validators@;
        let mut e = self.escrows.remove(&project_id).unwrap();
        e.validators = new_validators;
        self.escrows.insert(project_id, e);
        self.events.push(EscrowEvent::ValidatorsUpdated { project_id });
        proof {
            let expected = old_state.spec_update_validators(project_id, nv).0;
            assert(self@.escrows =~= expected.escrows);
            assert(self@ =~= expected);
            assert forall|p: u64| #[trigger] self@.escrows.contains_key(p) implies escrow_ok(
                p,
                self@.escrows[p],
                self@.milestones[p],
            ) by {
                assert(old_state.escrows.contains_key(p));
            }
        }
        Ok(())
    }
}

} // verus!
