use vstd::prelude::*;
use crate::constants::{
    APPEAL_FEE, APPEAL_JURY_SIZE, MAX_APPEALS, MIN_JUROR_STAKE, RESUME_TIME_DELAY, UPGRADE_TIME_LOCK_SECS, VOTING_COMMIT_PERIOD, VOTING_REVEAL_PERIOD,
};
use crate::errors::Error;
use crate::escrow::{escrow_ok, milestone_total, required_approvals_for, spec_release, EmergencyWithdrawStatus, EscrowState};
use crate::escrow_resolution::{clamp_bps, release_for};
use crate::escrow_admin::{spec_required_emergency_approvals, trunc_div};
use crate::escrow_dispute::{eligible_juror, jury_draw, lemma_jury_draw};
use crate::escrow_tally::{
    commitment_of, is_majority, res_index, reward_map, settle_events, settle_fold, settle_one, slash_penalty, spec_reward,
    tally_fold, tally_init,
    tally_resolution, TallyAcc,
};
use crate::maps::pair_key;
use crate::yield_router::spec_sat_sub;
use crate::types::{
    Address, Amount, Dispute, DisputeResolution, DisputeStatus, Effect, EscrowEvent, Hash32, JurorInfo,
    MilestoneStatus, Timestamp, VoteCommitment,
};

verus! {

/// Money held for a project is never overdrawn: releases stay within the
/// deposits, and the milestones never promise more than was deposited.
/// (Every operation keeps `wf`, so this holds in every reachable state.)
pub proof fn law_escrow_funds_bounded(s: EscrowState, p: u64)
    requires
        s.wf(),
        s.escrows.contains_key(p),
    ensures
        0 <= s.escrows[p].released_amount <= s.escrows[p].total_deposited,
        milestone_total(s.milestones[p]) <= s.escrows[p].total_deposited,
{
}

/// A vote releases a milestone's funds exactly when the approvals reach the
/// escrow's threshold (`approval_threshold` basis points of its validators,
/// rounded down): the milestone is approved and its amount is paid to the
/// creator. Below the threshold nothing is released. Either way the voter
/// is recorded.
pub proof fn law_vote_releases_at_threshold(s: EscrowState, p: u64, m: u64, voter: Address, approve: bool)
    requires
        s.wf(),
        s.spec_vote_milestone(p, m, voter, approve).1 is Ok,
    ensures
        ({
            let t = s.spec_vote_milestone(p, m, voter, approve).0;
            let e = s.escrows[p];
            let req = required_approvals_for(e.validators.len() as int, e.approval_threshold as int);
            let approvals = s.milestone(p, m).approval_count + (if approve { 1int } else { 0int });
            &&& approvals >= req ==> {
                &&& t.milestone(p, m).status == MilestoneStatus::Approved
                &&& t.escrows[p].released_amount == e.released_amount + s.milestone(p, m).amount
                &&& t.effects == s.effects.push(
                    Effect::Transfer {
                        token: e.token,
                        from: s.contract_address,
                        to: e.creator,
                        amount: s.milestone(p, m).amount,
                    },
                )
            }
            &&& approvals < req ==> {
                &&& t.milestone(p, m).status != MilestoneStatus::Approved
                &&& t.escrows[p].released_amount == e.released_amount
                &&& t.effects == s.effects
            }
            &&& t.voters_of(p, m) == s.voters_of(p, m).push(voter)
        }),
{
}

/// A validator votes at most once on a submission: after its vote counted,
/// a second vote by it is refused and changes nothing.
pub proof fn law_one_vote_per_validator(s: EscrowState, p: u64, m: u64, voter: Address, first: bool, second: bool)
    requires
        s.wf(),
        s.spec_vote_milestone(p, m, voter, first).1 is Ok,
    ensures
        ({
            let t = s.spec_vote_milestone(p, m, voter, first).0;
            &&& t.spec_vote_milestone(p, m, voter, second).1 is Err
            &&& t.spec_vote_milestone(p, m, voter, second).0 == t
        }),
{
    let t = s.spec_vote_milestone(p, m, voter, first).0;
    assert(t.escrows[p].validators == s.escrows[p].validators);
    if t.milestone(p, m).status == MilestoneStatus::Submitted {
        assert(t.voters_of(p, m).contains(voter)) by {
            assert(t.voters_of(p, m)[t.voters_of(p, m).len() - 1] == voter);
        }
    }
}

/// While the contract is paused no money moves into or out of an escrow
/// and no milestone advances: deposits, new milestones, submissions, votes
/// and yield claims are refused and change nothing.
pub proof fn law_pause_blocks_fund_operations(
    s: EscrowState,
    p: u64,
    m: u64,
    amount: Amount,
    description_hash: Hash32,
    proof_hash: Hash32,
    now: Timestamp,
    voter: Address,
    approve: bool,
    profit_dist: Address,
    balance: Amount,
)
    requires
        s.is_paused(),
    ensures
        s.spec_deposit(p, amount).1 is Err && s.spec_deposit(p, amount).0 == s,
        s.spec_create_milestone(p, description_hash, amount, now).1 is Err && s.spec_create_milestone(
            p,
            description_hash,
            amount,
            now,
        ).0 == s,
        s.spec_submit_milestone(p, m, proof_hash).1 is Err && s.spec_submit_milestone(p, m, proof_hash).0 == s,
        s.spec_vote_milestone(p, m, voter, approve).1 is Err && s.spec_vote_milestone(p, m, voter, approve).0 == s,
        s.spec_claim_yield(p, profit_dist, balance).1 is Err && s.spec_claim_yield(p, profit_dist, balance).0 == s,
{
}

/// After the admin pauses at `paused_at`, resuming is refused until the
/// resume delay has passed and succeeds from then on.
pub proof fn law_resume_waits_for_delay(s: EscrowState, admin: Address, paused_at: Timestamp, later: Timestamp)
    requires
        s.admin == Some(admin),
        paused_at + RESUME_TIME_DELAY <= u64::MAX,
    ensures
        ({
            let t = s.spec_pause(admin, paused_at).0;
            &&& t.is_paused()
            &&& later < paused_at + RESUME_TIME_DELAY ==> t.spec_resume(admin, later) == (t, Err::<(), Error>(
                Error::ResTooEarly,
            ))
            &&& later >= paused_at + RESUME_TIME_DELAY ==> t.spec_resume(admin, later).1 is Ok
                && !t.spec_resume(admin, later).0.is_paused()
        }),
{
}

/// A scheduled upgrade runs only while the contract is paused and once its
/// 48-hour time-lock has passed; running it hands the new code hash to the
/// host and clears the schedule.
pub proof fn law_upgrade_needs_pause_and_time_lock(
    s: EscrowState,
    admin: Address,
    wasm_hash: Hash32,
    scheduled_at: Timestamp,
    now: Timestamp,
)
    requires
        s.admin == Some(admin),
        scheduled_at + UPGRADE_TIME_LOCK_SECS <= u64::MAX,
    ensures
        ({
            let t = s.spec_schedule_upgrade(admin, wasm_hash, scheduled_at).0;
            let (u, r) = t.spec_execute_upgrade(admin, now);
            &&& r is Ok <==> (t.is_paused() && now >= scheduled_at + UPGRADE_TIME_LOCK_SECS)
            &&& r is Ok ==> u.effects == t.effects.push(Effect::UpdateWasm { wasm_hash }) && u.pending_upgrade is None
        }),
{
}

/// Only the admin may pause, resume, manage upgrades, configure yield
/// routing or execute an emergency rescue; anyone else is refused and
/// changes nothing.
pub proof fn law_admin_only(
    s: EscrowState,
    caller: Address,
    now: Timestamp,
    wasm_hash: Hash32,
    pool: Address,
    token: Address,
    reserve_bps: u32,
    p: u64,
    balance: Amount,
)
    requires
        s.admin != Some(caller),
    ensures
        s.spec_pause(caller, now).1 is Err && s.spec_pause(caller, now).0 == s,
        s.spec_resume(caller, now).1 is Err && s.spec_resume(caller, now).0 == s,
        s.spec_schedule_upgrade(caller, wasm_hash, now).1 is Err && s.spec_schedule_upgrade(caller, wasm_hash, now).0
            == s,
        s.spec_execute_upgrade(caller, now).1 is Err && s.spec_execute_upgrade(caller, now).0 == s,
        s.spec_cancel_upgrade(caller).1 is Err && s.spec_cancel_upgrade(caller).0 == s,
        s.spec_configure_yield_router(caller, pool, token, reserve_bps).1 is Err && s.spec_configure_yield_router(
            caller,
            pool,
            token,
            reserve_bps,
        ).0 == s,
        s.spec_admin_emergency_withdraw(p, caller, now, balance).1 is Err && s.spec_admin_emergency_withdraw(
            p,
            caller,
            now,
            balance,
        ).0 == s,
        s.spec_enable_yield_for_escrow(p, caller).1 is Err && s.spec_enable_yield_for_escrow(p, caller).0 == s,
        s.spec_disable_yield_for_escrow(p, caller, balance).1 is Err && s.spec_disable_yield_for_escrow(
            p,
            caller,
            balance,
        ).0 == s,
{
}

/// An emergency rescue happens only while paused and with enough validator
/// co-signatures; it recovers the whole pool balance, and happens once.
pub proof fn law_emergency_rescue_needs_cosigners(
    s: EscrowState,
    p: u64,
    admin: Address,
    now: Timestamp,
    balance: Amount,
    later: Timestamp,
    balance2: Amount,
)
    requires
        s.spec_admin_emergency_withdraw(p, admin, now, balance).1 is Ok,
    ensures
        ({
            let (t, r) = s.spec_admin_emergency_withdraw(p, admin, now, balance);
            &&& s.is_paused()
            &&& s.emergency_of(p).approvals.len() >= spec_required_emergency_approvals(
                s.escrows[p].validators.len() as int,
                s.escrows[p].approval_threshold as int,
            )
            &&& r == Ok::<Amount, Error>(balance)
            &&& t.emergency_of(p).status == EmergencyWithdrawStatus::Executed
            &&& t.spec_admin_emergency_withdraw(p, admin, later, balance2).1 is Err
        }),
{
}

/// A drawn jury has the size its round calls for, no juror twice, only
/// registered jurors, and neither the creator, the initiator nor (after an
/// appeal) an earlier juror; voting opens at once.
pub proof fn law_jury_is_eligible(s: EscrowState, d: u64, now: Timestamp, draws: Seq<u64>)
    requires
        s.wf(),
        s.spec_select_jury(d, now, draws).1 is Ok,
    ensures
        ({
            let t = s.spec_select_jury(d, now, draws).0;
            let dispute = s.disputes[d];
            let jury = t.assignments[d];
            &&& jury.len() == EscrowState::jury_size(dispute)
            &&& jury.no_duplicates()
            &&& forall|j: Address| #[trigger]
                jury.contains(j) ==> s.jurors.contains_key(j) && j != s.escrows[dispute.project_id].creator && j
                    != dispute.initiator && !s.earlier_jurors(d, dispute).contains(j)
            &&& t.disputes[d].status == DisputeStatus::Voting
        }),
{
    let dispute = s.disputes[d];
    lemma_jury_draw(
        s.active_jurors,
        draws,
        EscrowState::jury_size(dispute),
        s.escrows[dispute.project_id].creator,
        dispute.initiator,
        s.earlier_jurors(d, dispute),
        Seq::empty(),
    );
}

/// A revealed vote is bound to its commitment: a reveal is accepted only in
/// the reveal phase, for a vote other than "no resolution", with a preimage
/// whose digest is the committed hash, and only once.
pub proof fn law_reveal_matches_commitment(
    s: EscrowState,
    d: u64,
    juror: Address,
    vote: DisputeResolution,
    payload: u32,
    digest: Seq<u8>,
    now: Timestamp,
)
    requires
        s.spec_reveal_vote(d, juror, vote, payload, digest, now).1 is Ok,
    ensures
        ({
            let t = s.spec_reveal_vote(d, juror, vote, payload, digest, now).0;
            let created = s.disputes[d].created_at;
            &&& s.votes.contains_key(pair_key(d, juror))
            &&& s.votes[pair_key(d, juror)].hash@ == digest
            &&& !s.votes[pair_key(d, juror)].revealed
            &&& vote != DisputeResolution::NoRes
            &&& created + VOTING_COMMIT_PERIOD < now <= created + VOTING_COMMIT_PERIOD + VOTING_REVEAL_PERIOD
            &&& t.spec_reveal_vote(d, juror, vote, payload, digest, now).1 == Err::<(), Error>(Error::AlreadyVoted)
        }),
{
}

/// The count over a jury that voted unanimously for `r`.
proof fn lemma_unanimous_fold(votes: Map<u128, VoteCommitment>, d: u64, js: Seq<Address>, r: DisputeResolution)
    requires
        forall|j: Address| #[trigger] js.contains(j) ==> is_majority(votes, d, j, r),
    ensures
        ({
            let acc = tally_fold(votes, d, js);
            &&& acc.counts.len() == 4
            &&& acc.counts[res_index(r)] == js.len()
            &&& forall|k: int| 0 <= k < 4 && k != res_index(r) ==> acc.counts[k] == 0
            &&& acc.max_votes == js.len()
            &&& js.len() > 0 ==> acc.winning == r
        }),
    decreases js.len(),
{
    if js.len() > 0 {
        let pre = js.drop_last();
        assert forall|j: Address| #[trigger] pre.contains(j) implies is_majority(votes, d, j, r) by {
            let k = choose|k: int| 0 <= k < pre.len() && pre[k] == j;
            assert(js[k] == j);
            assert(js.contains(j));
        }
        lemma_unanimous_fold(votes, d, pre, r);
        assert(js.contains(js.last())) by {
            assert(js[js.len() - 1] == js.last());
        }
        assert(is_majority(votes, d, js.last(), r));
    } else {
        assert(tally_fold(votes, d, js) == tally_init());
    }
}

/// A jury that voted unanimously decides its vote.
pub proof fn law_unanimous_jury_decides(
    votes: Map<u128, VoteCommitment>,
    d: u64,
    js: Seq<Address>,
    r: DisputeResolution,
)
    requires
        js.len() > 0,
        r != DisputeResolution::NoRes,
        forall|j: Address| #[trigger] js.contains(j) ==> is_majority(votes, d, j, r),
    ensures
        tally_resolution(tally_fold(votes, d, js)) == r,
{
    lemma_unanimous_fold(votes, d, js, r);
}

/// When no juror revealed a vote, the backers are refunded.
pub proof fn law_silent_jury_refunds(votes: Map<u128, VoteCommitment>, d: u64, js: Seq<Address>)
    requires
        forall|j: Address| #[trigger] js.contains(j) ==> !(commitment_of(votes, d, j) matches Some(c) && c.revealed),
    ensures
        tally_fold(votes, d, js) == tally_init(),
        tally_resolution(tally_fold(votes, d, js)) == DisputeResolution::RefBackers,
    decreases js.len(),
{
    if js.len() > 0 {
        let pre = js.drop_last();
        assert forall|j: Address| #[trigger] pre.contains(j) implies !(commitment_of(votes, d, j) matches Some(
            c,
        ) && c.revealed) by {
            let k = choose|k: int| 0 <= k < pre.len() && pre[k] == j;
            assert(js[k] == j);
            assert(js.contains(j));
        }
        law_silent_jury_refunds(votes, d, pre);
        assert(js.contains(js.last())) by {
            assert(js[js.len() - 1] == js.last());
        }
    }
}

/// Settling a juror moves its penalty into the pool: stake plus pool is
/// unchanged, no stake goes negative, and a majority juror keeps its stake.
pub proof fn law_settlement_conserves_stake(
    jurors: Map<u64, JurorInfo>,
    pool: int,
    majority: Seq<Address>,
    votes: Map<u128, VoteCommitment>,
    d: u64,
    resolution: DisputeResolution,
    j: Address,
)
    requires
        jurors.contains_key(j),
        jurors[j].staked_amount >= 0,
    ensures
        ({
            let r = settle_one(jurors, pool, majority, votes, d, resolution, j);
            &&& r.0[j].staked_amount + r.1 == jurors[j].staked_amount + pool
            &&& r.0[j].staked_amount >= 0
            &&& r.1 - pool <= slash_penalty()
            &&& is_majority(votes, d, j, resolution) ==> r.0[j].staked_amount == jurors[j].staked_amount && r.1
                == pool
        }),
{
}

/// Rewards share a positive pool equally among the majority; the shares and
/// what stays in the pool add up to the pool.
pub proof fn law_reward_shares_pool(jurors: Map<u64, JurorInfo>, pool: int, majority: Seq<Address>)
    requires
        majority.len() > 0,
        pool > 0,
        forall|j: Address| #[trigger]
            majority.contains(j) && jurors.contains_key(j) ==> jurors[j].staked_amount + pool <= i128::MAX,
    ensures
        ({
            let r = spec_reward(jurors, pool, majority);
            let share = pool / (majority.len() as int);
            &&& r.1 + share * majority.len() == pool
            &&& 0 <= r.1 < majority.len()
            &&& forall|j: Address| #[trigger] majority.contains(j) && jurors.contains_key(j) ==> r.0[j].staked_amount
                == jurors[j].staked_amount + share
        }),
{
    let c = majority.len() as int;
    assert(pool % c + (pool / c) * c == pool && 0 <= pool % c < c) by (nonlinear_arith)
        requires c > 0;
    assert(0 <= pool / c <= pool) by (nonlinear_arith)
        requires c > 0, pool > 0;
}

/// A dispute is appealed at most `MAX_APPEALS` times; each appeal charges
/// the appeal fee into the pool, sends the milestone back to pending, and
/// draws a new jury.
pub proof fn law_appeals_are_bounded(s: EscrowState, d: u64, appellant: Address, now: Timestamp, draws: Seq<u64>)
    requires
        s.fee_pool + APPEAL_FEE <= i128::MAX,
        s.spec_file_appeal(d, appellant, now, draws).1 is Ok,
    ensures
        ({
            let t = s.spec_file_appeal(d, appellant, now, draws).0;
            let p = s.disputes[d].project_id;
            let m = s.disputes[d].milestone_id;
            &&& s.disputes[d].appeal_count < MAX_APPEALS
            &&& t.disputes[d].appeal_count == s.disputes[d].appeal_count + 1
            &&& t.disputes[d].status == DisputeStatus::Voting
            &&& t.fee_pool == s.fee_pool + APPEAL_FEE
            &&& t.milestone(p, m).status == MilestoneStatus::Pending
        }),
{
}

/// Deploying to the pool never touches the liquidity reserve: after a
/// deployment, what the escrow holds outside the pool (deposits less
/// releases less deployed principal) is exactly the reserve, and the
/// routing state of every other project is unchanged.
pub proof fn law_deploy_keeps_liquidity_reserve(s: EscrowState, p: u64, ledger_sequence: u32)
    requires
        s.wf(),
        s.escrows.contains_key(p),
        s.yield_state_of(p).deployed_principal >= 0,
        s.yield_config matches Some(c) && c.liquidity_reserve_bps <= 10000,
        s.spec_deploy_to_pool(s.escrows[p], p, ledger_sequence).1 is Ok,
    ensures
        ({
            let t = s.spec_deploy_to_pool(s.escrows[p], p, ledger_sequence).0;
            let e = s.escrows[p];
            let reserve = trunc_div(e.total_deposited * s.yield_config->0.liquidity_reserve_bps, 10000);
            &&& t.yield_state_of(p).deployed_principal != s.yield_state_of(p).deployed_principal ==> e.total_deposited
                - e.released_amount - t.yield_state_of(p).deployed_principal == reserve
            &&& t.yield_state_of(p).deployed_principal >= s.yield_state_of(p).deployed_principal
            &&& forall|q: u64| q != p ==> #[trigger] t.yield_state_of(q) == s.yield_state_of(q)
            &&& t.escrows == s.escrows
        }),
{
    let e = s.escrows[p];
    let bps = s.yield_config->0.liquidity_reserve_bps;
    assert(crate::escrow::escrow_ok(p, e, s.milestones[p]));
    assert(0 <= e.total_deposited * bps <= e.total_deposited * 10000) by (nonlinear_arith)
        requires e.total_deposited >= 0, 0 <= bps <= 10000;
    assert(0 <= (e.total_deposited * bps) / 10000 <= e.total_deposited) by (nonlinear_arith)
        requires 0 <= e.total_deposited * bps <= e.total_deposited * 10000;
}

/// What is pulled back from the pool, less the principal (negative after
/// a loss), is returned, added to the harvested total and credited to the
/// escrow's deposits, and the principal counts as withdrawn. A loss is never
/// refused: it is credited down to what was released and what the
/// milestones commit, so neither ever exceeds the deposits.
pub proof fn law_pool_yield_credited(s: EscrowState, p: u64, pool_balance: Amount)
    requires
        s.wf(),
        s.escrows.contains_key(p),
        s.yield_config is Some,
        s.yield_state_of(p).deployed_principal != 0,
    ensures
        ({
            let (t, r) = s.spec_withdraw_from_pool(p, pool_balance);
            let earned = spec_sat_sub(pool_balance as int, s.yield_state_of(p).deployed_principal as int);
            let e = s.escrows[p];
            &&& r is Ok ==> {
                &&& r == Ok::<Amount, Error>(earned as Amount)
                &&& earned >= s.deposit_floor(p) - e.total_deposited ==> t.escrows[p].total_deposited
                    == e.total_deposited + earned
                &&& earned < s.deposit_floor(p) - e.total_deposited ==> t.escrows[p].total_deposited
                    == s.deposit_floor(p)
                &&& t.escrows[p].released_amount <= t.escrows[p].total_deposited
                &&& milestone_total(t.milestones[p]) <= t.escrows[p].total_deposited
                &&& t.escrows[p].released_amount == e.released_amount
                &&& t.yield_state_of(p).deployed_principal == 0
                &&& t.yield_state_of(p).total_yield_harvested == s.yield_state_of(p).total_yield_harvested
                    + earned
            }
            &&& earned <= 0 && i128::MIN <= s.yield_state_of(p).total_yield_harvested + earned ==> r is Ok
        }),
{
    assert(escrow_ok(p, s.escrows[p], s.milestones[p]));
}

/// Every escrow of `s` is still there in `t`, with at least as much released.
pub open spec fn released_kept(s: EscrowState, t: EscrowState) -> bool {
    forall|p: u64| #[trigger]
        s.escrows.contains_key(p) ==> t.escrows.contains_key(p) && t.escrows[p].released_amount
            >= s.escrows[p].released_amount
}

/// Enforcing a resolution only ever adds to what an escrow released.
proof fn lemma_enforce_keeps_released(s: EscrowState, dispute: Dispute, resolution: DisputeResolution)
    requires
        forall|q: u64| #[trigger] s.escrows.contains_key(q) ==> escrow_ok(q, s.escrows[q], s.milestones[q]),
    ensures
        released_kept(s, s.spec_enforce(dispute, resolution).0),
{
    let p = dispute.project_id;
    assert forall|q: u64| #[trigger] s.escrows.contains_key(q) implies s.spec_enforce(
        dispute,
        resolution,
    ).0.escrows.contains_key(q) && s.spec_enforce(dispute, resolution).0.escrows[q].released_amount
        >= s.escrows[q].released_amount by {
        if q == p && s.escrows.contains_key(p) && s.has_milestone(p, dispute.milestone_id) {
            let ms = s.milestone(p, dispute.milestone_id);
            assert(escrow_ok(p, s.escrows[p], s.milestones[p]));
            assert(ms.amount > 0);
            let release = release_for(resolution, ms.amount as int, dispute.resolution_payload);
            let c = clamp_bps(dispute.resolution_payload);
            assert(0 <= (ms.amount * c) / 10000 <= ms.amount) by (nonlinear_arith)
                requires ms.amount > 0, 0 <= c <= 10000;
            assert(0 <= release <= ms.amount);
            if release > 0 {
                let e = s.escrows[p];
                if let Ok(nr) = spec_release(e, release as Amount) {
                    assert(nr >= e.released_amount);
                }
            }
        }
    }
}

/// What an escrow has released never decreases and no escrow disappears,
/// whatever operation runs (refused calls change nothing at all).
pub proof fn law_released_never_decreases(
    s: EscrowState,
    p: u64,
    m: u64,
    d: u64,
    a: Address,
    b: Address,
    amount: Amount,
    approve: bool,
    validators: Seq<Address>,
    threshold: u32,
    fee_bps: u32,
    now: Timestamp,
    draws: Seq<u64>,
)
    requires
        s.wf(),
    ensures
        released_kept(s, s.spec_initialize(p, a, b, validators, threshold, fee_bps).0),
        released_kept(s, s.spec_deposit(p, amount).0),
        released_kept(s, s.spec_vote_milestone(p, m, a, approve).0),
        released_kept(s, s.spec_update_validators(p, validators).0),
        released_kept(s, s.spec_withdraw_from_pool(p, amount).0),
        released_kept(s, s.spec_disable_yield_for_escrow(p, a, amount).0),
        released_kept(s, s.spec_tally_votes(d, now).0),
        released_kept(s, s.spec_execute_resolution(d, now).0),
        released_kept(s, s.spec_file_appeal(d, a, now, draws).0),
        released_kept(s, s.spec_claim_yield(p, a, amount).0),
{
    if s.escrows.contains_key(p) && s.has_milestone(p, m) {
        assert(escrow_ok(p, s.escrows[p], s.milestones[p]));
        assert(s.milestone(p, m).amount > 0);
    }
    if s.disputes.contains_key(d) {
        let fin = Dispute { status: DisputeStatus::FinalResolved, ..s.disputes[d] };
        let s1 = EscrowState { disputes: s.disputes.insert(d, fin), ..s };
        lemma_enforce_keeps_released(s1, fin, fin.resolution);
        if s.assignments.contains_key(d) {
            let resolved = s.resolved_dispute(d, now);
            let resolution = resolved.resolution;
            let js = s.assignments[d];
            let settled = settle_fold(s.jurors, s.fee_pool as int, s.votes, d, resolution, js);
            let rewarded = spec_reward(settled.0, settled.1, settled.2);
            let t1 = EscrowState {
                jurors: rewarded.0,
                fee_pool: rewarded.1 as i128,
                disputes: s.disputes.insert(d, resolved),
                events: (s.events + settle_events(s.jurors, s.fee_pool as int, s.votes, d, resolution, js)).push(
                    EscrowEvent::DisputeResolved { dispute_id: d, resolution },
                ),
                ..s
            };
            let fin2 = Dispute { status: DisputeStatus::FinalResolved, ..resolved };
            let t2 = EscrowState { disputes: t1.disputes.insert(d, fin2), ..t1 };
            lemma_enforce_keeps_released(t2, fin2, resolution);
        }
    }
}

/// Emergency co-signatures name each validator at most once: approving
/// keeps the list free of repeats and counts one more co-signer, executing
/// the rescue keeps the list, and enabling yield routing starts it afresh.
pub proof fn law_emergency_approvals_distinct(
    s: EscrowState,
    p: u64,
    validator: Address,
    admin: Address,
    now: Timestamp,
    pool_balance: Amount,
)
    requires
        s.emergency_of(p).approvals.no_duplicates(),
        s.emergency_of(p).approvals.len() < u32::MAX,
    ensures
        s.spec_approve_emergency_withdraw(p, validator).0.emergency_of(p).approvals.no_duplicates(),
        s.spec_approve_emergency_withdraw(p, validator).1 matches Ok(n) ==> n == s.emergency_of(p).approvals.len() + 1
            && s.spec_approve_emergency_withdraw(p, validator).0.emergency_of(p).approvals.contains(validator),
        s.spec_admin_emergency_withdraw(p, admin, now, pool_balance).0.emergency_of(p).approvals
            == s.emergency_of(p).approvals,
        s.spec_enable_yield_for_escrow(p, admin).1 is Ok ==> s.spec_enable_yield_for_escrow(p, admin).0.emergency_of(
            p,
        ).approvals.len() == 0,
{
    let a = s.emergency_of(p).approvals;
    if s.spec_approve_emergency_withdraw(p, validator).1 is Ok {
        let b = a.push(validator);
        assert(!a.contains(validator));
        assert forall|i: int, k: int| 0 <= i < b.len() && 0 <= k < b.len() && i != k implies b[i] != b[k] by {
            if i == a.len() {
                assert(a.contains(b[k]));
            } else if k == a.len() {
                assert(a.contains(b[i]));
            }
        }
        assert(b[a.len() as int] == validator);
    }
}

/// How many jurors of `js` revealed a vote for `r`.
pub open spec fn vote_count(votes: Map<u128, VoteCommitment>, d: u64, js: Seq<Address>, r: DisputeResolution) -> int
    decreases js.len(),
{
    if js.len() == 0 {
        0
    } else {
        vote_count(votes, d, js.drop_last(), r) + if is_majority(votes, d, js.last(), r) {
            1int
        } else {
            0int
        }
    }
}

/// What a count over a jury holds: the counters are the jurors' revealed
/// votes, the leader holds the largest counter, and its payload is one a
/// juror revealed with the leading vote.
proof fn lemma_tally_fold_counts(votes: Map<u128, VoteCommitment>, d: u64, js: Seq<Address>)
    ensures
        ({
            let acc = tally_fold(votes, d, js);
            &&& acc.counts.len() == 4
            &&& forall|r: DisputeResolution| #[trigger] vote_count(votes, d, js, r) == acc.counts[res_index(r)]
            &&& forall|k: int| 0 <= k < 4 ==> 0 <= #[trigger] acc.counts[k] <= acc.max_votes
            &&& acc.max_votes == 0 ==> acc.winning == DisputeResolution::NoRes && acc.payload == 0
            &&& acc.max_votes > 0 ==> acc.counts[res_index(acc.winning)] == acc.max_votes && exists|i: int|
                0 <= i < js.len() && #[trigger] is_majority(votes, d, js[i], acc.winning) && votes[pair_key(
                    d,
                    js[i],
                )].vote_payload == acc.payload
        }),
    decreases js.len(),
{
    if js.len() > 0 {
        let pre = js.drop_last();
        lemma_tally_fold_counts(votes, d, pre);
        let a0 = tally_fold(votes, d, pre);
        let acc = tally_fold(votes, d, js);
        let j = js.last();
        assert forall|r: DisputeResolution| #[trigger] vote_count(votes, d, js, r) == acc.counts[res_index(r)] by {
            assert(vote_count(votes, d, pre, r) == a0.counts[res_index(r)]);
        }
        if a0.max_votes > 0 && acc.winning == a0.winning && acc.payload == a0.payload {
            let i = choose|i: int|
                0 <= i < pre.len() && #[trigger] is_majority(votes, d, pre[i], a0.winning) && votes[pair_key(
                    d,
                    pre[i],
                )].vote_payload == a0.payload;
            assert(js[i] == pre[i]);
            assert(is_majority(votes, d, js[i], acc.winning));
        }
        if acc.max_votes > a0.max_votes {
            let n = js.len() - 1;
            assert(js[n] == j);
            assert(is_majority(votes, d, js[n], acc.winning));
        }
    }
}

/// A tally decides for a resolution with the most revealed votes: no
/// resolution has more votes than the leader, the payload enforced is one
/// a juror revealed with it, and with no revealed vote the backers are
/// refunded with no payload. (A reveal never records a vote for no
/// resolution, and then the leader is the decided resolution itself.)
pub proof fn law_tally_picks_most_voted(votes: Map<u128, VoteCommitment>, d: u64, js: Seq<Address>)
    ensures
        ({
            let acc = tally_fold(votes, d, js);
            let res = tally_resolution(acc);
            &&& forall|r: DisputeResolution| #[trigger] vote_count(votes, d, js, r) <= acc.max_votes
            &&& acc.max_votes == 0 ==> res == DisputeResolution::RefBackers && acc.payload == 0
            &&& acc.winning != DisputeResolution::NoRes ==> res == acc.winning && vote_count(votes, d, js, res)
                == acc.max_votes && acc.max_votes > 0 && exists|i: int|
                0 <= i < js.len() && #[trigger] is_majority(votes, d, js[i], res) && votes[pair_key(
                    d,
                    js[i],
                )].vote_payload == acc.payload
            &&& vote_count(votes, d, js, DisputeResolution::NoRes) == 0 ==> (acc.max_votes > 0 ==> acc.winning
                != DisputeResolution::NoRes)
        }),
{
    lemma_tally_fold_counts(votes, d, js);
    let acc = tally_fold(votes, d, js);
    assert forall|r: DisputeResolution| #[trigger] vote_count(votes, d, js, r) <= acc.max_votes by {
        assert(0 <= res_index(r) < 4);
    }
    assert(vote_count(votes, d, js, acc.winning) == acc.counts[res_index(acc.winning)]);
}

/// Total stake of the registered jurors among `js`.
pub open spec fn jury_stake(jurors: Map<u64, JurorInfo>, js: Seq<Address>) -> int
    decreases js.len(),
{
    if js.len() == 0 {
        0
    } else {
        jury_stake(jurors, js.drop_last()) + if jurors.contains_key(js.last()) {
            jurors[js.last()].staked_amount as int
        } else {
            0int
        }
    }
}

/// How many of `js` are registered members of `m`.
spec fn members_in(jurors: Map<u64, JurorInfo>, m: Seq<Address>, js: Seq<Address>) -> int
    decreases js.len(),
{
    if js.len() == 0 {
        0
    } else {
        members_in(jurors, m, js.drop_last()) + if m.contains(js.last()) && jurors.contains_key(js.last()) {
            1int
        } else {
            0int
        }
    }
}

/// A change to a juror outside `js` leaves the total stake of `js` alone.
proof fn lemma_jury_stake_frame(jurors: Map<u64, JurorInfo>, js: Seq<Address>, x: Address, v: JurorInfo)
    requires
        !js.contains(x),
    ensures
        jury_stake(jurors.insert(x, v), js) == jury_stake(jurors, js),
    decreases js.len(),
{
    if js.len() > 0 {
        let pre = js.drop_last();
        assert(!pre.contains(x)) by {
            if pre.contains(x) {
                let k = choose|k: int| 0 <= k < pre.len() && pre[k] == x;
                assert(js[k] == x);
            }
        }
        assert(js[js.len() - 1] == js.last());
        lemma_jury_stake_frame(jurors, pre, x, v);
    }
}

/// Settling a jury moves stake into the pool and nowhere else, and the
/// majority is exactly the jurors who revealed the resolution, in order.
proof fn lemma_settle_conserves(
    jurors: Map<u64, JurorInfo>,
    pool: int,
    votes: Map<u128, VoteCommitment>,
    d: u64,
    resolution: DisputeResolution,
    js: Seq<Address>,
)
    requires
        js.no_duplicates(),
        forall|x: Address| #[trigger] js.contains(x) ==> jurors.contains_key(x) && jurors[x].staked_amount >= 0,
    ensures
        ({
            let r = settle_fold(jurors, pool, votes, d, resolution, js);
            &&& jury_stake(r.0, js) + r.1 == jury_stake(jurors, js) + pool
            &&& r.2.len() == vote_count(votes, d, js, resolution)
            &&& forall|x: Address| #[trigger] r.2.contains(x) <==> js.contains(x) && is_majority(
                votes,
                d,
                x,
                resolution,
            )
        }),
    decreases js.len(),
{
    crate::escrow_tally::lemma_settle_fold(jurors, pool, votes, d, resolution, js);
    if js.len() > 0 {
        let pre = js.drop_last();
        let x = js.last();
        assert(js[js.len() - 1] == x);
        assert forall|a: int, b: int| 0 <= a < pre.len() && 0 <= b < pre.len() && a != b implies pre[a]
            != pre[b] by {
            assert(pre[a] == js[a]);
            assert(pre[b] == js[b]);
        }
        assert forall|y: Address| #[trigger] pre.contains(y) implies jurors.contains_key(y)
            && jurors[y].staked_amount >= 0 by {
            let k = choose|k: int| 0 <= k < pre.len() && pre[k] == y;
            assert(js[k] == y);
            assert(js.contains(y));
        }
        lemma_settle_conserves(jurors, pool, votes, d, resolution, pre);
        crate::escrow_tally::lemma_settle_fold(jurors, pool, votes, d, resolution, pre);
        assert(!pre.contains(x)) by {
            if pre.contains(x) {
                let k = choose|k: int| 0 <= k < pre.len() && pre[k] == x;
                assert(js[k] == js[js.len() - 1]);
            }
        }
        assert(js.contains(x));
        let r0 = settle_fold(jurors, pool, votes, d, resolution, pre);
        let r = settle_fold(jurors, pool, votes, d, resolution, js);
        assert(r0.0[x] == jurors[x]);
        lemma_jury_stake_frame(r0.0, pre, x, r.0[x]);
        assert(r.0 == r0.0.insert(x, r.0[x]));
        assert forall|y: Address| #[trigger] r.2.contains(y) <==> js.contains(y) && is_majority(
            votes,
            d,
            y,
            resolution,
        ) by {
            if js.contains(y) && y != x {
                let k = choose|k: int| 0 <= k < js.len() && js[k] == y;
                assert(pre[k] == y);
            }
            if pre.contains(y) {
                let k = choose|k: int| 0 <= k < pre.len() && pre[k] == y;
                assert(js[k] == y);
            }
            if is_majority(votes, d, x, resolution) {
                assert(r.2 == r0.2.push(x));
                if r.2.contains(y) && y != x {
                    let k = choose|k: int| 0 <= k < r.2.len() && r.2[k] == y;
                    assert(r0.2[k] == y);
                }
                if r0.2.contains(y) {
                    let k = choose|k: int| 0 <= k < r0.2.len() && r0.2[k] == y;
                    assert(r.2[k] == y);
                }
                assert(r.2[r0.2.len() as int] == x);
            }
        }
    }
}

/// Rewarding `m` with `share` adds one share per registered member of
/// `m` among `js` to their total stake.
proof fn lemma_reward_stake(jurors: Map<u64, JurorInfo>, m: Seq<Address>, share: int, js: Seq<Address>)
    requires
        forall|x: Address| #[trigger] m.contains(x) && jurors.contains_key(x) ==> i128::MIN <= jurors[x].staked_amount
            + share <= i128::MAX,
    ensures
        jury_stake(reward_map(jurors, m, share), js) == jury_stake(jurors, js) + share * members_in(jurors, m, js),
    decreases js.len(),
{
    if js.len() > 0 {
        let pre = js.drop_last();
        lemma_reward_stake(jurors, m, share, pre);
        let x = js.last();
        let k = members_in(jurors, m, pre);
        assert(share * (k + 1) == share * k + share) by (nonlinear_arith);
    }
}

/// When membership in `m` among `js` is exactly having revealed the
/// resolution, the registered members are counted by the vote count.
proof fn lemma_members_are_votes(
    jurors: Map<u64, JurorInfo>,
    m: Seq<Address>,
    votes: Map<u128, VoteCommitment>,
    d: u64,
    resolution: DisputeResolution,
    js: Seq<Address>,
)
    requires
        forall|x: Address| #[trigger] js.contains(x) ==> jurors.contains_key(x) && (m.contains(x) <==> is_majority(
            votes,
            d,
            x,
            resolution,
        )),
    ensures
        members_in(jurors, m, js) == vote_count(votes, d, js, resolution),
    decreases js.len(),
{
    if js.len() > 0 {
        let pre = js.drop_last();
        assert forall|x: Address| #[trigger] pre.contains(x) implies jurors.contains_key(x) && (m.contains(x)
            <==> is_majority(votes, d, x, resolution)) by {
            let k = choose|k: int| 0 <= k < pre.len() && pre[k] == x;
            assert(js[k] == x);
            assert(js.contains(x));
        }
        lemma_members_are_votes(jurors, m, votes, d, resolution, pre);
        assert(js[js.len() - 1] == js.last());
        assert(js.contains(js.last()));
    }
}

/// A tally moves stake between the jury and the dispute pool only: the
/// jury's total stake plus the pool is the same before and after, and no
/// juror outside the jury is touched.
pub proof fn law_tally_conserves_stake(s: EscrowState, d: u64, now: u64)
    requires
        s.wf(),
        s.tally_in_bounds(d),
        s.spec_tally_votes(d, now).1 is Ok,
    ensures
        ({
            let t = s.spec_tally_votes(d, now).0;
            let js = s.assignments[d];
            &&& jury_stake(t.jurors, js) + t.fee_pool == jury_stake(s.jurors, js) + s.fee_pool
            &&& forall|x: u64| #[trigger] t.jurors.contains_key(x) <==> s.jurors.contains_key(x)
            &&& forall|x: u64| #[trigger] s.jurors.contains_key(x) && !js.contains(x) ==> t.jurors[x] == s.jurors[x]
        }),
{
    let js = s.assignments[d];
    assert(s.assignments_wf());
    assert(js.no_duplicates() && js.len() <= APPEAL_JURY_SIZE);
    assert forall|x: Address| #[trigger] js.contains(x) implies s.jurors.contains_key(x)
        && s.jurors[x].staked_amount >= 0 by {
        assert(s.juror_wf());
    }
    let resolved = s.resolved_dispute(d, now);
    let resolution = resolved.resolution;
    let pool = s.fee_pool as int;
    let settled = settle_fold(s.jurors, pool, s.votes, d, resolution, js);
    lemma_settle_conserves(s.jurors, pool, s.votes, d, resolution, js);
    crate::escrow_tally::lemma_settle_fold(s.jurors, pool, s.votes, d, resolution, js);
    let mj = settled.2;
    let c = mj.len() as int;
    let p1 = settled.1;
    if c > 0 && p1 > 0 {
        let share = p1 / c;
        assert(0 <= share <= p1 && share * c + p1 % c == p1 && 0 <= p1 % c) by (nonlinear_arith)
            requires c > 0, p1 > 0, share == p1 / c;
        assert forall|x: Address| #[trigger] mj.contains(x) && settled.0.contains_key(x) implies i128::MIN
            <= settled.0[x].staked_amount + share <= i128::MAX by {
            assert(js.contains(x));
            assert(s.jurors.contains_key(x) && s.assignments[d].contains(x));
        }
        lemma_reward_stake(settled.0, mj, share, js);
        assert forall|x: Address| #[trigger] js.contains(x) implies settled.0.contains_key(x) && (mj.contains(x)
            <==> is_majority(s.votes, d, x, resolution)) by {}
        lemma_members_are_votes(settled.0, mj, s.votes, d, resolution, js);
    }
}

/// How many of `available` may sit on the dispute.
pub open spec fn eligible_count(
    available: Seq<Address>,
    creator: Address,
    initiator: Address,
    existing: Seq<Address>,
) -> int
    decreases available.len(),
{
    if available.len() == 0 {
        0
    } else {
        eligible_count(available.drop_last(), creator, initiator, existing) + if eligible_juror(
            available.last(),
            creator,
            initiator,
            existing,
        ) {
            1int
        } else {
            0int
        }
    }
}

/// Taking one candidate out removes it from the eligible count when it
/// was eligible.
proof fn lemma_eligible_count_remove(
    available: Seq<Address>,
    i: int,
    creator: Address,
    initiator: Address,
    existing: Seq<Address>,
)
    requires
        0 <= i < available.len(),
    ensures
        eligible_count(available.remove(i), creator, initiator, existing) == eligible_count(
            available,
            creator,
            initiator,
            existing,
        ) - if eligible_juror(available[i], creator, initiator, existing) {
            1int
        } else {
            0int
        },
        0 <= eligible_count(available, creator, initiator, existing) <= available.len(),
    decreases available.len(),
{
    let n = available.len();
    if i == n - 1 {
        assert(available.remove(i) =~= available.drop_last());
        lemma_eligible_count_bounds(available.drop_last(), creator, initiator, existing);
    } else {
        let r = available.remove(i);
        assert(r.drop_last() =~= available.drop_last().remove(i));
        assert(r.last() == available.last());
        assert(available.drop_last()[i] == available[i]);
        lemma_eligible_count_remove(available.drop_last(), i, creator, initiator, existing);
    }
}

proof fn lemma_eligible_count_bounds(available: Seq<Address>, creator: Address, initiator: Address, existing: Seq<
    Address,
>)
    ensures
        0 <= eligible_count(available, creator, initiator, existing) <= available.len(),
    decreases available.len(),
{
    if available.len() > 0 {
        lemma_eligible_count_bounds(available.drop_last(), creator, initiator, existing);
    }
}

/// A draw adds at most the eligible candidates to the jury, and with a
/// draw for every candidate it fills the jury as far as they go.
proof fn lemma_jury_draw_count(
    available: Seq<Address>,
    draws: Seq<u64>,
    size: int,
    creator: Address,
    initiator: Address,
    existing: Seq<Address>,
    selected: Seq<Address>,
)
    requires
        selected.len() <= size,
    ensures
        ({
            let r = jury_draw(available, draws, size, creator, initiator, existing, selected);
            let e = eligible_count(available, creator, initiator, existing);
            &&& r.len() <= selected.len() + e
            &&& draws.len() >= available.len() ==> r.len() == if selected.len() + e < size {
                selected.len() + e
            } else {
                size
            }
        }),
    decreases available.len(),
{
    lemma_eligible_count_bounds(available, creator, initiator, existing);
    if selected.len() >= size || available.len() == 0 || draws.len() == 0 {
    } else {
        let idx = (draws[0] as int) % (available.len() as int);
        let j = available[idx];
        let next = if eligible_juror(j, creator, initiator, existing) {
            selected.push(j)
        } else {
            selected
        };
        lemma_eligible_count_remove(available, idx, creator, initiator, existing);
        lemma_jury_draw_count(available.remove(idx), draws.skip(1), size, creator, initiator, existing, next);
    }
}

/// A jury is full exactly when enough candidates may sit: with fewer
/// eligible registered jurors than the jury needs, drawing refuses with a
/// conflict of interest and changes nothing; with enough of them and a
/// draw for every registered juror, the draw succeeds.
pub proof fn law_jury_fills_when_candidates_suffice(s: EscrowState, d: u64, now: Timestamp, draws: Seq<u64>)
    requires
        s.disputes.contains_key(d),
        s.disputes[d].status == DisputeStatus::Pending || s.disputes[d].status == DisputeStatus::Appealed,
        s.active_jurors.len() >= EscrowState::jury_size(s.disputes[d]),
        s.escrows.contains_key(s.disputes[d].project_id),
    ensures
        ({
            let dispute = s.disputes[d];
            let e = eligible_count(
                s.active_jurors,
                s.escrows[dispute.project_id].creator,
                dispute.initiator,
                s.earlier_jurors(d, dispute),
            );
            let (t, r) = s.spec_select_jury(d, now, draws);
            &&& e < EscrowState::jury_size(dispute) ==> r == Err::<(), Error>(Error::ConflictInt) && t == s
            &&& e >= EscrowState::jury_size(dispute) && draws.len() >= s.active_jurors.len() ==> r is Ok
        }),
{
    let dispute = s.disputes[d];
    lemma_jury_draw_count(
        s.active_jurors,
        draws,
        EscrowState::jury_size(dispute),
        s.escrows[dispute.project_id].creator,
        dispute.initiator,
        s.earlier_jurors(d, dispute),
        Seq::empty(),
    );
}

/// No juror counts as having revealed "no resolution" when every revealed
/// vote is for an actual resolution.
proof fn lemma_no_vote_for_nothing(s: EscrowState, d: u64, js: Seq<Address>)
    requires
        s.votes_wf(),
    ensures
        vote_count(s.votes, d, js, DisputeResolution::NoRes) == 0,
    decreases js.len(),
{
    if js.len() > 0 {
        lemma_no_vote_for_nothing(s, d, js.drop_last());
        let k = pair_key(d, js.last());
        if s.votes.contains_key(k) && s.votes[k].revealed {
            assert(s.votes[k].vote != DisputeResolution::NoRes);
        }
    }
}

/// A tally records the resolution with the most revealed votes among the
/// jury, with a payload revealed for it, or a refund with no payload when
/// nobody revealed; the dispute is resolved at the tally's time, and final
/// once no appeal remains.
pub proof fn law_tally_decides_most_voted(s: EscrowState, d: u64, now: u64)
    requires
        s.wf(),
        s.spec_tally_votes(d, now).1 is Ok,
    ensures
        ({
            let t = s.spec_tally_votes(d, now).0;
            let js = s.assignments[d];
            let out = t.disputes[d];
            let res = out.resolution;
            &&& res != DisputeResolution::NoRes
            &&& forall|r: DisputeResolution| #[trigger] vote_count(s.votes, d, js, r) <= vote_count(s.votes, d, js, res)
            &&& (forall|r: DisputeResolution| #[trigger] vote_count(s.votes, d, js, r) == 0) ==> res
                == DisputeResolution::RefBackers && out.resolution_payload == 0
            &&& vote_count(s.votes, d, js, res) > 0 ==> exists|i: int|
                0 <= i < js.len() && #[trigger] is_majority(s.votes, d, js[i], res) && s.votes[pair_key(
                    d,
                    js[i],
                )].vote_payload == out.resolution_payload
            &&& out.created_at == now
            &&& out.status == if s.disputes[d].appeal_count >= MAX_APPEALS {
                DisputeStatus::FinalResolved
            } else {
                DisputeStatus::Resolved
            }
        }),
{
    let js = s.assignments[d];
    law_tally_picks_most_voted(s.votes, d, js);
    lemma_no_vote_for_nothing(s, d, js);
    let acc = tally_fold(s.votes, d, js);
    let res = tally_resolution(acc);
    if acc.max_votes > 0 {
        assert(acc.winning != DisputeResolution::NoRes);
    } else {
        lemma_tally_fold_counts(s.votes, d, js);
        assert(vote_count(s.votes, d, js, res) == acc.counts[res_index(res)]);
        assert(0 <= res_index(res) < 4);
        assert forall|r: DisputeResolution| #[trigger] vote_count(s.votes, d, js, r) <= vote_count(
            s.votes,
            d,
            js,
            res,
        ) by {}
    }
    assert((forall|r: DisputeResolution| #[trigger] vote_count(s.votes, d, js, r) == 0) ==> acc.max_votes == 0) by {
        if forall|r: DisputeResolution| #[trigger] vote_count(s.votes, d, js, r) == 0 {
            if acc.max_votes > 0 {
                assert(vote_count(s.votes, d, js, acc.winning) == 0);
            }
        }
    }
}

/// Deregistering pays a juror back exactly the stake on record: an idle
/// registered juror is refunded, in the dispute token, from the contract,
/// its recorded staked amount, and is no longer registered.
pub proof fn law_deregister_refunds_stake(s: EscrowState, juror: Address)
    requires
        s.wf(),
    ensures
        s.spec_deregister_as_juror(juror).1 is Ok <==> (s.jurors.contains_key(juror) && s.jurors[juror].active_disputes
            == 0 && s.juror_token is Some),
        s.spec_deregister_as_juror(juror).1 is Ok ==> {
            let t = s.spec_deregister_as_juror(juror).0;
            &&& t.effects.len() == s.effects.len() + 1
            &&& t.effects.subrange(0, s.effects.len() as int) == s.effects
            &&& t.effects.last() == (Effect::Transfer {
                token: s.juror_token->0,
                from: s.contract_address,
                to: juror,
                amount: s.jurors[juror].staked_amount,
            })
            &&& !t.jurors.contains_key(juror)
            &&& t.fee_pool == s.fee_pool
        },
{
    if s.spec_deregister_as_juror(juror).1 is Ok {
        let t = s.spec_deregister_as_juror(juror).0;
        assert(t.effects.subrange(0, s.effects.len() as int) =~= s.effects);
    }
}

/// What a juror stakes is what it gets back: registering with `stake` and
/// deregistering straight after pays `stake` in from the juror and the same
/// `stake` out to it, in the same token, and leaves the jurors as before.
pub proof fn law_stake_round_trip(s: EscrowState, juror: Address, stake: Amount)
    requires
        s.wf(),
        s.spec_register_as_juror(juror, stake).1 is Ok,
    ensures
        ({
            let t = s.spec_register_as_juror(juror, stake).0;
            let u = t.spec_deregister_as_juror(juror).0;
            &&& t.spec_deregister_as_juror(juror).1 is Ok
            &&& t.effects.last() == (Effect::Transfer {
                token: s.juror_token->0,
                from: juror,
                to: s.contract_address,
                amount: stake,
            })
            &&& u.effects.last() == (Effect::Transfer {
                token: s.juror_token->0,
                from: s.contract_address,
                to: juror,
                amount: stake,
            })
            &&& u.jurors == s.jurors
        }),
{
    let t = s.spec_register_as_juror(juror, stake).0;
    let u = t.spec_deregister_as_juror(juror).0;
    assert(u.jurors =~= s.jurors);
}

/// Deposits add up: a deposit of a positive amount into an existing escrow
/// while not paused succeeds unless the total would overflow, and raises
/// the escrow's deposits by exactly the amount, leaving what was released
/// and every other escrow alone.
pub proof fn law_deposit_adds(s: EscrowState, p: u64, amount: Amount)
    requires
        s.wf(),
    ensures
        s.spec_deposit(p, amount).1 is Ok <==> (s.escrows.contains_key(p) && amount > 0 && !s.is_paused()
            && s.escrows[p].total_deposited + amount <= i128::MAX),
        s.spec_deposit(p, amount).1 is Ok ==> {
            let t = s.spec_deposit(p, amount).0;
            &&& t.escrows[p].total_deposited == s.escrows[p].total_deposited + amount
            &&& t.escrows[p].released_amount == s.escrows[p].released_amount
            &&& forall|q: u64| q != p ==> #[trigger] t.escrows.contains_key(q) == s.escrows.contains_key(q)
                && (s.escrows.contains_key(q) ==> t.escrows[q] == s.escrows[q])
        },
{
}

/// Milestones are budgeted against everything deposited, whatever has
/// been released already: on an existing escrow, while not paused, a
/// milestone of a positive amount is created exactly when it keeps the
/// milestones' total within the deposits (with room in the milestone
/// count). It then comes last, numbered by its position, pending, with
/// the amount and description given, and the total grows by its amount.
pub proof fn law_milestones_within_deposits(
    s: EscrowState,
    p: u64,
    description_hash: Hash32,
    amount: Amount,
    now: Timestamp,
)
    requires
        s.wf(),
        s.escrows.contains_key(p),
        s.milestones[p].len() < u64::MAX,
        !s.is_paused(),
        amount > 0,
    ensures
        s.spec_create_milestone(p, description_hash, amount, now).1 is Ok <==> milestone_total(s.milestones[p])
            + amount <= s.escrows[p].total_deposited,
        s.spec_create_milestone(p, description_hash, amount, now).1 is Ok ==> {
            let t = s.spec_create_milestone(p, description_hash, amount, now).0;
            let n = s.milestones[p].len();
            &&& t.milestones[p].len() == n + 1
            &&& t.milestones[p].subrange(0, n as int) == s.milestones[p]
            &&& t.milestones[p][n as int].id == n
            &&& t.milestones[p][n as int].amount == amount
            &&& t.milestones[p][n as int].description_hash == description_hash
            &&& t.milestones[p][n as int].status == MilestoneStatus::Pending
            &&& milestone_total(t.milestones[p]) == milestone_total(s.milestones[p]) + amount
            &&& t.escrows == s.escrows
        },
{
    assert(escrow_ok(p, s.escrows[p], s.milestones[p]));
    if s.spec_create_milestone(p, description_hash, amount, now).1 is Ok {
        let t = s.spec_create_milestone(p, description_hash, amount, now).0;
        let n = s.milestones[p].len();
        assert(t.milestones[p].subrange(0, n as int) =~= s.milestones[p]);
        assert(t.milestones[p].drop_last() =~= s.milestones[p]);
    }
}

/// Registering takes the stake: a juror not yet registered, staking at
/// least the minimum once the dispute token is set, is registered with
/// exactly that stake and no disputes, and pays the stake from itself to
/// the contract in the dispute token.
pub proof fn law_register_takes_stake(s: EscrowState, juror: Address, stake: Amount)
    requires
        s.wf(),
    ensures
        s.spec_register_as_juror(juror, stake).1 is Ok <==> (stake >= MIN_JUROR_STAKE && !s.jurors.contains_key(juror)
            && s.juror_token is Some),
        s.spec_register_as_juror(juror, stake).1 is Ok ==> {
            let t = s.spec_register_as_juror(juror, stake).0;
            &&& t.jurors.contains_key(juror)
            &&& t.jurors[juror].staked_amount == stake
            &&& t.jurors[juror].active_disputes == 0
            &&& t.effects.len() == s.effects.len() + 1
            &&& t.effects.subrange(0, s.effects.len() as int) == s.effects
            &&& t.effects.last() == (Effect::Transfer {
                token: s.juror_token->0,
                from: juror,
                to: s.contract_address,
                amount: stake,
            })
            &&& forall|x: u64| x != juror ==> #[trigger] t.jurors.contains_key(x) == s.jurors.contains_key(x)
                && (s.jurors.contains_key(x) ==> t.jurors[x] == s.jurors[x])
        },
{
    if s.spec_register_as_juror(juror, stake).1 is Ok {
        let t = s.spec_register_as_juror(juror, stake).0;
        assert(t.effects.subrange(0, s.effects.len() as int) =~= s.effects);
    }
}

} // verus!
