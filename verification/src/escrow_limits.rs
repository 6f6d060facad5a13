use vstd::prelude::*;
use crate::constants::{
    APPEAL_FEE, APPEAL_JURY_SIZE, APPEAL_WINDOW_PERIOD, MAX_APPEALS, MIN_JUROR_STAKE, VOTING_COMMIT_PERIOD,
    VOTING_REVEAL_PERIOD,
};
use crate::escrow::EscrowContract;
use crate::escrow_resolution::clamp_bps;
use crate::escrow_tally::{slash_penalty, tally_fold, tally_resolution};
use crate::types::{Address, Dispute, DisputeResolution, DisputeStatus};

verus! {

broadcast use vstd::std_specs::hash::group_hash_axioms, crate::maps::group_map_lemmas;

/// Checks a caller makes before operations whose arithmetic would
/// overflow on extreme states (the contract aborts there).
impl EscrowContract {
    /// Whether every registered juror of `jury` can take one more dispute.
    fn jury_room(&self, jury: &Vec<Address>) -> (r: bool)
        ensures
            r == (forall|j: u64| #[trigger]
                jury@.contains(j) && self@.jurors.contains_key(j) ==> self@.jurors[j].active_disputes < u32::MAX),
    {
        let mut i: usize = 0;
        while i < jury.len()
            invariant
                i <= jury.len(),
                forall|k: int| 0 <= k < i && #[trigger] self@.jurors.contains_key(jury@[k]) ==> self@.jurors[jury@[k]].active_disputes
                    < u32::MAX,
            decreases jury.len() - i,
        {
            let j = jury[i];
            let room = match self.jurors.get(&j) {
                Some(info) => info.active_disputes < u32::MAX,
                None => true,
            };
            if !room {
                assert(jury@.contains(j)) by {
                    assert(jury@[i as int] == j);
                }
                return false;
            }
            i = i + 1;
        }
        assert forall|j: u64| #[trigger] jury@.contains(j) && self@.jurors.contains_key(j) implies self@.jurors[j].active_disputes
            < u32::MAX by {
            let k = choose|k: int| 0 <= k < jury@.len() && jury@[k] == j;
        }
        true
    }

    /// Whether a jury drawn for dispute `d` with `draws` has room in every
    /// drawn juror's count of active disputes (see `select_jury`).
    pub fn select_jury_fits(&self, d: u64, draws: &Vec<u64>) -> (r: bool)
        requires
            self.wf(),
        ensures
            r == (self@.disputes.contains_key(d) ==> self@.jury_has_room(d, self@.disputes[d], draws@)),
    {
        let dispute = match self.get_dispute(d) {
            Ok(x) => x,
            Err(_) => return true,
        };
        match self.draw_jury(d, dispute, draws) {
            Ok(jury) => self.jury_room(&jury),
            Err(_) => true,
        }
    }

    /// Whether appealing dispute `d` at `now` with `draws` stays within
    /// machine arithmetic: room in the pool for the fee and in the drawn
    /// jurors' counts (see `file_appeal`).
    pub fn file_appeal_fits(&self, d: u64, now: u64, draws: &Vec<u64>) -> (r: bool)
        requires
            self.wf(),
        ensures
            r == (self@.appeal_reaches_fee(d, now) ==> self@.fee_pool + APPEAL_FEE <= i128::MAX
                && self@.jury_has_room(d, self@.appealed(d), draws@)),
    {
        let dispute = match self.get_dispute(d) {
            Ok(x) => x,
            Err(_) => return true,
        };
        let within = dispute.created_at > u64::MAX - APPEAL_WINDOW_PERIOD || now <= dispute.created_at
            + APPEAL_WINDOW_PERIOD;
        if dispute.status != DisputeStatus::Resolved || !within || dispute.appeal_count >= MAX_APPEALS
            || self.juror_token.is_none() {
            return true;
        }
        if self.dispute_fee_pool > i128::MAX - APPEAL_FEE {
            return false;
        }
        let appealed = Dispute { appeal_count: dispute.appeal_count + 1, status: DisputeStatus::Appealed, ..dispute };
        assert(appealed == self@.appealed(d));
        match self.draw_jury(d, appealed, draws) {
            Ok(jury) => self.jury_room(&jury),
            Err(_) => true,
        }
    }

    /// Whether enforcing the recorded resolution of dispute `d` stays within
    /// machine arithmetic (see `EscrowState::enforce_in_bounds`).
    pub fn enforcement_fits(&self, d: u64) -> (r: bool)
        requires
            self.wf(),
        ensures
            r == (self@.disputes.contains_key(d) ==> self@.enforce_in_bounds(
                self@.disputes[d],
                self@.disputes[d].resolution,
            )),
    {
        match self.disputes.get(&d) {
            None => true,
            Some(dispute) => self.release_fits(dispute.project_id, dispute.milestone_id, dispute.resolution, dispute.resolution_payload),
        }
    }

    /// Whether a partial release of `payload` basis points of a milestone
    /// can be computed.
    fn release_fits(&self, p: u64, m: u64, resolution: DisputeResolution, payload: u32) -> (r: bool)
        requires
            self.wf(),
        ensures
            r == (resolution == DisputeResolution::PartRel && self@.has_milestone(p, m) ==> self@.milestone(
                p,
                m,
            ).amount * clamp_bps(payload) <= i128::MAX),
    {
        match resolution {
            DisputeResolution::PartRel => {
                match self.get_milestone(p, m) {
                    Ok(ms) => {
                        proof {
                            assert(self@.escrows.contains_key(p));
                            assert(crate::escrow::escrow_ok(p, self@.escrows[p], self@.milestones[p]));
                            assert(self@.milestones[p][m as int].amount > 0);
                        }
                        let pct: i128 = if payload > 10000 {
                            10000
                        } else {
                            payload as i128
                        };
                        proof {
                            assert(ms.amount * pct >= 0) by (nonlinear_arith)
                                requires ms.amount > 0, pct >= 0;
                        }
                        ms.amount.checked_mul(pct).is_some()
                    },
                    Err(_) => true,
                }
            },
            _ => true,
        }
    }

    /// Whether tallying dispute `d` at `now` stays within machine arithmetic
    /// (see `EscrowState::tally_in_bounds` and `enforce_in_bounds`); a tally
    /// that does not reach the jurors always fits.
    pub fn tally_fits(&self, d: u64, now: u64) -> (r: bool)
        requires
            self.wf(),
        ensures
            r == (self@.tally_settles(d, now) ==> self@.tally_in_bounds(d) && self@.enforce_in_bounds(
                self@.resolved_dispute(d, now),
                self@.resolved_dispute(d, now).resolution,
            )),
    {
        match self.disputes.get(&d) {
            Some(x) => {
                if x.status != DisputeStatus::Voting || now <= x.created_at || now - x.created_at
                    <= VOTING_COMMIT_PERIOD + VOTING_REVEAL_PERIOD {
                    return true;
                }
            },
            None => return true,
        }
        let js = match self.get_juror_assignments(d) {
            Ok(v) => v,
            Err(_) => return true,
        };
        proof {
            assert(self@.assignments_wf());
            assert(self@.assignments.contains_key(d));
        }
        assert(js@.len() <= APPEAL_JURY_SIZE);
        let margin: i128 = (js.len() as i128) * (MIN_JUROR_STAKE / 10);
        assert(margin == js@.len() * slash_penalty());
        if self.dispute_fee_pool > i128::MAX - margin {
            return false;
        }
        let mut i: usize = 0;
        while i < js.len()
            invariant
                self.wf(),
                self@.tally_settles(d, now),
                i <= js.len(),
                self@.assignments.contains_key(d),
                js@ == self@.assignments[d],
                self@.fee_pool + js@.len() * slash_penalty() <= i128::MAX,
                margin == js@.len() * slash_penalty(),
                forall|k: int| 0 <= k < i && #[trigger] self@.jurors.contains_key(js@[k]) ==> {
                    let info = self@.jurors[js@[k]];
                    &&& info.active_disputes >= 1
                    &&& info.successful_votes < u32::MAX
                    &&& info.missed_votes < u32::MAX
                    &&& info.staked_amount + self@.fee_pool + js@.len() * slash_penalty() <= i128::MAX
                },
            decreases js.len() - i,
        {
            let j = js[i];
            let ok = match self.jurors.get(&j) {
                Some(info) => info.active_disputes >= 1 && info.successful_votes < u32::MAX && info.missed_votes
                    < u32::MAX && info.staked_amount <= i128::MAX - margin - self.dispute_fee_pool,
                None => true,
            };
            if !ok {
                assert(self@.assignments[d].contains(j)) by {
                    assert(js@[i as int] == j);
                }
                assert(self@.jurors.contains_key(j));
                let ghost info = self@.jurors[j];
                assert(!(info.active_disputes >= 1 && info.successful_votes < u32::MAX && info.missed_votes < u32::MAX
                    && info.staked_amount + self@.fee_pool + js@.len() * slash_penalty() <= i128::MAX));
                assert(!self@.tally_in_bounds(d));
                return false;
            }
            i = i + 1;
        }
        proof {
            assert forall|j: u64| #[trigger]
                self@.jurors.contains_key(j) && self@.assignments[d].contains(j) implies {
                &&& self@.jurors[j].active_disputes >= 1
                &&& self@.jurors[j].successful_votes < u32::MAX
                &&& self@.jurors[j].missed_votes < u32::MAX
                &&& self@.jurors[j].staked_amount + self@.fee_pool + js@.len() * slash_penalty() <= i128::MAX
            } by {
                let k = choose|k: int| 0 <= k < js@.len() && js@[k] == j;
                assert(self@.jurors.contains_key(js@[k]));
            }
        }
        let dispute = match self.get_dispute(d) {
            Ok(x) => x,
            Err(_) => return true,
        };
        let (winning, payload) = self.count_votes(d, &js);
        let resolution = match winning {
            DisputeResolution::NoRes => DisputeResolution::RefBackers,
            other => other,
        };
        proof {
            let acc = tally_fold(self@.votes, d, self@.assignments[d]);
            assert(resolution == tally_resolution(acc));
            assert(self@.resolved_dispute(d, now).resolution == resolution);
            assert(self@.resolved_dispute(d, now).resolution_payload == payload);
        }
        self.release_fits(dispute.project_id, dispute.milestone_id, resolution, payload)
    }
    /// Whether the management fee on the yield above what project `p` still
    /// owes can be computed, given the contract's token balance.
    pub fn claim_yield_fits(&self, p: u64, actual_balance: i128) -> (r: bool)
        requires
            self.wf(),
        ensures
            r == (self@.claim_reaches_fee(p, actual_balance) ==> (actual_balance - (self@.escrows[p].total_deposited
                - self@.escrows[p].released_amount)) * self@.escrows[p].management_fee_bps <= i128::MAX),
    {
        if self.pause_state.paused {
            return true;
        }
        match self.escrows.get(&p) {
            None => true,
            Some(e) => {
                proof {
                    assert(self@.escrows.contains_key(p));
                    assert(crate::escrow::escrow_ok(p, self@.escrows[p], self@.milestones[p]));
                }
                let owed = e.total_deposited - e.released_amount;
                if actual_balance <= owed {
                    proof {
                        assert((actual_balance - owed) * e.management_fee_bps <= 0) by (nonlinear_arith)
                            requires actual_balance - owed <= 0, e.management_fee_bps >= 0;
                    }
                    true
                } else {
                    let total_yield = actual_balance - owed;
                    proof {
                        assert(total_yield * e.management_fee_bps >= 0) by (nonlinear_arith)
                            requires total_yield > 0, e.management_fee_bps >= 0;
                    }
                    total_yield.checked_mul(e.management_fee_bps as i128).is_some()
                }
            },
        }
    }
}

} // verus!
