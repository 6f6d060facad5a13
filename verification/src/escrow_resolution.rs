use vstd::prelude::*;
use crate::constants::{APPEAL_FEE, APPEAL_WINDOW_PERIOD, MAX_APPEALS};
use crate::errors::Error;
use crate::maps::{make_pair_key, pair_key};
use crate::escrow::{
    escrow_ok, lemma_milestone_total_update, release_milestone_funds, spec_release, EscrowContract,
    EscrowState,
};
use crate::types::{
    Address, Amount, Dispute, DisputeResolution, DisputeStatus, Effect, EscrowEvent, EscrowSpec, Milestone,
    MilestoneStatus, Timestamp,
};

verus! {

broadcast use vstd::std_specs::hash::group_hash_axioms, crate::maps::group_map_lemmas;

/// A partial-release percentage (basis points) limited to 0..=10000.
pub open spec fn clamp_bps(payload: u32) -> int {
    if payload > 10000 {
        10000
    } else {
        payload as int
    }
}

/// Amount a resolution releases from a milestone worth `amount`.
pub open spec fn release_for(resolution: DisputeResolution, amount: int, payload: u32) -> int {
    match resolution {
        DisputeResolution::RelFunds => amount,
        DisputeResolution::RefBackers => 0,
        DisputeResolution::PartRel => (amount * clamp_bps(payload)) / 10000,
        DisputeResolution::NoRes => 0,
    }
}

/// Milestone status a resolution leads to.
pub open spec fn status_for(resolution: DisputeResolution, current: MilestoneStatus) -> MilestoneStatus {
    match resolution {
        DisputeResolution::RelFunds => MilestoneStatus::Approved,
        DisputeResolution::RefBackers => MilestoneStatus::Rejected,
        DisputeResolution::PartRel => MilestoneStatus::Approved,
        DisputeResolution::NoRes => current,
    }
}

impl EscrowState {
    /// Whether enforcing `resolution` for `dispute` stays within machine arithmetic.
    pub open spec fn enforce_in_bounds(self, dispute: Dispute, resolution: DisputeResolution) -> bool {
        resolution == DisputeResolution::PartRel && self.has_milestone(dispute.project_id, dispute.milestone_id)
            ==> self.milestone(dispute.project_id, dispute.milestone_id).amount * clamp_bps(
            dispute.resolution_payload,
        ) <= i128::MAX
    }

    /// Applies a final resolution to the disputed milestone: release the
    /// funds it grants to the creator and set the milestone's status.
    pub open spec fn spec_enforce(self, dispute: Dispute, resolution: DisputeResolution) -> (
        EscrowState,
        Result<(), Error>,
    ) {
        let p = dispute.project_id;
        let m = dispute.milestone_id;
        if !self.escrows.contains_key(p) {
            (self, Err(Error::NotFound))
        } else if !self.has_milestone(p, m) {
            (self, Err(Error::NotFound))
        } else {
            let ms = self.milestone(p, m);
            let e = self.escrows[p];
            let release = release_for(resolution, ms.amount as int, dispute.resolution_payload);
            let settled = Milestone { status: status_for(resolution, ms.status), ..ms };
            if release > 0 {
                match spec_release(e, release as Amount) {
                    Err(x) => (self, Err(x)),
                    Ok(new_released) => {
                        let s1 = self.with_escrow(p, EscrowSpec { released_amount: new_released, ..e }).with_milestone(
                            p,
                            m,
                            settled,
                        );
                        (
                            EscrowState {
                                effects: self.effects.push(
                                    Effect::Transfer {
                                        token: e.token,
                                        from: self.contract_address,
                                        to: e.creator,
                                        amount: release as Amount,
                                    },
                                ),
                                ..s1
                            },
                            Ok(()),
                        )
                    },
                }
            } else {
                (self.with_milestone(p, m, settled), Ok(()))
            }
        }
    }

    pub open spec fn spec_execute_resolution(self, d: u64, now: Timestamp) -> (EscrowState, Result<(), Error>) {
        if !self.disputes.contains_key(d) {
            (self, Err(Error::DispNF))
        } else if self.disputes[d].status != DisputeStatus::Resolved {
            (self, Err(Error::InvInput))
        } else if now <= self.disputes[d].created_at + APPEAL_WINDOW_PERIOD {
            (self, Err(Error::AppealWinCl))
        } else {
            let fin = Dispute { status: DisputeStatus::FinalResolved, ..self.disputes[d] };
            let s1 = EscrowState { disputes: self.disputes.insert(d, fin), ..self };
            let (s2, r) = s1.spec_enforce(fin, fin.resolution);
            match r {
                Err(e) => (self, Err(e)),
                Ok(_) => (
                    EscrowState {
                        events: s2.events.push(EscrowEvent::AppealResolved { dispute_id: d, resolution: fin.resolution }),
                        ..s2
                    },
                    Ok(()),
                ),
            }
        }
    }

    /// Whether an appeal of dispute `d` at `now` passes its checks and gets
    /// as far as paying the appeal fee into the pool.
    pub open spec fn appeal_reaches_fee(self, d: u64, now: Timestamp) -> bool {
        &&& self.disputes.contains_key(d)
        &&& self.disputes[d].status == DisputeStatus::Resolved
        &&& now <= self.disputes[d].created_at + APPEAL_WINDOW_PERIOD
        &&& self.disputes[d].appeal_count < MAX_APPEALS
        &&& self.juror_token is Some
    }

    /// Dispute `d` as an appeal turns it: one appeal more, awaiting a jury.
    pub open spec fn appealed(self, d: u64) -> Dispute {
        Dispute {
            appeal_count: (self.disputes[d].appeal_count + 1) as u32,
            status: DisputeStatus::Appealed,
            ..self.disputes[d]
        }
    }

    /// Outcome of an appeal: the appellant pays the appeal fee into the
    /// pool, the milestone returns to pending with a fresh vote record, and a
    /// larger jury is drawn.
    pub open spec fn spec_file_appeal(
        self,
        d: u64,
        appellant: Address,
        now: Timestamp,
        draws: Seq<u64>,
    ) -> (EscrowState, Result<(), Error>) {
        if !self.disputes.contains_key(d) {
            (self, Err(Error::DispNF))
        } else if self.disputes[d].status != DisputeStatus::Resolved {
            (self, Err(Error::InvInput))
        } else if now > self.disputes[d].created_at + APPEAL_WINDOW_PERIOD {
            (self, Err(Error::AppealWinCl))
        } else if self.disputes[d].appeal_count >= MAX_APPEALS {
            (self, Err(Error::MaxAppeals))
        } else if self.juror_token is None {
            (self, Err(Error::NotInit))
        } else {
            let dispute = self.disputes[d];
            let appealed = Dispute {
                appeal_count: (dispute.appeal_count + 1) as u32,
                status: DisputeStatus::Appealed,
                ..dispute
            };
            let p = dispute.project_id;
            let m = dispute.milestone_id;
            if !self.has_milestone(p, m) {
                (self, Err(Error::NotFound))
            } else {
                let ms = self.milestone(p, m);
                let reset = Milestone {
                    status: MilestoneStatus::Pending,
                    approval_count: 0,
                    rejection_count: 0,
                    ..ms
                };
                let s1 = EscrowState {
                    effects: self.effects.push(
                        Effect::Transfer {
                            token: self.juror_token->0,
                            from: appellant,
                            to: self.contract_address,
                            amount: APPEAL_FEE,
                        },
                    ),
                    fee_pool: (self.fee_pool + APPEAL_FEE) as i128,
                    disputes: self.disputes.insert(d, appealed),
                    events: self.events.push(EscrowEvent::DisputeAppealed { dispute_id: d, appellant }),
                    ..self
                }.with_milestone(p, m, reset);
                let s2 = EscrowState { voters: s1.voters.insert(pair_key(p, m), Seq::empty()), ..s1 };
                let (s3, r) = s2.select_jury_for(d, appealed, now, draws);
                match r {
                    Err(e) => (self, Err(e)),
                    Ok(_) => (s3, Ok(())),
                }
            }
        }
    }

    /// Whether a claim on project `p` gets as far as computing the fee: the
    /// escrow exists, the contract is not paused, and the balance exceeds
    /// what the escrow still owes.
    pub open spec fn claim_reaches_fee(self, p: u64, actual_balance: Amount) -> bool {
        &&& self.escrows.contains_key(p)
        &&& !self.is_paused()
        &&& actual_balance > self.escrows[p].total_deposited - self.escrows[p].released_amount
    }

    /// Yield held by the contract above what the escrow still owes.
    pub open spec fn spec_claim_yield(self, p: u64, profit_dist_contract: Address, actual_balance: Amount) -> (
        EscrowState,
        Result<(), Error>,
    ) {
        if !self.escrows.contains_key(p) {
            (self, Err(Error::NotFound))
        } else if self.is_paused() {
            (self, Err(Error::Paused))
        } else {
            let e = self.escrows[p];
            let required = e.total_deposited - e.released_amount;
            if actual_balance <= required {
                (self, Err(Error::NoClaim))
            } else {
                let total_yield = actual_balance - required;
                let fee = (total_yield * e.management_fee_bps) / 10000;
                let investors = total_yield - fee;
                let fee_effects = if fee > 0 {
                    seq![
                        Effect::Transfer {
                            token: e.token,
                            from: self.contract_address,
                            to: e.creator,
                            amount: fee as Amount,
                        },
                    ]
                } else {
                    Seq::empty()
                };
                let investor_effects = if investors > 0 {
                    seq![
                        Effect::Transfer {
                            token: e.token,
                            from: self.contract_address,
                            to: profit_dist_contract,
                            amount: investors as Amount,
                        },
                        Effect::ProfitDeposit {
                            contract: profit_dist_contract,
                            project_id: p,
                            depositor: self.contract_address,
                            amount: investors as Amount,
                        },
                    ]
                } else {
                    Seq::empty()
                };
                (
                    EscrowState {
                        effects: self.effects + fee_effects + investor_effects,
                        events: self.events.push(
                            EscrowEvent::YieldClaimed {
                                project_id: p,
                                total_yield: total_yield as Amount,
                                fee_amount: fee as Amount,
                                investor_amount: investors as Amount,
                            },
                        ),
                        ..self
                    },
                    Ok(()),
                )
            }
        }
    }
}

impl EscrowContract {
    /// The error enforcing `resolution` for `dispute` would report, if any.
    pub(crate) fn enforce_check(&self, dispute: &Dispute, resolution: DisputeResolution) -> (r: Option<Error>)
        requires
            self.wf(),
            self@.enforce_in_bounds(*dispute, resolution),
        ensures
            r is None <==> self@.spec_enforce(*dispute, resolution).1 is Ok,
            r matches Some(e) ==> self@.spec_enforce(*dispute, resolution).1 == Err::<(), Error>(e),
    {
        let p = dispute.project_id;
        let m = dispute.milestone_id;
        let (released_total, escrow_ok_flag) = match self.escrows.get(&p) {
            Some(e) => (e.released_amount, true),
            None => (0, false),
        };
        if !escrow_ok_flag {
            return Some(Error::NotFound);
        }
        let ms = match self.get_milestone(p, m) {
            Ok(ms) => ms,
            Err(e) => return Some(e),
        };
        let release = self.release_amount(&ms, dispute, resolution);
        if release > 0 {
            let e = self.escrows.get(&p).unwrap();
            match release_milestone_funds(e, release) {
                Ok(_) => None,
                Err(x) => Some(x),
            }
        } else {
            None
        }
    }

    /// Amount a resolution releases from a milestone.
    fn release_amount(&self, ms: &Milestone, dispute: &Dispute, resolution: DisputeResolution) -> (r: Amount)
        requires
            self.wf(),
            self@.has_milestone(dispute.project_id, dispute.milestone_id),
            *ms == self@.milestone(dispute.project_id, dispute.milestone_id),
            self@.enforce_in_bounds(*dispute, resolution),
        ensures
            r as int == release_for(resolution, ms.amount as int, dispute.resolution_payload),
            r >= 0,
    {
        proof {
            let p = dispute.project_id;
            assert(self@.milestones.contains_key(p));
            assert(self@.escrows.contains_key(p));
            assert(escrow_ok(p, self@.escrows[p], self@.milestones[p]));
            assert(ms.amount > 0);
        }
        match resolution {
            DisputeResolution::RelFunds => ms.amount,
            DisputeResolution::RefBackers => 0,
            DisputeResolution::PartRel => {
                let pct: i128 = if dispute.resolution_payload > 10000 {
                    10000
                } else {
                    dispute.resolution_payload as i128
                };
                proof {
                    assert(0 <= ms.amount * pct) by (nonlinear_arith)
                        requires ms.amount > 0, pct >= 0;
                }
                (ms.amount * pct) / 10000
            },
            DisputeResolution::NoRes => 0,
        }
    }

    /// Applies a final resolution (see `EscrowState::spec_enforce`).
    pub(crate) fn enforce_resolution(&mut self, dispute: &Dispute, resolution: DisputeResolution) -> (result: Result<(), Error>)
        requires
            old(self).wf(),
            old(self)@.enforce_in_bounds(*dispute, resolution),
        ensures
            final(self).wf(),
            (final(self)@, result) == old(self)@.spec_enforce(*dispute, resolution),
    {
        let p = dispute.project_id;
        let m = dispute.milestone_id;
        if !self.escrows.contains_key(&p) {
            return Err(Error::NotFound);
        }
        let ms = match self.get_milestone(p, m) {
            Ok(ms) => ms,
            Err(e) => return Err(e),
        };
        let release = self.release_amount(&ms, dispute, resolution);
        let status = match resolution {
            DisputeResolution::RelFunds => MilestoneStatus::Approved,
            DisputeResolution::RefBackers => MilestoneStatus::Rejected,
            DisputeResolution::PartRel => MilestoneStatus::Approved,
            DisputeResolution::NoRes => ms.status,
        };
        let settled = Milestone { status, ..ms };
        let ghost old_state = self@;
        proof {
            assert(old_state.escrows.contains_key(p));
            assert(escrow_ok(p, old_state.escrows[p], old_state.milestones[p]));
        }
        if release > 0 {
            let (new_released, token, creator) = {
                let e = self.escrows.get(&p).unwrap();
                match release_milestone_funds(e, release) {
                    Ok(r) => (r, e.token, e.creator),
                    Err(x) => return Err(x),
                }
            };
            let mut e = self.escrows.remove(&p).unwrap();
            e.released_amount = new_released;
            self.escrows.insert(p, e);
            self.put_milestone(p, m, settled);
            self.effects.push(Effect::Transfer { token, from: self.contract_address, to: creator, amount: release });
            proof {
                let expected = old_state.spec_enforce(*dispute, resolution).0;
                assert(self@.escrows =~= expected.escrows);
                assert(self@ =~= expected);
            }
        } else {
            self.put_milestone(p, m, settled);
            proof {
                let expected = old_state.spec_enforce(*dispute, resolution).0;
                assert(self@ =~= expected);
            }
        }
        proof {
            lemma_milestone_total_update(old_state.milestones[p], m as int, settled);
            assert forall|q: u64| #[trigger] self@.escrows.contains_key(q) implies escrow_ok(
                q,
                self@.escrows[q],
                self@.milestones[q],
            ) by {
                assert(old_state.escrows.contains_key(q));
            }
        }
        Ok(())
    }

    /// Enforces a resolved dispute once its appeal window has closed.
    pub fn execute_resolution(&mut self, dispute_id: u64, now: Timestamp) -> (result: Result<(), Error>)
        requires
            old(self).wf(),
            old(self)@.disputes.contains_key(dispute_id) && old(self)@.disputes[dispute_id].status
                == DisputeStatus::Resolved ==> old(self)@.disputes[dispute_id].created_at + APPEAL_WINDOW_PERIOD
                <= u64::MAX && (now > old(self)@.disputes[dispute_id].created_at + APPEAL_WINDOW_PERIOD ==> old(
                self,
            )@.enforce_in_bounds(old(self)@.disputes[dispute_id], old(self)@.disputes[dispute_id].resolution)),
        ensures
            final(self).wf(),
            (final(self)@, result) == old(self)@.spec_execute_resolution(dispute_id, now),
    {
        let dispute = match self.get_dispute(dispute_id) {
            Ok(d) => d,
            Err(e) => return Err(e),
        };
        if dispute.status != DisputeStatus::Resolved {
            return Err(Error::InvInput);
        }
        if now <= dispute.created_at + APPEAL_WINDOW_PERIOD {
            return Err(Error::AppealWinCl);
        }
        let fin = Dispute { status: DisputeStatus::FinalResolved, ..dispute };
        if let Some(e) = self.enforce_check(&fin, fin.resolution) {
            return Err(e);
        }
        let ghost old_state = self@;
        self.disputes.insert(dispute_id, fin);
        proof {
            assert(self@ =~= EscrowState { disputes: old_state.disputes.insert(dispute_id, fin), ..old_state });
            assert forall|q: u64| #[trigger] self@.escrows.contains_key(q) implies escrow_ok(
                q,
                self@.escrows[q],
                self@.milestones[q],
            ) by {
                assert(old_state.escrows.contains_key(q));
            }
        }
        let r = self.enforce_resolution(&fin, fin.resolution);
        assert(r is Ok);
        self.events.push(EscrowEvent::AppealResolved { dispute_id, resolution: fin.resolution });
        Ok(())
    }

    /// Sends the yield the contract holds above what the escrow still owes
    /// (`actual_balance` is the contract's token balance): the management
    /// fee to the creator and the rest to the profit-distribution contract.
    pub fn claim_yield(&mut self, project_id: u64, profit_dist_contract: Address, actual_balance: Amount) -> (result:
        Result<(), Error>)
        requires
            old(self).wf(),
            old(self)@.claim_reaches_fee(project_id, actual_balance) ==> (actual_balance - (
            old(self)@.escrows[project_id].total_deposited - old(self)@.escrows[project_id].released_amount))
                * old(self)@.escrows[project_id].management_fee_bps <= i128::MAX,
        ensures
            final(self).wf(),
            (final(self)@, result) == old(self)@.spec_claim_yield(project_id, profit_dist_contract, actual_balance),
    {
        let (total, released, fee_bps, token, creator) = match self.escrows.get(&project_id) {
            Some(e) => (e.total_deposited, e.released_amount, e.management_fee_bps, e.token, e.creator),
            None => return Err(Error::NotFound),
        };
        if self.pause_state.paused {
            return Err(Error::Paused);
        }
        proof {
            assert(self@.escrows.contains_key(project_id));
            assert(escrow_ok(project_id, self@.escrows[project_id], self@.milestones[project_id]));
        }
        let required = total - released;
        if actual_balance <= required {
            return Err(Error::NoClaim);
        }
        let total_yield = actual_balance - required;
        proof {
            assert(0 <= total_yield * fee_bps) by (nonlinear_arith)
                requires total_yield > 0, fee_bps >= 0;
            assert(total_yield * fee_bps / 10000 <= total_yield) by (nonlinear_arith)
                requires total_yield > 0, 0 <= fee_bps <= 10000;
        }
        let fee = (total_yield * (fee_bps as i128)) / 10000;
        let investors = total_yield - fee;
        let ghost old_state = self@;
        if fee > 0 {
            self.effects.push(Effect::Transfer { token, from: self.contract_address, to: creator, amount: fee });
        }
        if investors > 0 {
            self.effects.push(
                Effect::Transfer { token, from: self.contract_address, to: profit_dist_contract, amount: investors },
            );
            self.effects.push(
                Effect::ProfitDeposit {
                    contract: profit_dist_contract,
                    project_id,
                    depositor: self.contract_address,
                    amount: investors,
                },
            );
        }
        self.events.push(
            EscrowEvent::YieldClaimed {
                project_id,
                total_yield,
                fee_amount: fee,
                investor_amount: investors,
            },
        );
        proof {
            let expected = old_state.spec_claim_yield(project_id, profit_dist_contract, actual_balance).0;
            assert(self@.effects =~= expected.effects);
            assert(self@ =~= expected);
            assert forall|q: u64| #[trigger] self@.escrows.contains_key(q) implies escrow_ok(
                q,
                self@.escrows[q],
                self@.milestones[q],
            ) by {
                assert(old_state.escrows.contains_key(q));
            }
        }
        Ok(())
    }

    /// Appeals a resolved dispute within its appeal window: the appellant
    /// pays the appeal fee, the milestone returns to pending with a fresh
    /// vote record, and a larger jury is drawn (see `select_jury`).
    pub fn file_appeal(&mut self, dispute_id: u64, appellant: Address, now: Timestamp, draws: &Vec<u64>) -> (result:
        Result<(), Error>)
        requires
            old(self).wf(),
            old(self)@.disputes.contains_key(dispute_id) && old(self)@.disputes[dispute_id].status
                == DisputeStatus::Resolved ==> old(self)@.disputes[dispute_id].created_at + APPEAL_WINDOW_PERIOD
                <= u64::MAX,
            old(self)@.appeal_reaches_fee(dispute_id, now) ==> old(self)@.fee_pool + APPEAL_FEE <= i128::MAX
                && old(self)@.jury_has_room(dispute_id, old(self)@.appealed(dispute_id), draws@),
        ensures
            final(self).wf(),
            (final(self)@, result) == old(self)@.spec_file_appeal(dispute_id, appellant, now, draws@),
    {
        let dispute = match self.get_dispute(dispute_id) {
            Ok(d) => d,
            Err(e) => return Err(e),
        };
        if dispute.status != DisputeStatus::Resolved {
            return Err(Error::InvInput);
        }
        if now > dispute.created_at + APPEAL_WINDOW_PERIOD {
            return Err(Error::AppealWinCl);
        }
        if dispute.appeal_count >= MAX_APPEALS {
            return Err(Error::MaxAppeals);
        }
        let token = match self.juror_token {
            Some(t) => t,
            None => return Err(Error::NotInit),
        };
        let appealed = Dispute { appeal_count: dispute.appeal_count + 1, status: DisputeStatus::Appealed, ..dispute };
        let p = dispute.project_id;
        let m = dispute.milestone_id;
        let ms = match self.get_milestone(p, m) {
            Ok(ms) => ms,
            Err(e) => return Err(e),
        };
        let jury = match self.draw_jury(dispute_id, appealed, draws) {
            Ok(j) => j,
            Err(e) => return Err(e),
        };
        let ghost old_state = self@;
        self.effects.push(Effect::Transfer { token, from: appellant, to: self.contract_address, amount: APPEAL_FEE });
        self.dispute_fee_pool = self.dispute_fee_pool + APPEAL_FEE;
        self.disputes.insert(dispute_id, appealed);
        let reset = Milestone { status: MilestoneStatus::Pending, approval_count: 0, rejection_count: 0, ..ms };
        self.put_milestone(p, m, reset);
        self.voters.insert(make_pair_key(p, m), Vec::new());
        self.events.push(EscrowEvent::DisputeAppealed { dispute_id, appellant });
        let ghost mid = self@;
        proof {
            let s1 = EscrowState {
                effects: old_state.effects.push(
                    Effect::Transfer { token, from: appellant, to: old_state.contract_address, amount: APPEAL_FEE },
                ),
                fee_pool: (old_state.fee_pool + APPEAL_FEE) as i128,
                disputes: old_state.disputes.insert(dispute_id, appealed),
                events: old_state.events.push(EscrowEvent::DisputeAppealed { dispute_id, appellant }),
                ..old_state
            }.with_milestone(p, m, reset);
            let s2 = EscrowState { voters: s1.voters.insert(pair_key(p, m), Seq::empty()), ..s1 };
            assert(mid.voters =~= s2.voters);
            assert(mid =~= s2);
            lemma_milestone_total_update(old_state.milestones[p], m as int, reset);
            assert forall|q: u64| #[trigger] mid.escrows.contains_key(q) implies escrow_ok(
                q,
                mid.escrows[q],
                mid.milestones[q],
            ) by {
                assert(old_state.escrows.contains_key(q));
            }
            assert(mid.drawn_jury(dispute_id, appealed, draws@) == old_state.drawn_jury(dispute_id, appealed, draws@));
        }
        self.apply_jury(dispute_id, appealed, now, jury, Ghost(draws@));
        Ok(())
    }
}

} // verus!
