use vstd::prelude::*;
use crate::constants::{POOL_APPROVAL_LEDGERS, RESUME_TIME_DELAY, UPGRADE_TIME_LOCK_SECS};
use crate::errors::Error;
use crate::escrow::{
    escrow_ok, spec_idle_emergency, EmergencySpec, EmergencyWithdrawState, EmergencyWithdrawStatus,
    EscrowContract, EscrowState, milestone_total, lemma_milestone_total_prefix,
};
use crate::maps::{make_pair_key, pair_key, vec_contains, vec_copy};
use crate::types::{
    Address, Amount, Effect, EscrowEvent, EscrowInfo, EscrowSpec, Hash32, PauseState, PendingUpgrade, Timestamp,
};
use crate::yield_router::{
    sat_sub, spec_sat_sub, EscrowYieldState, YieldRouterConfig,
};

verus! {

broadcast use vstd::std_specs::hash::group_hash_axioms, crate::maps::group_map_lemmas;

/// Validator co-signatures an emergency rescue needs: the escrow's approval
/// threshold applied to its validators, and at least one.
pub open spec fn spec_required_emergency_approvals(num_validators: int, threshold: int) -> int {
    let required = (num_validators * threshold) / 10000;
    if required == 0 {
        1
    } else {
        required
    }
}

/// Validator co-signatures needed before the admin may execute an emergency rescue.
pub fn required_emergency_approvals(escrow: &EscrowInfo) -> (r: u32)
    requires
        escrow.validators@.len() * escrow.approval_threshold <= u32::MAX,
    ensures
        r as int == spec_required_emergency_approvals(
            escrow.validators@.len() as int,
            escrow.approval_threshold as int,
        ),
{
    let n = escrow.validators.len();
    proof {
        if escrow.approval_threshold >= 1 {
            assert(n as int <= n * escrow.approval_threshold) by (nonlinear_arith)
                requires escrow.approval_threshold >= 1;
        }
    }
    let required = if escrow.approval_threshold == 0 {
        0
    } else {
        ((n as u32) * escrow.approval_threshold) / 10_000
    };
    if required == 0 {
        1
    } else {
        required
    }
}

/// Integer division rounding toward zero, as `/` does on machine integers.
pub open spec fn trunc_div(a: int, d: int) -> int {
    if a >= 0 {
        a / d
    } else {
        -((-a) / d)
    }
}

impl EscrowState {
    /// The error an admin-only call reports for `admin`, if any.
    pub open spec fn admin_check(self, admin: Address) -> Option<Error> {
        if self.admin is None {
            Some(Error::NotInit)
        } else if self.admin->0 != admin {
            Some(Error::Unauthorized)
        } else {
            None
        }
    }

    pub open spec fn spec_pause(self, admin: Address, now: Timestamp) -> (EscrowState, Result<(), Error>) {
        match self.admin_check(admin) {
            Some(e) => (self, Err(e)),
            None => (
                EscrowState {
                    pause: PauseState {
                        paused: true,
                        paused_at: now,
                        resume_not_before: (now + RESUME_TIME_DELAY) as u64,
                    },
                    events: self.events.push(EscrowEvent::ContractPaused { admin, at: now }),
                    ..self
                },
                Ok(()),
            ),
        }
    }

    pub open spec fn spec_resume(self, admin: Address, now: Timestamp) -> (EscrowState, Result<(), Error>) {
        match self.admin_check(admin) {
            Some(e) => (self, Err(e)),
            None => if now < self.pause.resume_not_before {
                (self, Err(Error::ResTooEarly))
            } else {
                (
                    EscrowState {
                        pause: PauseState { paused: false, ..self.pause },
                        events: self.events.push(EscrowEvent::ContractResumed { admin, at: now }),
                        ..self
                    },
                    Ok(()),
                )
            },
        }
    }

    pub open spec fn spec_schedule_upgrade(self, admin: Address, wasm_hash: Hash32, now: Timestamp) -> (
        EscrowState,
        Result<(), Error>,
    ) {
        match self.admin_check(admin) {
            Some(e) => (self, Err(e)),
            None => (
                EscrowState {
                    pending_upgrade: Some(
                        PendingUpgrade {
                            wasm_hash,
                            execute_not_before: (now + UPGRADE_TIME_LOCK_SECS) as u64,
                        },
                    ),
                    events: self.events.push(
                        EscrowEvent::UpgradeScheduled {
                            admin,
                            wasm_hash,
                            execute_not_before: (now + UPGRADE_TIME_LOCK_SECS) as u64,
                        },
                    ),
                    ..self
                },
                Ok(()),
            ),
        }
    }

    pub open spec fn spec_execute_upgrade(self, admin: Address, now: Timestamp) -> (
        EscrowState,
        Result<(), Error>,
    ) {
        match self.admin_check(admin) {
            Some(e) => (self, Err(e)),
            None => if !self.is_paused() {
                (self, Err(Error::UpgReqPause))
            } else if self.pending_upgrade is None {
                (self, Err(Error::UpgNotSched))
            } else if now < self.pending_upgrade->0.execute_not_before {
                (self, Err(Error::UpgTooEarly))
            } else {
                (
                    EscrowState {
                        pending_upgrade: None,
                        effects: self.effects.push(
                            Effect::UpdateWasm { wasm_hash: self.pending_upgrade->0.wasm_hash },
                        ),
                        events: self.events.push(
                            EscrowEvent::UpgradeExecuted { admin, wasm_hash: self.pending_upgrade->0.wasm_hash },
                        ),
                        ..self
                    },
                    Ok(()),
                )
            },
        }
    }

    pub open spec fn spec_cancel_upgrade(self, admin: Address) -> (EscrowState, Result<(), Error>) {
        match self.admin_check(admin) {
            Some(e) => (self, Err(e)),
            None => if self.pending_upgrade is None {
                (self, Err(Error::UpgNotSched))
            } else {
                (
                    EscrowState {
                        pending_upgrade: None,
                        events: self.events.push(EscrowEvent::UpgradeCancelled { admin }),
                        ..self
                    },
                    Ok(()),
                )
            },
        }
    }

    pub open spec fn spec_approve_emergency_withdraw(self, p: u64, validator: Address) -> (
        EscrowState,
        Result<u32, Error>,
    ) {
        let st = self.emergency_of(p);
        if !self.is_paused() {
            (self, Err(Error::InvStatus))
        } else if !self.escrows.contains_key(p) {
            (self, Err(Error::NotFound))
        } else if !self.escrows[p].validators.contains(validator) {
            (self, Err(Error::NotValidator))
        } else if st.status == EmergencyWithdrawStatus::Executed {
            (self, Err(Error::InvStatus))
        } else if st.approvals.contains(validator) {
            (self, Err(Error::AlreadyVoted))
        } else {
            let approvals = st.approvals.push(validator);
            (
                EscrowState {
                    emergency: self.emergency.insert(
                        p,
                        EmergencySpec { status: EmergencyWithdrawStatus::Pending, approvals, ..st },
                    ),
                    events: self.events.push(
                        EscrowEvent::EmergencyWithdrawApproved {
                            project_id: p,
                            validator,
                            approval_count: approvals.len() as u32,
                        },
                    ),
                    ..self
                },
                Ok(approvals.len() as u32),
            )
        }
    }

    /// Outcome of pulling everything a pool reports (`pool_balance`) back
    /// into the escrow and switching routing off for the project.
    pub open spec fn spec_emergency_withdraw_from_pool(self, p: u64, token: Address, pool_balance: Amount) -> (
        EscrowState,
        Result<Amount, Error>,
    ) {
        if self.yield_config is None {
            (self, Err(Error::InvInput))
        } else if self.yield_config->0.yield_token != token {
            (self, Err(Error::InvInput))
        } else if pool_balance <= 0 {
            (self, Err(Error::InsufFunds))
        } else {
            let ys = self.yield_state_of(p);
            (
                EscrowState {
                    yield_states: self.yield_states.insert(
                        p,
                        EscrowYieldState { deployed_principal: 0, routing_enabled: false, ..ys },
                    ),
                    effects: self.effects.push(
                        Effect::PoolWithdraw {
                            pool: self.yield_config->0.pool_contract,
                            recipient: self.contract_address,
                            amount: pool_balance,
                        },
                    ),
                    events: self.events.push(EscrowEvent::YieldRescued { project_id: p, pool_balance }),
                    ..self
                },
                Ok(pool_balance),
            )
        }
    }

    pub open spec fn spec_admin_emergency_withdraw(
        self,
        p: u64,
        admin: Address,
        now: Timestamp,
        pool_balance: Amount,
    ) -> (EscrowState, Result<Amount, Error>) {
        match self.admin_check(admin) {
            Some(e) => (self, Err(e)),
            None => if !self.is_paused() {
                (self, Err(Error::InvStatus))
            } else if !self.escrows.contains_key(p) {
                (self, Err(Error::NotFound))
            } else if self.emergency_of(p).status == EmergencyWithdrawStatus::Executed {
                (self, Err(Error::InvStatus))
            } else if self.emergency_of(p).approvals.len() < spec_required_emergency_approvals(
                self.escrows[p].validators.len() as int,
                self.escrows[p].approval_threshold as int,
            ) {
                (self, Err(Error::Unauthorized))
            } else {
                let (s1, r) = self.spec_emergency_withdraw_from_pool(p, self.escrows[p].token, pool_balance);
                match r {
                    Err(e) => (self, Err(e)),
                    Ok(rescued) => (
                        EscrowState {
                            emergency: s1.emergency.insert(
                                p,
                                EmergencySpec {
                                    status: EmergencyWithdrawStatus::Executed,
                                    rescued_amount: rescued,
                                    executed_at: now,
                                    ..self.emergency_of(p)
                                },
                            ),
                            events: s1.events.push(
                                EscrowEvent::EmergencyWithdrawExecuted { project_id: p, admin, rescued_amount: rescued },
                            ),
                            ..s1
                        },
                        Ok(rescued),
                    ),
                }
            },
        }
    }

    pub open spec fn spec_configure_yield_router(
        self,
        admin: Address,
        pool_contract: Address,
        yield_token: Address,
        liquidity_reserve_bps: u32,
    ) -> (EscrowState, Result<(), Error>) {
        match self.admin_check(admin) {
            Some(e) => (self, Err(e)),
            None => if liquidity_reserve_bps > 10000 {
                (self, Err(Error::InvInput))
            } else {
                (
                    EscrowState {
                        yield_config: Some(
                            YieldRouterConfig { pool_contract, yield_token, enabled: true, liquidity_reserve_bps },
                        ),
                        events: self.events.push(EscrowEvent::YieldConfigured { admin, liquidity_reserve_bps }),
                        ..self
                    },
                    Ok(()),
                )
            },
        }
    }

    pub open spec fn spec_enable_yield_for_escrow(self, p: u64, admin: Address) -> (
        EscrowState,
        Result<(), Error>,
    ) {
        match self.admin_check(admin) {
            Some(e) => (self, Err(e)),
            None => (
                EscrowState {
                    yield_states: self.yield_states.insert(
                        p,
                        EscrowYieldState { routing_enabled: true, ..self.yield_state_of(p) },
                    ),
                    emergency: self.emergency.insert(p, spec_idle_emergency()),
                    ..self
                },
                Ok(()),
            ),
        }
    }

    /// What a loss can take from an escrow's deposits: they never drop below
    /// what was released nor below what the milestones commit, the two
    /// bounds on deposits that the escrow keeps at all times.
    pub open spec fn deposit_floor(self, p: u64) -> int {
        let released = self.escrows[p].released_amount as int;
        let committed = milestone_total(self.milestones[p]);
        if released < committed {
            committed
        } else {
            released
        }
    }

    /// Outcome of withdrawing everything deployed for a project, given the
    /// balance the pool reports: the yield (what the balance exceeds the
    /// principal by, negative after a loss) is returned, added to the
    /// harvested total and credited to the escrow's deposits. A loss is
    /// credited down to the escrow's `deposit_floor` and no further, so
    /// releases and milestones stay within the deposits.
    pub open spec fn spec_withdraw_from_pool(self, p: u64, pool_balance: Amount) -> (
        EscrowState,
        Result<Amount, Error>,
    ) {
        let ys = self.yield_state_of(p);
        if self.yield_config is None {
            (self, Err(Error::InvInput))
        } else if ys.deployed_principal == 0 {
            (self, Ok(0))
        } else {
            let earned = spec_sat_sub(pool_balance as int, ys.deployed_principal as int);
            let credited = self.escrows.contains_key(p);
            let sum = self.escrows[p].total_deposited + earned;
            let new_total = if sum < self.deposit_floor(p) {
                self.deposit_floor(p)
            } else {
                sum
            };
            if ys.total_yield_harvested + earned > i128::MAX || ys.total_yield_harvested + earned
                < i128::MIN {
                (self, Err(Error::InvInput))
            } else if credited && new_total > i128::MAX {
                (self, Err(Error::InvInput))
            } else {
                let escrows = if credited {
                    self.escrows.insert(
                        p,
                        EscrowSpec {
                            total_deposited: new_total as i128,
                            ..self.escrows[p]
                        },
                    )
                } else {
                    self.escrows
                };
                (
                    EscrowState {
                        escrows,
                        yield_states: self.yield_states.insert(
                            p,
                            EscrowYieldState {
                                total_yield_harvested: (ys.total_yield_harvested + earned) as i128,
                                deployed_principal: 0,
                                ..ys
                            },
                        ),
                        effects: self.effects.push(
                            Effect::PoolWithdraw {
                                pool: self.yield_config->0.pool_contract,
                                recipient: self.contract_address,
                                amount: pool_balance,
                            },
                        ),
                        events: self.events.push(
                            EscrowEvent::YieldWithdrawn { project_id: p, pool_balance, yield_earned: earned as i128 },
                        ),
                        ..self
                    },
                    Ok(earned as i128),
                )
            }
        }
    }

    pub open spec fn spec_disable_yield_for_escrow(self, p: u64, admin: Address, pool_balance: Amount) -> (
        EscrowState,
        Result<(), Error>,
    ) {
        match self.admin_check(admin) {
            Some(e) => (self, Err(e)),
            None => {
                let (s1, r) = self.spec_withdraw_from_pool(p, pool_balance);
                match r {
                    Err(e) => (self, Err(e)),
                    Ok(_) => (
                        EscrowState {
                            yield_states: s1.yield_states.insert(
                                p,
                                EscrowYieldState { routing_enabled: false, ..s1.yield_state_of(p) },
                            ),
                            ..s1
                        },
                        Ok(()),
                    ),
                }
            },
        }
    }

    /// Funds of an escrow that could go to the pool without touching the
    /// liquidity reserve: idle funds (deposits less releases and deployed
    /// principal, each subtraction saturating) less the reserve.
    pub open spec fn spec_deployable(e: EscrowSpec, ys: EscrowYieldState, reserve_bps: u32) -> int {
        let reserve = trunc_div(e.total_deposited * reserve_bps, 10000);
        let idle = spec_sat_sub(
            spec_sat_sub(e.total_deposited as int, e.released_amount as int),
            ys.deployed_principal as int,
        );
        spec_sat_sub(idle, reserve)
    }

    /// Whether deploying for project `p` (escrow `e`) gets as far as
    /// working out the liquidity reserve: routing is configured and on,
    /// globally and for `p`, and the pool takes the escrow's token.
    pub open spec fn deploy_reaches_reserve(self, e: EscrowSpec, p: u64) -> bool {
        &&& self.yield_config is Some
        &&& self.yield_config->0.enabled
        &&& self.yield_state_of(p).routing_enabled
        &&& self.yield_config->0.yield_token == e.token
    }

    pub open spec fn spec_deploy_to_pool(self, e: EscrowSpec, p: u64, ledger_sequence: u32) -> (
        EscrowState,
        Result<(), Error>,
    ) {
        if self.yield_config is None {
            (self, Err(Error::InvInput))
        } else if !self.yield_config->0.enabled {
            (self, Ok(()))
        } else if !self.yield_state_of(p).routing_enabled {
            (self, Ok(()))
        } else if self.yield_config->0.yield_token != e.token {
            (self, Err(Error::InvInput))
        } else {
            let cfg = self.yield_config->0;
            let ys = self.yield_state_of(p);
            let deployable = Self::spec_deployable(e, ys, cfg.liquidity_reserve_bps);
            if deployable <= 0 {
                (self, Ok(()))
            } else if ys.deployed_principal + deployable > i128::MAX {
                (self, Err(Error::InvInput))
            } else {
                (
                    EscrowState {
                        yield_states: self.yield_states.insert(
                            p,
                            EscrowYieldState { deployed_principal: (ys.deployed_principal + deployable) as i128, ..ys },
                        ),
                        effects: self.effects.push(
                            Effect::Approve {
                                token: e.token,
                                from: self.contract_address,
                                spender: cfg.pool_contract,
                                amount: deployable as i128,
                                expiration_ledger: (ledger_sequence + POOL_APPROVAL_LEDGERS) as u32,
                            },
                        ).push(
                            Effect::PoolDeposit {
                                pool: cfg.pool_contract,
                                depositor: self.contract_address,
                                amount: deployable as i128,
                            },
                        ),
                        events: self.events.push(
                            EscrowEvent::YieldDeployed { project_id: p, amount: deployable as i128 },
                        ),
                        ..self
                    },
                    Ok(()),
                )
            }
        }
    }

    /// Outcome of pulling back at most `required_amount` from the pool,
    /// given the balance the pool reports.
    pub open spec fn spec_withdraw_partial_from_pool(
        self,
        p: u64,
        required_amount: Amount,
        pool_balance: Amount,
    ) -> (EscrowState, Result<Amount, Error>) {
        let ys = self.yield_state_of(p);
        if self.yield_config is None {
            (self, Err(Error::InvInput))
        } else if ys.deployed_principal == 0 {
            (self, Ok(0))
        } else {
            let amount = if pool_balance <= required_amount { pool_balance } else { required_amount };
            let covered = if ys.deployed_principal <= amount { ys.deployed_principal } else { amount };
            let earned = spec_sat_sub(amount as int, covered as int);
            if ys.total_yield_harvested + earned > i128::MAX || ys.total_yield_harvested + earned
                < i128::MIN {
                (self, Err(Error::InvInput))
            } else {
                (
                    EscrowState {
                        yield_states: self.yield_states.insert(
                            p,
                            EscrowYieldState {
                                deployed_principal: spec_sat_sub(
                                    ys.deployed_principal as int,
                                    amount as int,
                                ) as i128,
                                total_yield_harvested: (ys.total_yield_harvested + earned) as i128,
                                ..ys
                            },
                        ),
                        effects: self.effects.push(
                            Effect::PoolWithdraw {
                                pool: self.yield_config->0.pool_contract,
                                recipient: self.contract_address,
                                amount,
                            },
                        ),
                        events: self.events.push(
                            EscrowEvent::YieldPartiallyWithdrawn {
                                project_id: p,
                                amount,
                                yield_earned: earned as i128,
                            },
                        ),
                        ..self
                    },
                    Ok(amount),
                )
            }
        }
    }
}

/// Keeps the escrow part of the invariant when only non-escrow fields change.
proof fn lemma_wf_frame(s: EscrowState, t: EscrowState)
    requires
        s.wf(),
        t.escrows == s.escrows,
        t.milestones == s.milestones,
        t.jurors == s.jurors,
        t.active_jurors == s.active_jurors,
        t.assignments == s.assignments,
        t.fee_pool == s.fee_pool,
        t.votes == s.votes,
    ensures
        t.wf(),
{
    assert forall|p: u64| #[trigger] t.escrows.contains_key(p) implies escrow_ok(
        p,
        t.escrows[p],
        t.milestones[p],
    ) by {
        assert(s.escrows.contains_key(p));
    }
}

impl EscrowContract {
    /// The error an admin-only call reports for `admin`, if any.
    fn check_admin(&self, admin: Address) -> (r: Option<Error>)
        ensures
            r == self@.admin_check(admin),
    {
        match self.admin {
            None => Some(Error::NotInit),
            Some(a) => if a != admin {
                Some(Error::Unauthorized)
            } else {
                None
            },
        }
    }

    /// Whether the contract is paused.
    pub fn get_is_paused(&self) -> (r: bool)
        ensures
            r == self@.is_paused(),
    {
        self.pause_state.paused
    }

    /// The pending upgrade, if any.
    pub fn get_pending_upgrade(&self) -> (r: Option<PendingUpgrade>)
        ensures
            r == self@.pending_upgrade,
    {
        self.pending_upgrade
    }

    /// Pauses the contract (admin); it may resume once the resume delay has passed.
    pub fn pause(&mut self, admin: Address, now: Timestamp) -> (result: Result<(), Error>)
        requires
            old(self).wf(),
            old(self)@.admin == Some(admin) ==> now + RESUME_TIME_DELAY <= u64::MAX,
        ensures
            final(self).wf(),
            (final(self)@, result) == old(self)@.spec_pause(admin, now),
    {
        if let Some(e) = self.check_admin(admin) {
            return Err(e);
        }
        let ghost old_state = self@;
        self.pause_state = PauseState { paused: true, paused_at: now, resume_not_before: now + RESUME_TIME_DELAY };
        self.events.push(EscrowEvent::ContractPaused { admin, at: now });
        proof {
            assert(self@ =~= old_state.spec_pause(admin, now).0);
            lemma_wf_frame(old_state, self@);
        }
        Ok(())
    }

    /// Lifts the pause (admin), once the resume delay has passed.
    pub fn resume(&mut self, admin: Address, now: Timestamp) -> (result: Result<(), Error>)
        requires
            old(self).wf(),
        ensures
            final(self).wf(),
            (final(self)@, result) == old(self)@.spec_resume(admin, now),
    {
        if let Some(e) = self.check_admin(admin) {
            return Err(e);
        }
        if now < self.pause_state.resume_not_before {
            return Err(Error::ResTooEarly);
        }
        let ghost old_state = self@;
        self.pause_state = PauseState { paused: false, ..self.pause_state };
        self.events.push(EscrowEvent::ContractResumed { admin, at: now });
        proof {
            assert(self@ =~= old_state.spec_resume(admin, now).0);
            lemma_wf_frame(old_state, self@);
        }
        Ok(())
    }

    /// Schedules an upgrade (admin), executable after the time-lock.
    pub fn schedule_upgrade(&mut self, admin: Address, new_wasm_hash: Hash32, now: Timestamp) -> (result:
        Result<(), Error>)
        requires
            old(self).wf(),
            old(self)@.admin == Some(admin) ==> now + UPGRADE_TIME_LOCK_SECS <= u64::MAX,
        ensures
            final(self).wf(),
            (final(self)@, result) == old(self)@.spec_schedule_upgrade(admin, new_wasm_hash, now),
    {
        if let Some(e) = self.check_admin(admin) {
            return Err(e);
        }
        let ghost old_state = self@;
        self.pending_upgrade = Some(
            PendingUpgrade { wasm_hash: new_wasm_hash, execute_not_before: now + UPGRADE_TIME_LOCK_SECS },
        );
        self.events.push(
            EscrowEvent::UpgradeScheduled {
                admin,
                wasm_hash: new_wasm_hash,
                execute_not_before: now + UPGRADE_TIME_LOCK_SECS,
            },
        );
        proof {
            assert(self@ =~= old_state.spec_schedule_upgrade(admin, new_wasm_hash, now).0);
            lemma_wf_frame(old_state, self@);
        }
        Ok(())
    }

    /// Executes the scheduled upgrade (admin) while paused and after the time-lock.
    pub fn execute_upgrade(&mut self, admin: Address, now: Timestamp) -> (result: Result<(), Error>)
        requires
            old(self).wf(),
        ensures
            final(self).wf(),
            (final(self)@, result) == old(self)@.spec_execute_upgrade(admin, now),
    {
        if let Some(e) = self.check_admin(admin) {
            return Err(e);
        }
        if !self.pause_state.paused {
            return Err(Error::UpgReqPause);
        }
        let pending = match self.pending_upgrade {
            Some(p) => p,
            None => return Err(Error::UpgNotSched),
        };
        if now < pending.execute_not_before {
            return Err(Error::UpgTooEarly);
        }
        let ghost old_state = self@;
        self.effects.push(Effect::UpdateWasm { wasm_hash: pending.wasm_hash });
        self.pending_upgrade = None;
        self.events.push(EscrowEvent::UpgradeExecuted { admin, wasm_hash: pending.wasm_hash });
        proof {
            assert(self@ =~= old_state.spec_execute_upgrade(admin, now).0);
            lemma_wf_frame(old_state, self@);
        }
        Ok(())
    }

    /// Drops the scheduled upgrade (admin).
    pub fn cancel_upgrade(&mut self, admin: Address) -> (result: Result<(), Error>)
        requires
            old(self).wf(),
        ensures
            final(self).wf(),
            (final(self)@, result) == old(self)@.spec_cancel_upgrade(admin),
    {
        if let Some(e) = self.check_admin(admin) {
            return Err(e);
        }
        if self.pending_upgrade.is_none() {
            return Err(Error::UpgNotSched);
        }
        let ghost old_state = self@;
        self.pending_upgrade = None;
        self.events.push(EscrowEvent::UpgradeCancelled { admin });
        proof {
            assert(self@ =~= old_state.spec_cancel_upgrade(admin).0);
            lemma_wf_frame(old_state, self@);
        }
        Ok(())
    }

    /// A copy of the emergency rescue record of a project.
    pub fn get_emergency_withdraw_state(&self, project_id: u64) -> (r: EmergencyWithdrawState)
        ensures
            r@ == self@.emergency_of(project_id),
    {
        match self.emergency.get(&project_id) {
            Some(st) => EmergencyWithdrawState {
                status: st.status,
                approvals: vec_copy(&st.approvals),
                rescued_amount: st.rescued_amount,
                executed_at: st.executed_at,
            },
            None => {
                let r = EmergencyWithdrawState {
                    status: EmergencyWithdrawStatus::Idle,
                    approvals: Vec::new(),
                    rescued_amount: 0,
                    executed_at: 0,
                };
                assert(r@ =~= spec_idle_emergency());
                r
            },
        }
    }

    /// Records a validator's co-signature for an emergency rescue while
    /// paused; returns how many validators have co-signed.
    pub fn approve_emergency_withdraw(&mut self, project_id: u64, validator: Address) -> (result: Result<
        u32,
        Error,
    >)
        requires
            old(self).wf(),
        ensures
            final(self).wf(),
            (final(self)@, result) == old(self)@.spec_approve_emergency_withdraw(project_id, validator),
    {
        if !self.pause_state.paused {
            return Err(Error::InvStatus);
        }
        match self.escrows.get(&project_id) {
            Some(e) => {
                if !vec_contains(&e.validators, validator) {
                    return Err(Error::NotValidator);
                }
            },
            None => return Err(Error::NotFound),
        }
        let mut st = self.get_emergency_withdraw_state(project_id);
        if st.status == EmergencyWithdrawStatus::Executed {
            return Err(Error::InvStatus);
        }
        if vec_contains(&st.approvals, validator) {
            return Err(Error::AlreadyVoted);
        }
        let ghost old_state = self@;
        st.approvals.push(validator);
        st.status = EmergencyWithdrawStatus::Pending;
        let count = st.approvals.len() as u32;
        self.emergency.insert(project_id, st);
        self.events.push(
            EscrowEvent::EmergencyWithdrawApproved { project_id, validator, approval_count: count },
        );
        proof {
            let expected = old_state.spec_approve_emergency_withdraw(project_id, validator).0;
            assert(self@.emergency =~= expected.emergency);
            assert(self@ =~= expected);
            lemma_wf_frame(old_state, self@);
        }
        Ok(count)
    }

    /// Pulls `pool_balance`, the balance the pool reports for this
    /// contract, back from the pool and switches routing off for the project.
    fn emergency_withdraw_from_pool(&mut self, project_id: u64, token: Address, pool_balance: Amount) -> (result:
        Result<Amount, Error>)
        requires
            old(self).wf(),
        ensures
            final(self).wf(),
            (final(self)@, result) == old(self)@.spec_emergency_withdraw_from_pool(
                project_id,
                token,
                pool_balance,
            ),
    {
        let cfg = match self.yield_config {
            Some(c) => c,
            None => return Err(Error::InvInput),
        };
        if cfg.yield_token != token {
            return Err(Error::InvInput);
        }
        if pool_balance <= 0 {
            return Err(Error::InsufFunds);
        }
        let ghost old_state = self@;
        self.effects.push(
            Effect::PoolWithdraw { pool: cfg.pool_contract, recipient: self.contract_address, amount: pool_balance },
        );
        let mut ys = self.get_escrow_yield_state(project_id);
        ys.deployed_principal = 0;
        ys.routing_enabled = false;
        self.yield_states.insert(project_id, ys);
        self.events.push(EscrowEvent::YieldRescued { project_id, pool_balance });
        proof {
            let expected = old_state.spec_emergency_withdraw_from_pool(project_id, token, pool_balance).0;
            assert(self@ =~= expected);
            lemma_wf_frame(old_state, self@);
        }
        Ok(pool_balance)
    }

    /// Emergency rescue (admin, while paused, once enough validators
    /// co-signed): withdraws `pool_balance`, everything the pool reports for
    /// this contract, and returns it.
    pub fn admin_emergency_withdraw(
        &mut self,
        project_id: u64,
        admin: Address,
        now: Timestamp,
        pool_balance: Amount,
    ) -> (result: Result<Amount, Error>)
        requires
            old(self).wf(),
            old(self)@.admin_check(admin) is None && old(self)@.is_paused() && old(self)@.escrows.contains_key(
                project_id,
            ) && old(self)@.emergency_of(project_id).status != EmergencyWithdrawStatus::Executed ==> old(
                self,
            )@.escrows[project_id].validators.len() * old(self)@.escrows[project_id].approval_threshold <= u32::MAX,
        ensures
            final(self).wf(),
            (final(self)@, result) == old(self)@.spec_admin_emergency_withdraw(
                project_id,
                admin,
                now,
                pool_balance,
            ),
    {
        if let Some(e) = self.check_admin(admin) {
            return Err(e);
        }
        if !self.pause_state.paused {
            return Err(Error::InvStatus);
        }
        if !self.escrows.contains_key(&project_id) {
            return Err(Error::NotFound);
        }
        let st = self.get_emergency_withdraw_state(project_id);
        if st.status == EmergencyWithdrawStatus::Executed {
            return Err(Error::InvStatus);
        }
        let (required, token) = match self.escrows.get(&project_id) {
            Some(e) => (required_emergency_approvals(e), e.token),
            None => return Err(Error::NotFound),
        };
        if (st.approvals.len() as u64) < (required as u64) {
            return Err(Error::Unauthorized);
        }
        let ghost old_state = self@;
        let rescued = match self.emergency_withdraw_from_pool(project_id, token, pool_balance) {
            Ok(r) => r,
            Err(e) => return Err(e),
        };
        let new_st = EmergencyWithdrawState {
            status: EmergencyWithdrawStatus::Executed,
            approvals: st.approvals,
            rescued_amount: rescued,
            executed_at: now,
        };
        self.emergency.insert(project_id, new_st);
        self.events.push(EscrowEvent::EmergencyWithdrawExecuted { project_id, admin, rescued_amount: rescued });
        proof {
            let expected = old_state.spec_admin_emergency_withdraw(project_id, admin, now, pool_balance).0;
            assert(self@.emergency =~= expected.emergency);
            assert(self@ =~= expected);
            lemma_wf_frame(old_state, self@);
        }
        Ok(rescued)
    }

    /// Sets the global yield-router configuration (admin).
    pub fn configure_yield_router(
        &mut self,
        admin: Address,
        pool_contract: Address,
        yield_token: Address,
        liquidity_reserve_bps: u32,
    ) -> (result: Result<(), Error>)
        requires
            old(self).wf(),
        ensures
            final(self).wf(),
            (final(self)@, result) == old(self)@.spec_configure_yield_router(
                admin,
                pool_contract,
                yield_token,
                liquidity_reserve_bps,
            ),
    {
        if let Some(e) = self.check_admin(admin) {
            return Err(e);
        }
        if liquidity_reserve_bps > 10_000 {
            return Err(Error::InvInput);
        }
        let ghost old_state = self@;
        self.yield_config = Some(YieldRouterConfig { pool_contract, yield_token, enabled: true, liquidity_reserve_bps });
        self.events.push(EscrowEvent::YieldConfigured { admin, liquidity_reserve_bps });
        proof {
            assert(self@ =~= old_state.spec_configure_yield_router(
                admin,
                pool_contract,
                yield_token,
                liquidity_reserve_bps,
            ).0);
            lemma_wf_frame(old_state, self@);
        }
        Ok(())
    }

    /// The global yield-router configuration.
    pub fn get_yield_router_config(&self) -> (r: Result<YieldRouterConfig, Error>)
        ensures
            match self@.yield_config {
                Some(c) => r == Ok::<YieldRouterConfig, Error>(c),
                None => r == Err::<YieldRouterConfig, Error>(Error::InvInput),
            },
    {
        match self.yield_config {
            Some(c) => Ok(c),
            None => Err(Error::InvInput),
        }
    }

    /// The yield state of a project.
    pub fn get_escrow_yield_state(&self, project_id: u64) -> (r: EscrowYieldState)
        ensures
            r == self@.yield_state_of(project_id),
    {
        match self.yield_states.get(&project_id) {
            Some(s) => *s,
            None => EscrowYieldState::new_default(),
        }
    }

    /// Enables yield routing for a project (admin) and resets its rescue record.
    pub fn enable_yield_for_escrow(&mut self, project_id: u64, admin: Address) -> (result: Result<(), Error>)
        requires
            old(self).wf(),
        ensures
            final(self).wf(),
            (final(self)@, result) == old(self)@.spec_enable_yield_for_escrow(project_id, admin),
    {
        if let Some(e) = self.check_admin(admin) {
            return Err(e);
        }
        let ghost old_state = self@;
        let mut ys = self.get_escrow_yield_state(project_id);
        ys.routing_enabled = true;
        self.yield_states.insert(project_id, ys);
        let idle = EmergencyWithdrawState {
            status: EmergencyWithdrawStatus::Idle,
            approvals: Vec::new(),
            rescued_amount: 0,
            executed_at: 0,
        };
        assert(idle@ =~= spec_idle_emergency());
        self.emergency.insert(project_id, idle);
        proof {
            let expected = old_state.spec_enable_yield_for_escrow(project_id, admin).0;
            assert(self@.emergency =~= expected.emergency);
            assert(self@ =~= expected);
            lemma_wf_frame(old_state, self@);
        }
        Ok(())
    }

    /// Withdraws everything deployed for a project; `pool_balance` is the
    /// balance the pool reports for this contract. Returns the yield earned.
    pub fn withdraw_from_pool(&mut self, project_id: u64, pool_balance: Amount) -> (result: Result<
        Amount,
        Error,
    >)
        requires
            old(self).wf(),
        ensures
            final(self).wf(),
            (final(self)@, result) == old(self)@.spec_withdraw_from_pool(project_id, pool_balance),
    {
        let cfg = match self.yield_config {
            Some(c) => c,
            None => return Err(Error::InvInput),
        };
        let mut ys = self.get_escrow_yield_state(project_id);
        if ys.deployed_principal == 0 {
            return Ok(0);
        }
        let earned = sat_sub(pool_balance, ys.deployed_principal);
        let harvested = match ys.total_yield_harvested.checked_add(earned) {
            Some(h) => h,
            None => return Err(Error::InvInput),
        };
        let credited_total = match self.escrows.get(&project_id) {
            Some(e) => {
                let released = e.released_amount;
                let t = match e.total_deposited.checked_add(earned) {
                    Some(t) => t,
                    None => return Err(Error::InvInput),
                };
                proof {
                    let ms = self@.milestones[project_id];
                    assert(escrow_ok(project_id, self@.escrows[project_id], ms));
                    lemma_milestone_total_prefix(ms, ms.len() as int);
                    assert(ms.take(ms.len() as int) =~= ms);
                }
                let committed = match self.get_total_milestone_amount(project_id) {
                    Ok(c) => c,
                    Err(err) => return Err(err),
                };
                let floor = if released < committed {
                    committed
                } else {
                    released
                };
                if t < floor {
                    Some(floor)
                } else {
                    Some(t)
                }
            },
            None => None,
        };
        let ghost old_state = self@;
        self.effects.push(
            Effect::PoolWithdraw { pool: cfg.pool_contract, recipient: self.contract_address, amount: pool_balance },
        );
        ys.total_yield_harvested = harvested;
        ys.deployed_principal = 0;
        self.yield_states.insert(project_id, ys);
        if let Some(total) = credited_total {
            let mut e = self.escrows.remove(&project_id).unwrap();
            e.total_deposited = total;
            self.escrows.insert(project_id, e);
        }
        self.events.push(EscrowEvent::YieldWithdrawn { project_id, pool_balance, yield_earned: earned });
        proof {
            let expected = old_state.spec_withdraw_from_pool(project_id, pool_balance).0;
            assert(self@.escrows =~= expected.escrows);
            assert(self@ =~= expected);
            assert forall|q: u64| #[trigger] self@.escrows.contains_key(q) implies escrow_ok(
                q,
                self@.escrows[q],
                self@.milestones[q],
            ) by {
                assert(old_state.escrows.contains_key(q));
            }
        }
        Ok(earned)
    }

    /// Disables yield routing for a project (admin) after withdrawing its
    /// deployed funds; `pool_balance` is the balance the pool reports.
    pub fn disable_yield_for_escrow(&mut self, project_id: u64, admin: Address, pool_balance: Amount) -> (result:
        Result<(), Error>)
        requires
            old(self).wf(),
        ensures
            final(self).wf(),
            (final(self)@, result) == old(self)@.spec_disable_yield_for_escrow(project_id, admin, pool_balance),
    {
        if let Some(e) = self.check_admin(admin) {
            return Err(e);
        }
        let ghost old_state = self@;
        match self.withdraw_from_pool(project_id, pool_balance) {
            Ok(_) => {},
            Err(e) => return Err(e),
        }
        let ghost mid = self@;
        let mut ys = self.get_escrow_yield_state(project_id);
        ys.routing_enabled = false;
        self.yield_states.insert(project_id, ys);
        proof {
            assert(self@ =~= old_state.spec_disable_yield_for_escrow(project_id, admin, pool_balance).0);
            lemma_wf_frame(mid, self@);
        }
        Ok(())
    }

    /// Deploys the funds of `escrow` that exceed its liquidity reserve into
    /// the pool, approving the pool to pull them until `ledger_sequence` plus
    /// the approval window.
    pub fn deploy_to_pool(&mut self, escrow: &EscrowInfo, project_id: u64, ledger_sequence: u32) -> (result:
        Result<(), Error>)
        requires
            old(self).wf(),
            old(self)@.deploy_reaches_reserve(escrow@, project_id) ==> i128::MIN <= escrow.total_deposited
                * old(self)@.yield_config->0.liquidity_reserve_bps <= i128::MAX,
            old(self)@.deploy_reaches_reserve(escrow@, project_id) && EscrowState::spec_deployable(
                escrow@,
                old(self)@.yield_state_of(project_id),
                old(self)@.yield_config->0.liquidity_reserve_bps,
            ) > 0 ==> ledger_sequence + POOL_APPROVAL_LEDGERS <= u32::MAX,
        ensures
            final(self).wf(),
            (final(self)@, result) == old(self)@.spec_deploy_to_pool(escrow@, project_id, ledger_sequence),
    {
        let cfg = match self.yield_config {
            Some(c) => c,
            None => return Err(Error::InvInput),
        };
        if !cfg.enabled {
            return Ok(());
        }
        let mut ys = self.get_escrow_yield_state(project_id);
        if !ys.routing_enabled {
            return Ok(());
        }
        if cfg.yield_token != escrow.token {
            return Err(Error::InvInput);
        }
        let reserve = (escrow.total_deposited * cfg.liquidity_reserve_bps as i128) / 10_000;
        let idle = sat_sub(sat_sub(escrow.total_deposited, escrow.released_amount), ys.deployed_principal);
        let deployable = sat_sub(idle, reserve);
        if deployable <= 0 {
            return Ok(());
        }
        let deployed = match ys.deployed_principal.checked_add(deployable) {
            Some(d) => d,
            None => return Err(Error::InvInput),
        };
        let ghost old_state = self@;
        self.effects.push(
            Effect::Approve {
                token: escrow.token,
                from: self.contract_address,
                spender: cfg.pool_contract,
                amount: deployable,
                expiration_ledger: ledger_sequence + POOL_APPROVAL_LEDGERS,
            },
        );
        self.effects.push(
            Effect::PoolDeposit { pool: cfg.pool_contract, depositor: self.contract_address, amount: deployable },
        );
        ys.deployed_principal = deployed;
        self.yield_states.insert(project_id, ys);
        self.events.push(EscrowEvent::YieldDeployed { project_id, amount: deployable });
        proof {
            assert(self@ =~= old_state.spec_deploy_to_pool(escrow@, project_id, ledger_sequence).0);
            lemma_wf_frame(old_state, self@);
        }
        Ok(())
    }

    /// Pulls back at most `required_amount` from the pool; `pool_balance`
    /// is the balance the pool reports. Returns the amount withdrawn.
    pub fn withdraw_partial_from_pool(&mut self, project_id: u64, required_amount: Amount, pool_balance: Amount) -> (result:
        Result<Amount, Error>)
        requires
            old(self).wf(),
        ensures
            final(self).wf(),
            (final(self)@, result) == old(self)@.spec_withdraw_partial_from_pool(
                project_id,
                required_amount,
                pool_balance,
            ),
    {
        let cfg = match self.yield_config {
            Some(c) => c,
            None => return Err(Error::InvInput),
        };
        let mut ys = self.get_escrow_yield_state(project_id);
        if ys.deployed_principal == 0 {
            return Ok(0);
        }
        let amount = if pool_balance <= required_amount { pool_balance } else { required_amount };
        let covered = if ys.deployed_principal <= amount { ys.deployed_principal } else { amount };
        let earned = sat_sub(amount, covered);
        let harvested = match ys.total_yield_harvested.checked_add(earned) {
            Some(h) => h,
            None => return Err(Error::InvInput),
        };
        let ghost old_state = self@;
        self.effects.push(
            Effect::PoolWithdraw { pool: cfg.pool_contract, recipient: self.contract_address, amount },
        );
        ys.deployed_principal = sat_sub(ys.deployed_principal, amount);
        ys.total_yield_harvested = harvested;
        self.yield_states.insert(project_id, ys);
        self.events.push(EscrowEvent::YieldPartiallyWithdrawn { project_id, amount, yield_earned: earned });
        proof {
            assert(self@ =~= old_state.spec_withdraw_partial_from_pool(project_id, required_amount, pool_balance).0);
            lemma_wf_frame(old_state, self@);
        }
        Ok(amount)
    }
}

} // verus!
