use vstd::prelude::*;
use crate::constants::UPGRADE_TIME_LOCK_SECS;
use crate::types::{Address, Effect, Hash32, PendingUpgrade, Timestamp};
use crate::upgrade_audit::{UpgradeAuditLog, UpgradeEvent};

verus! {

/// Upgrade management of a project-launch contract, with an audit event
/// for every step. The host supplies the running code hash, the ledger
/// sequence (which numbers upgrades) and the time.
pub struct ProjectLaunchContract {
    pub pending: Option<PendingUpgrade>,
    pub events: Vec<UpgradeEvent>,
    pub effects: Vec<Effect>,
}

/// Mathematical view of the contract.
#[verifier::ext_equal]
pub struct LaunchState {
    pub pending: Option<PendingUpgrade>,
    pub events: Seq<UpgradeEvent>,
    pub effects: Seq<Effect>,
}

impl View for ProjectLaunchContract {
    type V = LaunchState;

    closed spec fn view(&self) -> LaunchState {
        LaunchState { pending: self.pending, events: self.events@, effects: self.effects@ }
    }
}

impl ProjectLaunchContract {
    /// The contract with the pending upgrade found in storage, if any.
    pub fn new(pending: Option<PendingUpgrade>) -> (c: ProjectLaunchContract)
        ensures
            c@ == (LaunchState { pending, events: Seq::empty(), effects: Seq::empty() }),
    {
        let c = ProjectLaunchContract { pending, events: Vec::new(), effects: Vec::new() };
        assert(c@ =~= (LaunchState { pending, events: Seq::empty(), effects: Seq::empty() }));
        c
    }

    /// The pending upgrade, if any.
    pub fn pending_upgrade(&self) -> (r: Option<PendingUpgrade>)
        ensures
            r == self@.pending,
    {
        self.pending
    }

    /// Hands out the audit events published so far and forgets them.
    pub fn take_events(&mut self) -> (out: Vec<UpgradeEvent>)
        ensures
            out@ == old(self)@.events,
            final(self)@ == (LaunchState { events: Seq::empty(), ..old(self)@ }),
    {
        let mut out: Vec<UpgradeEvent> = Vec::new();
        std::mem::swap(&mut out, &mut self.events);
        assert(self@ =~= (LaunchState { events: Seq::empty(), ..old(self)@ }));
        out
    }

    /// Hands out the queued code replacements and forgets them.
    pub fn take_effects(&mut self) -> (out: Vec<Effect>)
        ensures
            out@ == old(self)@.effects,
            final(self)@ == (LaunchState { effects: Seq::empty(), ..old(self)@ }),
    {
        let mut out: Vec<Effect> = Vec::new();
        std::mem::swap(&mut out, &mut self.effects);
        assert(self@ =~= (LaunchState { effects: Seq::empty(), ..old(self)@ }));
        out
    }

    /// Announces an upgrade to `new_wasm_hash` under `proposal_id`, whose
    /// time-lock ends 48 hours from `now`; returns the upgrade's id, the
    /// ledger sequence.
    pub fn schedule_upgrade(
        &mut self,
        proposer: Address,
        new_wasm_hash: Hash32,
        proposal_id: u64,
        current_hash: Hash32,
        ledger_sequence: u32,
        now: Timestamp,
    ) -> (upgrade_id: u64)
        requires
            now + UPGRADE_TIME_LOCK_SECS <= u64::MAX,
        ensures
            upgrade_id == ledger_sequence,
            final(self)@ == (LaunchState {
                events: old(self)@.events.push(
                    UpgradeEvent::Scheduled {
                        upgrade_id: ledger_sequence as u64,
                        old_hash: current_hash,
                        new_hash: new_wasm_hash,
                        proposal_id,
                        executor: proposer,
                        time_lock_expires: (now + UPGRADE_TIME_LOCK_SECS) as u64,
                    },
                ),
                ..old(self)@
            }),
    {
        let upgrade_id = ledger_sequence as u64;
        let ghost old_state = self@;
        UpgradeAuditLog::emit_upgrade_scheduled(
            &mut self.events,
            upgrade_id,
            &current_hash,
            &new_wasm_hash,
            proposal_id,
            &proposer,
            now + UPGRADE_TIME_LOCK_SECS,
        );
        assert(self@ =~= (LaunchState {
            events: old_state.events.push(
                UpgradeEvent::Scheduled {
                    upgrade_id: ledger_sequence as u64,
                    old_hash: current_hash,
                    new_hash: new_wasm_hash,
                    proposal_id,
                    executor: proposer,
                    time_lock_expires: (now + UPGRADE_TIME_LOCK_SECS) as u64,
                },
            ),
            ..old_state
        }));
        upgrade_id
    }

    /// Carries out the pending upgrade: the code is replaced, the execution
    /// is recorded, and nothing is pending any more.
    pub fn execute_upgrade(&mut self, executor: Address, current_hash: Hash32, ledger_sequence: u32, now: Timestamp)
        requires
            old(self)@.pending is Some,
        ensures
            final(self)@ == (LaunchState {
                pending: None,
                events: old(self)@.events.push(
                    UpgradeEvent::Executed {
                        upgrade_id: ledger_sequence as u64,
                        old_hash: current_hash,
                        new_hash: old(self)@.pending->0.wasm_hash,
                        proposal_id: 0,
                        executor,
                        executed_at: now,
                    },
                ),
                effects: old(self)@.effects.push(Effect::UpdateWasm { wasm_hash: old(self)@.pending->0.wasm_hash }),
            }),
    {
        let pending = self.pending.unwrap();
        let ghost old_state = self@;
        self.effects.push(Effect::UpdateWasm { wasm_hash: pending.wasm_hash });
        UpgradeAuditLog::emit_upgrade_executed(
            &mut self.events,
            ledger_sequence as u64,
            &current_hash,
            &pending.wasm_hash,
            0,
            &executor,
            now,
        );
        self.pending = None;
        assert(self@ =~= (LaunchState {
            pending: None,
            events: old_state.events.push(
                UpgradeEvent::Executed {
                    upgrade_id: ledger_sequence as u64,
                    old_hash: current_hash,
                    new_hash: pending.wasm_hash,
                    proposal_id: 0,
                    executor,
                    executed_at: now,
                },
            ),
            effects: old_state.effects.push(Effect::UpdateWasm { wasm_hash: pending.wasm_hash }),
        }));
    }

    /// Withdraws the pending upgrade, recording who did so and why; does
    /// nothing when no upgrade is pending.
    pub fn cancel_upgrade(&mut self, admin: Address, reason: String, current_hash: Hash32, ledger_sequence: u32)
        ensures
            old(self)@.pending is None ==> final(self)@ == old(self)@,
            old(self)@.pending is Some ==> final(self)@ == (LaunchState {
                pending: None,
                events: old(self)@.events.push(
                    UpgradeEvent::Cancelled {
                        upgrade_id: ledger_sequence as u64,
                        old_hash: current_hash,
                        new_hash: old(self)@.pending->0.wasm_hash,
                        executor: admin,
                        reason,
                    },
                ),
                ..old(self)@
            }),
    {
        match self.pending {
            Some(upgrade) => {
                let ghost old_state = self@;
                let ghost reason_value = reason;
                UpgradeAuditLog::emit_upgrade_cancelled(
                    &mut self.events,
                    ledger_sequence as u64,
                    &current_hash,
                    &upgrade.wasm_hash,
                    &admin,
                    reason,
                );
                self.pending = None;
                assert(self@ =~= (LaunchState {
                    pending: None,
                    events: old_state.events.push(
                        UpgradeEvent::Cancelled {
                            upgrade_id: ledger_sequence as u64,
                            old_hash: current_hash,
                            new_hash: upgrade.wasm_hash,
                            executor: admin,
                            reason: reason_value,
                        },
                    ),
                    ..old_state
                }));
            },
            None => {},
        }
    }
}

} // verus!
