use vstd::prelude::*;
use crate::types::{Address, Effect, Hash32, Timestamp};

verus! {

/// An entry of the on-chain upgrade audit trail, as published to observers.
#[derive(Clone, Debug)]
pub enum UpgradeEvent {
    /// An upgrade was proposed.
    Initiated { upgrade_id: u64, old_hash: Hash32, new_hash: Hash32, proposal_id: u64, initiator: Address },
    /// An upgrade was scheduled; its time-lock runs until `time_lock_expires`.
    Scheduled {
        upgrade_id: u64,
        old_hash: Hash32,
        new_hash: Hash32,
        proposal_id: u64,
        executor: Address,
        time_lock_expires: Timestamp,
    },
    /// An upgrade was carried out.
    Executed {
        upgrade_id: u64,
        old_hash: Hash32,
        new_hash: Hash32,
        proposal_id: u64,
        executor: Address,
        executed_at: Timestamp,
    },
    /// A pending upgrade was withdrawn.
    Cancelled { upgrade_id: u64, old_hash: Hash32, new_hash: Hash32, executor: Address, reason: String },
    /// An upgrade attempt failed.
    Failed { upgrade_id: u64, old_hash: Hash32, new_hash: Hash32, reason: String },
    /// The code was replaced under governance proposal `proposal_id`.
    Upgraded { proposal_id: u32, old_hash: Hash32, new_hash: Hash32 },
}

/// Emitters of the upgrade audit trail. Each appends one event to `log`.
pub struct UpgradeAuditLog;

impl UpgradeAuditLog {
    pub fn emit_upgrade_initiated(
        log: &mut Vec<UpgradeEvent>,
        upgrade_id: u64,
        old_hash: &Hash32,
        new_hash: &Hash32,
        proposal_id: u64,
        initiator: &Address,
    )
        ensures
            final(log)@ == old(log)@.push(
                UpgradeEvent::Initiated {
                    upgrade_id,
                    old_hash: *old_hash,
                    new_hash: *new_hash,
                    proposal_id,
                    initiator: *initiator,
                },
            ),
    {
        log.push(
            UpgradeEvent::Initiated {
                upgrade_id,
                old_hash: *old_hash,
                new_hash: *new_hash,
                proposal_id,
                initiator: *initiator,
            },
        );
    }

    pub fn emit_upgrade_scheduled(
        log: &mut Vec<UpgradeEvent>,
        upgrade_id: u64,
        old_hash: &Hash32,
        new_hash: &Hash32,
        proposal_id: u64,
        executor: &Address,
        time_lock_expires: Timestamp,
    )
        ensures
            final(log)@ == old(log)@.push(
                UpgradeEvent::Scheduled {
                    upgrade_id,
                    old_hash: *old_hash,
                    new_hash: *new_hash,
                    proposal_id,
                    executor: *executor,
                    time_lock_expires,
                },
            ),
    {
        log.push(
            UpgradeEvent::Scheduled {
                upgrade_id,
                old_hash: *old_hash,
                new_hash: *new_hash,
                proposal_id,
                executor: *executor,
                time_lock_expires,
            },
        );
    }

    pub fn emit_upgrade_executed(
        log: &mut Vec<UpgradeEvent>,
        upgrade_id: u64,
        old_hash: &Hash32,
        new_hash: &Hash32,
        proposal_id: u64,
        executor: &Address,
        executed_at: Timestamp,
    )
        ensures
            final(log)@ == old(log)@.push(
                UpgradeEvent::Executed {
                    upgrade_id,
                    old_hash: *old_hash,
                    new_hash: *new_hash,
                    proposal_id,
                    executor: *executor,
                    executed_at,
                },
            ),
    {
        log.push(
            UpgradeEvent::Executed {
                upgrade_id,
                old_hash: *old_hash,
                new_hash: *new_hash,
                proposal_id,
                executor: *executor,
                executed_at,
            },
        );
    }

    pub fn emit_upgrade_cancelled(
        log: &mut Vec<UpgradeEvent>,
        upgrade_id: u64,
        old_hash: &Hash32,
        new_hash: &Hash32,
        executor: &Address,
        reason: String,
    )
        ensures
            final(log)@ == old(log)@.push(
                UpgradeEvent::Cancelled {
                    upgrade_id,
                    old_hash: *old_hash,
                    new_hash: *new_hash,
                    executor: *executor,
                    reason,
                },
            ),
    {
        log.push(
            UpgradeEvent::Cancelled { upgrade_id, old_hash: *old_hash, new_hash: *new_hash, executor: *executor, reason },
        );
    }

    pub fn emit_upgrade_failed(
        log: &mut Vec<UpgradeEvent>,
        upgrade_id: u64,
        old_hash: &Hash32,
        new_hash: &Hash32,
        reason: String,
    )
        ensures
            final(log)@ == old(log)@.push(
                UpgradeEvent::Failed { upgrade_id, old_hash: *old_hash, new_hash: *new_hash, reason },
            ),
    {
        log.push(UpgradeEvent::Failed { upgrade_id, old_hash: *old_hash, new_hash: *new_hash, reason });
    }
}

/// Replaces the running code with `new_wasm_hash` and records the upgrade
/// under `proposal_id`.
pub fn execute_upgrade(
    effects: &mut Vec<Effect>,
    log: &mut Vec<UpgradeEvent>,
    new_wasm_hash: Hash32,
    old_wasm_hash: Hash32,
    proposal_id: u32,
)
    ensures
        final(effects)@ == old(effects)@.push(Effect::UpdateWasm { wasm_hash: new_wasm_hash }),
        final(log)@ == old(log)@.push(
            UpgradeEvent::Upgraded { proposal_id, old_hash: old_wasm_hash, new_hash: new_wasm_hash },
        ),
{
    effects.push(Effect::UpdateWasm { wasm_hash: new_wasm_hash });
    log.push(UpgradeEvent::Upgraded { proposal_id, old_hash: old_wasm_hash, new_hash: new_wasm_hash });
}

} // verus!
