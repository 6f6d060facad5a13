use nova_fund::audit_query::UpgradeAuditQueryContract;
use nova_fund::limit_orders::{OrderStatus, OrderType};
use nova_fund::project_launch::ProjectLaunchContract;
use nova_fund::types::{Effect, PendingUpgrade};
use nova_fund::upgrade_audit::{execute_upgrade, UpgradeAuditLog, UpgradeEvent};

const OLD: [u8; 32] = [1u8; 32];
const NEW: [u8; 32] = [2u8; 32];

#[test]
fn test_upgrade_scheduled_emits_audit_event() {
    let mut c = ProjectLaunchContract::new(None);
    let id = c.schedule_upgrade(5, NEW, 9, OLD, 77, 1000);
    assert_eq!(id, 77);
    let events = c.take_events();
    assert_eq!(events.len(), 1);
    match &events[0] {
        UpgradeEvent::Scheduled { upgrade_id, old_hash, new_hash, proposal_id, executor, time_lock_expires } => {
            assert_eq!(*upgrade_id, 77);
            assert_eq!(*old_hash, OLD);
            assert_eq!(*new_hash, NEW);
            assert_eq!(*proposal_id, 9);
            assert_eq!(*executor, 5);
            assert_eq!(*time_lock_expires, 1000 + 172_800);
        },
        _ => panic!("expected a scheduled event"),
    }
}

#[test]
fn test_upgrade_executed_logs_completion() {
    let mut c = ProjectLaunchContract::new(Some(PendingUpgrade { wasm_hash: NEW, execute_not_before: 0 }));
    c.execute_upgrade(6, OLD, 80, 2000);
    assert!(c.pending_upgrade().is_none());
    let effects = c.take_effects();
    assert!(matches!(effects[0], Effect::UpdateWasm { wasm_hash } if wasm_hash == NEW));
    let events = c.take_events();
    match &events[0] {
        UpgradeEvent::Executed { executor, executed_at, new_hash, .. } => {
            assert_eq!(*executor, 6);
            assert_eq!(*executed_at, 2000);
            assert_eq!(*new_hash, NEW);
        },
        _ => panic!("expected an executed event"),
    }
}

#[test]
fn test_upgrade_cancelled_logs_reason() {
    let mut c = ProjectLaunchContract::new(Some(PendingUpgrade { wasm_hash: NEW, execute_not_before: 0 }));
    c.cancel_upgrade(4, String::from("security review"), OLD, 81);
    assert!(c.pending_upgrade().is_none());
    let events = c.take_events();
    match &events[0] {
        UpgradeEvent::Cancelled { executor, reason, .. } => {
            assert_eq!(*executor, 4);
            assert_eq!(reason, "security review");
        },
        _ => panic!("expected a cancelled event"),
    }
    // With nothing pending, cancelling records nothing.
    c.cancel_upgrade(4, String::from("again"), OLD, 82);
    assert!(c.take_events().is_empty());
}

#[test]
fn test_audit_log_contains_proposal_id() {
    let mut log: Vec<UpgradeEvent> = Vec::new();
    UpgradeAuditLog::emit_upgrade_initiated(&mut log, 1, &OLD, &NEW, 42, &3);
    assert!(matches!(log[0], UpgradeEvent::Initiated { proposal_id: 42, initiator: 3, .. }));
    let mut effects: Vec<Effect> = Vec::new();
    execute_upgrade(&mut effects, &mut log, NEW, OLD, 43);
    assert!(matches!(log[1], UpgradeEvent::Upgraded { proposal_id: 43, .. }));
}

#[test]
fn test_audit_log_contains_hashes() {
    let mut log: Vec<UpgradeEvent> = Vec::new();
    UpgradeAuditLog::emit_upgrade_failed(&mut log, 3, &OLD, &NEW, String::from("trap"));
    match &log[0] {
        UpgradeEvent::Failed { old_hash, new_hash, reason, upgrade_id } => {
            assert_eq!(*old_hash, OLD);
            assert_eq!(*new_hash, NEW);
            assert_eq!(reason, "trap");
            assert_eq!(*upgrade_id, 3);
        },
        _ => panic!("expected a failed event"),
    }
}

#[test]
fn test_audit_query_is_empty() {
    let q = UpgradeAuditQueryContract;
    assert!(q.get_upgrade_history(5).is_empty());
    assert!(q.verify_upgrade_chain(5));
    assert!(q.get_latest_upgrade(5).is_none());
}

#[test]
fn test_order_type_enum() {
    assert_eq!(OrderType::Buy as u32, 0);
    assert_eq!(OrderType::Sell as u32, 1);
}

#[test]
fn test_order_status_enum() {
    assert_eq!(OrderStatus::Active as u32, 0);
    assert_eq!(OrderStatus::PartiallyFilled as u32, 1);
    assert_eq!(OrderStatus::Filled as u32, 2);
    assert_eq!(OrderStatus::Cancelled as u32, 3);
}
