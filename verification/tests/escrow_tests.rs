use nova_fund::constants::UPGRADE_TIME_LOCK_SECS;
use nova_fund::errors::Error;
use nova_fund::escrow::{EmergencyWithdrawStatus, EscrowContract};
use nova_fund::types::{Address, DisputeResolution, DisputeStatus, Effect, MilestoneStatus};

/// Default threshold used by most tests (67%).
const DEFAULT_THRESHOLD: u32 = 6700;
const CONTRACT: Address = 1;
const START: u64 = 1000;

/// (ledger time, creator, token, third validator, validators)
fn create_test_env() -> (u64, Address, Address, Address, Vec<Address>) {
    let creator: Address = 100;
    let token: Address = 200;
    let validators: Vec<Address> = vec![301, 302, 303];
    (START, creator, token, 303, validators)
}

fn create_client() -> EscrowContract {
    EscrowContract::new(CONTRACT)
}

/// (admin, creator, token, validators, client) with escrow 1 at 67% and a 5% fee.
fn setup_with_admin() -> (Address, Address, Address, Vec<Address>, EscrowContract) {
    let admin: Address = 50;
    let creator: Address = 100;
    let token: Address = 200;
    let validators: Vec<Address> = vec![301, 302, 303];
    let mut client = create_client();
    client.initialize_admin(admin).unwrap();
    client.initialize(1, creator, token, validators.clone(), DEFAULT_THRESHOLD, 500).unwrap();
    (admin, creator, token, validators, client)
}

#[test]
fn test_initialize_escrow() {
    let (_, creator, token, _, validators) = create_test_env();
    let mut client = create_client();
    client.initialize(1, creator, token, validators, DEFAULT_THRESHOLD, 500).unwrap();

    let escrow = client.get_escrow(1).unwrap();
    assert_eq!(escrow.project_id, 1);
    assert_eq!(escrow.creator, creator);
    assert_eq!(escrow.token, token);
    assert_eq!(escrow.total_deposited, 0);
    assert_eq!(escrow.released_amount, 0);
    assert_eq!(escrow.approval_threshold, DEFAULT_THRESHOLD);
    assert_eq!(escrow.management_fee_bps, 500);
}

#[test]
fn test_initialize_with_insufficient_validators() {
    let mut client = create_client();
    let result = client.initialize(1, 100, 200, vec![301], DEFAULT_THRESHOLD, 0);
    assert!(result.is_err());
}

#[test]
fn test_initialize_with_invalid_fee() {
    let (_, creator, token, _, validators) = create_test_env();
    let mut client = create_client();
    let result = client.initialize(1, creator, token, validators, DEFAULT_THRESHOLD, 10001);
    assert!(result.is_err(), "fee above 100% should be rejected");
}

#[test]
fn test_initialize_duplicate_escrow() {
    let (_, creator, token, _, validators) = create_test_env();
    let mut client = create_client();
    client.initialize(1, creator, token, validators.clone(), DEFAULT_THRESHOLD, 0).unwrap();
    let result = client.initialize(1, creator, token, validators, DEFAULT_THRESHOLD, 0);
    assert!(result.is_err());
}

#[test]
fn test_deposit_funds() {
    let (_, creator, token, _, validators) = create_test_env();
    let mut client = create_client();
    client.initialize(1, creator, token, validators, DEFAULT_THRESHOLD, 0).unwrap();

    let deposit_amount: i128 = 1000;
    let result = client.deposit(1, deposit_amount);
    assert!(result.is_ok());

    let escrow = client.get_escrow(1).unwrap();
    assert_eq!(escrow.total_deposited, deposit_amount);
}

#[test]
fn test_deposit_invalid_amount() {
    let (_, creator, token, _, validators) = create_test_env();
    let mut client = create_client();
    client.initialize(1, creator, token, validators, DEFAULT_THRESHOLD, 0).unwrap();

    let result = client.deposit(1, 0);
    assert!(result.is_err());

    let result = client.deposit(1, -100);
    assert!(result.is_err());
}

#[test]
fn test_create_milestone() {
    let (now, creator, token, _, validators) = create_test_env();
    let mut client = create_client();
    client.initialize(1, creator, token, validators, DEFAULT_THRESHOLD, 0).unwrap();
    client.deposit(1, 1000).unwrap();

    let description_hash = [1u8; 32];
    client.create_milestone(1, description_hash, 500, now).unwrap();

    let milestone = client.get_milestone(1, 0).unwrap();
    assert_eq!(milestone.id, 0);
    assert_eq!(milestone.project_id, 1);
    assert_eq!(milestone.amount, 500);
    assert_eq!(milestone.status, MilestoneStatus::Pending);
    assert_eq!(milestone.description_hash, description_hash);
}

#[test]
fn test_create_milestone_exceeds_escrow() {
    let (now, creator, token, _, validators) = create_test_env();
    let mut client = create_client();
    client.initialize(1, creator, token, validators, DEFAULT_THRESHOLD, 0).unwrap();
    client.deposit(1, 500).unwrap();

    let description_hash = [2u8; 32];
    let result = client.create_milestone(1, description_hash, 1000, now);
    assert!(result.is_err());
}

#[test]
fn test_create_multiple_milestones() {
    let (now, creator, token, _, validators) = create_test_env();
    let mut client = create_client();
    client.initialize(1, creator, token, validators, DEFAULT_THRESHOLD, 0).unwrap();
    client.deposit(1, 3000).unwrap();

    client.create_milestone(1, [1u8; 32], 1000, now).unwrap();
    client.create_milestone(1, [2u8; 32], 1000, now).unwrap();
    client.create_milestone(1, [3u8; 32], 1000, now).unwrap();

    assert!(client.get_milestone(1, 0).unwrap().id == 0);
    assert!(client.get_milestone(1, 1).unwrap().id == 1);
    assert!(client.get_milestone(1, 2).unwrap().id == 2);

    let total = client.get_total_milestone_amount(1).unwrap();
    assert_eq!(total, 3000);
}

#[test]
fn test_submit_milestone() {
    let (now, creator, token, _, validators) = create_test_env();
    let mut client = create_client();
    client.initialize(1, creator, token, validators, DEFAULT_THRESHOLD, 0).unwrap();
    client.deposit(1, 1000).unwrap();
    client.create_milestone(1, [1u8; 32], 500, now).unwrap();

    let proof_hash = [9u8; 32];
    client.submit_milestone(1, 0, proof_hash).unwrap();

    let milestone = client.get_milestone(1, 0).unwrap();
    assert_eq!(milestone.status, MilestoneStatus::Submitted);
    assert_eq!(milestone.proof_hash, proof_hash);
}

#[test]
fn test_submit_milestone_invalid_status() {
    let (now, creator, token, _, validators) = create_test_env();
    let mut client = create_client();
    client.initialize(1, creator, token, validators, DEFAULT_THRESHOLD, 0).unwrap();
    client.deposit(1, 1000).unwrap();
    client.create_milestone(1, [1u8; 32], 500, now).unwrap();
    client.submit_milestone(1, 0, [9u8; 32]).unwrap();

    let result = client.submit_milestone(1, 0, [10u8; 32]);
    assert!(result.is_err());
}

#[test]
fn test_get_available_balance() {
    let (_, creator, token, _, validators) = create_test_env();
    let mut client = create_client();
    client.initialize(1, creator, token, validators, DEFAULT_THRESHOLD, 0).unwrap();

    client.deposit(1, 1000).unwrap();
    assert_eq!(client.get_available_balance(1).unwrap(), 1000);

    client.deposit(1, 500).unwrap();
    assert_eq!(client.get_available_balance(1).unwrap(), 1500);
}

#[test]
fn test_escrow_not_found() {
    let client = create_client();
    let result = client.get_escrow(999);
    assert!(result.is_err());
}

#[test]
fn test_milestone_not_found() {
    let (_, creator, token, _, validators) = create_test_env();
    let mut client = create_client();
    client.initialize(1, creator, token, validators, DEFAULT_THRESHOLD, 0).unwrap();

    let result = client.get_milestone(1, 999);
    assert!(result.is_err());
}

#[test]
fn test_milestone_status_transitions() {
    let (now, creator, token, _, validators) = create_test_env();
    let mut client = create_client();
    client.initialize(1, creator, token, validators, DEFAULT_THRESHOLD, 0).unwrap();
    client.deposit(1, 1000).unwrap();
    client.create_milestone(1, [1u8; 32], 500, now).unwrap();

    let milestone = client.get_milestone(1, 0).unwrap();
    assert_eq!(milestone.status, MilestoneStatus::Pending);
    assert_eq!(milestone.approval_count, 0);
    assert_eq!(milestone.rejection_count, 0);

    let proof_hash = [9u8; 32];
    client.submit_milestone(1, 0, proof_hash).unwrap();

    let milestone = client.get_milestone(1, 0).unwrap();
    assert_eq!(milestone.status, MilestoneStatus::Submitted);
    assert_eq!(milestone.proof_hash, proof_hash);
}

#[test]
fn test_deposit_updates_correctly() {
    let (_, creator, token, _, validators) = create_test_env();
    let mut client = create_client();
    client.initialize(1, creator, token, validators, DEFAULT_THRESHOLD, 0).unwrap();

    client.deposit(1, 500).unwrap();
    assert_eq!(client.get_escrow(1).unwrap().total_deposited, 500);

    client.deposit(1, 300).unwrap();
    assert_eq!(client.get_escrow(1).unwrap().total_deposited, 800);

    client.deposit(1, 200).unwrap();
    assert_eq!(client.get_escrow(1).unwrap().total_deposited, 1000);
}

#[test]
fn test_multiple_projects_isolated() {
    let mut client = create_client();
    client.initialize(1, 100, 200, vec![301, 302, 303], DEFAULT_THRESHOLD, 0).unwrap();

    let escrow1 = client.get_escrow(1).unwrap();
    assert_eq!(escrow1.project_id, 1);
}

#[test]
fn test_juror_registration() {
    let mut client = create_client();
    client.initialize_admin(50).unwrap();
    client.configure_dispute_token(200).unwrap();

    let juror: Address = 700;
    let stake: i128 = 500_0000000;

    client.register_as_juror(juror, stake).unwrap();
    assert!(client.register_as_juror(juror, stake).is_err());

    client.deregister_as_juror(juror).unwrap();
    assert!(client.deregister_as_juror(juror).is_err());
}

#[test]
fn test_initialize_with_low_threshold() {
    let (_, creator, token, _, validators) = create_test_env();
    let mut client = create_client();
    let result = client.initialize(1, creator, token, validators, 5000, 0);
    assert!(result.is_err(), "threshold below 51% should be rejected");
}

#[test]
fn test_initialize_with_threshold_above_100() {
    let (_, creator, token, _, validators) = create_test_env();
    let mut client = create_client();
    let result = client.initialize(1, creator, token, validators, 10100, 0);
    assert!(result.is_err(), "threshold above 100% should be rejected");
}

#[test]
fn test_minimum_valid_threshold_accepted() {
    let (_, creator, token, _, validators) = create_test_env();
    let mut client = create_client();
    let result = client.initialize(1, creator, token, validators, 5100, 0);
    assert!(result.is_ok(), "5100 basis points (51%) should be accepted");
}

#[test]
fn test_maximum_valid_threshold_accepted() {
    let (_, creator, token, _, validators) = create_test_env();
    let mut client = create_client();
    let result = client.initialize(1, creator, token, validators, 10000, 0);
    assert!(result.is_ok(), "10000 basis points (100%) should be accepted");
}

#[test]
fn test_different_projects_have_independent_thresholds() {
    let mut client = create_client();
    let validators: Vec<Address> = vec![301, 302, 303];
    client.initialize(1, 100, 200, validators.clone(), 6700, 0).unwrap();
    client.initialize(2, 100, 200, validators, 10000, 1000).unwrap();

    assert_eq!(client.get_escrow(1).unwrap().approval_threshold, 6700);
    assert_eq!(client.get_escrow(2).unwrap().approval_threshold, 10000);
}

#[test]
fn test_dispute_happy_path() {
    let (now, creator, token, _, validators) = create_test_env();
    let mut client = create_client();
    client.initialize_admin(50).unwrap();
    client.configure_dispute_token(900).unwrap();

    // 100% threshold: all three validators must approve.
    client.initialize(1, creator, token, validators.clone(), 10000, 0).unwrap();

    for k in 0..7u64 {
        client.register_as_juror(1000 + k, 500_0000000).unwrap();
    }

    client.deposit(1, 1000).unwrap();
    client.create_milestone(1, [1u8; 32], 500, now).unwrap();
    client.submit_milestone(1, 0, [9u8; 32]).unwrap();

    client.vote_milestone(1, 0, validators[0], true).unwrap();
    assert_eq!(
        client.get_milestone(1, 0).unwrap().status,
        MilestoneStatus::Submitted,
        "one approval should not be enough with 100% threshold"
    );

    client.vote_milestone(1, 0, validators[1], true).unwrap();
    assert_eq!(
        client.get_milestone(1, 0).unwrap().status,
        MilestoneStatus::Submitted,
        "two approvals should not be enough with 100% threshold"
    );

    client.vote_milestone(1, 0, validators[2], true).unwrap();
    assert_eq!(
        client.get_milestone(1, 0).unwrap().status,
        MilestoneStatus::Approved,
        "all three approvals should trigger approval with 100% threshold"
    );
}

#[test]
fn test_dispute_appeals_path() {
    let (start, creator, token, _, validators) = create_test_env();
    let mut client = create_client();
    client.initialize_admin(50).unwrap();
    client.configure_dispute_token(900).unwrap();
    client.initialize(1, creator, token, validators.clone(), DEFAULT_THRESHOLD, 0).unwrap();

    for k in 0..20u64 {
        client.register_as_juror(1000 + k, 500_0000000).unwrap();
    }

    client.deposit(1, 1000).unwrap();
    client.create_milestone(1, [1u8; 32], 500, start).unwrap();
    let proof_hash = [9u8; 32];
    client.submit_milestone(1, 0, proof_hash).unwrap();

    // Two rejections to trigger a dispute.
    client.vote_milestone(1, 0, validators[0], false).unwrap();
    client.vote_milestone(1, 0, validators[1], false).unwrap();

    let dispute_id = client.initiate_dispute(1, 0, creator, 0, start).unwrap();
    let draws: Vec<u64> = vec![0; 30];
    client.select_jury(dispute_id, start, &draws).unwrap();

    // Each juror commits to RelFunds with the same salt: the commitment is
    // the SHA-256 digest of the vote's tag followed by the salt.
    let env = soroban_sdk::Env::default();
    let salt: Vec<u8> = vec![123u8; 32];
    let mut preimage: Vec<u8> = vec![0u8];
    preimage.extend_from_slice(&salt);
    let h: [u8; 32] = env.crypto().sha256(&soroban_sdk::Bytes::from_slice(&env, &preimage)).to_array();

    let assigned = client.get_juror_assignments(dispute_id).unwrap();
    assert_eq!(assigned.len(), 7);
    for i in 0..7 {
        client.commit_vote(dispute_id, assigned[i], h, start).unwrap();
    }

    let reveal_time = start + 259201;
    for j in 0..7 {
        client.reveal_vote(&env, dispute_id, assigned[j], DisputeResolution::RelFunds, 0, &salt, reveal_time).unwrap();
    }

    let tally_time = reveal_time + 172801;
    client.tally_votes(dispute_id, tally_time).unwrap();
    let dispute = client.get_dispute(dispute_id).unwrap();
    assert_eq!(dispute.status, DisputeStatus::Resolved);
    assert_eq!(dispute.resolution, DisputeResolution::RelFunds);

    // File an appeal.
    let appellant: Address = 4242;
    client.file_appeal(dispute_id, appellant, tally_time, &draws).unwrap();

    // Re-submit the milestone so validators can vote on it again.
    client.submit_milestone(1, 0, proof_hash).unwrap();

    client.vote_milestone(1, 0, validators[0], true).unwrap();
    assert_eq!(
        client.get_milestone(1, 0).unwrap().status,
        MilestoneStatus::Submitted,
        "one approval should not meet the 67% threshold with 3 validators"
    );

    client.vote_milestone(1, 0, validators[1], true).unwrap();
    assert_eq!(
        client.get_milestone(1, 0).unwrap().status,
        MilestoneStatus::Approved,
        "two approvals should meet the 67% threshold with 3 validators"
    );
}

#[test]
fn test_is_paused_defaults_to_false() {
    let (_, _, _, _, client) = setup_with_admin();
    assert!(!client.get_is_paused());
}

#[test]
fn test_pause_sets_paused_state() {
    let (admin, _, _, _, mut client) = setup_with_admin();
    client.pause(admin, START).unwrap();
    assert!(client.get_is_paused());
}

#[test]
fn test_pause_blocks_deposit() {
    let (admin, _, _, _, mut client) = setup_with_admin();
    client.pause(admin, START).unwrap();
    let result = client.deposit(1, 500);
    assert!(result.is_err(), "deposit should be blocked when paused");
}

#[test]
fn test_pause_blocks_create_milestone() {
    let (admin, _, _, _, mut client) = setup_with_admin();
    client.deposit(1, 1000).unwrap();
    client.pause(admin, START).unwrap();

    let result = client.create_milestone(1, [1u8; 32], 500, START);
    assert!(result.is_err(), "create_milestone should be blocked when paused");
}

#[test]
fn test_pause_blocks_submit_milestone() {
    let (admin, _, _, _, mut client) = setup_with_admin();
    client.deposit(1, 1000).unwrap();
    client.create_milestone(1, [1u8; 32], 500, START).unwrap();
    client.pause(admin, START).unwrap();

    let result = client.submit_milestone(1, 0, [9u8; 32]);
    assert!(result.is_err(), "submit_milestone should be blocked when paused");
}

#[test]
fn test_pause_blocks_vote_milestone() {
    let (admin, _, _, validators, mut client) = setup_with_admin();
    client.deposit(1, 1000).unwrap();
    client.create_milestone(1, [1u8; 32], 500, START).unwrap();
    client.submit_milestone(1, 0, [9u8; 32]).unwrap();
    client.pause(admin, START).unwrap();

    let result = client.vote_milestone(1, 0, validators[0], true);
    assert!(result.is_err(), "vote_milestone should be blocked when paused");
}

#[test]
fn test_resume_before_time_delay_fails() {
    let (admin, _, _, _, mut client) = setup_with_admin();
    client.pause(admin, START).unwrap();

    let result = client.resume(admin, START + 3600);
    assert!(result.is_err(), "resume should fail before time delay expires");
}

#[test]
fn test_resume_after_time_delay_succeeds() {
    let (admin, _, _, _, mut client) = setup_with_admin();
    client.pause(admin, START).unwrap();

    let result = client.resume(admin, START + 86400 + 1);
    assert!(result.is_ok(), "resume should succeed after time delay");
    assert!(!client.get_is_paused());
}

#[test]
fn test_operations_work_after_resume() {
    let (admin, _, _, _, mut client) = setup_with_admin();
    client.pause(admin, START).unwrap();
    client.resume(admin, START + 86400 + 1).unwrap();

    let result = client.deposit(1, 500);
    assert!(result.is_ok(), "deposit should work after resume");
}

#[test]
fn test_only_admin_can_pause() {
    let (_, _, _, _, mut client) = setup_with_admin();
    let random: Address = 9999;
    let result = client.pause(random, START);
    assert!(result.is_err(), "non-admin should not be able to pause");
}

#[test]
fn test_only_admin_can_resume() {
    let (admin, _, _, _, mut client) = setup_with_admin();
    client.pause(admin, START).unwrap();

    let random: Address = 9999;
    let result = client.resume(random, START + 86400 + 1);
    assert!(result.is_err(), "non-admin should not be able to resume");
}

#[test]
fn test_schedule_upgrade_succeeds() {
    let (admin, _, _, _, mut client) = setup_with_admin();
    let wasm_hash = [42u8; 32];
    let result = client.schedule_upgrade(admin, wasm_hash, START);
    assert!(result.is_ok());

    let pending = client.get_pending_upgrade();
    assert!(pending.is_some());
    let p = pending.unwrap();
    assert_eq!(p.wasm_hash, wasm_hash);
    assert_eq!(p.execute_not_before, 1000 + UPGRADE_TIME_LOCK_SECS);
}

#[test]
fn test_execute_upgrade_too_early_fails() {
    let (admin, _, _, _, mut client) = setup_with_admin();
    client.schedule_upgrade(admin, [42u8; 32], START).unwrap();
    client.pause(admin, START).unwrap();

    let result = client.execute_upgrade(admin, START + 3600);
    assert!(result.is_err(), "execute_upgrade should fail before 48h");
}

#[test]
fn test_execute_upgrade_without_pause_fails() {
    let (admin, _, _, _, mut client) = setup_with_admin();
    client.schedule_upgrade(admin, [42u8; 32], START).unwrap();

    let result = client.execute_upgrade(admin, START + UPGRADE_TIME_LOCK_SECS + 1);
    assert!(result.is_err(), "execute_upgrade should fail when not paused");
}

#[test]
fn test_cancel_upgrade_clears_pending() {
    let (admin, _, _, _, mut client) = setup_with_admin();
    client.schedule_upgrade(admin, [42u8; 32], START).unwrap();
    assert!(client.get_pending_upgrade().is_some());

    client.cancel_upgrade(admin).unwrap();
    assert!(client.get_pending_upgrade().is_none());
}

#[test]
fn test_only_admin_can_schedule_upgrade() {
    let (_, _, _, _, mut client) = setup_with_admin();
    let random: Address = 9999;
    let result = client.schedule_upgrade(random, [42u8; 32], START);
    assert!(result.is_err());
}

#[test]
fn test_claim_yield_happy_path() {
    let (_, creator, token, _, validators) = create_test_env();
    let mut client = create_client();
    let profit_dist: Address = 777;

    // 5% management fee.
    client.initialize(1, creator, token, validators, DEFAULT_THRESHOLD, 500).unwrap();
    client.deposit(1, 1000).unwrap();

    // The token reports a balance of 1200: 200 of yield, 10 to the creator, 190 to investors.
    client.claim_yield(1, profit_dist, 1200).unwrap();
    let effects = client.take_effects();
    assert_eq!(effects.len(), 3);
    assert!(matches!(effects[0], Effect::Transfer { to, amount: 10, .. } if to == creator));
    assert!(matches!(effects[1], Effect::Transfer { to, amount: 190, .. } if to == profit_dist));
    assert!(matches!(effects[2], Effect::ProfitDeposit { project_id: 1, amount: 190, .. }));
}

#[test]
fn test_claim_yield_no_yield() {
    let (_, creator, token, _, validators) = create_test_env();
    let mut client = create_client();
    client.initialize(1, creator, token, validators, DEFAULT_THRESHOLD, 500).unwrap();
    let profit_dist: Address = 777;

    // No tokens in the contract: nothing to claim.
    let result = client.claim_yield(1, profit_dist, 0);
    assert!(result.is_err());
    assert_eq!(result, Err(Error::NoClaim));
}

#[test]
fn test_admin_emergency_withdraw_requires_validator_multisig() {
    let (admin, _, token, validators, mut client) = setup_with_admin();
    let pool_id: Address = 555;
    client.configure_yield_router(admin, pool_id, token, 2000).unwrap();
    client.pause(admin, START).unwrap();

    assert_eq!(client.approve_emergency_withdraw(1, validators[0]).unwrap(), 1);
    // The pool reports a balance of 750 for the escrow.
    let early_result = client.admin_emergency_withdraw(1, admin, START, 750);
    assert!(early_result.is_err(), "admin execution should require multisig approvals");

    assert_eq!(client.approve_emergency_withdraw(1, validators[1]).unwrap(), 2);
    let rescued_amount = client.admin_emergency_withdraw(1, admin, START, 750).unwrap();
    assert_eq!(rescued_amount, 750);

    let state = client.get_emergency_withdraw_state(1);
    assert_eq!(state.status, EmergencyWithdrawStatus::Executed);
    assert_eq!(state.rescued_amount, 750);
    assert_eq!(state.approvals.len(), 2);
}

#[test]
fn test_emergency_withdraw_rejects_non_validator_approval() {
    let (admin, _, token, _, mut client) = setup_with_admin();
    let pool_id: Address = 555;
    client.configure_yield_router(admin, pool_id, token, 2000).unwrap();
    client.pause(admin, START).unwrap();

    let random: Address = 9999;
    let result = client.approve_emergency_withdraw(1, random);
    assert!(result.is_err(), "only escrow validators may co-sign emergency rescue");
}
