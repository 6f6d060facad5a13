use nova_fund::constants::{APPEAL_FEE, MIN_JUROR_STAKE, VOTING_COMMIT_PERIOD, VOTING_REVEAL_PERIOD};
use nova_fund::errors::Error;
use nova_fund::escrow::EscrowContract;
use nova_fund::types::{Address, DisputeResolution, DisputeStatus, Effect, EscrowEvent, MilestoneStatus};

const CONTRACT: Address = 1;
const ADMIN: Address = 50;
const CREATOR: Address = 100;
const TOKEN: Address = 200;
const JUROR_TOKEN: Address = 900;
const START: u64 = 1000;
const STAKE: i128 = 500_0000000;

fn validators() -> Vec<Address> {
    vec![301, 302, 303]
}

/// Escrow 1 (67%, no fee) with 1000 deposited, milestone 0 of 500
/// submitted, and `jurors` registered jurors numbered from 1000.
fn setup(jurors: u64) -> EscrowContract {
    let mut c = EscrowContract::new(CONTRACT);
    c.initialize_admin(ADMIN).unwrap();
    c.configure_dispute_token(JUROR_TOKEN).unwrap();
    c.initialize(1, CREATOR, TOKEN, validators(), 6700, 0).unwrap();
    for k in 0..jurors {
        c.register_as_juror(1000 + k, STAKE).unwrap();
    }
    c.deposit(1, 1000).unwrap();
    c.create_milestone(1, [1u8; 32], 500, START).unwrap();
    c.submit_milestone(1, 0, [9u8; 32]).unwrap();
    c
}

/// Every assigned juror commits to and reveals `vote`; returns the time of
/// the tally. A juror drawn again in a later round keeps the vote it
/// already cast on the dispute.
fn vote_and_tally(c: &mut EscrowContract, d: u64, opened_at: u64, vote: DisputeResolution) -> u64 {
    let digest = [77u8; 32];
    let jury = c.get_juror_assignments(d).unwrap();
    for j in jury.iter() {
        let r = c.commit_vote(d, *j, digest, opened_at);
        assert!(r == Ok(()) || r == Err(Error::AlreadyVoted));
    }
    let reveal_at = opened_at + VOTING_COMMIT_PERIOD + 1;
    for j in jury.iter() {
        let r = c.reveal_vote_with_digest(d, *j, vote, 0, digest, reveal_at);
        assert!(r == Ok(()) || r == Err(Error::AlreadyVoted));
    }
    let tally_at = opened_at + VOTING_COMMIT_PERIOD + VOTING_REVEAL_PERIOD + 1;
    c.tally_votes(d, tally_at).unwrap();
    tally_at
}

#[test]
fn test_vote_releases_at_threshold() {
    let mut c = setup(0);
    c.take_effects();
    c.vote_milestone(1, 0, 301, true).unwrap();
    assert_eq!(c.get_escrow(1).unwrap().released_amount, 0);
    assert!(c.take_effects().is_empty());
    // 3 validators at 67%: two approvals are required.
    c.vote_milestone(1, 0, 302, true).unwrap();
    assert_eq!(c.get_milestone(1, 0).unwrap().status, MilestoneStatus::Approved);
    assert_eq!(c.get_escrow(1).unwrap().released_amount, 500);
    let effects = c.take_effects();
    assert_eq!(effects.len(), 1);
    assert!(matches!(effects[0], Effect::Transfer { token: TOKEN, from: CONTRACT, to: CREATOR, amount: 500 }));
    assert_eq!(c.get_available_balance(1).unwrap(), 500);
}

#[test]
fn test_one_vote_per_validator() {
    let mut c = setup(0);
    c.vote_milestone(1, 0, 301, true).unwrap();
    assert_eq!(c.vote_milestone(1, 0, 301, true), Err(Error::AlreadyVoted));
    assert_eq!(c.vote_milestone(1, 0, 301, false), Err(Error::AlreadyVoted));
    assert_eq!(c.vote_milestone(1, 0, 999, true), Err(Error::NotValidator));
    assert_eq!(c.get_milestone(1, 0).unwrap().approval_count, 1);
}

#[test]
fn test_rejection_closes_submission() {
    let mut c = setup(0);
    c.vote_milestone(1, 0, 301, false).unwrap();
    c.vote_milestone(1, 0, 302, false).unwrap();
    assert_eq!(c.get_milestone(1, 0).unwrap().status, MilestoneStatus::Rejected);
    assert_eq!(c.vote_milestone(1, 0, 303, true), Err(Error::MstoneInv));
}

#[test]
fn test_upgrade_effect_after_time_lock() {
    let mut c = setup(0);
    c.schedule_upgrade(ADMIN, [42u8; 32], START).unwrap();
    c.pause(ADMIN, START).unwrap();
    c.take_effects();
    c.execute_upgrade(ADMIN, START + 172_800).unwrap();
    let effects = c.take_effects();
    assert!(matches!(effects[0], Effect::UpdateWasm { wasm_hash } if wasm_hash == [42u8; 32]));
    assert!(c.get_pending_upgrade().is_none());
    assert_eq!(c.execute_upgrade(ADMIN, START + 172_800), Err(Error::UpgNotSched));
}

#[test]
fn test_jury_excludes_creator_and_initiator() {
    let mut c = setup(10);
    // The creator and a backer are registered jurors too.
    c.register_as_juror(CREATOR, STAKE).unwrap();
    c.register_as_juror(4000, STAKE).unwrap();
    let d = c.initiate_dispute(1, 0, 4000, 500_000_000, START).unwrap();
    // Draws that point at the creator and the initiator first.
    let draws: Vec<u64> = vec![10, 10, 0, 0, 0, 0, 0, 0, 0, 0, 0, 0];
    c.select_jury(d, START, &draws).unwrap();
    let jury = c.get_juror_assignments(d).unwrap();
    assert_eq!(jury.len(), 7);
    assert!(!jury.contains(&CREATOR));
    assert!(!jury.contains(&4000));
    assert_eq!(c.get_dispute(d).unwrap().status, DisputeStatus::Voting);
    assert_eq!(c.get_juror(jury[0]).unwrap().active_disputes, 1);
}

#[test]
fn test_dispute_needs_qualifying_backer() {
    let mut c = setup(10);
    assert_eq!(c.initiate_dispute(1, 0, 4000, 1, START), Err(Error::Unauthorized));
    assert_eq!(c.initiate_dispute(1, 0, CREATOR, 0, START), Ok(0));
}

#[test]
fn test_reveal_must_match_commitment() {
    let mut c = setup(10);
    let d = c.initiate_dispute(1, 0, CREATOR, 0, START).unwrap();
    c.select_jury(d, START, &vec![0; 10]).unwrap();
    let jury = c.get_juror_assignments(d).unwrap();
    c.commit_vote(d, jury[0], [5u8; 32], START).unwrap();
    assert_eq!(c.commit_vote(d, jury[0], [5u8; 32], START), Err(Error::AlreadyVoted));
    let reveal_at = START + VOTING_COMMIT_PERIOD + 1;
    // Too early, wrong preimage, or no resolution: refused.
    assert_eq!(c.reveal_vote_with_digest(d, jury[0], DisputeResolution::RelFunds, 0, [5u8; 32], START), Err(Error::RevealNA));
    assert_eq!(c.reveal_vote_with_digest(d, jury[0], DisputeResolution::RelFunds, 0, [6u8; 32], reveal_at), Err(Error::InvReveal));
    assert_eq!(c.reveal_vote_with_digest(d, jury[0], DisputeResolution::NoRes, 0, [5u8; 32], reveal_at), Err(Error::InvInput));
    c.reveal_vote_with_digest(d, jury[0], DisputeResolution::RelFunds, 0, [5u8; 32], reveal_at).unwrap();
    assert_eq!(c.reveal_vote_with_digest(d, jury[0], DisputeResolution::RelFunds, 0, [5u8; 32], reveal_at), Err(Error::AlreadyVoted));
}

#[test]
fn test_reveal_checks_sha256_of_preimage() {
    let env = soroban_sdk::Env::default();
    let mut c = setup(10);
    let d = c.initiate_dispute(1, 0, CREATOR, 0, START).unwrap();
    c.select_jury(d, START, &vec![0; 10]).unwrap();
    let jury = c.get_juror_assignments(d).unwrap();
    // SHA-256 of the single byte 0x00: a release vote with an empty salt.
    let digest: [u8; 32] = [
        0x6e, 0x34, 0x0b, 0x9c, 0xff, 0xb3, 0x7a, 0x98, 0x9c, 0xa5, 0x44, 0xe6, 0xbb, 0x78, 0x0a, 0x2c, 0x78, 0x90,
        0x1d, 0x3f, 0xb3, 0x37, 0x38, 0x76, 0x85, 0x11, 0xa3, 0x06, 0x17, 0xaf, 0xa0, 0x1d,
    ];
    c.commit_vote(d, jury[0], digest, START).unwrap();
    let reveal_at = START + VOTING_COMMIT_PERIOD + 1;
    let salt: Vec<u8> = Vec::new();
    assert_eq!(
        c.reveal_vote(&env, d, jury[0], DisputeResolution::RefBackers, 0, &salt, reveal_at),
        Err(Error::InvReveal)
    );
    c.reveal_vote(&env, d, jury[0], DisputeResolution::RelFunds, 0, &salt, reveal_at).unwrap();
}

#[test]
fn test_silent_jury_refunds_and_is_slashed() {
    let mut c = setup(10);
    let d = c.initiate_dispute(1, 0, CREATOR, 0, START).unwrap();
    c.select_jury(d, START, &vec![0; 10]).unwrap();
    let jury = c.get_juror_assignments(d).unwrap();
    let tally_at = START + VOTING_COMMIT_PERIOD + VOTING_REVEAL_PERIOD;
    // The tally waits for the end of the reveal phase.
    assert_eq!(c.tally_votes(d, tally_at), Err(Error::VoteNA));
    c.tally_votes(d, tally_at + 1).unwrap();
    let dispute = c.get_dispute(d).unwrap();
    assert_eq!(dispute.resolution, DisputeResolution::RefBackers);
    assert_eq!(dispute.status, DisputeStatus::Resolved);
    let penalty = MIN_JUROR_STAKE / 10;
    for j in jury.iter() {
        let info = c.get_juror(*j).unwrap();
        assert_eq!(info.staked_amount, STAKE - penalty);
        assert_eq!(info.missed_votes, 1);
        assert_eq!(info.active_disputes, 0);
    }
    assert_eq!(c.dispute_fee_pool, 7 * penalty);
}

#[test]
fn test_minority_jurors_fund_the_majority() {
    let mut c = setup(10);
    let d = c.initiate_dispute(1, 0, CREATOR, 0, START).unwrap();
    c.select_jury(d, START, &vec![0; 10]).unwrap();
    let jury = c.get_juror_assignments(d).unwrap();
    let digest = [3u8; 32];
    for j in jury.iter() {
        c.commit_vote(d, *j, digest, START).unwrap();
    }
    let reveal_at = START + VOTING_COMMIT_PERIOD + 1;
    // Four jurors for a partial release of 30%, three for a refund.
    for (k, j) in jury.iter().enumerate() {
        let vote = if k < 4 { DisputeResolution::PartRel } else { DisputeResolution::RefBackers };
        c.reveal_vote_with_digest(d, *j, vote, 3000, digest, reveal_at).unwrap();
    }
    c.tally_votes(d, START + VOTING_COMMIT_PERIOD + VOTING_REVEAL_PERIOD + 1).unwrap();
    let dispute = c.get_dispute(d).unwrap();
    assert_eq!(dispute.resolution, DisputeResolution::PartRel);
    assert_eq!(dispute.resolution_payload, 3000);
    // Three penalties, shared by four majority jurors.
    let penalty = MIN_JUROR_STAKE / 10;
    let share = 3 * penalty / 4;
    assert_eq!(c.get_juror(jury[0]).unwrap().staked_amount, STAKE + share);
    assert_eq!(c.get_juror(jury[0]).unwrap().successful_votes, 1);
    assert_eq!(c.get_juror(jury[6]).unwrap().staked_amount, STAKE - penalty);
    assert_eq!(c.dispute_fee_pool, 3 * penalty % 4);
}

#[test]
fn test_appeals_end_in_final_enforcement() {
    let mut c = setup(25);
    c.vote_milestone(1, 0, 301, false).unwrap();
    c.vote_milestone(1, 0, 302, false).unwrap();
    let d = c.initiate_dispute(1, 0, CREATOR, 0, START).unwrap();
    let draws: Vec<u64> = vec![0; 40];

    c.select_jury(d, START, &draws).unwrap();
    let t1 = vote_and_tally(&mut c, d, START, DisputeResolution::RelFunds);
    assert_eq!(c.get_dispute(d).unwrap().status, DisputeStatus::Resolved);

    let first_jury = c.get_juror_assignments(d).unwrap();
    c.file_appeal(d, 4242, t1, &draws).unwrap();
    assert_eq!(c.dispute_fee_pool, APPEAL_FEE);
    assert_eq!(c.get_milestone(1, 0).unwrap().status, MilestoneStatus::Pending);
    let second_jury = c.get_juror_assignments(d).unwrap();
    assert_eq!(second_jury.len(), 11);
    assert!(second_jury.iter().all(|j| !first_jury.contains(j)));

    let t2 = vote_and_tally(&mut c, d, t1, DisputeResolution::RelFunds);
    assert_eq!(c.get_dispute(d).unwrap().appeal_count, 1);
    c.file_appeal(d, 4242, t2, &draws).unwrap();
    let t3 = vote_and_tally(&mut c, d, t2, DisputeResolution::RelFunds);

    // The second appeal was the last: the resolution is final and enforced.
    let dispute = c.get_dispute(d).unwrap();
    assert_eq!(dispute.appeal_count, 2);
    assert_eq!(dispute.status, DisputeStatus::FinalResolved);
    assert_eq!(c.get_milestone(1, 0).unwrap().status, MilestoneStatus::Approved);
    assert_eq!(c.get_escrow(1).unwrap().released_amount, 500);
    assert!(c.file_appeal(d, 4242, t3, &draws).is_err());
}

#[test]
fn test_execute_resolution_after_window() {
    let mut c = setup(10);
    let d = c.initiate_dispute(1, 0, CREATOR, 0, START).unwrap();
    c.select_jury(d, START, &vec![0; 10]).unwrap();
    let t = vote_and_tally(&mut c, d, START, DisputeResolution::RefBackers);
    assert_eq!(c.execute_resolution(d, t), Err(Error::AppealWinCl));
    c.execute_resolution(d, t + 172_801).unwrap();
    assert_eq!(c.get_dispute(d).unwrap().status, DisputeStatus::FinalResolved);
    assert_eq!(c.get_milestone(1, 0).unwrap().status, MilestoneStatus::Rejected);
    assert_eq!(c.get_escrow(1).unwrap().released_amount, 0);
}

#[test]
fn test_emergency_rescue_happens_once() {
    let mut c = setup(0);
    c.configure_yield_router(ADMIN, 555, TOKEN, 2000).unwrap();
    assert_eq!(c.approve_emergency_withdraw(1, 301), Err(Error::InvStatus));
    c.pause(ADMIN, START).unwrap();
    c.approve_emergency_withdraw(1, 301).unwrap();
    assert_eq!(c.approve_emergency_withdraw(1, 301), Err(Error::AlreadyVoted));
    c.approve_emergency_withdraw(1, 302).unwrap();
    assert_eq!(c.admin_emergency_withdraw(1, 999, START, 750), Err(Error::Unauthorized));
    assert_eq!(c.admin_emergency_withdraw(1, ADMIN, START, 750), Ok(750));
    assert_eq!(c.admin_emergency_withdraw(1, ADMIN, START, 750), Err(Error::InvStatus));
}

#[test]
fn test_required_emergency_approvals() {
    let c = setup(0);
    let escrow = c.get_escrow(1).unwrap();
    // 3 validators at 67%: 3 * 6700 / 10000 = 2.
    assert_eq!(nova_fund::escrow_admin::required_emergency_approvals(&escrow), 2);
}

#[test]
fn test_yield_routing_deploys_above_reserve() {
    let mut c = setup(0);
    c.configure_yield_router(ADMIN, 555, TOKEN, 2000).unwrap();
    c.enable_yield_for_escrow(1, ADMIN).unwrap();
    let escrow = c.get_escrow(1).unwrap();
    c.take_effects();
    c.deploy_to_pool(&escrow, 1, 10).unwrap();
    // 1000 deposited, 20% reserve: 800 go to the pool.
    assert_eq!(c.get_escrow_yield_state(1).deployed_principal, 800);
    let effects = c.take_effects();
    assert!(matches!(effects[1], Effect::PoolDeposit { pool: 555, amount: 800, .. }));
    // The pool reports 850: 50 of yield, credited to the deposits.
    assert_eq!(c.withdraw_from_pool(1, 850), Ok(50));
    assert_eq!(c.get_escrow_yield_state(1).deployed_principal, 0);
    assert_eq!(c.get_escrow_yield_state(1).total_yield_harvested, 50);
    assert_eq!(c.get_escrow(1).unwrap().total_deposited, 1050);
}

#[test]
fn test_partial_pool_withdrawal_keeps_the_rest_deployed() {
    let mut c = setup(0);
    c.configure_yield_router(ADMIN, 555, TOKEN, 2000).unwrap();
    c.enable_yield_for_escrow(1, ADMIN).unwrap();
    let escrow = c.get_escrow(1).unwrap();
    c.deploy_to_pool(&escrow, 1, 10).unwrap();
    // 300 are needed; the pool holds 850.
    assert_eq!(c.withdraw_partial_from_pool(1, 300, 850), Ok(300));
    assert_eq!(c.get_escrow_yield_state(1).deployed_principal, 500);
    assert_eq!(c.get_escrow_yield_state(1).total_yield_harvested, 0);
    // Disabling pulls the rest back: 600 reported against 500 deployed.
    c.disable_yield_for_escrow(1, ADMIN, 600).unwrap();
    let state = c.get_escrow_yield_state(1);
    assert_eq!(state.deployed_principal, 0);
    assert_eq!(state.total_yield_harvested, 100);
    assert!(!state.routing_enabled);
    assert_eq!(c.get_escrow(1).unwrap().total_deposited, 1100);
}

#[test]
fn test_update_validators_needs_admin_and_enough_validators() {
    let mut c = EscrowContract::new(CONTRACT);
    c.initialize(1, CREATOR, TOKEN, validators(), 6700, 0).unwrap();
    assert_eq!(c.update_validators(1, vec![1, 2, 3]), Err(Error::NotInit));
    c.initialize_admin(ADMIN).unwrap();
    assert_eq!(c.update_validators(1, vec![1, 2]), Err(Error::InvInput));
    assert_eq!(c.update_validators(2, vec![1, 2, 3]), Err(Error::NotFound));
    c.update_validators(1, vec![7, 8, 9, 10]).unwrap();
    assert_eq!(c.get_escrow(1).unwrap().validators, vec![7, 8, 9, 10]);
}

#[test]
fn test_juror_stake_and_refund_effects() {
    let mut c = setup(0);
    c.take_effects();
    assert_eq!(c.register_as_juror(6000, MIN_JUROR_STAKE - 1), Err(Error::JurorStakeL));
    c.register_as_juror(6000, MIN_JUROR_STAKE).unwrap();
    c.deregister_as_juror(6000).unwrap();
    let effects = c.take_effects();
    assert!(matches!(effects[0], Effect::Transfer { token: JUROR_TOKEN, from: 6000, to: CONTRACT, .. }));
    assert!(matches!(effects[1], Effect::Transfer { token: JUROR_TOKEN, from: CONTRACT, to: 6000, .. }));
    assert_eq!(c.get_juror(6000).map(|j| j.address), Err(Error::NotJuror));
}

#[test]
fn test_pool_loss_reduces_deposits() {
    let mut c = setup(0);
    c.configure_yield_router(ADMIN, 555, TOKEN, 2000).unwrap();
    c.enable_yield_for_escrow(1, ADMIN).unwrap();
    let escrow = c.get_escrow(1).unwrap();
    c.deploy_to_pool(&escrow, 1, 10).unwrap();
    // The pool reports 700 against 800 deployed.
    assert_eq!(c.withdraw_from_pool(1, 700), Ok(-100));
    assert_eq!(c.get_escrow_yield_state(1).total_yield_harvested, -100);
    assert_eq!(c.get_escrow(1).unwrap().total_deposited, 900);
}

#[test]
fn test_large_pool_loss_stops_at_committed_funds() {
    let mut c = setup(0);
    c.configure_yield_router(ADMIN, 555, TOKEN, 2000).unwrap();
    c.enable_yield_for_escrow(1, ADMIN).unwrap();
    let escrow = c.get_escrow(1).unwrap();
    c.deploy_to_pool(&escrow, 1, 10).unwrap();
    // Nothing comes back of 800 deployed: the loss is reported in full,
    // and the deposits fall to the 500 the milestone commits, no lower.
    assert_eq!(c.withdraw_from_pool(1, 0), Ok(-800));
    assert_eq!(c.get_escrow_yield_state(1).deployed_principal, 0);
    assert_eq!(c.get_escrow_yield_state(1).total_yield_harvested, -800);
    assert_eq!(c.get_escrow(1).unwrap().total_deposited, 500);
    // Routing can still be switched off after such a loss.
    let escrow = c.get_escrow(1).unwrap();
    c.deploy_to_pool(&escrow, 1, 10).unwrap();
    c.disable_yield_for_escrow(1, ADMIN, 0).unwrap();
    assert_eq!(c.get_escrow(1).unwrap().total_deposited, 500);
    assert!(!c.get_escrow_yield_state(1).routing_enabled);
}

#[test]
fn test_escrow_events_follow_calls() {
    let mut c = EscrowContract::new(CONTRACT);
    c.initialize_admin(ADMIN).unwrap();
    c.initialize(1, CREATOR, TOKEN, validators(), 6700, 0).unwrap();
    c.deposit(1, 1000).unwrap();
    assert_eq!(
        c.take_events(),
        vec![
            EscrowEvent::EscrowInitialized { project_id: 1, creator: CREATOR, token: TOKEN },
            EscrowEvent::FundsLocked { project_id: 1, amount: 1000 },
        ]
    );
    // A refused call records nothing.
    assert_eq!(c.pause(CREATOR, START), Err(Error::Unauthorized));
    assert!(c.take_events().is_empty());
    c.pause(ADMIN, START).unwrap();
    c.resume(ADMIN, START + 86_400).unwrap();
    assert_eq!(
        c.take_events(),
        vec![
            EscrowEvent::ContractPaused { admin: ADMIN, at: START },
            EscrowEvent::ContractResumed { admin: ADMIN, at: START + 86_400 },
        ]
    );
}

#[test]
fn test_tally_events_slash_then_resolve() {
    let mut c = setup(10);
    let d = c.initiate_dispute(1, 0, CREATOR, 0, START).unwrap();
    c.take_events();
    c.select_jury(d, START, &vec![0; 10]).unwrap();
    assert_eq!(c.take_events(), vec![EscrowEvent::JurySelected { dispute_id: d }]);
    let jury = c.get_juror_assignments(d).unwrap();
    c.tally_votes(d, START + VOTING_COMMIT_PERIOD + VOTING_REVEAL_PERIOD + 1).unwrap();
    let penalty = MIN_JUROR_STAKE / 10;
    let mut expected: Vec<EscrowEvent> =
        jury.iter().map(|j| EscrowEvent::JurorSlashed { juror: *j, slashed: penalty }).collect();
    expected.push(EscrowEvent::DisputeResolved { dispute_id: d, resolution: DisputeResolution::RefBackers });
    assert_eq!(c.take_events(), expected);
}

#[test]
fn test_tally_of_a_resolved_dispute_is_refused() {
    let mut c = setup(10);
    let d = c.initiate_dispute(1, 0, CREATOR, 0, START).unwrap();
    c.select_jury(d, START, &vec![0; 10]).unwrap();
    let t = vote_and_tally(&mut c, d, START, DisputeResolution::RefBackers);
    // The jurors are released from the dispute, and a second tally is refused.
    let jury = c.get_juror_assignments(d).unwrap();
    assert!(jury.iter().all(|j| c.get_juror(*j).unwrap().active_disputes == 0));
    assert!(c.tally_fits(d, t + 1));
    assert_eq!(c.tally_votes(d, t + 1), Err(Error::VoteNA));
}

#[test]
fn test_tally_keeps_jury_stake_plus_pool() {
    let mut c = setup(10);
    let d = c.initiate_dispute(1, 0, CREATOR, 0, START).unwrap();
    c.select_jury(d, START, &vec![0; 10]).unwrap();
    let jury = c.get_juror_assignments(d).unwrap();
    let total = |c: &EscrowContract| -> i128 {
        jury.iter().map(|j| c.get_juror(*j).unwrap().staked_amount).sum::<i128>() + c.dispute_fee_pool
    };
    let before = total(&c);
    let digest = [3u8; 32];
    for j in jury.iter() {
        c.commit_vote(d, *j, digest, START).unwrap();
    }
    let reveal_at = START + VOTING_COMMIT_PERIOD + 1;
    // Two jurors reveal a release, one a refund; the rest stay silent.
    for (k, j) in jury.iter().enumerate().take(3) {
        let vote = if k < 2 { DisputeResolution::RelFunds } else { DisputeResolution::RefBackers };
        c.reveal_vote_with_digest(d, *j, vote, 0, digest, reveal_at).unwrap();
    }
    c.tally_votes(d, START + VOTING_COMMIT_PERIOD + VOTING_REVEAL_PERIOD + 1).unwrap();
    assert_eq!(c.get_dispute(d).unwrap().resolution, DisputeResolution::RelFunds);
    assert_eq!(total(&c), before);
}

#[test]
fn test_too_few_eligible_jurors_conflict() {
    let mut c = setup(6);
    // The creator registers too: seven jurors, but only six may sit.
    c.register_as_juror(CREATOR, STAKE).unwrap();
    let d = c.initiate_dispute(1, 0, CREATOR, 0, START).unwrap();
    assert_eq!(c.select_jury(d, START, &vec![0; 7]), Err(Error::ConflictInt));
    assert!(c.get_juror_assignments(d).is_err());
    // One more eligible juror fills the jury.
    c.register_as_juror(2000, STAKE).unwrap();
    assert!(c.select_jury_fits(d, &vec![0; 8]));
    c.select_jury(d, START, &vec![0; 8]).unwrap();
    assert_eq!(c.get_juror_assignments(d).unwrap().len(), 7);
}
