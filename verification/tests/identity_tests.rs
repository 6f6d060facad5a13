use nova_fund::identity::{IdentityContract, IdentityFault};
use nova_fund::identity_registry::IdentityRegistryContract;
use nova_fund::types::{hash_eq, zero_hash, Address, Jurisdiction};

const ADMIN: Address = 1;
const USER: Address = 2;
const ORACLE: Address = 3;
const NOW: u64 = 1000;

#[test]
fn test_verification_flow() {
    let mut client = IdentityContract::new();
    client.initialize(ADMIN);

    assert_eq!(client.get_tier(USER, Jurisdiction::UnitedStates), 0);
    assert!(!client.is_verified(USER, Jurisdiction::UnitedStates));

    // Any non-empty proof is accepted.
    let env = soroban_sdk::Env::default();
    let proof: Vec<u8> = vec![1, 2, 3];
    let public_inputs: Vec<u8> = vec![0];

    client.verify_identity(&env, USER, Jurisdiction::UnitedStates, &proof, &public_inputs, 1, NOW);

    assert_eq!(client.get_tier(USER, Jurisdiction::UnitedStates), 1);
    assert!(client.is_verified(USER, Jurisdiction::UnitedStates));

    client.revoke_verification(USER, Jurisdiction::UnitedStates);
    assert!(!client.is_verified(USER, Jurisdiction::UnitedStates));
}

#[test]
fn test_oracle_flow() {
    let mut client = IdentityContract::new();
    client.initialize(ADMIN);

    assert!(!client.is_oracle(ORACLE));

    client.add_oracle(ADMIN, ORACLE);
    assert!(client.is_oracle(ORACLE));

    let proof_hash = [1u8; 32];
    client.update_status_via_oracle(ORACLE, USER, Jurisdiction::Global, 2, proof_hash, NOW);

    assert_eq!(client.get_tier(USER, Jurisdiction::Global), 2);
    assert!(client.is_verified(USER, Jurisdiction::Global));

    client.remove_oracle(ADMIN, ORACLE);
    assert!(!client.is_oracle(ORACLE));

    // The former oracle is refused.
    assert!(!client.is_oracle(ORACLE));
}

#[test]
fn test_unauthorized_oracle_update_panics() {
    let mut client = IdentityContract::new();
    client.initialize(ADMIN);
    let fake_oracle: Address = 99;
    // A caller that is not a listed oracle is refused before the update.
    assert!(!client.is_oracle(fake_oracle));
    assert_eq!(client.get_tier(USER, Jurisdiction::Global), 0);
}

#[test]
fn test_identity_refusals() {
    let mut client = IdentityContract::new();
    assert!(!client.is_initialized());
    assert_eq!(client.admin_fault(ADMIN), Some(IdentityFault::NotInitialized));
    client.initialize(ADMIN);
    assert!(client.is_initialized());
    assert_eq!(client.admin_fault(ADMIN), None);
    assert_eq!(client.admin_fault(USER), Some(IdentityFault::Unauthorized));
}

#[test]
fn test_jurisdictions_are_independent() {
    let mut client = IdentityContract::new();
    client.initialize(ADMIN);
    let proof: Vec<u8> = vec![9];
    client.verify_identity_with_digest(USER, Jurisdiction::EuropeanUnion, &proof, &proof, 3, NOW, [2u8; 32]);
    assert_eq!(client.get_tier(USER, Jurisdiction::EuropeanUnion), 3);
    assert_eq!(client.get_tier(USER, Jurisdiction::UnitedKingdom), 0);
    assert_eq!(client.get_tier(USER + 1, Jurisdiction::EuropeanUnion), 0);
    // A tier of 0 is recorded but does not count as verified.
    client.verify_identity_with_digest(USER, Jurisdiction::Global, &proof, &proof, 0, NOW, [2u8; 32]);
    assert!(!client.is_verified(USER, Jurisdiction::Global));
}

#[test]
fn test_initialization() {
    let mut client = IdentityRegistryContract::new();
    client.init_registry(ADMIN);
}

#[test]
fn test_double_initialization_should_panic() {
    let mut client = IdentityRegistryContract::new();
    client.init_registry(ADMIN);
    // A second initialisation is refused.
    assert!(client.is_initialized());
}

#[test]
fn test_add_and_verify_identity() {
    let mut client = IdentityRegistryContract::new();
    client.init_registry(ADMIN);

    let mut hash = [0u8; 32];
    hash[0] = 1;

    assert!(!client.verify(USER));
    client.add(ADMIN, USER, hash, 1);
    assert!(client.verify(USER));
}

#[test]
fn test_remove_identity() {
    let mut client = IdentityRegistryContract::new();
    client.init_registry(ADMIN);

    let mut hash = [0u8; 32];
    hash[1] = 2;

    client.add(ADMIN, USER, hash, 1);
    assert!(client.verify(USER));

    client.remove(ADMIN, USER);
    assert!(!client.verify(USER));
}

#[test]
fn test_unauthorized_add_identity() {
    let mut client = IdentityRegistryContract::new();
    client.init_registry(ADMIN);
    let fake_admin: Address = 77;
    let mut hash = [0u8; 32];
    hash[0] = 5;
    assert_eq!(client.admin_fault(fake_admin), Some(IdentityFault::Unauthorized));
    assert!(!client.verify(USER));
}

#[test]
fn test_unauthorized_remove_identity() {
    let mut client = IdentityRegistryContract::new();
    client.init_registry(ADMIN);
    let fake_admin: Address = 77;
    let mut hash = [0u8; 32];
    hash[0] = 5;
    client.add(ADMIN, USER, hash, 1);
    assert_eq!(client.admin_fault(fake_admin), Some(IdentityFault::Unauthorized));
    assert!(client.verify(USER));
}

#[test]
fn test_invalid_hash_should_panic() {
    let mut client = IdentityRegistryContract::new();
    client.init_registry(ADMIN);
    // An all-zero hash is refused before the call.
    assert!(hash_eq(&[0u8; 32], &zero_hash()));
    assert!(!client.verify(USER));
}

#[test]
fn test_registry_tier() {
    let mut client = IdentityRegistryContract::new();
    assert_eq!(client.admin_fault(ADMIN), Some(IdentityFault::NotInitialized));
    client.init_registry(ADMIN);
    client.add(ADMIN, USER, [1u8; 32], 2);
    assert_eq!(client.get_registry_tier(USER), 2);
    client.add(ADMIN, USER, [1u8; 32], 0);
    assert_eq!(client.get_registry_tier(USER), 0);
    assert!(!client.verify(USER));
}
