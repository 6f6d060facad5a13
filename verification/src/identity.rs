use vstd::prelude::*;
use std::collections::HashMap;
use crate::host::{sha256_digest, sha256_of};
use crate::maps::{make_pair_key, pair_key};
use crate::types::{Address, Hash32, Jurisdiction, Timestamp};
use soroban_sdk::Env;

verus! {

broadcast use vstd::std_specs::hash::group_hash_axioms, crate::maps::group_map_lemmas;

/// Why an identity contract stops a call; callers test for it before the call is made.
#[derive(Clone, Copy, Debug, PartialEq, Eq, Structural)]
pub enum IdentityFault {
    AlreadyInitialized,
    NotInitialized,
    Unauthorized,
    InvalidProof,
    InvalidHash,
    NotOracle,
}

/// Verification of one user for one jurisdiction.
#[derive(Clone, Copy, Debug)]
pub struct IdentityRecord {
    pub is_verified: bool,
    pub verified_at: u64,
    pub proof_hash: Hash32,
    pub tier: u32,
}

/// Mathematical view of a verification record.
pub struct RecordSpec {
    pub is_verified: bool,
    pub verified_at: u64,
    pub proof_hash: Seq<u8>,
    pub tier: u32,
}

impl View for IdentityRecord {
    type V = RecordSpec;

    open spec fn view(&self) -> RecordSpec {
        RecordSpec {
            is_verified: self.is_verified,
            verified_at: self.verified_at,
            proof_hash: self.proof_hash@,
            tier: self.tier,
        }
    }
}

/// Number under which a jurisdiction is stored.
pub open spec fn jurisdiction_code(j: Jurisdiction) -> u64 {
    match j {
        Jurisdiction::Global => 0,
        Jurisdiction::UnitedStates => 1,
        Jurisdiction::EuropeanUnion => 2,
        Jurisdiction::UnitedKingdom => 3,
    }
}

/// Key of the verification of `user` for `j`.
pub open spec fn record_key(user: Address, j: Jurisdiction) -> u128 {
    pair_key(user, jurisdiction_code(j))
}

fn make_record_key(user: Address, j: Jurisdiction) -> (k: u128)
    ensures
        k == record_key(user, j),
{
    let code: u64 = match j {
        Jurisdiction::Global => 0,
        Jurisdiction::UnitedStates => 1,
        Jurisdiction::EuropeanUnion => 2,
        Jurisdiction::UnitedKingdom => 3,
    };
    make_pair_key(user, code)
}

/// Per-jurisdiction KYC verification, by zero-knowledge proof or by a
/// whitelisted oracle, revocable by the admin.
pub struct IdentityContract {
    pub admin: Option<Address>,
    pub records: HashMap<u128, IdentityRecord>,
    pub oracles: HashMap<Address, bool>,
}

/// Mathematical view of the identity contract's storage.
#[verifier::ext_equal]
pub struct IdentityState {
    pub admin: Option<Address>,
    /// Records, keyed by `record_key(user, jurisdiction)`.
    pub records: Map<u128, RecordSpec>,
    /// Whitelisted oracles (each stored with the flag `true`).
    pub oracles: Map<Address, bool>,
}

impl View for IdentityContract {
    type V = IdentityState;

    closed spec fn view(&self) -> IdentityState {
        IdentityState {
            admin: self.admin,
            records: self.records@.map_values(|r: IdentityRecord| r@),
            oracles: self.oracles@,
        }
    }
}

impl IdentityState {
    /// The tier a user holds in a jurisdiction: its recorded tier while verified, else 0.
    pub open spec fn tier_of(self, user: Address, j: Jurisdiction) -> u32 {
        let k = record_key(user, j);
        if self.records.contains_key(k) && self.records[k].is_verified {
            self.records[k].tier
        } else {
            0
        }
    }

    pub open spec fn is_oracle(self, oracle: Address) -> bool {
        self.oracles.contains_key(oracle) && self.oracles[oracle]
    }

    pub open spec fn spec_initialize(self, admin: Address) -> (IdentityState, Result<(), IdentityFault>) {
        if self.admin is Some {
            (self, Err(IdentityFault::AlreadyInitialized))
        } else {
            (IdentityState { admin: Some(admin), ..self }, Ok(()))
        }
    }

    /// Records `user` as verified for `j` once the proof (non-empty) is accepted.
    pub open spec fn spec_verify_identity(
        self,
        user: Address,
        j: Jurisdiction,
        proof: Seq<u8>,
        tier: u32,
        now: Timestamp,
        proof_hash: Seq<u8>,
    ) -> (IdentityState, Result<(), IdentityFault>) {
        if proof.len() == 0 {
            (self, Err(IdentityFault::InvalidProof))
        } else {
            let rec = RecordSpec { is_verified: true, verified_at: now, proof_hash, tier };
            (IdentityState { records: self.records.insert(record_key(user, j), rec), ..self }, Ok(()))
        }
    }

    pub open spec fn spec_revoke(self, user: Address, j: Jurisdiction) -> (IdentityState, Result<(), IdentityFault>) {
        let k = record_key(user, j);
        if self.admin is None {
            (self, Err(IdentityFault::NotInitialized))
        } else if self.records.contains_key(k) {
            (
                IdentityState {
                    records: self.records.insert(k, RecordSpec { is_verified: false, ..self.records[k] }),
                    ..self
                },
                Ok(()),
            )
        } else {
            (self, Ok(()))
        }
    }

    /// The error an admin-only call by `admin` reports, if any.
    pub open spec fn admin_fault(self, admin: Address) -> Option<IdentityFault> {
        match self.admin {
            None => Some(IdentityFault::NotInitialized),
            Some(a) => if a != admin {
                Some(IdentityFault::Unauthorized)
            } else {
                None
            },
        }
    }

    pub open spec fn spec_add_oracle(self, admin: Address, oracle: Address) -> (IdentityState, Result<(), IdentityFault>) {
        match self.admin_fault(admin) {
            Some(f) => (self, Err(f)),
            None => (IdentityState { oracles: self.oracles.insert(oracle, true), ..self }, Ok(())),
        }
    }

    pub open spec fn spec_remove_oracle(self, admin: Address, oracle: Address) -> (
        IdentityState,
        Result<(), IdentityFault>,
    ) {
        match self.admin_fault(admin) {
            Some(f) => (self, Err(f)),
            None => (IdentityState { oracles: self.oracles.remove(oracle), ..self }, Ok(())),
        }
    }

    pub open spec fn spec_update_via_oracle(
        self,
        oracle: Address,
        user: Address,
        j: Jurisdiction,
        tier: u32,
        proof_hash: Seq<u8>,
        now: Timestamp,
    ) -> (IdentityState, Result<(), IdentityFault>) {
        if !self.is_oracle(oracle) {
            (self, Err(IdentityFault::NotOracle))
        } else {
            (
                IdentityState {
                    records: self.records.insert(
                        record_key(user, j),
                        RecordSpec { is_verified: true, verified_at: now, proof_hash, tier },
                    ),
                    ..self
                },
                Ok(()),
            )
        }
    }
}

impl IdentityContract {
    /// A contract with nothing stored.
    pub fn new() -> (c: IdentityContract)
        ensures
            c@.admin is None,
            c@.records == Map::<u128, RecordSpec>::empty(),
            c@.oracles == Map::<Address, bool>::empty(),
    {
        IdentityContract { admin: None, records: HashMap::new(), oracles: HashMap::new() }
    }

    /// Sets the admin of a fresh contract.
    pub fn initialize(&mut self, admin: Address)
        requires
            old(self)@.admin is None,
        ensures
            final(self)@ == old(self)@.spec_initialize(admin).0,
    {
        self.admin = Some(admin);
        assert(self@ =~= old(self)@.spec_initialize(admin).0);
    }

    /// Whether the contract has an admin.
    pub fn is_initialized(&self) -> (r: bool)
        ensures
            r == self@.admin is Some,
    {
        self.admin.is_some()
    }

    /// Records `user` as verified for `jurisdiction` at `tier`, with the
    /// SHA-256 digest of the proof as its evidence. Any non-empty proof is
    /// accepted (an empty one is refused before the call).
    pub fn verify_identity(
        &mut self,
        env: &Env,
        user: Address,
        jurisdiction: Jurisdiction,
        proof: &Vec<u8>,
        _public_inputs: &Vec<u8>,
        tier: u32,
        now: Timestamp,
    )
        requires
            proof@.len() > 0,
        ensures
            final(self)@ == old(self)@.spec_verify_identity(
                user,
                jurisdiction,
                proof@,
                tier,
                now,
                sha256_of(proof@),
            ).0,
    {
        let proof_hash = sha256_digest(env, proof);
        self.verify_identity_with_digest(user, jurisdiction, proof, _public_inputs, tier, now, proof_hash)
    }

    /// The part of `verify_identity` after hashing: `proof_hash` stands for
    /// the SHA-256 digest of `proof`.
    pub fn verify_identity_with_digest(
        &mut self,
        user: Address,
        jurisdiction: Jurisdiction,
        proof: &Vec<u8>,
        _public_inputs: &Vec<u8>,
        tier: u32,
        now: Timestamp,
        proof_hash: Hash32,
    )
        requires
            proof@.len() > 0,
        ensures
            final(self)@ == old(self)@.spec_verify_identity(
                user,
                jurisdiction,
                proof@,
                tier,
                now,
                proof_hash@,
            ).0,
    {
        let key = make_record_key(user, jurisdiction);
        self.records.insert(key, IdentityRecord { is_verified: true, verified_at: now, proof_hash, tier });
        assert(self@ =~= old(self)@.spec_verify_identity(user, jurisdiction, proof@, tier, now, proof_hash@).0);
    }

    /// Whether `user` holds a positive tier in `jurisdiction`.
    pub fn is_verified(&self, user: Address, jurisdiction: Jurisdiction) -> (r: bool)
        ensures
            r == (self@.tier_of(user, jurisdiction) > 0),
    {
        self.get_tier(user, jurisdiction) > 0
    }

    /// The tier `user` holds in `jurisdiction` (0 when unverified or revoked).
    pub fn get_tier(&self, user: Address, jurisdiction: Jurisdiction) -> (r: u32)
        ensures
            r == self@.tier_of(user, jurisdiction),
    {
        match self.records.get(&make_record_key(user, jurisdiction)) {
            Some(rec) => if rec.is_verified {
                rec.tier
            } else {
                0
            },
            None => 0,
        }
    }

    /// Marks the verification of `user` for `jurisdiction` as revoked (admin).
    pub fn revoke_verification(&mut self, user: Address, jurisdiction: Jurisdiction)
        requires
            old(self)@.admin is Some,
        ensures
            final(self)@ == old(self)@.spec_revoke(user, jurisdiction).0,
    {
        let key = make_record_key(user, jurisdiction);
        let current = match self.records.get(&key) {
            Some(rec) => Some(*rec),
            None => None,
        };
        match current {
            Some(rec) => {
                self.records.insert(key, IdentityRecord { is_verified: false, ..rec });
                assert(self@ =~= old(self)@.spec_revoke(user, jurisdiction).0);
            },
            None => {
                assert(self@ =~= old(self)@.spec_revoke(user, jurisdiction).0);
            },
        }
    }

    /// The fault an admin-only call by `admin` meets, if any.
    pub fn admin_fault(&self, admin: Address) -> (r: Option<IdentityFault>)
        ensures
            r == self@.admin_fault(admin),
    {
        match self.admin {
            None => Some(IdentityFault::NotInitialized),
            Some(a) => if a != admin {
                Some(IdentityFault::Unauthorized)
            } else {
                None
            },
        }
    }

    /// Whitelists `oracle` (admin).
    pub fn add_oracle(&mut self, admin: Address, oracle: Address)
        requires
            old(self)@.admin_fault(admin) is None,
        ensures
            final(self)@ == old(self)@.spec_add_oracle(admin, oracle).0,
    {
        self.oracles.insert(oracle, true);
        assert(self@ =~= old(self)@.spec_add_oracle(admin, oracle).0);
    }

    /// Removes `oracle` from the whitelist (admin).
    pub fn remove_oracle(&mut self, admin: Address, oracle: Address)
        requires
            old(self)@.admin_fault(admin) is None,
        ensures
            final(self)@ == old(self)@.spec_remove_oracle(admin, oracle).0,
    {
        self.oracles.remove(&oracle);
        assert(self@ =~= old(self)@.spec_remove_oracle(admin, oracle).0);
    }

    /// Whether `oracle` is whitelisted.
    pub fn is_oracle(&self, oracle: Address) -> (r: bool)
        ensures
            r == self@.is_oracle(oracle),
    {
        match self.oracles.get(&oracle) {
            Some(b) => *b,
            None => false,
        }
    }

    /// Records `user` as verified for `jurisdiction` at `tier` on a whitelisted oracle's word.
    pub fn update_status_via_oracle(
        &mut self,
        oracle: Address,
        user: Address,
        jurisdiction: Jurisdiction,
        tier: u32,
        proof_hash: Hash32,
        now: Timestamp,
    )
        requires
            old(self)@.is_oracle(oracle),
        ensures
            final(self)@ == old(self)@.spec_update_via_oracle(
                oracle,
                user,
                jurisdiction,
                tier,
                proof_hash@,
                now,
            ).0,
    {
        let key = make_record_key(user, jurisdiction);
        self.records.insert(key, IdentityRecord { is_verified: true, verified_at: now, proof_hash, tier });
        assert(self@ =~= old(self)@.spec_update_via_oracle(oracle, user, jurisdiction, tier, proof_hash@, now).0);
    }
}

/// A verification by proof or by oracle gives the user its tier in that
/// jurisdiction, and a revocation by the admin takes it away again.
pub proof fn law_verify_then_revoke(
    s: IdentityState,
    user: Address,
    j: Jurisdiction,
    proof: Seq<u8>,
    tier: u32,
    now: Timestamp,
    proof_hash: Seq<u8>,
)
    requires
        proof.len() > 0,
        s.admin is Some,
    ensures
        ({
            let t = s.spec_verify_identity(user, j, proof, tier, now, proof_hash).0;
            &&& s.spec_verify_identity(user, j, proof, tier, now, proof_hash).1 is Ok
            &&& t.tier_of(user, j) == tier
            &&& t.spec_revoke(user, j).1 is Ok
            &&& t.spec_revoke(user, j).0.tier_of(user, j) == 0
        }),
{
}

/// A whitelisted oracle's update gives the user its tier; after the oracle
/// is removed its updates are refused and change nothing.
pub proof fn law_oracle_lifecycle(
    s: IdentityState,
    admin: Address,
    oracle: Address,
    user: Address,
    j: Jurisdiction,
    tier: u32,
    proof_hash: Seq<u8>,
    now: Timestamp,
)
    requires
        s.admin == Some(admin),
    ensures
        ({
            let t = s.spec_add_oracle(admin, oracle).0;
            let u = t.spec_remove_oracle(admin, oracle).0;
            &&& t.is_oracle(oracle)
            &&& t.spec_update_via_oracle(oracle, user, j, tier, proof_hash, now).1 is Ok
            &&& t.spec_update_via_oracle(oracle, user, j, tier, proof_hash, now).0.tier_of(user, j) == tier
            &&& !u.is_oracle(oracle)
            &&& u.spec_update_via_oracle(oracle, user, j, tier, proof_hash, now).1 == Err::<(), IdentityFault>(
                IdentityFault::NotOracle,
            )
            &&& u.spec_update_via_oracle(oracle, user, j, tier, proof_hash, now).0 == u
        }),
{
}

/// Verifications in different jurisdictions, or of different users, are independent.
pub proof fn law_jurisdictions_independent(
    s: IdentityState,
    user: Address,
    j: Jurisdiction,
    other_user: Address,
    other_j: Jurisdiction,
    proof: Seq<u8>,
    tier: u32,
    now: Timestamp,
    proof_hash: Seq<u8>,
)
    requires
        user != other_user || j != other_j,
    ensures
        s.spec_verify_identity(user, j, proof, tier, now, proof_hash).0.tier_of(other_user, other_j) == s.tier_of(
            other_user,
            other_j,
        ),
        s.spec_revoke(user, j).0.tier_of(other_user, other_j) == s.tier_of(other_user, other_j),
{
    crate::maps::lemma_pair_key_injective(user, jurisdiction_code(j), other_user, jurisdiction_code(other_j));
}

} // verus!
