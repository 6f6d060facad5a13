use vstd::prelude::*;
use std::collections::HashMap;
use crate::identity::IdentityFault;
use crate::types::{spec_zero_hash, Address, Hash32};

verus! {

broadcast use vstd::std_specs::hash::group_hash_axioms, crate::maps::group_map_lemmas;

/// KYC/AML standing of an investor.
#[derive(Clone, Copy, Debug, PartialEq, Eq, Structural)]
pub enum IdentityStatus {
    Unverified,
    Verified,
    Suspended,
}

/// KYC/AML record of an investor.
#[derive(Clone, Copy, Debug)]
pub struct IdentityInfo {
    pub hash: Hash32,
    pub status: IdentityStatus,
    pub tier: u32,
}

/// Mathematical view of an investor record.
pub struct InfoSpec {
    pub hash: Seq<u8>,
    pub status: IdentityStatus,
    pub tier: u32,
}

impl View for IdentityInfo {
    type V = InfoSpec;

    open spec fn view(&self) -> InfoSpec {
        InfoSpec { hash: self.hash@, status: self.status, tier: self.tier }
    }
}

/// Admin-maintained register of verified investors.
pub struct IdentityRegistryContract {
    pub admin: Option<Address>,
    pub identities: HashMap<Address, IdentityInfo>,
}

/// Mathematical view of the registry's storage.
#[verifier::ext_equal]
pub struct RegistryState {
    pub admin: Option<Address>,
    pub identities: Map<Address, InfoSpec>,
}

impl View for IdentityRegistryContract {
    type V = RegistryState;

    closed spec fn view(&self) -> RegistryState {
        RegistryState { admin: self.admin, identities: self.identities@.map_values(|i: IdentityInfo| i@) }
    }
}

impl RegistryState {
    /// Whether `user` is verified with a positive tier.
    pub open spec fn is_verified(self, user: Address) -> bool {
        self.identities.contains_key(user) && self.identities[user].status == IdentityStatus::Verified
            && self.identities[user].tier > 0
    }

    /// The tier of a verified user, else 0.
    pub open spec fn tier_of(self, user: Address) -> u32 {
        if self.identities.contains_key(user) && self.identities[user].status == IdentityStatus::Verified {
            self.identities[user].tier
        } else {
            0
        }
    }

    /// The error an admin-only call by `admin` reports, if any.
    pub open spec fn admin_fault(self, admin: Address) -> Option<IdentityFault> {
        match self.admin {
            None => Some(IdentityFault::NotInitialized),
            Some(a) => if a != admin {
                Some(IdentityFault::Unauthorized)
            } else {
                None
            },
        }
    }

    pub open spec fn spec_init_registry(self, admin: Address) -> (RegistryState, Result<(), IdentityFault>) {
        if self.admin is Some {
            (self, Err(IdentityFault::AlreadyInitialized))
        } else {
            (RegistryState { admin: Some(admin), ..self }, Ok(()))
        }
    }

    pub open spec fn spec_add(self, admin: Address, user: Address, kyc_hash: Seq<u8>, tier: u32) -> (
        RegistryState,
        Result<(), IdentityFault>,
    ) {
        match self.admin_fault(admin) {
            Some(f) => (self, Err(f)),
            None => if kyc_hash == spec_zero_hash() {
                (self, Err(IdentityFault::InvalidHash))
            } else {
                (
                    RegistryState {
                        identities: self.identities.insert(
                            user,
                            InfoSpec { hash: kyc_hash, status: IdentityStatus::Verified, tier },
                        ),
                        ..self
                    },
                    Ok(()),
                )
            },
        }
    }

    pub open spec fn spec_remove(self, admin: Address, user: Address) -> (RegistryState, Result<(), IdentityFault>) {
        match self.admin_fault(admin) {
            Some(f) => (self, Err(f)),
            None => (RegistryState { identities: self.identities.remove(user), ..self }, Ok(())),
        }
    }
}

impl IdentityRegistryContract {
    /// A registry with nothing stored.
    pub fn new() -> (c: IdentityRegistryContract)
        ensures
            c@.admin is None,
            c@.identities == Map::<Address, InfoSpec>::empty(),
    {
        IdentityRegistryContract { admin: None, identities: HashMap::new() }
    }

    /// Sets the admin of a fresh registry.
    pub fn init_registry(&mut self, admin: Address)
        requires
            old(self)@.admin is None,
        ensures
            final(self)@ == old(self)@.spec_init_registry(admin).0,
    {
        self.admin = Some(admin);
        assert(self@ =~= old(self)@.spec_init_registry(admin).0);
    }

    /// Whether the registry has an admin.
    pub fn is_initialized(&self) -> (r: bool)
        ensures
            r == self@.admin is Some,
    {
        self.admin.is_some()
    }

    /// The fault an admin-only call by `admin` meets, if any.
    pub fn admin_fault(&self, admin: Address) -> (r: Option<IdentityFault>)
        ensures
            r == self@.admin_fault(admin),
    {
        match self.admin {
            None => Some(IdentityFault::NotInitialized),
            Some(a) => if a != admin {
                Some(IdentityFault::Unauthorized)
            } else {
                None
            },
        }
    }

    /// Adds or replaces the record of `user` as verified at `tier` (admin,
    /// with a hash that is not all zeros).
    pub fn add(&mut self, admin: Address, user: Address, kyc_hash: Hash32, tier: u32)
        requires
            old(self)@.admin_fault(admin) is None,
            kyc_hash@ != spec_zero_hash(),
        ensures
            final(self)@ == old(self)@.spec_add(admin, user, kyc_hash@, tier).0,
    {
        self.identities.insert(user, IdentityInfo { hash: kyc_hash, status: IdentityStatus::Verified, tier });
        assert(self@ =~= old(self)@.spec_add(admin, user, kyc_hash@, tier).0);
    }

    /// Deletes the record of `user` (admin).
    pub fn remove(&mut self, admin: Address, user: Address)
        requires
            old(self)@.admin_fault(admin) is None,
        ensures
            final(self)@ == old(self)@.spec_remove(admin, user).0,
    {
        self.identities.remove(&user);
        assert(self@ =~= old(self)@.spec_remove(admin, user).0);
    }

    /// Whether `user` is verified with a positive tier.
    pub fn verify(&self, user: Address) -> (r: bool)
        ensures
            r == self@.is_verified(user),
    {
        match self.identities.get(&user) {
            Some(info) => info.status == IdentityStatus::Verified && info.tier > 0,
            None => false,
        }
    }

    /// The tier of `user` while verified, else 0.
    pub fn get_registry_tier(&self, user: Address) -> (r: u32)
        ensures
            r == self@.tier_of(user),
    {
        match self.identities.get(&user) {
            Some(info) => if info.status == IdentityStatus::Verified {
                info.tier
            } else {
                0
            },
            None => 0,
        }
    }
}

/// An admin's addition with a positive tier verifies the user; a removal unverifies it.
pub proof fn law_registry_add_remove(s: RegistryState, admin: Address, user: Address, kyc_hash: Seq<u8>, tier: u32)
    requires
        s.admin == Some(admin),
        kyc_hash != spec_zero_hash(),
    ensures
        s.spec_add(admin, user, kyc_hash, tier).1 is Ok,
        s.spec_add(admin, user, kyc_hash, tier).0.is_verified(user) == (tier > 0),
        s.spec_add(admin, user, kyc_hash, tier).0.tier_of(user) == tier,
        s.spec_remove(admin, user).1 is Ok,
        !s.spec_remove(admin, user).0.is_verified(user),
        s.spec_remove(admin, user).0.tier_of(user) == 0,
{
}

/// Only the admin may change the registry.
pub proof fn law_registry_admin_only(s: RegistryState, caller: Address, user: Address, kyc_hash: Seq<u8>, tier: u32)
    requires
        s.admin != Some(caller),
    ensures
        s.spec_add(caller, user, kyc_hash, tier).1 is Err,
        s.spec_add(caller, user, kyc_hash, tier).0 == s,
        s.spec_remove(caller, user).1 is Err,
        s.spec_remove(caller, user).0 == s,
{
}

} // verus!
