use vstd::prelude::*;
use crate::types::{Address, UpgradeAuditLog};

verus! {

/// Read-only access to the upgrade audit trail of other contracts. No
/// trail is kept here: history is empty, no latest upgrade is known, and
/// every chain counts as documented.
pub struct UpgradeAuditQueryContract;

impl UpgradeAuditQueryContract {
    /// The upgrade history of `contract_address`.
    pub fn get_upgrade_history(&self, contract_address: Address) -> (r: Vec<UpgradeAuditLog>)
        ensures
            r@ == Seq::<UpgradeAuditLog>::empty(),
    {
        Vec::new()
    }

    /// Whether every upgrade of `contract_address` is documented.
    pub fn verify_upgrade_chain(&self, contract_address: Address) -> (r: bool)
        ensures
            r,
    {
        true
    }

    /// The latest upgrade of `contract_address`.
    pub fn get_latest_upgrade(&self, contract_address: Address) -> (r: Option<UpgradeAuditLog>)
        ensures
            r is None,
    {
        None
    }
}

} // verus!
