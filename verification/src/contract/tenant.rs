use vstd::prelude::*;
use super::ids::{PolicyId, StorageRootId, TenantId};

verus! {

#[derive(Debug, Clone, PartialEq, Eq)]
pub struct Tenant {
    pub id: String,
    pub namespace: String,
    pub policy_id: String,
    pub storage_root_id: String,
}

/// The tenant an operation runs in, with the policy and storage root that
/// govern it.
#[derive(Debug, Clone, PartialEq, Eq)]
pub struct TenantContext {
    pub tenant_id: TenantId,
    pub namespace: String,
    pub policy_id: PolicyId,
    pub storage_root_id: StorageRootId,
}

} // verus!
