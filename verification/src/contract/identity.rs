use vstd::prelude::*;
use super::claims::Claims;
use super::versioning::{ContractVersion, OfflineSemantics};

verus! {

#[derive(Debug, Clone, PartialEq, Eq)]
pub struct Identity {
    pub id: String,
    pub provider: String,
    pub tenant_id: String,
    pub claims: Claims,
    pub version: ContractVersion,
    pub offline: OfflineSemantics,
}

} // verus!
