//! The authority contract: identifiers, principals, claims, delegations,
//! runs, capabilities and authentication ceremonies.
pub mod ids;
pub mod claims;
pub mod versioning;
pub mod identity;
pub mod tenant;
pub mod principal;
pub mod delegation;
pub mod run;
pub mod capability;
pub mod authentication;
