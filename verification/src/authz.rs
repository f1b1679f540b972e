//! Authorization: the policy model and the single policy engine that decides
//! for humans, services and agents alike.
pub mod policy;
pub mod evaluator;
pub mod shape;
