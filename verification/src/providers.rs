//! Identity providers and connectors. A connector proves an external
//! identity and never creates a principal; declared connectors that have no
//! implementation refuse every attempt.
pub mod identity;
pub mod connector;
pub mod catalog;
pub mod declared;
pub mod local;
pub mod registry;
