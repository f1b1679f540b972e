//! The auth declaration language: `use auth { ... }` states what identity
//! and authority an application needs.
pub mod model;
pub mod parser;
