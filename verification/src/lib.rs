pub mod text;
pub mod assoc;
pub mod contract;
pub mod authz;
pub mod sorting;
pub mod dsl;
pub mod discovery;
pub mod providers;
pub mod boundary;
pub mod feltdb;
pub mod cli;
