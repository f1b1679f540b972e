//! The backend boundary: requests as the authority model sees them, what a
//! route demands, the clock authority reads, single-use mail ceremonies, the
//! client projection, the live authority overlay with its changes, and the
//! store of proposed and applied changes.
pub mod request;
pub mod requirement;
pub mod clock;
pub mod ceremony;
pub mod context;
pub mod control;
pub mod settings;
pub mod proposal_store;
