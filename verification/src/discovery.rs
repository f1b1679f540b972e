//! Framework-neutral application discovery for adoption: what routes an
//! application exposes, what capability each likely needs, and how the
//! discovered surface drifts from approved authority. Discovery only reads;
//! it recommends and never applies.
pub mod model;
pub mod paths;
pub mod authority_map;
pub mod propose;
pub mod reconcile;
pub mod render;
pub mod scan;
