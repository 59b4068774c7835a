//! The file that keeps the state of the registry: what may stand in it.
//!
//! The files themselves are read and written elsewhere. This part says which contents are sound,
//! on the way in and on the way out.

pub mod budget;
pub mod candidates;
pub mod errors;
pub mod intents;
pub mod paths;
pub mod records;
pub mod sequence;
pub mod snapshot;
