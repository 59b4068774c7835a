//! Operations on the state of the registry.

pub mod cancellation;
pub mod checkpoint;
pub mod publication;
pub mod resources;
pub mod retention;
