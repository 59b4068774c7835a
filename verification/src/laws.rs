//! What the operations are for. Each law speaks of what goes into an operation and what comes out
//! of it, in terms of what a task, an output or a record holds, and of how calls relate.

pub mod commit;
pub mod lifecycle;
pub mod outputs;
pub mod playback;
pub mod removal;
pub mod requests;
pub mod restart;
pub mod retention;
pub mod sessions;
pub mod store;
pub mod text;
pub mod times;
