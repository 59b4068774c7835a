//! The messages and records that the registry holds.

pub mod basics;
pub mod dated;
pub mod key;
pub mod options;
pub mod output;
pub mod playback;
pub mod record;
pub mod state;
pub mod task;
pub mod visible;
