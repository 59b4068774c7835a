//! A registry of Bilibili download and playback tasks.
//!
//! The crate keeps the state of a cache server's tasks, decides how each request, worker report
//! and restart changes it, and says what has to be written to disk before a change may be shown.

pub mod active_key;
pub mod changes;
pub mod decimal;
pub mod gather;
pub mod hls;
pub mod id_set;
pub mod identifiers;
pub mod inner;
pub mod laws;
pub mod messages;
pub mod model;
pub mod ordered;
pub mod plain;
pub mod registry;
pub mod requests;
pub mod results;
pub mod search;
pub mod states;
pub mod status;
pub mod store;
pub mod table;
pub mod text;
pub mod timing;
pub mod visible_output;
