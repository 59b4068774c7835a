//! The registry of Bilibili tasks.
//!
//! A request changes the live state first. The change is then committed: it is written down where
//! the registry keeps its state on disk, and shown to clients once that has succeeded. The registry
//! itself touches no file. It says what is to be saved or deleted, and is told what came of it.

pub mod commit;
pub mod creation;
pub mod lifecycle;
pub mod playback;
pub mod queries;
pub mod removal;
pub mod restore;
pub mod staging;
pub mod storage;
pub mod watching;

use crate::inner::cancellation::keeps_stop_requests;
use crate::inner::checkpoint::consistent;
use crate::model::state::{RegistryInner, RegistryInnerView};
use crate::timing::TaskRetentionPolicy;
use vstd::prelude::*;

verus! {

/// What is known of the file that holds the state.
#[derive(Clone, Copy, Debug, PartialEq, Eq, Structural)]
pub struct TaskStatePersistence {
    /// The last save was durable.
    pub available: bool,
    pub latest_seen_generation: u64,
}

impl TaskStatePersistence {
    pub fn new() -> (persistence: Self)
        ensures
            persistence == (TaskStatePersistence { available: true, latest_seen_generation: 0 }),
    {
        TaskStatePersistence { available: true, latest_seen_generation: 0 }
    }

    pub fn is_available(&self) -> (available: bool)
        ensures
            available == self.available,
    {
        self.available
    }
}

pub struct BilibiliTaskRegistry {
    pub inner: RegistryInner,
    pub persistence: Option<TaskStatePersistence>,
    /// The state was meant to be kept on disk, even if the file could not be read.
    pub persistence_configured: bool,
    pub retention_policy: TaskRetentionPolicy,
    /// There is a directory for the bodies of resources.
    pub resource_root_configured: bool,
    pub resource_storage_available: bool,
    pub orphan_resource_scan_pending: bool,
    pub max_registered_resources: usize,
}

/// What a `BilibiliTaskRegistry` holds.
#[verifier::ext_equal]
pub struct BilibiliTaskRegistryView {
    pub inner: RegistryInnerView,
    pub persistence: Option<TaskStatePersistence>,
    pub persistence_configured: bool,
    pub retention_policy: TaskRetentionPolicy,
    pub resource_root_configured: bool,
    pub resource_storage_available: bool,
    pub orphan_resource_scan_pending: bool,
    pub max_registered_resources: usize,
}

impl View for BilibiliTaskRegistry {
    type V = BilibiliTaskRegistryView;

    open spec fn view(&self) -> BilibiliTaskRegistryView {
        BilibiliTaskRegistryView {
            inner: self.inner@,
            persistence: self.persistence,
            persistence_configured: self.persistence_configured,
            retention_policy: self.retention_policy,
            resource_root_configured: self.resource_root_configured,
            resource_storage_available: self.resource_storage_available,
            orphan_resource_scan_pending: self.orphan_resource_scan_pending,
            max_registered_resources: self.max_registered_resources,
        }
    }
}

impl BilibiliTaskRegistryView {
    /// What always holds of a registry.
    pub open spec fn well_formed(self) -> bool {
        consistent(self.inner)
    }

    /// The state is kept on disk, and the last save was durable.
    pub open spec fn persistence_available(self) -> bool {
        self.persistence matches Some(persistence) && persistence.available
    }

    /// The state is kept on disk, and something of it may not have been written down durably.
    pub open spec fn behind_on_disk(self) -> bool {
        self.persistence matches Some(persistence) && !persistence.available
    }

    pub open spec fn with_inner(self, inner: RegistryInnerView) -> BilibiliTaskRegistryView {
        BilibiliTaskRegistryView { inner, ..self }
    }

    /// What every call keeps of the registry as it was `before`: whether there is a file, whether
    /// there was meant to be one, and all requests to stop.
    pub open spec fn continues(self, before: BilibiliTaskRegistryView) -> bool {
        &&& (self.persistence is Some) == (before.persistence is Some)
        &&& self.persistence_configured == before.persistence_configured
        &&& keeps_stop_requests(before.inner, self.inner)
    }
}

impl BilibiliTaskRegistry {
    pub fn persistence_available(&self) -> (available: bool)
        ensures
            available == self@.persistence_available(),
    {
        match &self.persistence {
            Some(persistence) => persistence.is_available(),
            None => false,
        }
    }

    pub fn persistence_configured(&self) -> (configured: bool)
        ensures
            configured == self.persistence_configured,
    {
        self.persistence_configured
    }

    pub fn persistence_recovery_supported(&self) -> (supported: bool)
        ensures
            supported == (self.persistence is Some),
    {
        self.persistence.is_some()
    }

    pub(crate) fn behind_on_disk(&self) -> (behind: bool)
        ensures
            behind == self@.behind_on_disk(),
    {
        self.persistence.is_some() && !self.persistence_available()
    }

    pub fn task_output_v2_available(&self) -> (available: bool)
        ensures
            available == (self.resource_storage_available && self@.persistence_available()),
    {
        self.resource_storage_available && self.persistence_available()
    }
}

} // verus!
