//! What is wrong with a stored state.

use crate::decimal::{decimal, decimal_text};
use vstd::prelude::*;
use vstd::string::StringExecFns;

verus! {

#[derive(Clone, Copy, Debug, PartialEq, Eq, Structural)]
pub enum StoreErrorKind {
    InvalidData,
    NotADirectory,
    NotFound,
}

#[derive(Debug, PartialEq, Eq)]
pub struct StoreError {
    pub kind: StoreErrorKind,
    pub message: String,
}

/// What a `StoreError` holds.
#[verifier::ext_equal]
pub struct StoreErrorView {
    pub kind: StoreErrorKind,
    pub message: Seq<char>,
}

impl View for StoreError {
    type V = StoreErrorView;

    open spec fn view(&self) -> StoreErrorView {
        StoreErrorView { kind: self.kind, message: self.message@ }
    }
}

impl StoreError {
    pub fn kind(&self) -> (kind: StoreErrorKind)
        ensures
            kind == self.kind,
    {
        self.kind
    }
}

pub open spec fn invalid(message: Seq<char>) -> StoreErrorView {
    StoreErrorView { kind: StoreErrorKind::InvalidData, message }
}

pub fn invalid_data(message: &str) -> (error: StoreError)
    ensures
        error@ == invalid(message@),
{
    StoreError { kind: StoreErrorKind::InvalidData, message: message.to_owned() }
}

/// What went wrong, if anything.
pub open spec fn error_of<T>(result: Result<T, StoreError>) -> Option<StoreErrorView> {
    match result {
        Ok(_) => None,
        Err(error) => Some(error@),
    }
}

/// The first of two errors.
pub open spec fn first_of(
    first: Option<StoreErrorView>,
    second: Option<StoreErrorView>,
) -> Option<StoreErrorView> {
    match first {
        Some(error) => Some(error),
        None => second,
    }
}

pub open spec fn too_many(label: Seq<char>, limit: nat) -> StoreErrorView {
    invalid(label + " cannot exceed "@ + decimal_text(limit) + " entries"@)
}

/// What is wrong with a collection of `len` entries of which at most `limit` are allowed.
pub open spec fn len_problem(label: Seq<char>, len: nat, limit: nat) -> Option<StoreErrorView> {
    if len > limit {
        Some(too_many(label, limit))
    } else {
        None
    }
}

pub(crate) fn too_many_entries(label: &str, limit: usize) -> (error: StoreError)
    ensures
        error@ == too_many(label@, limit as nat),
{
    let message = label.to_owned().concat(" cannot exceed ").concat(
        decimal(limit).as_str(),
    ).concat(" entries");
    invalid_data(message.as_str())
}

pub fn validate_collection_len(label: &str, len: usize, limit: usize) -> (result: Result<
    (),
    StoreError,
>)
    ensures
        error_of(result) == len_problem(label@, len as nat, limit as nat),
{
    if len > limit {
        return Err(too_many_entries(label, limit));
    }
    Ok(())
}

/// How much a stored state may hold of what the rest of the server bounds.
#[derive(Clone, Copy, Debug, PartialEq, Eq, Structural)]
pub struct StoreLimits {
    pub max_registered_task_resources: usize,
    pub max_task_resources: usize,
    pub max_task_results: usize,
    pub max_task_artifacts: usize,
    pub max_task_candidates: usize,
}

impl StoreLimits {
    /// How many directories of resources may be found on disk: those of all resources that are
    /// registered, and those of one output that is about to be.
    pub fn max_resource_directories(&self) -> (count: usize)
        ensures
            count == if self.max_registered_task_resources + self.max_task_resources <= usize::MAX {
                self.max_registered_task_resources + self.max_task_resources
            } else {
                usize::MAX as int
            },
    {
        self.max_registered_task_resources.saturating_add(self.max_task_resources)
    }
}

} // verus!
