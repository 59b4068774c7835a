//! How a request is refused.

use vstd::prelude::*;

verus! {

/// The reason for a refusal.
#[derive(Clone, Copy, Debug, PartialEq, Eq, Structural)]
pub enum Code {
    InvalidArgument,
    NotFound,
    AlreadyExists,
    ResourceExhausted,
    FailedPrecondition,
    Internal,
    Unavailable,
}

/// A refusal: its reason, and words for the client.
#[derive(Debug, PartialEq, Eq)]
pub struct Status {
    pub code: Code,
    pub message: String,
}

/// What a `Status` holds.
#[verifier::ext_equal]
pub struct StatusView {
    pub code: Code,
    pub message: Seq<char>,
}

impl DeepView for Status {
    type V = StatusView;

    open spec fn deep_view(&self) -> StatusView {
        StatusView { code: self.code, message: self.message@ }
    }
}

impl View for Status {
    type V = StatusView;

    #[verifier::inline]
    open spec fn view(&self) -> StatusView {
        self.deep_view()
    }
}

pub open spec fn refusal(code: Code, message: Seq<char>) -> StatusView {
    StatusView { code, message }
}

impl Status {
    pub fn new(code: Code, message: &str) -> (status: Self)
        ensures
            status@ == refusal(code, message@),
    {
        Status { code, message: message.to_owned() }
    }

    pub fn code(&self) -> (code: Code)
        ensures
            code == self.code,
    {
        self.code
    }
}

} // verus!
