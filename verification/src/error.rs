//! What can go wrong in the host.
use crate::bridge::{FrontendError, FrontendErrorView};
use crate::contracts::RuntimeError;
use crate::resource::error::ResourceBridgeError;
use crate::text;
use vstd::prelude::*;
use vstd::string::*;

verus! {

broadcast use vstd::string::group_string_axioms;

/// Why the host refuses or fails.
#[derive(Debug, PartialEq, Eq)]
pub enum HostError {
    /// The runtime's own structured error.
    RuntimeFailure(RuntimeError),
    Runtime(String),
    Resource(String),
    Approval(String),
    Config(String),
    Unsupported(String),
}

pub type HostResult<T> = Result<T, HostError>;

impl HostError {
    /// How a host error is shown to the frontend.
    pub open spec fn shown(self) -> FrontendErrorView {
        match self {
            HostError::RuntimeFailure(error) => FrontendError::of_runtime_error(error@),
            HostError::Runtime(message) => FrontendErrorView {
                code: "runtime.failed"@,
                message: message@,
                details: None,
            },
            HostError::Resource(message) => FrontendErrorView {
                code: "resource.failed"@,
                message: message@,
                details: None,
            },
            HostError::Approval(message) => FrontendErrorView {
                code: "approval.failed"@,
                message: message@,
                details: None,
            },
            HostError::Config(message) => FrontendErrorView {
                code: "config.failed"@,
                message: message@,
                details: None,
            },
            HostError::Unsupported(message) => FrontendErrorView {
                code: "unsupported"@,
                message: message@,
                details: None,
            },
        }
    }

    /// The error in words. A runtime failure speaks by its code and its route.
    pub fn message(&self) -> (words: String)
        ensures
            words@ == match *self {
                HostError::RuntimeFailure(error) => error.code@ + " at "@ + error.route@,
                HostError::Runtime(message) => "runtime failure: "@ + message@,
                HostError::Resource(message) => "resource failure: "@ + message@,
                HostError::Approval(message) => "approval failure: "@ + message@,
                HostError::Config(message) => "configuration failure: "@ + message@,
                HostError::Unsupported(message) => "unsupported operation: "@ + message@,
            },
    {
        match self {
            HostError::RuntimeFailure(error) => text::join3(
                error.code.as_str(),
                " at ",
                error.route.as_str(),
            ),
            HostError::Runtime(message) => text::join2("runtime failure: ", message.as_str()),
            HostError::Resource(message) => text::join2("resource failure: ", message.as_str()),
            HostError::Approval(message) => text::join2("approval failure: ", message.as_str()),
            HostError::Config(message) => text::join2("configuration failure: ", message.as_str()),
            HostError::Unsupported(message) => text::join2(
                "unsupported operation: ",
                message.as_str(),
            ),
        }
    }
}

impl From<RuntimeError> for HostError {
    fn from(error: RuntimeError) -> (raised: Self)
        ensures
            raised == HostError::RuntimeFailure(error),
    {
        HostError::RuntimeFailure(error)
    }
}

impl vstd::std_specs::convert::FromSpecImpl<RuntimeError> for HostError {
    open spec fn obeys_from_spec() -> bool {
        true
    }

    open spec fn from_spec(error: RuntimeError) -> Self {
        HostError::RuntimeFailure(error)
    }
}

impl From<ResourceBridgeError> for HostError {
    fn from(error: ResourceBridgeError) -> (raised: Self)
        ensures
            raised matches HostError::Resource(words) && words@ == error.words(),
    {
        HostError::Resource(error.message())
    }
}

impl vstd::std_specs::convert::FromSpecImpl<ResourceBridgeError> for HostError {
    open spec fn obeys_from_spec() -> bool {
        false
    }

    open spec fn from_spec(error: ResourceBridgeError) -> Self {
        arbitrary()
    }
}

impl From<HostError> for FrontendError {
    fn from(error: HostError) -> (shown: Self)
        ensures
            shown@ == error.shown(),
    {
        match error {
            HostError::RuntimeFailure(failure) => FrontendError::from(failure),
            HostError::Runtime(message) => FrontendError::new("runtime.failed".to_owned(), message),
            HostError::Resource(message) => FrontendError::new(
                "resource.failed".to_owned(),
                message,
            ),
            HostError::Approval(message) => FrontendError::new(
                "approval.failed".to_owned(),
                message,
            ),
            HostError::Config(message) => FrontendError::new("config.failed".to_owned(), message),
            HostError::Unsupported(message) => FrontendError::new(
                "unsupported".to_owned(),
                message,
            ),
        }
    }
}

impl vstd::std_specs::convert::FromSpecImpl<HostError> for FrontendError {
    open spec fn obeys_from_spec() -> bool {
        false
    }

    open spec fn from_spec(error: HostError) -> Self {
        arbitrary()
    }
}

/// Every error of the host is shown under the code of its own kind, and says what it said itself.
pub proof fn law_shown_error_tells_its_kind(error: HostError)
    ensures
        error matches HostError::Runtime(words) ==> error.shown().code == "runtime.failed"@
            && error.shown().message == words@,
        error matches HostError::Resource(words) ==> error.shown().code == "resource.failed"@
            && error.shown().message == words@,
        error matches HostError::Approval(words) ==> error.shown().code == "approval.failed"@
            && error.shown().message == words@,
        error matches HostError::Config(words) ==> error.shown().code == "config.failed"@
            && error.shown().message == words@,
        error matches HostError::Unsupported(words) ==> error.shown().code == "unsupported"@
            && error.shown().message == words@,
        error matches HostError::RuntimeFailure(failure) ==> error.shown().code == failure.code@
            && error.shown().message == failure.route@ && error.shown().details is Some,
        error !is RuntimeFailure ==> error.shown().details is None,
{
}

} // verus!
