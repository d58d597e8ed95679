//! Why a runtime update is refused.

use vstd::prelude::*;
use vstd::string::StringExecFns;

verus! {

/// Why a runtime update is refused.
#[derive(Debug, PartialEq, Eq)]
pub enum RuntimeEventError {
    InvalidEvent(&'static str),
    InvalidSnapshot(&'static str),
    InvalidRevision,
    TargetMismatch { expected: String, actual: String },
    InvalidRuntimeKey(String),
    RuntimeKeyNotAllowed(String),
    DuplicateRuntimeValue(String),
}

pub type RuntimeEventResult<T> = std::result::Result<T, RuntimeEventError>;

/// The text of a refusal.
#[verifier::ext_equal]
pub enum ErrorModel {
    InvalidEvent(Seq<char>),
    InvalidSnapshot(Seq<char>),
    InvalidRevision,
    TargetMismatch { expected: Seq<char>, actual: Seq<char> },
    InvalidRuntimeKey(Seq<char>),
    RuntimeKeyNotAllowed(Seq<char>),
    DuplicateRuntimeValue(Seq<char>),
}

impl ErrorModel {
    /// The diagnostic for the refusal.
    pub open spec fn message(self) -> Seq<char> {
        match self {
            ErrorModel::InvalidEvent(reason) => "runtime event is invalid: "@ + reason,
            ErrorModel::InvalidSnapshot(reason) => "runtime snapshot is invalid: "@ + reason,
            ErrorModel::InvalidRevision => {
                "runtime revision must be canonical decimal within the cross-runtime safe integer bound"@
            },
            ErrorModel::TargetMismatch { expected, actual } => {
                "runtime update targeted "@ + actual + ", expected "@ + expected
            },
            ErrorModel::InvalidRuntimeKey(key) => {
                "invalid or secret-bearing runtime key: "@ + key
            },
            ErrorModel::RuntimeKeyNotAllowed(key) => {
                "runtime key is not allowlisted by .ores-sidecar.toml: "@ + key
            },
            ErrorModel::DuplicateRuntimeValue(key) => {
                "duplicate runtime value or key: "@ + key
            },
        }
    }
}

impl View for RuntimeEventError {
    type V = ErrorModel;

    open spec fn view(&self) -> ErrorModel {
        match self {
            RuntimeEventError::InvalidEvent(reason) => ErrorModel::InvalidEvent(reason@),
            RuntimeEventError::InvalidSnapshot(reason) => ErrorModel::InvalidSnapshot(reason@),
            RuntimeEventError::InvalidRevision => ErrorModel::InvalidRevision,
            RuntimeEventError::TargetMismatch { expected, actual } => {
                ErrorModel::TargetMismatch { expected: expected@, actual: actual@ }
            },
            RuntimeEventError::InvalidRuntimeKey(key) => ErrorModel::InvalidRuntimeKey(key@),
            RuntimeEventError::RuntimeKeyNotAllowed(key) => ErrorModel::RuntimeKeyNotAllowed(key@),
            RuntimeEventError::DuplicateRuntimeValue(key) => {
                ErrorModel::DuplicateRuntimeValue(key@)
            },
        }
    }
}

impl RuntimeEventError {
    /// The diagnostic for the refusal.
    pub fn message(&self) -> (text: String)
        ensures
            text@ == self@.message(),
    {
        match self {
            RuntimeEventError::InvalidEvent(reason) => {
                "runtime event is invalid: ".to_owned().concat(reason)
            },
            RuntimeEventError::InvalidSnapshot(reason) => {
                "runtime snapshot is invalid: ".to_owned().concat(reason)
            },
            RuntimeEventError::InvalidRevision => {
                "runtime revision must be canonical decimal within the cross-runtime safe integer bound".to_owned()
            },
            RuntimeEventError::TargetMismatch { expected, actual } => {
                "runtime update targeted ".to_owned().concat(actual.as_str()).concat(
                    ", expected ",
                ).concat(expected.as_str())
            },
            RuntimeEventError::InvalidRuntimeKey(key) => {
                "invalid or secret-bearing runtime key: ".to_owned().concat(key.as_str())
            },
            RuntimeEventError::RuntimeKeyNotAllowed(key) => {
                "runtime key is not allowlisted by .ores-sidecar.toml: ".to_owned().concat(
                    key.as_str(),
                )
            },
            RuntimeEventError::DuplicateRuntimeValue(key) => {
                "duplicate runtime value or key: ".to_owned().concat(key.as_str())
            },
        }
    }
}

} // verus!
