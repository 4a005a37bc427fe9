//! Error taxonomy of the vector service and its mapping onto status classes.

use vstd::prelude::*;
use vstd::string::StringExecFns;

verus! {

/// Failures that the vector service can report.
#[derive(Debug, PartialEq, Eq)]
pub enum VectorError {
    /// Malformed or missing required configuration.
    Config(String),
    /// No records were available from the persistent store when required.
    EmptyStore,
    /// A filesystem failure, with the message of the underlying error.
    Io(String),
    /// Dataset or persisted record text that failed to parse.
    Serialization(String),
    /// A failure reported by the embedded database engine.
    Storage(String),
}

/// Status class under which a failure is reported to a caller.
#[derive(Debug, Clone, Copy, PartialEq, Eq, Structural)]
pub enum StatusCode {
    /// The caller can correct the request or the configuration.
    InvalidArgument,
    /// The service is not in a state in which the call can succeed.
    FailedPrecondition,
    /// Storage, I/O or serialization broke down inside the service.
    Internal,
}

/// A failure as it is surfaced to a caller: a class and a descriptive message.
#[derive(Debug, PartialEq, Eq)]
pub struct Status {
    pub code: StatusCode,
    pub message: String,
}

/// Mathematical model of a [`VectorError`].
pub enum ErrorModel {
    Config(Seq<char>),
    EmptyStore,
    Io(Seq<char>),
    Serialization(Seq<char>),
    Storage(Seq<char>),
}

/// Mathematical model of a [`Status`].
pub struct StatusModel {
    pub code: StatusCode,
    pub message: Seq<char>,
}

impl View for VectorError {
    type V = ErrorModel;

    open spec fn view(&self) -> ErrorModel {
        match self {
            VectorError::Config(msg) => ErrorModel::Config(msg@),
            VectorError::EmptyStore => ErrorModel::EmptyStore,
            VectorError::Io(msg) => ErrorModel::Io(msg@),
            VectorError::Serialization(msg) => ErrorModel::Serialization(msg@),
            VectorError::Storage(msg) => ErrorModel::Storage(msg@),
        }
    }
}

impl View for Status {
    type V = StatusModel;

    open spec fn view(&self) -> StatusModel {
        StatusModel { code: self.code, message: self.message@ }
    }
}

impl Clone for VectorError {
    fn clone(&self) -> (copy: VectorError)
        ensures
            copy@ == self@,
    {
        match self {
            VectorError::Config(msg) => VectorError::Config(msg.clone()),
            VectorError::EmptyStore => VectorError::EmptyStore,
            VectorError::Io(msg) => VectorError::Io(msg.clone()),
            VectorError::Serialization(msg) => VectorError::Serialization(msg.clone()),
            VectorError::Storage(msg) => VectorError::Storage(msg.clone()),
        }
    }
}

impl Clone for Status {
    fn clone(&self) -> (copy: Status)
        ensures
            copy@ == self@,
    {
        Status { code: self.code, message: self.message.clone() }
    }
}

/// Message reported for an empty persistent store.
pub open spec fn empty_store_message() -> Seq<char> {
    "vector store is empty"@
}

/// The status under which each error is surfaced: configuration problems are
/// the caller's to correct, an empty store is a failed precondition, and
/// everything else is internal and keeps the message of its cause.
pub open spec fn status_of(error: ErrorModel) -> StatusModel {
    match error {
        ErrorModel::Config(msg) => StatusModel { code: StatusCode::InvalidArgument, message: msg },
        ErrorModel::EmptyStore => StatusModel {
            code: StatusCode::FailedPrecondition,
            message: empty_store_message(),
        },
        ErrorModel::Io(msg) => StatusModel { code: StatusCode::Internal, message: msg },
        ErrorModel::Serialization(msg) => StatusModel { code: StatusCode::Internal, message: msg },
        ErrorModel::Storage(msg) => StatusModel { code: StatusCode::Internal, message: msg },
    }
}

/// Human-readable description of an error: a prefix naming its kind, followed
/// by the message of its cause where there is one.
pub open spec fn description_of(error: ErrorModel) -> Seq<char> {
    match error {
        ErrorModel::Config(msg) => "configuration error: "@ + msg,
        ErrorModel::EmptyStore => "persistent store is empty"@,
        ErrorModel::Io(msg) => "I/O error: "@ + msg,
        ErrorModel::Serialization(msg) => "serialization error: "@ + msg,
        ErrorModel::Storage(msg) => "storage error: "@ + msg,
    }
}

impl Status {
    /// A status of the invalid-argument class.
    pub fn invalid_argument(message: String) -> (status: Status)
        ensures
            status@ == (StatusModel { code: StatusCode::InvalidArgument, message: message@ }),
    {
        Status { code: StatusCode::InvalidArgument, message }
    }

    /// A status of the failed-precondition class.
    pub fn failed_precondition(message: String) -> (status: Status)
        ensures
            status@ == (StatusModel { code: StatusCode::FailedPrecondition, message: message@ }),
    {
        Status { code: StatusCode::FailedPrecondition, message }
    }

    /// A status of the internal class.
    pub fn internal(message: String) -> (status: Status)
        ensures
            status@ == (StatusModel { code: StatusCode::Internal, message: message@ }),
    {
        Status { code: StatusCode::Internal, message }
    }
}

impl VectorError {
    /// Surfaces the error to a caller under its status class.
    pub fn into_status(self) -> (status: Status)
        ensures
            status@ == status_of(self@),
    {
        match self {
            VectorError::Config(msg) => Status::invalid_argument(msg),
            VectorError::EmptyStore => Status::failed_precondition(
                String::from_str("vector store is empty"),
            ),
            VectorError::Io(msg) => Status::internal(msg),
            VectorError::Serialization(msg) => Status::internal(msg),
            VectorError::Storage(msg) => Status::internal(msg),
        }
    }

    /// Describes the error in words.
    pub fn describe(&self) -> (text: String)
        ensures
            text@ == description_of(self@),
    {
        match self {
            VectorError::Config(msg) => String::from_str("configuration error: ").concat(
                msg.as_str(),
            ),
            VectorError::EmptyStore => String::from_str("persistent store is empty"),
            VectorError::Io(msg) => String::from_str("I/O error: ").concat(msg.as_str()),
            VectorError::Serialization(msg) => String::from_str("serialization error: ").concat(
                msg.as_str(),
            ),
            VectorError::Storage(msg) => String::from_str("storage error: ").concat(msg.as_str()),
        }
    }
}

} // verus!
