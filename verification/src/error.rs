//! What can go wrong, and how a driver's report of a failed step becomes the
//! error that the caller sees.

use vstd::prelude::*;

verus! {

/// The kinds of failure that an operation reports.
#[derive(Clone, Copy, Debug, PartialEq, Eq, Structural)]
pub enum ErrorKind {
    /// The backing store could not be opened or created at its location.
    StorageUnavailable,
    /// The store was opened, but its table could not be set up.
    Schema,
    /// The value could not be encoded.
    Encode,
    /// The payload of a row could not be decoded.
    Decode,
    /// A statement failed, or a row did not have the shape that the table
    /// gives it: the file and this engine disagree about the table.
    Query,
    /// An instant has no RFC 3339 text that reads back as the same instant.
    Timestamp,
}

/// A failure: its kind, and what the failing step said.
#[derive(Debug, PartialEq, Eq)]
pub struct Error {
    pub kind: ErrorKind,
    pub detail: String,
}

/// An [`Error`] as contracts see it.
pub struct ErrorView {
    pub kind: ErrorKind,
    pub detail: Seq<char>,
}

impl View for Error {
    type V = ErrorView;

    open spec fn view(&self) -> ErrorView {
        ErrorView { kind: self.kind, detail: self.detail@ }
    }
}

/// The step of a driver's work at which a statement failed.
#[derive(Clone, Copy, Debug, PartialEq, Eq, Structural)]
pub enum Stage {
    /// Opening the store at its location.
    Open,
    /// Running the statement against the opened store.
    Execute,
}

/// A driver's report that a statement was not carried out.
#[derive(Debug, PartialEq, Eq)]
pub struct Fault {
    pub stage: Stage,
    pub detail: String,
}

/// The outcome of an operation as contracts see it: the error by its view.
pub open spec fn seen<A>(outcome: Result<A, Error>) -> Result<A, ErrorView> {
    match outcome {
        Ok(value) => Ok(value),
        Err(error) => Err(error@),
    }
}

/// The kind of error that a failure at `stage` is, for the statement that
/// sets up the table (`setup`) or for any other.
pub open spec fn failure_kind(setup: bool, stage: Stage) -> ErrorKind {
    match stage {
        Stage::Open => ErrorKind::StorageUnavailable,
        Stage::Execute => if setup {
            ErrorKind::Schema
        } else {
            ErrorKind::Query
        },
    }
}

impl Error {
    /// An error of the given kind with the given detail.
    pub fn new(kind: ErrorKind, detail: String) -> (error: Error)
        ensures
            error@ == (ErrorView { kind, detail: detail@ }),
    {
        Error { kind, detail }
    }

    /// The error that a driver's fault is to the caller: a store that cannot
    /// be opened is unavailable; a statement that fails on an open store is a
    /// schema error where it sets up the table and a query error otherwise.
    /// The driver's own words are kept.
    pub fn from_fault(setup: bool, fault: Fault) -> (error: Error)
        ensures
            error@ == (ErrorView {
                kind: failure_kind(setup, fault.stage),
                detail: fault.detail@,
            }),
    {
        let kind = match fault.stage {
            Stage::Open => ErrorKind::StorageUnavailable,
            Stage::Execute => if setup {
                ErrorKind::Schema
            } else {
                ErrorKind::Query
            },
        };
        Error { kind, detail: fault.detail }
    }

    /// The name of the error's kind.
    pub fn kind_name(&self) -> (name: &'static str)
        ensures
            name@ == kind_text(self.kind),
    {
        match self.kind {
            ErrorKind::StorageUnavailable => "storage unavailable",
            ErrorKind::Schema => "schema error",
            ErrorKind::Encode => "encode error",
            ErrorKind::Decode => "decode error",
            ErrorKind::Query => "query error",
            ErrorKind::Timestamp => "timestamp error",
        }
    }

    /// The error in words: the name of its kind, a colon, and the detail.
    pub fn message(&self) -> (text: String)
        ensures
            text@ == kind_text(self.kind) + ": "@ + self.detail@,
    {
        let mut text = String::from_str(self.kind_name());
        text.append(": ");
        text.append(self.detail.as_str());
        text
    }
}

/// The name of each kind of error.
pub open spec fn kind_text(kind: ErrorKind) -> Seq<char> {
    match kind {
        ErrorKind::StorageUnavailable => "storage unavailable"@,
        ErrorKind::Schema => "schema error"@,
        ErrorKind::Encode => "encode error"@,
        ErrorKind::Decode => "decode error"@,
        ErrorKind::Query => "query error"@,
        ErrorKind::Timestamp => "timestamp error"@,
    }
}

} // verus!
