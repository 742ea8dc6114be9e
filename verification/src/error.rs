//! The error channel: every fallible bridge operation returns exactly one
//! error record beside its result. A success record carries no message; a
//! failure record always carries a non-empty one.

use vstd::prelude::*;
use vstd::string::*;

verus! {

/// The closed set of outcome categories a bridge operation can report.
#[derive(Clone, Copy, PartialEq, Eq, Structural, Debug)]
pub enum ErrorKind {
    /// The operation completed; there is nothing to report.
    Success,
    /// A malformed or missing required argument, including a null handle.
    InvalidInput,
    /// The resource to be created already exists.
    AlreadyExists,
    /// The data did not match the schema it was held against.
    SchemaMismatch,
    /// The resource to be opened does not exist or could not be opened.
    NotFound,
    /// An engine failure outside the classified categories.
    Unclassified,
    /// An unexpected internal fault, caught at the containment boundary.
    InternalFault,
}

/// An engine-reported failure, as the bridge reads it: one of the engine's
/// failure categories together with its rendered message.
pub enum EngineError {
    InvalidInput { message: String },
    DatasetAlreadyExists { message: String },
    SchemaMismatch { message: String },
    DatasetNotFound { message: String },
    Other { message: String },
}

/// The error category a given engine failure is classified into.
pub open spec fn kind_of(e: EngineError) -> ErrorKind {
    match e {
        EngineError::InvalidInput { .. } => ErrorKind::InvalidInput,
        EngineError::DatasetAlreadyExists { .. } => ErrorKind::AlreadyExists,
        EngineError::SchemaMismatch { .. } => ErrorKind::SchemaMismatch,
        EngineError::DatasetNotFound { .. } => ErrorKind::NotFound,
        EngineError::Other { .. } => ErrorKind::Unclassified,
    }
}

/// The message an engine failure carries.
pub open spec fn message_of(e: EngineError) -> Seq<char> {
    match e {
        EngineError::InvalidInput { message } => message@,
        EngineError::DatasetAlreadyExists { message } => message@,
        EngineError::SchemaMismatch { message } => message@,
        EngineError::DatasetNotFound { message } => message@,
        EngineError::Other { message } => message@,
    }
}

/// An empty engine message is replaced by a generic one, so that a failure
/// record never carries an empty message.
pub open spec fn normalized(m: Seq<char>) -> Seq<char> {
    if m.len() == 0 {
        "Unknown error"@
    } else {
        m
    }
}

/// One operation's reported outcome: the record the caller inspects and,
/// on failure, the message it eventually releases.
pub struct CLanceError {
    pub kind: ErrorKind,
    pub message: Option<String>,
}

impl CLanceError {
    /// A record is well formed when it carries a message exactly on
    /// failure, and that message is never empty.
    pub open spec fn wf(&self) -> bool {
        &&& (self.kind is Success <==> self.message is None)
        &&& (self.message matches Some(m) ==> m@.len() > 0)
    }

    /// The success record: kind zero, no message.
    pub fn success() -> (r: CLanceError)
        ensures
            r.kind is Success,
            r.message is None,
            r.wf(),
    {
        CLanceError { kind: ErrorKind::Success, message: None }
    }

    /// Classifies an engine failure into the closed category set and takes
    /// its message over, substituting a generic one for an empty message.
    pub fn from_lance_error(error: EngineError) -> (r: CLanceError)
        ensures
            r.kind == kind_of(error),
            r.message matches Some(m) && m@ == normalized(message_of(error)),
            r.wf(),
    {
        proof {
            reveal_strlit("Unknown error");
        }
        let kind = match &error {
            EngineError::InvalidInput { .. } => ErrorKind::InvalidInput,
            EngineError::DatasetAlreadyExists { .. } => ErrorKind::AlreadyExists,
            EngineError::SchemaMismatch { .. } => ErrorKind::SchemaMismatch,
            EngineError::DatasetNotFound { .. } => ErrorKind::NotFound,
            EngineError::Other { .. } => ErrorKind::Unclassified,
        };
        let message = match error {
            EngineError::InvalidInput { message } => message,
            EngineError::DatasetAlreadyExists { message } => message,
            EngineError::SchemaMismatch { message } => message,
            EngineError::DatasetNotFound { message } => message,
            EngineError::Other { message } => message,
        };
        let message = if message.as_str().unicode_len() == 0 {
            String::from_str("Unknown error")
        } else {
            message
        };
        CLanceError { kind, message: Some(message) }
    }

    /// The record for a fault caught at the containment boundary.
    pub fn internal_fault() -> (r: CLanceError)
        ensures
            r.kind is InternalFault,
            r.message matches Some(m) && m@ == "Panic occurred"@,
            r.wf(),
    {
        proof {
            reveal_strlit("Panic occurred");
        }
        CLanceError { kind: ErrorKind::InternalFault, message: Some(String::from_str("Panic occurred")) }
    }

    /// The record for a rejected input, carrying the given description.
    pub fn invalid_input(msg: &str) -> (r: CLanceError)
        requires
            msg@.len() > 0,
        ensures
            r.kind is InvalidInput,
            r.message matches Some(m) && m@ == msg@,
            r.wf(),
    {
        CLanceError { kind: ErrorKind::InvalidInput, message: Some(String::from_str(msg)) }
    }

    /// The record for data held against a schema it does not match.
    pub fn schema_mismatch(msg: &str) -> (r: CLanceError)
        requires
            msg@.len() > 0,
        ensures
            r.kind is SchemaMismatch,
            r.message matches Some(m) && m@ == msg@,
            r.wf(),
    {
        CLanceError { kind: ErrorKind::SchemaMismatch, message: Some(String::from_str(msg)) }
    }

    /// The record for a failure outside the classified categories.
    pub fn unclassified(msg: &str) -> (r: CLanceError)
        requires
            msg@.len() > 0,
        ensures
            r.kind is Unclassified,
            r.message matches Some(m) && m@ == msg@,
            r.wf(),
    {
        CLanceError { kind: ErrorKind::Unclassified, message: Some(String::from_str(msg)) }
    }

    /// True exactly when the record reports success.
    pub fn is_success(&self) -> (r: bool)
        ensures
            r == (self.kind is Success),
    {
        match self.kind {
            ErrorKind::Success => true,
            _ => false,
        }
    }

    /// The numeric code of the record's kind, for a caller that wants a
    /// scalar: success is zero, the classified failures are small positive
    /// numbers, an unclassified failure is 999 and a contained fault is -1.
    pub fn code(&self) -> (r: i32)
        ensures
            r == spec_code(self.kind),
            r == 0 <==> self.kind is Success,
    {
        match self.kind {
            ErrorKind::Success => 0,
            ErrorKind::InvalidInput => 1,
            ErrorKind::AlreadyExists => 2,
            ErrorKind::SchemaMismatch => 3,
            ErrorKind::NotFound => 4,
            ErrorKind::Unclassified => 999,
            ErrorKind::InternalFault => -1,
        }
    }
}

/// The scalar code of each outcome category.
pub open spec fn spec_code(kind: ErrorKind) -> i32 {
    match kind {
        ErrorKind::Success => 0,
        ErrorKind::InvalidInput => 1,
        ErrorKind::AlreadyExists => 2,
        ErrorKind::SchemaMismatch => 3,
        ErrorKind::NotFound => 4,
        ErrorKind::Unclassified => 999,
        ErrorKind::InternalFault => -1i32,
    }
}

/// What came back from driving one engine call to completion inside the
/// fault containment boundary: the call's value, an engine-classified
/// failure, or a caught internal fault.
pub enum EngineOutcome<T> {
    Completed(T),
    Failed(EngineError),
    Fault,
}

impl<T> EngineOutcome<T> {
    /// The completed call's value.
    pub open spec fn value(self) -> T
        recommends
            self is Completed,
    {
        self->Completed_0
    }

    /// The engine-classified failure.
    pub open spec fn failure(self) -> EngineError
        recommends
            self is Failed,
    {
        self->Failed_0
    }
}

} // verus!
