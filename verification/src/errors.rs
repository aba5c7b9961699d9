//! The errors of the library.

use vstd::prelude::*;

verus! {

/// An error of a session operation.
#[derive(Debug)]
pub enum OpenBitFunError {
    Validation(String),
    NotFound(String),
    Io(String),
    Parse(String),
    Serialization(String),
    Deserialization(String),
    Session(String),
    SessionInUse { session_id: String },
    SessionCreateCleanupRequired { session_id: String, error: String, cleanup_error: String },
    OutcomeUnknown(String),
    Cancelled(String),
    Timeout(String),
}

/// The kind of an [`OpenBitFunError`] and its texts.
pub enum ErrorModel {
    Validation(Seq<char>),
    NotFound(Seq<char>),
    Io(Seq<char>),
    Parse(Seq<char>),
    Serialization(Seq<char>),
    Deserialization(Seq<char>),
    Session(Seq<char>),
    SessionInUse { session_id: Seq<char> },
    SessionCreateCleanupRequired {
        session_id: Seq<char>,
        error: Seq<char>,
        cleanup_error: Seq<char>,
    },
    OutcomeUnknown(Seq<char>),
    Cancelled(Seq<char>),
    Timeout(Seq<char>),
}

impl View for OpenBitFunError {
    type V = ErrorModel;

    open spec fn view(&self) -> ErrorModel {
        match self {
            OpenBitFunError::Validation(s) => ErrorModel::Validation(s@),
            OpenBitFunError::NotFound(s) => ErrorModel::NotFound(s@),
            OpenBitFunError::Io(s) => ErrorModel::Io(s@),
            OpenBitFunError::Parse(s) => ErrorModel::Parse(s@),
            OpenBitFunError::Serialization(s) => ErrorModel::Serialization(s@),
            OpenBitFunError::Deserialization(s) => ErrorModel::Deserialization(s@),
            OpenBitFunError::Session(s) => ErrorModel::Session(s@),
            OpenBitFunError::SessionInUse { session_id } => ErrorModel::SessionInUse {
                session_id: session_id@,
            },
            OpenBitFunError::SessionCreateCleanupRequired {
                session_id,
                error,
                cleanup_error,
            } => ErrorModel::SessionCreateCleanupRequired {
                session_id: session_id@,
                error: error@,
                cleanup_error: cleanup_error@,
            },
            OpenBitFunError::OutcomeUnknown(s) => ErrorModel::OutcomeUnknown(s@),
            OpenBitFunError::Cancelled(s) => ErrorModel::Cancelled(s@),
            OpenBitFunError::Timeout(s) => ErrorModel::Timeout(s@),
        }
    }
}

/// Appends a decimal numeral.
pub fn push_number(s: &mut String, n: u64)
    ensures
        final(s)@ == old(s)@ + crate::text::decimal(n as nat),
{
    s.append(crate::text::decimal_text(n).as_str());
}

/// What went wrong in a JSON file store.
#[derive(Debug, Clone, Copy, PartialEq, Eq, Structural)]
pub enum StoreFailureKind {
    Deserialization,
    Serialization,
    Other,
}

/// The error for a failure of a JSON file or metadata store.
pub fn json_store_error(kind: StoreFailureKind, message: String) -> (r: OpenBitFunError)
    ensures
        r == match kind {
            StoreFailureKind::Deserialization => OpenBitFunError::Deserialization(message),
            StoreFailureKind::Serialization => OpenBitFunError::Serialization(message),
            StoreFailureKind::Other => OpenBitFunError::Io(message),
        },
{
    match kind {
        StoreFailureKind::Deserialization => OpenBitFunError::Deserialization(message),
        StoreFailureKind::Serialization => OpenBitFunError::Serialization(message),
        StoreFailureKind::Other => OpenBitFunError::Io(message),
    }
}

/// Why a session's write lock was not given.
#[derive(Debug)]
pub enum SessionWriteLockFailure {
    InUse,
    Other { code: String, message: String },
}

/// The error for a refused write lock: a session in use is named as such.
pub fn session_write_lock_error(session_id: &str, failure: &SessionWriteLockFailure) -> (r:
    OpenBitFunError)
    ensures
        r@ == match *failure {
            SessionWriteLockFailure::InUse => ErrorModel::SessionInUse { session_id: session_id@ },
            SessionWriteLockFailure::Other { code, message } => ErrorModel::Session(
                "Failed to protect Session writes: session_id="@ + session_id@ + ", code="@ + code@
                    + ", error="@ + message@,
            ),
        },
{
    match failure {
        SessionWriteLockFailure::InUse => OpenBitFunError::SessionInUse {
            session_id: session_id.to_owned(),
        },
        SessionWriteLockFailure::Other { code, message } => {
            let mut text: String = "Failed to protect Session writes: session_id=".to_owned();
            text.append(session_id);
            text.append(", code=");
            text.append(code.as_str());
            text.append(", error=");
            text.append(message.as_str());
            OpenBitFunError::Session(text)
        },
    }
}

/// The error for a session whose metadata is not there.
pub fn metadata_not_found(session_id: &str) -> (r: OpenBitFunError)
    ensures
        r@ == ErrorModel::NotFound("Session metadata not found: "@ + session_id@),
{
    OpenBitFunError::NotFound(crate::text::joined("Session metadata not found: ", session_id))
}

/// The kind of an error at a runtime port.
#[derive(Debug, Clone, Copy, PartialEq, Eq, Structural)]
pub enum PortErrorKind {
    InvalidRequest,
    NotFound,
    NotAvailable,
    Timeout,
    Cancelled,
    SessionInUse,
    OutcomeUnknown,
    Backend,
}

/// An error at a runtime port.
#[derive(Debug)]
pub struct PortError {
    pub kind: PortErrorKind,
    pub message: String,
}

impl PortError {
    /// An error of this kind.
    pub fn new(kind: PortErrorKind, message: String) -> (r: PortError)
        ensures
            r.kind == kind,
            r.message == message,
    {
        PortError { kind, message }
    }
}

/// The kind under which a session error is shown at a port.
pub open spec fn port_kind(error: OpenBitFunError) -> PortErrorKind {
    match error {
        OpenBitFunError::Validation(_) => PortErrorKind::InvalidRequest,
        OpenBitFunError::NotFound(_) => PortErrorKind::NotFound,
        OpenBitFunError::Timeout(_) => PortErrorKind::Timeout,
        OpenBitFunError::Cancelled(_) => PortErrorKind::Cancelled,
        OpenBitFunError::SessionInUse { session_id } => PortErrorKind::SessionInUse,
        OpenBitFunError::OutcomeUnknown(_) => PortErrorKind::OutcomeUnknown,
        _ => PortErrorKind::Backend,
    }
}

/// The port error for a session error and its text.
pub fn map_session_close_error(error: &OpenBitFunError, text: String) -> (r: PortError)
    ensures
        r.kind == port_kind(*error),
        r.message == text,
{
    let kind = match error {
        OpenBitFunError::Validation(_) => PortErrorKind::InvalidRequest,
        OpenBitFunError::NotFound(_) => PortErrorKind::NotFound,
        OpenBitFunError::Timeout(_) => PortErrorKind::Timeout,
        OpenBitFunError::Cancelled(_) => PortErrorKind::Cancelled,
        OpenBitFunError::SessionInUse { session_id: _ } => PortErrorKind::SessionInUse,
        OpenBitFunError::OutcomeUnknown(_) => PortErrorKind::OutcomeUnknown,
        _ => PortErrorKind::Backend,
    };
    PortError { kind, message: text }
}

/// The kind at a port tells what went wrong: each of these kinds stands for one
/// kind of session error, and all others are the backend's.
pub proof fn port_kinds_tell_what_went_wrong(error: OpenBitFunError)
    ensures
        port_kind(error) == PortErrorKind::InvalidRequest <==> error is Validation,
        port_kind(error) == PortErrorKind::NotFound <==> error is NotFound,
        port_kind(error) == PortErrorKind::Timeout <==> error is Timeout,
        port_kind(error) == PortErrorKind::Cancelled <==> error is Cancelled,
        port_kind(error) == PortErrorKind::SessionInUse <==> error is SessionInUse,
        port_kind(error) == PortErrorKind::OutcomeUnknown <==> error is OutcomeUnknown,
        port_kind(error) != PortErrorKind::NotAvailable,
{
}

} // verus!
