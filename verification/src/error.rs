//! Failures: the domain's own, and the portable form that the control plane
//! hands out.

use crate::operation_id::OperationId;
use vstd::prelude::*;

verus! {

/// What a failure is known to be.
#[derive(Debug, Clone, Copy, PartialEq, Eq, Structural)]
pub enum CoreErrorKind {
    AlreadyRunning,
    BackendUnavailable,
    Internal,
    InvalidConfig,
    OperationConflict,
    QueueFull,
    ShuttingDown,
}

/// The name of a kind in messages.
pub open spec fn kind_text(kind: CoreErrorKind) -> Seq<char> {
    match kind {
        CoreErrorKind::AlreadyRunning => "already_running"@,
        CoreErrorKind::BackendUnavailable => "backend_unavailable"@,
        CoreErrorKind::Internal => "internal"@,
        CoreErrorKind::InvalidConfig => "invalid_config"@,
        CoreErrorKind::OperationConflict => "operation_conflict"@,
        CoreErrorKind::QueueFull => "queue_full"@,
        CoreErrorKind::ShuttingDown => "shutting_down"@,
    }
}

impl CoreErrorKind {
    pub fn as_str(&self) -> (text: &'static str)
        ensures
            text@ == kind_text(*self),
    {
        match self {
            CoreErrorKind::AlreadyRunning => "already_running",
            CoreErrorKind::BackendUnavailable => "backend_unavailable",
            CoreErrorKind::Internal => "internal",
            CoreErrorKind::InvalidConfig => "invalid_config",
            CoreErrorKind::OperationConflict => "operation_conflict",
            CoreErrorKind::QueueFull => "queue_full",
            CoreErrorKind::ShuttingDown => "shutting_down",
        }
    }
}

/// A failure of the managed runtime or of the host around it.
#[derive(Debug)]
pub struct Error {
    /// `None` where the failure has not been classified.
    pub kind: Option<CoreErrorKind>,
    pub message: String,
}

impl Error {
    /// An input or output failure of the host, which is never classified.
    pub fn io(message: String) -> (error: Self)
        ensures
            error.kind is None,
            error.message == message,
    {
        Error { kind: None, message }
    }

    pub fn kind(&self) -> (kind: Option<CoreErrorKind>)
        ensures
            kind == self.kind,
    {
        self.kind
    }
}

/// Portable, cloneable error surface of the control plane. The domain
/// [`Error`] is converted at the executor boundary so the registry can replay
/// the same terminal result to idempotent re-submits.
#[derive(Debug, PartialEq, Eq)]
pub struct CoreError {
    /// `None` means unclassified, never "no error".
    pub kind: Option<CoreErrorKind>,
    /// Human-readable and unstable; never a branch condition.
    pub message: String,
    /// Whether resubmitting the same envelope can plausibly succeed. Set by
    /// the producer: the same kind can be retryable in one situation and not
    /// another.
    pub retryable: bool,
    pub operation_id: Option<OperationId>,
}

/// The content of a [`CoreError`].
#[verifier::ext_equal]
pub struct CoreErrorView {
    pub kind: Option<CoreErrorKind>,
    pub message: Seq<char>,
    pub retryable: bool,
    pub operation_id: Option<OperationId>,
}

impl View for CoreError {
    type V = CoreErrorView;

    open spec fn view(&self) -> CoreErrorView {
        CoreErrorView {
            kind: self.kind,
            message: self.message@,
            retryable: self.retryable,
            operation_id: self.operation_id,
        }
    }
}

/// Kinds that are retryable regardless of the situation that produced them.
pub open spec fn retryable_by_default(kind: CoreErrorKind) -> bool {
    kind == CoreErrorKind::QueueFull || kind == CoreErrorKind::BackendUnavailable
}

/// The portable form of a domain failure.
pub open spec fn portable_error(error: Error, operation_id: Option<OperationId>) -> CoreErrorView {
    CoreErrorView {
        kind: error.kind,
        message: error.message@,
        retryable: error.kind matches Some(kind) && retryable_by_default(kind),
        operation_id,
    }
}

/// The error that one operation is answered with.
pub open spec fn operation_error(
    kind: CoreErrorKind,
    message: Seq<char>,
    retryable: bool,
    id: OperationId,
) -> CoreErrorView {
    CoreErrorView { kind: Some(kind), message, retryable, operation_id: Some(id) }
}

/// Kinds that are retryable regardless of the situation that produced them.
/// Everything else defaults to non-retryable and the producer overrides where
/// it knows better.
pub fn default_retryable(kind: CoreErrorKind) -> (retryable: bool)
    ensures
        retryable == retryable_by_default(kind),
{
    match kind {
        CoreErrorKind::QueueFull | CoreErrorKind::BackendUnavailable => true,
        _ => false,
    }
}

impl CoreError {
    pub fn new(kind: CoreErrorKind, message: &str, retryable: bool) -> (error: Self)
        ensures
            error@ == (CoreErrorView {
                kind: Some(kind),
                message: message@,
                retryable,
                operation_id: None,
            }),
    {
        CoreError { kind: Some(kind), message: message.to_owned(), retryable, operation_id: None }
    }

    pub fn from_domain(error: &Error, operation_id: Option<OperationId>) -> (portable: Self)
        ensures
            portable@ == portable_error(*error, operation_id),
    {
        let kind: Option<CoreErrorKind> = error.kind();
        let retryable: bool = match kind {
            Some(kind) => default_retryable(kind),
            None => false,
        };
        CoreError { kind, message: error.message.clone(), retryable, operation_id }
    }

    pub fn with_operation(self, operation_id: OperationId) -> (error: Self)
        ensures
            error == (CoreError { operation_id: Some(operation_id), ..self }),
    {
        CoreError {
            kind: self.kind,
            message: self.message,
            retryable: self.retryable,
            operation_id: Some(operation_id),
        }
    }

    /// The error as text: its kind, where it has one, and its message.
    pub fn to_string(&self) -> (text: String)
        ensures
            text@ == match self.kind {
                Some(kind) => kind_text(kind) + ": "@ + self.message@,
                None => self.message@,
            },
    {
        match self.kind {
            Some(kind) => {
                let mut text: String = kind.as_str().to_owned();
                text.append(": ");
                text.append(self.message.as_str());
                text
            },
            None => self.message.clone(),
        }
    }
}

impl Clone for CoreError {
    fn clone(&self) -> (copy: Self)
        ensures
            copy == *self,
    {
        CoreError {
            kind: self.kind,
            message: self.message.clone(),
            retryable: self.retryable,
            operation_id: self.operation_id,
        }
    }
}

} // verus!
