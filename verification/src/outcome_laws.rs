//! What holds of errors and of the states of operations.

#[allow(unused_imports)]
use crate::error::{
    operation_error, portable_error, retryable_by_default, CoreError, CoreErrorKind, Error,
};
#[allow(unused_imports)]
use crate::operation::{concluded, terminal, OperationOutput, OperationState};
#[allow(unused_imports)]
use crate::operation_id::OperationId;
use vstd::prelude::*;

verus! {

/// The content of an error is its kind, its whole message, whether it is worth a
/// retry, and its operation.
pub proof fn law_error_content(error: CoreError)
    ensures
        error@.kind == error.kind,
        error@.message == error.message@,
        error@.retryable == error.retryable,
        error@.operation_id == error.operation_id,
{
}

/// A domain failure keeps its kind and its message on the way out, gets the
/// operation that it belongs to, and is worth a retry for a full queue and for
/// an unavailable backend alone.
pub proof fn law_domain_failure_is_kept(error: Error, operation_id: Option<OperationId>)
    ensures
        ({
            let portable = portable_error(error, operation_id);
            &&& portable.kind == error.kind
            &&& portable.message == error.message@
            &&& portable.operation_id == operation_id
            &&& portable.retryable <==> error.kind == Some(CoreErrorKind::QueueFull) || error.kind
                == Some(CoreErrorKind::BackendUnavailable)
        }),
{
}

/// Of all kinds, a full queue and an unavailable backend are worth a retry by
/// default.
pub proof fn law_two_kinds_are_retryable(kind: CoreErrorKind)
    ensures
        retryable_by_default(kind) <==> kind is QueueFull || kind is BackendUnavailable,
{
}

/// The error of an operation says what it was given.
pub proof fn law_operation_error_content(
    kind: CoreErrorKind,
    message: Seq<char>,
    retryable: bool,
    id: OperationId,
)
    ensures
        ({
            let error = operation_error(kind, message, retryable, id);
            &&& error.kind == Some(kind)
            &&& error.message == message
            &&& error.retryable == retryable
            &&& error.operation_id == Some(id)
        }),
{
}

/// An operation is over exactly where it has succeeded or failed, and a result
/// is kept in the state that it leads to.
pub proof fn law_results_end_operations(
    state: OperationState,
    output: OperationOutput,
    error: CoreError,
)
    ensures
        terminal(state) <==> !(state is Queued || state is Running),
        concluded(Ok(output)) == OperationState::Succeeded(output),
        concluded(Err(error)) == OperationState::Failed(error),
{
}

} // verus!
