//! The lifecycle of one operation.

use crate::error::{CoreError, CoreErrorKind};
#[allow(unused_imports)]
use crate::error::operation_error;
use crate::instance::ApplyOutcome;
use crate::operation_id::OperationId;
use vstd::prelude::*;

verus! {

/// The successful terminal payload of one operation.
#[derive(Debug, PartialEq, Eq)]
pub enum OperationOutput {
    Reconciled(ApplyOutcome),
    Stopped,
    Recovered,
    ShutDown,
}

impl Clone for OperationOutput {
    fn clone(&self) -> (copy: Self)
        ensures
            copy == *self,
    {
        match self {
            OperationOutput::Reconciled(outcome) => OperationOutput::Reconciled(outcome.clone()),
            OperationOutput::Stopped => OperationOutput::Stopped,
            OperationOutput::Recovered => OperationOutput::Recovered,
            OperationOutput::ShutDown => OperationOutput::ShutDown,
        }
    }
}

/// Registry-visible lifecycle of one operation.
#[derive(Debug)]
pub enum OperationState {
    Queued,
    Running,
    Succeeded(OperationOutput),
    Failed(CoreError),
}

impl Clone for OperationState {
    fn clone(&self) -> (copy: Self)
        ensures
            copy == *self,
    {
        match self {
            OperationState::Queued => OperationState::Queued,
            OperationState::Running => OperationState::Running,
            OperationState::Succeeded(output) => OperationState::Succeeded(output.clone()),
            OperationState::Failed(error) => OperationState::Failed(error.clone()),
        }
    }
}

/// Whether an operation is over.
pub open spec fn terminal(state: OperationState) -> bool {
    state is Succeeded || state is Failed
}

/// Whether an operation is over.
pub fn is_terminal(state: &OperationState) -> (over: bool)
    ensures
        over == terminal(*state),
{
    match state {
        OperationState::Succeeded(_) | OperationState::Failed(_) => true,
        OperationState::Queued | OperationState::Running => false,
    }
}

/// The terminal state that a result stands for.
pub open spec fn concluded(result: Result<OperationOutput, CoreError>) -> OperationState {
    match result {
        Ok(output) => OperationState::Succeeded(output),
        Err(error) => OperationState::Failed(error),
    }
}

/// The terminal state that a result stands for.
pub fn conclude(result: Result<OperationOutput, CoreError>) -> (state: OperationState)
    ensures
        state == concluded(result),
        terminal(state),
{
    match result {
        Ok(output) => OperationState::Succeeded(output),
        Err(error) => OperationState::Failed(error),
    }
}

/// What a caller that waits for an operation gets in a state: the result where
/// the operation is over, and otherwise nothing yet.
pub fn waited(state: OperationState) -> (result: Option<Result<OperationOutput, CoreError>>)
    ensures
        result is Some <==> terminal(state),
        result matches Some(result) ==> concluded(result) == state,
{
    match state {
        OperationState::Succeeded(output) => Some(Ok(output)),
        OperationState::Failed(error) => Some(Err(error)),
        OperationState::Queued | OperationState::Running => None,
    }
}

/// What a caller gets whose operation was still open when the executor ended.
pub fn abandoned(id: OperationId) -> (error: CoreError)
    ensures
        error@ == operation_error(
            CoreErrorKind::Internal,
            "the control executor terminated before the operation completed"@,
            false,
            id,
        ),
{
    CoreError::new(
        CoreErrorKind::Internal,
        "the control executor terminated before the operation completed",
        false,
    ).with_operation(id)
}

} // verus!
