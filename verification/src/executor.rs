//! The control executor: it owns every mutating operation from admission to a
//! safe terminal state, isolated from caller cancellation. Callers hold
//! handles; dropping one never cancels the work it names.
//!
//! The executor decides and the host acts: each step takes the event that an
//! action led to and gives the next action.

use crate::channels::take_queued;
#[allow(unused_imports)]
use crate::channels::{emptied_queue, held, queue_closed, queue_ended, taken};
use crate::command::CoreCommand;
use crate::control::CoreControl;
#[allow(unused_imports)]
use crate::control::ControlView;
use crate::error::{CoreError, CoreErrorKind};
#[allow(unused_imports)]
use crate::error::{operation_error, CoreErrorView};
use crate::operation::{conclude, OperationOutput, OperationState};
#[allow(unused_imports)]
use crate::operation::{concluded, terminal};
use crate::operation_id::OperationId;
#[allow(unused_imports)]
use crate::registry::with_state;
use tokio::sync::mpsc;
use vstd::prelude::*;

verus! {

/// One admitted operation on its way to the executor.
#[derive(Debug)]
pub struct ExecutorWork {
    pub id: OperationId,
    pub command: CoreCommand,
}

/// Where the executor is.
#[derive(Debug, Clone, Copy)]
pub enum ExecutorPhase {
    /// Waiting for work.
    Receiving,
    /// Running one operation.
    Executing { id: OperationId, shutdown: bool },
    /// Settling what was still queued.
    Draining,
    Exited,
}

/// What an action of the host led to.
#[derive(Debug)]
pub enum ExecutorEvent {
    /// The queue handed work over, or ended.
    Received(Option<ExecutorWork>),
    /// The running operation came to its end.
    Executed(Result<OperationOutput, CoreError>),
}

/// What the host does next.
#[derive(Debug)]
pub enum ExecutorAction {
    /// Wait for work.
    Receive,
    /// Run an operation to its end.
    Execute(ExecutorWork),
    /// Drain the queue, by [`Executor::drain`], and end.
    Drain,
}

/// The executor's own state.
#[derive(Debug)]
pub struct Executor {
    phase: ExecutorPhase,
}

/// The answer to an operation that was still queued when the control plane
/// shut down.
pub open spec fn never_ran(id: OperationId) -> CoreErrorView {
    operation_error(
        CoreErrorKind::ShuttingDown,
        "the control plane shut down before this queued operation ran"@,
        false,
        id,
    )
}

/// The terminal state of work that was still queued when the executor stopped.
/// A queued shutdown *was* accomplished by the one that ran; anything else was
/// not.
pub open spec fn settles_unrun(work: ExecutorWork, state: OperationState) -> bool {
    if work.command is Shutdown {
        state == OperationState::Succeeded(OperationOutput::ShutDown)
    } else {
        state matches OperationState::Failed(error) && error@ == never_ran(work.id)
    }
}

/// The control plane after the state of one operation was recorded.
pub open spec fn recorded(
    control: ControlView,
    id: OperationId,
    state: OperationState,
) -> ControlView {
    ControlView { entries: with_state(control.entries, id, state), ..control }
}

/// What a step does: an event that belongs to the phase moves the executor on,
/// records the state that the operation has reached, and leads to an action.
/// Any other event changes nothing.
pub open spec fn stepped(
    phase: ExecutorPhase,
    before: ControlView,
    event: ExecutorEvent,
    next: ExecutorPhase,
    after: ControlView,
    action: Option<ExecutorAction>,
) -> bool {
    match (phase, event) {
        (ExecutorPhase::Receiving, ExecutorEvent::Received(Some(work))) => {
            &&& next == (ExecutorPhase::Executing {
                id: work.id,
                shutdown: work.command is Shutdown,
            })
            &&& after == recorded(before, work.id, OperationState::Running)
            &&& action == Some(ExecutorAction::Execute(work))
        },
        (ExecutorPhase::Receiving, ExecutorEvent::Received(None)) => {
            &&& next == ExecutorPhase::Draining
            &&& after == before
            &&& action == Some(ExecutorAction::Drain)
        },
        (ExecutorPhase::Executing { id, shutdown }, ExecutorEvent::Executed(result)) => {
            &&& next == if shutdown {
                ExecutorPhase::Draining
            } else {
                ExecutorPhase::Receiving
            }
            &&& after == recorded(before, id, concluded(result))
            &&& action == Some(
                if shutdown {
                    ExecutorAction::Drain
                } else {
                    ExecutorAction::Receive
                },
            )
        },
        _ => {
            &&& next == phase
            &&& after == before
            &&& action is None
        },
    }
}

/// The control plane after states were recorded for several pieces of work, in
/// order.
pub open spec fn recorded_all(
    control: ControlView,
    works: Seq<ExecutorWork>,
    states: Seq<OperationState>,
) -> ControlView
    decreases works.len(),
{
    if works.len() == 0 {
        control
    } else {
        recorded(
            recorded_all(control, works.drop_last(), states.drop_last()),
            works.last().id,
            states.last(),
        )
    }
}

/// What draining does to the control plane: each piece of work that was still
/// queued comes to its terminal state, in order.
pub open spec fn drained(
    before: ControlView,
    works: Seq<ExecutorWork>,
    after: ControlView,
) -> bool {
    exists|states: Seq<OperationState>|
        states.len() == works.len() && after == #[trigger] recorded_all(before, works, states) && (
        forall|i: int| 0 <= i < works.len() ==> settles_unrun(works[i], #[trigger] states[i]))
}

/// The terminal state of work that was still queued when the executor stopped.
pub fn settle_unrun(work: &ExecutorWork) -> (state: OperationState)
    ensures
        settles_unrun(*work, state),
        terminal(state),
        work.command is Shutdown <==> state is Succeeded,
        state matches OperationState::Succeeded(output) ==> output is ShutDown,
        state matches OperationState::Failed(error) ==> error.kind == Some(
            CoreErrorKind::ShuttingDown,
        ) && !error.retryable && error.operation_id == Some(work.id),
{
    match work.command {
        CoreCommand::Shutdown => OperationState::Succeeded(OperationOutput::ShutDown),
        _ => OperationState::Failed(
            CoreError::new(
                CoreErrorKind::ShuttingDown,
                "the control plane shut down before this queued operation ran",
                false,
            ).with_operation(work.id),
        ),
    }
}

impl Executor {
    pub closed spec fn spec_phase(self) -> ExecutorPhase {
        self.phase
    }

    /// An executor that waits for work.
    pub fn new() -> (executor: Self)
        ensures
            executor.spec_phase() == ExecutorPhase::Receiving,
    {
        Executor { phase: ExecutorPhase::Receiving }
    }

    pub fn phase(&self) -> (phase: ExecutorPhase)
        ensures
            phase == self.spec_phase(),
    {
        self.phase
    }

    /// Takes an event and gives the next action, or `None` where the event
    /// does not belong to the phase.
    pub fn step(&mut self, control: &mut CoreControl, event: ExecutorEvent) -> (action: Option<
        ExecutorAction,
    >)
        requires
            old(control).wf(),
        ensures
            final(control).wf(),
            stepped(
                old(self).spec_phase(),
                old(control)@,
                event,
                final(self).spec_phase(),
                final(control)@,
                action,
            ),
    {
        match (self.phase, event) {
            (ExecutorPhase::Receiving, ExecutorEvent::Received(Some(work))) => {
                control.record(work.id, OperationState::Running);
                self.phase = ExecutorPhase::Executing {
                    id: work.id,
                    shutdown: work.command.is_shutdown(),
                };
                Some(ExecutorAction::Execute(work))
            },
            (ExecutorPhase::Receiving, ExecutorEvent::Received(None)) => {
                self.phase = ExecutorPhase::Draining;
                Some(ExecutorAction::Drain)
            },
            (ExecutorPhase::Executing { id, shutdown }, ExecutorEvent::Executed(result)) => {
                control.record(id, conclude(result));
                if shutdown {
                    self.phase = ExecutorPhase::Draining;
                    Some(ExecutorAction::Drain)
                } else {
                    self.phase = ExecutorPhase::Receiving;
                    Some(ExecutorAction::Receive)
                }
            },
            _ => None,
        }
    }

    /// Closes the queue and settles what it still holds. Everything in it was
    /// admitted before the executor stopped: where it is the queue of this
    /// control plane, it holds exactly what was handed over and not taken.
    pub fn drain(&mut self, control: &mut CoreControl, queue: &mut mpsc::Receiver<ExecutorWork>)
        requires
            old(self).spec_phase() is Draining,
            old(control).wf(),
        ensures
            final(self).spec_phase() is Exited,
            final(control).wf(),
            drained(old(control)@, held(*old(queue)), final(control)@),
            old(control)@.queue == emptied_queue(*old(queue)) ==> taken(*old(queue)) <= old(
                control,
            )@.handed.len() && held(*old(queue)) == old(control)@.handed.skip(
                taken(*old(queue)) as int,
            ),
            queue_closed(*final(queue)),
            queue_ended(emptied_queue(*old(queue))),
            emptied_queue(*final(queue)) == emptied_queue(*old(queue)),
    {
        control.close(queue);
        let ghost works = held(*queue);
        let ghost before = control@;
        let ghost mut done: Seq<ExecutorWork> = Seq::empty();
        let ghost mut states: Seq<OperationState> = Seq::empty();
        loop
            invariant_except_break
                works =~= done + held(*queue),
            invariant
                control.wf(),
                queue_closed(*queue),
                queue_ended(emptied_queue(*old(queue))),
                emptied_queue(*queue) == emptied_queue(*old(queue)),
                states.len() == done.len(),
                control@ == recorded_all(before, done, states),
                forall|i: int| 0 <= i < done.len() ==> settles_unrun(done[i], #[trigger] states[i]),
            ensures
                works =~= done,
            decreases held(*queue).len(),
        {
            match take_queued(queue) {
                Some(work) => {
                    let state: OperationState = settle_unrun(&work);
                    proof {
                        assert(done.push(work).drop_last() =~= done);
                        assert(states.push(state).drop_last() =~= states);
                        done = done.push(work);
                        states = states.push(state);
                    }
                    control.record(work.id, state);
                },
                None => {
                    break;
                },
            }
        }
        proof {
            assert(drained(before, works, control@));
        }
        self.phase = ExecutorPhase::Exited;
    }
}

} // verus!
