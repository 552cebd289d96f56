//! The control plane: admission on the outside, one executor on the inside.

use crate::channels::{close_queue, enqueue, open_queue, read_latest, Enqueued};
#[allow(unused_imports)]
use crate::channels::{
    accepted, cell_states, emptied_queue, filled_queue, held, queue_bound, queue_closed,
    queue_ended, queue_filled, read_cell, taken,
};
#[allow(unused_imports)]
use crate::command::command_payload;
use crate::command::{CheckRequest, CoreCommandEnvelope};
#[allow(unused_imports)]
use crate::command::CoreCommand;
#[allow(unused_imports)]
use crate::digest::digest_text;
use crate::error::{CoreError, CoreErrorKind};
#[allow(unused_imports)]
use crate::error::{operation_error, CoreErrorView};
use crate::execution::{begin, plan_check, CheckPlan, ExecutionStep};
#[allow(unused_imports)]
use crate::execution::{begun, plans_check};
use crate::executor::ExecutorWork;
#[allow(unused_imports)]
use crate::materialize::{digest_holds, digest_mismatch};
use crate::operation::OperationState;
use crate::operation_id::OperationId;
use crate::registry::{Admission, Registry};
#[allow(unused_imports)]
use crate::registry::{
    conflict, evicted, ids_distinct, lookup, with_state, without, RegistryEntry,
};
#[allow(unused_imports)]
use crate::registry_laws::law_rollback_undoes_admission;
use tokio::sync::{mpsc, watch};
use vstd::prelude::*;

verus! {

/// Host-boundary configuration of one control plane.
#[derive(Debug, Clone)]
pub struct ControlOptions {
    /// Where portable config bytes are materialized for the path-based
    /// pipeline underneath. Host-owned; never a caller path.
    pub source_dir: String,
    /// Working directory for launched cores (data dir with geo assets).
    pub working_dir: String,
    /// Mutating-operation queue bound; a full queue answers `QueueFull`.
    pub queue_capacity: usize,
    /// Most-recent-operations registry bound (idempotency and query window).
    pub registry_capacity: usize,
    /// Concurrent advisory checks; further callers wait.
    pub check_concurrency: usize,
}

impl ControlOptions {
    pub fn new(source_dir: String, working_dir: String) -> (options: Self)
        ensures
            options == (ControlOptions {
                source_dir,
                working_dir,
                queue_capacity: 16,
                registry_capacity: 64,
                check_concurrency: 2,
            }),
    {
        ControlOptions {
            source_dir,
            working_dir,
            queue_capacity: 16,
            registry_capacity: 64,
            check_concurrency: 2,
        }
    }
}

/// How the executor task ended.
#[derive(Debug, Clone, Copy, PartialEq, Eq, Structural)]
pub enum ExecutorExit {
    /// A `Shutdown` operation completed and the executor drained.
    Clean,
    /// The task died without shutting down (panic). The host must treat the
    /// whole control plane as fatally broken.
    Died,
}

/// How the executor ended, as far as one look shows.
pub open spec fn exit_at(done: bool, gone: bool) -> Option<ExecutorExit> {
    if done {
        Some(ExecutorExit::Clean)
    } else if gone {
        Some(ExecutorExit::Died)
    } else {
        None
    }
}

/// How the executor ended, as far as one look shows: it has said that it is
/// done, or it is gone without having said so, or it is still there.
pub fn executor_exit(done: bool, gone: bool) -> (exit: Option<ExecutorExit>)
    ensures
        exit == exit_at(done, gone),
{
    if done {
        Some(ExecutorExit::Clean)
    } else if gone {
        Some(ExecutorExit::Died)
    } else {
        None
    }
}

/// A submitted operation. Dropping the handle leaves the operation running to
/// its safe terminal state.
#[derive(Debug)]
pub struct OperationHandle {
    id: OperationId,
    state_rx: watch::Receiver<OperationState>,
}

impl OperationHandle {
    pub closed spec fn spec_id(self) -> OperationId {
        self.id
    }

    /// The cell in which the operation's state is published.
    pub closed spec fn cell(self) -> int {
        read_cell(self.state_rx)
    }

    pub fn id(&self) -> (id: OperationId)
        ensures
            id == self.spec_id(),
    {
        self.id
    }

    /// The state that is published now: one of those that the operation's cell
    /// holds at one time or another. Which one it is depends on how far the
    /// executor has come.
    pub fn state(&self) -> (state: OperationState)
        ensures
            cell_states(self.cell()).contains(state),
    {
        read_latest(&self.state_rx, None)
    }

    /// The receiver to wait on.
    pub fn into_receiver(self) -> (receiver: watch::Receiver<OperationState>)
        ensures
            read_cell(receiver) == self.cell(),
    {
        self.state_rx
    }
}

/// The portable control plane over one managed core: every mutating request
/// goes through [`CoreControl::submit`], and one executor runs them in turn.
pub struct CoreControl {
    registry: Registry,
    work_tx: mpsc::Sender<ExecutorWork>,
    closing: bool,
    source_dir: String,
    working_dir: String,
}

/// The state of a control plane.
#[verifier::ext_equal]
pub struct ControlView {
    /// The registered operations in the order of their admission.
    pub entries: Seq<RegistryEntry>,
    pub registry_capacity: nat,
    /// The work that was handed to the executor, in order.
    pub handed: Seq<ExecutorWork>,
    pub queue: int,
    pub queue_capacity: nat,
    /// Whether a shutdown has been accepted.
    pub closing: bool,
    pub source_dir: Seq<char>,
    pub working_dir: Seq<char>,
}

impl View for CoreControl {
    type V = ControlView;

    closed spec fn view(&self) -> ControlView {
        ControlView {
            entries: self.registry@,
            registry_capacity: self.registry.spec_capacity(),
            handed: accepted(self.work_tx),
            queue: filled_queue(self.work_tx),
            queue_capacity: queue_bound(self.work_tx),
            closing: self.closing,
            source_dir: self.source_dir@,
            working_dir: self.working_dir@,
        }
    }
}

/// The answer to a request after a shutdown was accepted.
pub open spec fn shutting_down(id: OperationId) -> CoreErrorView {
    operation_error(
        CoreErrorKind::ShuttingDown,
        "the control plane is shutting down"@,
        false,
        id,
    )
}

/// The answer to a request for which the queue has no room.
pub open spec fn queue_full(id: OperationId) -> CoreErrorView {
    operation_error(CoreErrorKind::QueueFull, "the operation queue is full"@, true, id)
}

/// The answer to a request that no executor is left to run.
pub open spec fn executor_gone(id: OperationId) -> CoreErrorView {
    operation_error(CoreErrorKind::Internal, "the control executor is gone"@, false, id)
}

/// What a caller learns from a submission: the operation and the cell in which
/// its state is published, or the error.
pub open spec fn outcome(handle: Result<OperationHandle, CoreError>) -> Result<
    (OperationId, int),
    CoreErrorView,
> {
    match handle {
        Ok(handle) => Ok((handle.spec_id(), handle.cell())),
        Err(error) => Err(error@),
    }
}

/// The digest that identifies a command.
pub open spec fn command_digest(command: CoreCommand) -> Seq<char> {
    digest_text(command_payload(command))
}

/// What a submission does.
///
/// Once a shutdown has been accepted nothing is let in. An id that is
/// registered with the same digest leads to its operation, and one that is
/// registered with another digest is a conflict; neither changes anything. A
/// new id is registered as queued and its work handed over, or, where the
/// queue refuses the work, answered with an error and not registered; either
/// way room has been made for it. The answer that the queue is full comes only
/// where it is, after the works handed over so far, of which there are then as
/// many as its capacity; the answer that the executor is gone comes only where
/// the queue comes to be closed.
pub open spec fn submitted(
    before: ControlView,
    envelope: CoreCommandEnvelope,
    answer: Result<(OperationId, int), CoreErrorView>,
    after: ControlView,
) -> bool {
    let id = envelope.operation_id;
    let digest = command_digest(envelope.command);
    let room = evicted(before.entries, before.registry_capacity);
    if before.closing {
        after == before && answer == Err::<(OperationId, int), CoreErrorView>(shutting_down(id))
    } else {
        match lookup(before.entries, id) {
            Some(entry) => {
                &&& after == before
                &&& answer == if entry.digest == digest {
                    Ok::<(OperationId, int), CoreErrorView>((id, entry.cell))
                } else {
                    Err::<(OperationId, int), CoreErrorView>(conflict(id))
                }
            },
            None => match answer {
                Ok(handle) => {
                    &&& handle.0 == id
                    &&& after == (ControlView {
                        entries: room.push(
                            RegistryEntry {
                                id,
                                digest,
                                state: OperationState::Queued,
                                cell: handle.1,
                            },
                        ),
                        handed: before.handed.push(ExecutorWork { id, command: envelope.command }),
                        closing: envelope.command is Shutdown,
                        ..before
                    })
                },
                Err(error) => {
                    &&& error == queue_full(id) || error == executor_gone(id)
                    &&& error == queue_full(id) ==> before.handed.len() >= before.queue_capacity
                        && queue_filled(before.queue, before.handed.len())
                    &&& error == executor_gone(id) ==> queue_ended(before.queue)
                    &&& after == (ControlView { entries: room, ..before })
                },
            },
        }
    }
}

impl CoreControl {
    pub closed spec fn wf(self) -> bool {
        self.registry.wf()
    }

    /// No operation is registered twice.
    pub proof fn law_registered_once(self)
        requires
            self.wf(),
        ensures
            ids_distinct(self@.entries),
    {
        self.registry.law_registered_once();
    }

    /// What the control plane answers for an operation is a state that the
    /// operation's handles can read.
    pub proof fn law_recorded_state_is_published(self, id: OperationId)
        requires
            self.wf(),
        ensures
            lookup(self@.entries, id) matches Some(entry) ==> cell_states(entry.cell).contains(
                entry.state,
            ),
    {
        self.registry.law_recorded_state_is_published(id);
    }

    /// A control plane and the receiving end of its queue, for the executor.
    pub fn new(options: ControlOptions) -> (ends: (Self, mpsc::Receiver<ExecutorWork>))
        requires
            0 < options.queue_capacity <= usize::MAX / 8,
        ensures
            ends.0.wf(),
            ends.0@ == (ControlView {
                entries: Seq::empty(),
                registry_capacity: options.registry_capacity as nat,
                handed: Seq::empty(),
                queue: emptied_queue(ends.1),
                queue_capacity: options.queue_capacity as nat,
                closing: false,
                source_dir: options.source_dir@,
                working_dir: options.working_dir@,
            }),
            taken(ends.1) == 0,
    {
        let registry: Registry = Registry::new(options.registry_capacity);
        let (work_tx, work_rx) = open_queue(options.queue_capacity);
        (
            CoreControl {
                registry,
                work_tx,
                closing: false,
                source_dir: options.source_dir,
                working_dir: options.working_dir,
            },
            work_rx,
        )
    }

    /// Admission is synchronous: closing latch, idempotency, then the bounded
    /// queue. The returned handle names the operation; dropping it never
    /// cancels the work.
    ///
    /// Whether the queue takes new work depends on the executor. Whatever it
    /// answers, a new operation is registered exactly where its work was
    /// handed over.
    pub fn submit(&mut self, envelope: CoreCommandEnvelope) -> (handle: Result<
        OperationHandle,
        CoreError,
    >)
        requires
            old(self).wf(),
        ensures
            final(self).wf(),
            submitted(old(self)@, envelope, outcome(handle), final(self)@),
            handle matches Ok(handle) ==> handle.spec_id() == envelope.operation_id,
            handle matches Err(error) ==> error.operation_id == Some(envelope.operation_id),
    {
        let id: OperationId = envelope.operation_id;
        if self.closing {
            return Err(
                CoreError::new(
                    CoreErrorKind::ShuttingDown,
                    "the control plane is shutting down",
                    false,
                ).with_operation(id),
            );
        }
        let digest: String = envelope.command.payload_digest();
        proof {
            self.registry.law_registered_once();
        }
        match self.registry.admit_operation(id, digest.as_str()) {
            Ok(Admission::Existing(state_rx)) => Ok(OperationHandle { id, state_rx }),
            Ok(Admission::Registered(state_rx)) => {
                let shutdown: bool = envelope.command.is_shutdown();
                let answer: Enqueued = enqueue(
                    &mut self.work_tx,
                    ExecutorWork { id, command: envelope.command },
                );
                proof {
                    law_rollback_undoes_admission(
                        old(self)@.entries,
                        old(self)@.registry_capacity,
                        RegistryEntry {
                            id,
                            digest: digest@,
                            state: OperationState::Queued,
                            cell: read_cell(state_rx),
                        },
                    );
                }
                match self.settle(id, shutdown, answer) {
                    Ok(()) => Ok(OperationHandle { id, state_rx }),
                    Err(error) => Err(error),
                }
            },
            Err(error) => Err(error),
        }
    }

    /// Settles an admission by the queue's answer: an accepted shutdown closes
    /// the control plane, and an operation that was not accepted is rolled
    /// back.
    pub fn settle(&mut self, id: OperationId, shutdown: bool, answer: Enqueued) -> (settled: Result<
        (),
        CoreError,
    >)
        requires
            old(self).wf(),
        ensures
            final(self).wf(),
            match answer {
                Enqueued::Accepted => {
                    &&& settled is Ok
                    &&& final(self)@ == (ControlView {
                        closing: old(self)@.closing || shutdown,
                        ..old(self)@
                    })
                },
                Enqueued::Full => {
                    &&& settled matches Err(error) && error@ == queue_full(id)
                    &&& final(self)@ == (ControlView {
                        entries: without(old(self)@.entries, id),
                        ..old(self)@
                    })
                },
                Enqueued::Closed => {
                    &&& settled matches Err(error) && error@ == executor_gone(id)
                    &&& final(self)@ == (ControlView {
                        entries: without(old(self)@.entries, id),
                        ..old(self)@
                    })
                },
            },
    {
        match answer {
            Enqueued::Accepted => {
                if shutdown {
                    self.closing = true;
                }
                Ok(())
            },
            Enqueued::Full => {
                self.registry.remove(id);
                Err(
                    CoreError::new(
                        CoreErrorKind::QueueFull,
                        "the operation queue is full",
                        true,
                    ).with_operation(id),
                )
            },
            Enqueued::Closed => {
                self.registry.remove(id);
                Err(
                    CoreError::new(
                        CoreErrorKind::Internal,
                        "the control executor is gone",
                        false,
                    ).with_operation(id),
                )
            },
        }
    }

    /// The registry's answer for one operation id, or `None` when the entry
    /// was evicted or never existed. Losing an entry is recoverable by design:
    /// re-read status, and let the revision compare-and-swap block a double
    /// apply.
    pub fn operation(&self, id: OperationId) -> (state: Option<OperationState>)
        requires
            self.wf(),
        ensures
            state == match lookup(self@.entries, id) {
                Some(entry) => Some(entry.state),
                None => None,
            },
    {
        self.registry.get(id)
    }

    /// The state of an operation as one of its handles shows it. The control
    /// plane is lent to the call, so nothing is recorded meanwhile: a handle of
    /// a registered operation shows what [`CoreControl::operation`] answers.
    pub fn state_of(&self, handle: &OperationHandle) -> (state: OperationState)
        requires
            self.wf(),
        ensures
            cell_states(handle.cell()).contains(state),
            lookup(self@.entries, handle.spec_id()) matches Some(entry) ==> entry.cell
                == handle.cell() ==> state == entry.state,
    {
        self.registry.read_through(handle.id, &handle.state_rx)
    }

    /// Records how far an operation has come.
    pub fn record(&mut self, id: OperationId, state: OperationState)
        requires
            old(self).wf(),
        ensures
            final(self).wf(),
            final(self)@ == (ControlView {
                entries: with_state(old(self)@.entries, id, state),
                ..old(self)@
            }),
    {
        self.registry.set(id, state);
    }

    /// Closes the queue that the executor empties. Where it is the one that this
    /// control plane fills, it holds what was handed over and not taken.
    pub(crate) fn close(&self, queue: &mut mpsc::Receiver<ExecutorWork>)
        ensures
            queue_closed(*final(queue)),
            queue_ended(emptied_queue(*final(queue))),
            held(*final(queue)) == held(*old(queue)),
            emptied_queue(*final(queue)) == emptied_queue(*old(queue)),
            self@.queue == emptied_queue(*old(queue)) ==> taken(*old(queue)) <= self@.handed.len()
                && held(*final(queue)) == self@.handed.skip(taken(*old(queue)) as int),
    {
        close_queue(queue, &self.work_tx);
    }

    /// Begins to run an operation.
    pub fn execute(&self, work: ExecutorWork) -> (step: ExecutionStep)
        ensures
            begun(work, self@.source_dir, self@.working_dir, step),
    {
        begin(work, self.source_dir.as_str(), self.working_dir.as_str())
    }

    /// Advisory, read-only config validation: bounded concurrency, never
    /// queued, and never a precondition for any change. The id names the check
    /// in errors about its file.
    pub fn check(&self, request: CheckRequest, id: OperationId) -> (plan: Result<
        CheckPlan,
        CoreError,
    >)
        ensures
            plan is Ok <==> digest_holds(request.config),
            plan matches Err(error) ==> error@ == digest_mismatch(request.config, id),
            plan matches Ok(plan) ==> plans_check(
                plan,
                request,
                id,
                self@.source_dir,
                self@.working_dir,
            ),
            plan matches Ok(plan) ==> plan.file.bytes@ == request.config.bytes() && plan.spec.core
                == request.core && plan.spec.config_path@ == plan.file.path@,
    {
        plan_check(request, id, self.source_dir.as_str(), self.working_dir.as_str())
    }
}

} // verus!
