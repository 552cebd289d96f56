//! What holds of the control plane across submissions.

#[allow(unused_imports)]
use crate::channels::{queue_ended, queue_filled};
#[allow(unused_imports)]
use crate::command::{
    command_payload, law_config_bytes_are_identity, CoreCommand, CoreCommandEnvelope,
    ReconcileRequest,
};
#[allow(unused_imports)]
use crate::control::{
    command_digest, executor_gone, exit_at, outcome, queue_full, shutting_down, submitted,
    ControlView, ExecutorExit, OperationHandle,
};
#[allow(unused_imports)]
use crate::digest::digest_text;
#[allow(unused_imports)]
use crate::error::{CoreError, CoreErrorKind, CoreErrorView};
#[allow(unused_imports)]
use crate::executor::ExecutorWork;
#[allow(unused_imports)]
use crate::hex::hex_text;
#[allow(unused_imports)]
use crate::operation::OperationState;
#[allow(unused_imports)]
use crate::operation_id::OperationId;
#[allow(unused_imports)]
use crate::registry::{
    conflict, evicted, ids_distinct, lookup, registered, with_state, RegistryEntry,
};
#[allow(unused_imports)]
use crate::registry_laws::{
    in_flight, law_admitted_operation_is_found, law_in_flight_is_never_evicted,
    law_recorded_state_is_read_back, lemma_evicted_entries, lemma_lookup_at,
};
use vstd::prelude::*;

verus! {

/// An operation that is registered is replayed, terminal or not, and with a
/// full queue too: the handle reads the cell of the original operation, whose
/// state is what the control plane answers for it, nothing is handed over, and
/// no entry is added, evicted, or reset.
pub proof fn law_registered_operation_is_replayed(
    before: ControlView,
    envelope: CoreCommandEnvelope,
    entry: RegistryEntry,
    answer: Result<(OperationId, int), CoreErrorView>,
    after: ControlView,
)
    requires
        !before.closing,
        lookup(before.entries, envelope.operation_id) == Some(entry),
        entry.digest == command_digest(envelope.command),
        submitted(before, envelope, answer, after),
    ensures
        answer == Ok::<(OperationId, int), CoreErrorView>((envelope.operation_id, entry.cell)),
        after == before,
        lookup(after.entries, envelope.operation_id) == Some(entry),
{
}

/// Success is owed where nothing stands in its way: at any time in the life of a
/// control plane that is not shutting down, and whose queue is never closed, a
/// new operation is accepted unless the queue is full after the works handed
/// over so far, or, at the latest, while these are fewer than its capacity.
pub proof fn law_room_is_never_refused(
    before: ControlView,
    envelope: CoreCommandEnvelope,
    answer: Result<(OperationId, int), CoreErrorView>,
    after: ControlView,
)
    requires
        !before.closing,
        !registered(before.entries, envelope.operation_id),
        !queue_filled(before.queue, before.handed.len()) || before.handed.len()
            < before.queue_capacity,
        !queue_ended(before.queue),
        submitted(before, envelope, answer, after),
    ensures
        answer is Ok,
{
}

/// Submissions are idempotent: to submit an envelope of the same identity
/// again, however far the operation has come, leads to the original operation
/// and changes nothing.
pub proof fn law_resubmission_leads_to_the_original(
    before: ControlView,
    envelope: CoreCommandEnvelope,
    handle: (OperationId, int),
    between: ControlView,
    state: OperationState,
    again: CoreCommandEnvelope,
    answer: Result<(OperationId, int), CoreErrorView>,
    after: ControlView,
)
    requires
        ids_distinct(before.entries),
        submitted(before, envelope, Ok(handle), between),
        !between.closing,
        again.operation_id == envelope.operation_id,
        command_digest(again.command) == command_digest(envelope.command),
        submitted(
            ControlView {
                entries: with_state(between.entries, envelope.operation_id, state),
                ..between
            },
            again,
            answer,
            after,
        ),
    ensures
        answer == Ok::<(OperationId, int), CoreErrorView>(handle),
        after == (ControlView {
            entries: with_state(between.entries, envelope.operation_id, state),
            ..between
        }),
        lookup(after.entries, envelope.operation_id) matches Some(entry) && entry.state == state
            && entry.cell == handle.1,
{
    lemma_submitted_is_found(before, envelope, handle, between);
    law_recorded_state_is_read_back(
        between.entries,
        envelope.operation_id,
        state,
        envelope.operation_id,
    );
}

/// To use the id of a registered operation for another payload is a conflict
/// that cannot be retried, and it leaves the original operation as it is.
pub proof fn law_reused_id_is_a_conflict(
    before: ControlView,
    envelope: CoreCommandEnvelope,
    handle: (OperationId, int),
    between: ControlView,
    state: OperationState,
    other: CoreCommandEnvelope,
    answer: Result<(OperationId, int), CoreErrorView>,
    after: ControlView,
)
    requires
        ids_distinct(before.entries),
        submitted(before, envelope, Ok(handle), between),
        !between.closing,
        other.operation_id == envelope.operation_id,
        command_digest(other.command) != command_digest(envelope.command),
        submitted(
            ControlView {
                entries: with_state(between.entries, envelope.operation_id, state),
                ..between
            },
            other,
            answer,
            after,
        ),
    ensures
        answer == Err::<(OperationId, int), CoreErrorView>(conflict(envelope.operation_id)),
        !conflict(envelope.operation_id).retryable,
        after == (ControlView {
            entries: with_state(between.entries, envelope.operation_id, state),
            ..between
        }),
{
    lemma_submitted_is_found(before, envelope, handle, between);
    law_recorded_state_is_read_back(
        between.entries,
        envelope.operation_id,
        state,
        envelope.operation_id,
    );
}

/// An operation whose submission succeeded is registered with its digest and
/// published in the cell of the handle.
pub proof fn lemma_submitted_is_found(
    before: ControlView,
    envelope: CoreCommandEnvelope,
    handle: (OperationId, int),
    after: ControlView,
)
    requires
        ids_distinct(before.entries),
        submitted(before, envelope, Ok(handle), after),
    ensures
        handle.0 == envelope.operation_id,
        ids_distinct(after.entries),
        lookup(after.entries, envelope.operation_id) matches Some(entry) && entry.digest
            == command_digest(envelope.command) && entry.cell == handle.1,
{
    if !registered(before.entries, envelope.operation_id) {
        law_admitted_operation_is_found(
            before.entries,
            before.registry_capacity,
            RegistryEntry {
                id: envelope.operation_id,
                digest: command_digest(envelope.command),
                state: OperationState::Queued,
                cell: handle.1,
            },
        );
    }
}

/// An operation that the queue refused leaves no trace: it is not registered,
/// nothing was handed over, the latch is as it was, and no operation in flight
/// was lost. Only a full queue is worth a retry.
pub proof fn law_refused_operation_leaves_no_trace(
    before: ControlView,
    envelope: CoreCommandEnvelope,
    error: CoreErrorView,
    after: ControlView,
)
    requires
        !before.closing,
        !registered(before.entries, envelope.operation_id),
        submitted(before, envelope, Err(error), after),
    ensures
        !registered(after.entries, envelope.operation_id),
        after.handed == before.handed,
        after.closing == before.closing,
        after.entries.filter(in_flight()) == before.entries.filter(in_flight()),
        error.retryable == (error == queue_full(envelope.operation_id)),
{
    lemma_evicted_entries(before.entries, before.registry_capacity, envelope.operation_id);
    law_in_flight_is_never_evicted(before.entries, before.registry_capacity);
    assert(queue_full(envelope.operation_id).retryable);
    assert(!executor_gone(envelope.operation_id).retryable);
}

/// Work is handed over once for each new operation and for nothing else.
pub proof fn law_work_is_handed_over_once(
    before: ControlView,
    envelope: CoreCommandEnvelope,
    answer: Result<(OperationId, int), CoreErrorView>,
    after: ControlView,
)
    requires
        submitted(before, envelope, answer, after),
    ensures
        after.handed == if !before.closing && !registered(before.entries, envelope.operation_id)
            && answer is Ok {
            before.handed.push(
                ExecutorWork { id: envelope.operation_id, command: envelope.command },
            )
        } else {
            before.handed
        },
{
}

/// An accepted shutdown closes the control plane: every later submission is
/// answered that it is shutting down, and changes nothing.
pub proof fn law_accepted_shutdown_closes(
    before: ControlView,
    shutdown: CoreCommandEnvelope,
    handle: (OperationId, int),
    between: ControlView,
    later: CoreCommandEnvelope,
    answer: Result<(OperationId, int), CoreErrorView>,
    after: ControlView,
)
    requires
        shutdown.command is Shutdown,
        !registered(before.entries, shutdown.operation_id),
        submitted(before, shutdown, Ok(handle), between),
        submitted(between, later, answer, after),
    ensures
        between.closing,
        answer == Err::<(OperationId, int), CoreErrorView>(shutting_down(later.operation_id)),
        after == between,
{
}

/// The executor's exit is the same at every look. What it has said, and that it
/// is gone, never go back, and once it is gone it says nothing more: an exit
/// that one look shows is the exit that every later look shows. It is clean
/// exactly where the executor said that it is done, and a death exactly where it
/// is gone without having said so.
pub proof fn law_exit_is_final(done: bool, gone: bool, later_done: bool, later_gone: bool)
    requires
        done ==> later_done,
        gone ==> later_gone,
        gone && !done ==> !later_done,
    ensures
        exit_at(done, gone) is Some ==> exit_at(later_done, later_gone) == exit_at(done, gone),
        exit_at(done, gone) == Some(ExecutorExit::Clean) <==> done,
        exit_at(done, gone) == Some(ExecutorExit::Died) <==> gone && !done,
{
}

/// The latch never opens again, and nothing but a shutdown closes it.
pub proof fn law_latch_closes_once(
    before: ControlView,
    envelope: CoreCommandEnvelope,
    answer: Result<(OperationId, int), CoreErrorView>,
    after: ControlView,
)
    requires
        submitted(before, envelope, answer, after),
    ensures
        before.closing ==> after.closing,
        !before.closing && after.closing ==> envelope.command is Shutdown && answer is Ok,
{
}

/// While the control plane is shutting down every submission, of whatever
/// command and id, is refused for that reason and changes nothing.
pub proof fn law_shutting_down_refuses_everything(
    before: ControlView,
    envelope: CoreCommandEnvelope,
    answer: Result<(OperationId, int), CoreErrorView>,
    after: ControlView,
)
    requires
        before.closing,
        submitted(before, envelope, answer, after),
    ensures
        after == before,
        answer matches Err(error) && error.kind == Some(CoreErrorKind::ShuttingDown)
            && error.message == "the control plane is shutting down"@ && !error.retryable
            && error.operation_id == Some(envelope.operation_id),
{
}

/// Where an entry has the id of a submission, nothing changes: the entry's cell
/// is the answer where its digest is that of the whole payload, and otherwise
/// the id is in conflict. It does not matter what the command is, how far the
/// operation has come, or whether the queue has room.
pub proof fn law_known_id_is_replayed_or_in_conflict(
    before: ControlView,
    envelope: CoreCommandEnvelope,
    answer: Result<(OperationId, int), CoreErrorView>,
    after: ControlView,
    i: int,
)
    requires
        !before.closing,
        forall|a: int, b: int|
            0 <= a < b < before.entries.len() ==> (#[trigger] before.entries[a]).id != (
            #[trigger] before.entries[b]).id,
        0 <= i < before.entries.len(),
        before.entries[i].id == envelope.operation_id,
        submitted(before, envelope, answer, after),
    ensures
        after == before,
        before.entries[i].digest == digest_text(command_payload(envelope.command)) ==> answer
            == Ok::<(OperationId, int), CoreErrorView>(
            (envelope.operation_id, before.entries[i].cell),
        ),
        before.entries[i].digest != digest_text(command_payload(envelope.command)) ==> (
        answer matches Err(error) && error.kind == Some(CoreErrorKind::OperationConflict)
            && error.message == "operation "@ + hex_text(envelope.operation_id@)
            + " was already submitted with a different payload"@ && !error.retryable
            && error.operation_id == Some(envelope.operation_id)),
{
    lemma_lookup_at(before.entries, i);
}

/// Where no entry has the id of a submission, the operation is registered as
/// queued, under the digest of its whole payload, behind what there was room
/// for, and exactly its work is handed over; a shutdown also closes the control
/// plane, and no other command does. Or it is refused, for a full queue or for
/// an executor that is gone, and nothing is registered or handed over.
pub proof fn law_new_id_is_registered_or_refused(
    before: ControlView,
    envelope: CoreCommandEnvelope,
    answer: Result<(OperationId, int), CoreErrorView>,
    after: ControlView,
)
    requires
        !before.closing,
        forall|i: int|
            0 <= i < before.entries.len() ==> (#[trigger] before.entries[i]).id
                != envelope.operation_id,
        submitted(before, envelope, answer, after),
    ensures
        after.registry_capacity == before.registry_capacity,
        after.queue == before.queue,
        after.queue_capacity == before.queue_capacity,
        after.source_dir == before.source_dir,
        after.working_dir == before.working_dir,
        match answer {
            Ok((id, cell)) => {
                let entry = after.entries.last();
                &&& id == envelope.operation_id
                &&& after.entries.len() > 0
                &&& after.entries.drop_last() == evicted(before.entries, before.registry_capacity)
                &&& entry.id == id
                &&& entry.digest == digest_text(command_payload(envelope.command))
                &&& entry.state is Queued
                &&& entry.cell == cell
                &&& after.handed.len() == before.handed.len() + 1
                &&& after.handed.drop_last() == before.handed
                &&& after.handed.last().id == id
                &&& after.handed.last().command == envelope.command
                &&& after.closing <==> envelope.command is Shutdown
            },
            Err(error) => {
                &&& after.entries == evicted(before.entries, before.registry_capacity)
                &&& after.handed == before.handed
                &&& !after.closing
                &&& error.operation_id == Some(envelope.operation_id)
                &&& {
                    ||| error.kind == Some(CoreErrorKind::QueueFull) && error.retryable
                        && error.message == "the operation queue is full"@ && queue_filled(
                        before.queue,
                        before.handed.len(),
                    ) && before.handed.len() >= before.queue_capacity
                    ||| error.kind == Some(CoreErrorKind::Internal) && !error.retryable
                        && error.message == "the control executor is gone"@ && queue_ended(
                        before.queue,
                    )
                }
            },
        },
{
    let room = evicted(before.entries, before.registry_capacity);
    if answer is Ok {
        assert(after.entries.drop_last() =~= room);
        assert(after.handed.drop_last() =~= before.handed);
    }
}

/// What a caller learns from a submission is the id and the cell of the handle,
/// or the content of the error.
pub proof fn law_callers_learn_id_and_cell(handle: OperationHandle, error: CoreError)
    ensures
        outcome(Ok(handle)) == Ok::<(OperationId, int), CoreErrorView>(
            (handle.spec_id(), handle.cell()),
        ),
        outcome(Err(error)) == Err::<(OperationId, int), CoreErrorView>(error@),
{
}

/// To change one byte of the config, at whatever place, and submit it under the
/// same id, is a conflict: the changed config is never taken for the first.
pub proof fn law_changed_config_is_a_conflict(
    before: ControlView,
    first: CoreCommandEnvelope,
    a: ReconcileRequest,
    handle: (OperationId, int),
    between: ControlView,
    second: CoreCommandEnvelope,
    b: ReconcileRequest,
    i: int,
    byte: u8,
    answer: Result<(OperationId, int), CoreErrorView>,
    after: ControlView,
)
    requires
        ids_distinct(before.entries),
        first.command == CoreCommand::Reconcile(Box::new(a)),
        second.command == CoreCommand::Reconcile(Box::new(b)),
        second.operation_id == first.operation_id,
        a.core == b.core,
        a.expected_applied == b.expected_applied,
        0 <= i < a.config.bytes().len(),
        byte != a.config.bytes()[i],
        b.config.bytes() == a.config.bytes().update(i, byte),
        submitted(before, first, Ok(handle), between),
        submitted(between, second, answer, after),
    ensures
        answer matches Err(error) && error.kind == Some(CoreErrorKind::OperationConflict)
            && !error.retryable && error.operation_id == Some(second.operation_id),
        after == between,
{
    law_config_bytes_are_identity(a, b, i, byte);
    lemma_submitted_is_found(before, first, handle, between);
}

} // verus!
