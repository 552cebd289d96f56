//! What holds of calls: how what a caller hands in and gets back belong
//! together, over one call or over several in a row.

#[allow(unused_imports)]
use crate::channels::{cell_states, emptied_queue, held, queue_closed, taken, Enqueued};
#[allow(unused_imports)]
use crate::command::{
    command_payload, law_config_bytes_are_identity, CheckRequest, ConfigInput, CoreCommand,
    CoreCommandEnvelope, ReconcileRequest,
};
#[allow(unused_imports)]
use crate::control::{
    executor_exit, ControlOptions, CoreControl, ExecutorExit, OperationHandle,
};
#[allow(unused_imports)]
use crate::control_laws::{
    law_changed_config_is_a_conflict, law_known_id_is_replayed_or_in_conflict,
    law_new_id_is_registered_or_refused, law_shutting_down_refuses_everything,
};
#[allow(unused_imports)]
use crate::digest::{digest_text, law_one_byte_changes_the_digest, payload_digest};
#[allow(unused_imports)]
use crate::error::{default_retryable, CoreError, CoreErrorKind, Error};
#[allow(unused_imports)]
use crate::execution::{
    begin, check_unavailable, check_written, checked, plan_check, replied, written, CheckPlan,
    ExecutionStep, ManagerCall, ManagerReply, PendingReconcile,
};
#[allow(unused_imports)]
use crate::execution_laws::{
    law_declared_digest_decides, law_file_holds_the_config, law_plain_names,
    law_plan_checks_what_was_requested, law_reconcile_begins_where_the_digest_holds,
    law_reconcile_is_called_with_the_request, law_replies_are_concluded_by_what_they_say,
};
#[allow(unused_imports)]
use crate::executor::{
    settle_unrun, Executor, ExecutorAction, ExecutorEvent, ExecutorPhase, ExecutorWork,
};
#[allow(unused_imports)]
use crate::executor_laws::{
    law_drained_operations_are_settled_by_their_command, law_step_leads_on,
    law_step_records_what_happened,
};
#[allow(unused_imports)]
use crate::hex::lemma_hex_text;
#[allow(unused_imports)]
use crate::history::{lemma_known_only_by_name, lemma_lost_only_when_over};
#[allow(unused_imports)]
use crate::identity_laws::{
    law_generated_id_in_parts, law_lowercase_digits, law_requests_are_told_apart,
};
#[allow(unused_imports)]
use crate::materialize::{located, materialize, Materialization};
#[allow(unused_imports)]
use crate::operation::{
    abandoned, conclude, is_terminal, waited, OperationOutput, OperationState,
};
#[allow(unused_imports)]
use crate::operation_id::{lemma_id_bytes, OperationId, ParseOperationIdError};
#[allow(unused_imports)]
use crate::registry::{evicted, lookup, place, registered};
#[allow(unused_imports)]
use crate::registry_laws::{
    law_lookup_finds_the_entry, law_recorded_state_is_read_back, lemma_evicted_from,
    lemma_lookup_at,
};
#[allow(unused_imports)]
use tokio::sync::mpsc;
use vstd::prelude::*;

verus! {

// ---- identities ------------------------------------------------------------

/// To write an id and read the text gives the id back.
pub proof fn law_written_id_is_read_back(
    id: OperationId,
    text: String,
    value: &str,
    read: Result<OperationId, ParseOperationIdError>,
)
    requires
        call_ensures(OperationId::to_string, (&id,), text),
        value@ == text@,
        call_ensures(OperationId::from_str, (value,), read),
    ensures
        read == Ok::<OperationId, ParseOperationIdError>(id),
{
    lemma_id_bytes(id, id);
    lemma_hex_text(id@, id@);
    if read is Ok {
        lemma_id_bytes(read->Ok_0, id);
        lemma_hex_text(read->Ok_0@, id@);
    }
}

/// What is read as an id is exactly thirty-two characters, each a numeral or one
/// of the first six small letters, and to write the id gives them back.
pub proof fn law_read_id_is_written_back(
    value: &str,
    read: Result<OperationId, ParseOperationIdError>,
    text: String,
)
    requires
        call_ensures(OperationId::from_str, (value,), read),
    ensures
        read is Ok <==> value@.len() == 32 && forall|i: int|
            0 <= i < 32 ==> '0' <= #[trigger] value@[i] <= '9' || 'a' <= value@[i] <= 'f',
        read matches Ok(id) ==> call_ensures(OperationId::to_string, (&id,), text) ==> text@
            == value@,
{
    law_lowercase_digits(value@);
}

/// An id is the bytes that it was made from.
pub proof fn law_id_is_its_bytes(bytes: [u8; 16], id: OperationId, back: &[u8; 16])
    requires
        call_ensures(OperationId::from_bytes, (bytes,), id),
        call_ensures(OperationId::as_bytes, (&id,), back),
    ensures
        back@ == bytes@,
{
}

/// A generated id holds the low eight bytes of the clock reading, the process,
/// and the counter, and no two readings that differ there share one.
pub proof fn law_generated_id_holds_its_readings(
    nanos: u128,
    process_id: u32,
    counter: u32,
    id: OperationId,
)
    requires
        call_ensures(OperationId::generate, (nanos, process_id, counter), id),
    ensures
        ({
            let b = id@;
            &&& b.len() == 16
            &&& b[0] * 0x100_0000_0000_0000 + b[1] * 0x1_0000_0000_0000 + b[2] * 0x100_0000_0000
                + b[3] * 0x1_0000_0000 + b[4] * 0x100_0000 + b[5] * 0x1_0000 + b[6] * 0x100 + b[7]
                == nanos % 0x1_0000_0000_0000_0000
            &&& b[8] * 0x100_0000 + b[9] * 0x1_0000 + b[10] * 0x100 + b[11] == process_id
            &&& b[12] * 0x100_0000 + b[13] * 0x1_0000 + b[14] * 0x100 + b[15] == counter
        }),
{
    law_generated_id_in_parts(nanos as nat, process_id, counter);
}

/// The digest is stable, sixteen characters long, and sensitive to every byte:
/// equal payloads have equal digests, and payloads of one length that differ in
/// one byte, at whatever place, do not.
pub proof fn law_digest_is_stable_and_sensitive(
    a: &[u8],
    b: &[u8],
    i: int,
    first: String,
    second: String,
)
    requires
        call_ensures(payload_digest, (a,), first),
        call_ensures(payload_digest, (b,), second),
    ensures
        first@ == digest_text(a@),
        first@.len() == 16,
        a@ == b@ ==> first@ == second@,
        0 <= i < a@.len() && b@.len() == a@.len() && a@[i] != b@[i] && (forall|j: int|
            0 <= j < a@.len() && j != i ==> #[trigger] a@[j] == b@[j]) ==> first@ != second@,
{
    crate::identity_laws::law_every_byte_is_digested(a@, 0);
    if 0 <= i < a@.len() && b@.len() == a@.len() && a@[i] != b@[i] && (forall|j: int|
        0 <= j < a@.len() && j != i ==> #[trigger] a@[j] == b@[j]) {
        law_one_byte_changes_the_digest(a@, i, b@[i]);
        assert(b@ =~= a@.update(i, b@[i]));
    }
}

/// The digest of a command is that of its payload, which tells any two requests
/// apart that differ in the core, the token, or the config; it is blind to
/// tuning and to a declared digest, and never to a byte of the config.
pub proof fn law_command_digest_covers_the_request(
    a: ReconcileRequest,
    b: ReconcileRequest,
    i: int,
    first: String,
    second: String,
)
    requires
        call_ensures(
            CoreCommand::payload_digest,
            (&CoreCommand::Reconcile(Box::new(a)),),
            first,
        ),
        call_ensures(
            CoreCommand::payload_digest,
            (&CoreCommand::Reconcile(Box::new(b)),),
            second,
        ),
    ensures
        first@ == digest_text(command_payload(CoreCommand::Reconcile(Box::new(a)))),
        a.config.bytes() != b.config.bytes() ==> command_payload(
            CoreCommand::Reconcile(Box::new(a)),
        ) != command_payload(CoreCommand::Reconcile(Box::new(b))),
        a.core == b.core && a.expected_applied == b.expected_applied && a.config.bytes()
            == b.config.bytes() ==> first@ == second@,
        a.core == b.core && a.expected_applied == b.expected_applied && 0 <= i
            < a.config.bytes().len() && a.config.bytes().len() == b.config.bytes().len()
            && a.config.bytes()[i] != b.config.bytes()[i] && (forall|j: int|
            0 <= j < a.config.bytes().len() && j != i ==> #[trigger] a.config.bytes()[j]
                == b.config.bytes()[j]) ==> first@ != second@,
{
    law_requests_are_told_apart(a, b);
    let (x, y) = (a.config.bytes(), b.config.bytes());
    if a.core == b.core && a.expected_applied == b.expected_applied && 0 <= i < x.len() && x.len()
        == y.len() && x[i] != y[i] && (forall|j: int|
        0 <= j < x.len() && j != i ==> #[trigger] x[j] == y[j]) {
        assert(y =~= x.update(i, y[i]));
        law_config_bytes_are_identity(a, b, i, y[i]);
    }
}

/// A config that is made inline holds its bytes and declares nothing, and of all
/// commands the shutdown alone is one.
pub proof fn law_configs_and_shutdowns(
    bytes: Vec<u8>,
    config: ConfigInput,
    command: CoreCommand,
    shutdown: bool,
)
    requires
        call_ensures(ConfigInput::inline, (bytes,), config),
        call_ensures(CoreCommand::is_shutdown, (&command,), shutdown),
    ensures
        config matches ConfigInput::Inline { bytes: held, expected_digest } && held == bytes
            && expected_digest is None,
        shutdown <==> command is Shutdown,
{
}

// ---- errors and states -----------------------------------------------------

/// An error says what it was made of, and keeps it when it gets an operation.
pub proof fn law_error_says_what_it_was_made_of(
    kind: CoreErrorKind,
    message: &str,
    retryable: bool,
    error: CoreError,
    id: OperationId,
    named: CoreError,
)
    requires
        call_ensures(CoreError::new, (kind, message, retryable), error),
        call_ensures(CoreError::with_operation, (error, id), named),
    ensures
        error.kind == Some(kind),
        error.message@ == message@,
        error.retryable == retryable,
        error.operation_id is None,
        named.kind == error.kind,
        named.message@ == error.message@,
        named.retryable == error.retryable,
        named.operation_id == Some(id),
{
    assert(error@.kind == error.kind);
}

/// A domain failure keeps its kind and message, and is worth a retry for a full
/// queue and an unavailable backend alone.
pub proof fn law_converted_failure_keeps_its_content(
    failure: Error,
    id: Option<OperationId>,
    error: CoreError,
)
    requires
        call_ensures(CoreError::from_domain, (&failure, id), error),
    ensures
        error.kind == failure.kind,
        error.message@ == failure.message@,
        error.operation_id == id,
        error.retryable <==> failure.kind == Some(CoreErrorKind::QueueFull) || failure.kind == Some(
            CoreErrorKind::BackendUnavailable,
        ),
{
    assert(error@.kind == error.kind);
}

/// Every error is written with its whole message, behind the name of its kind
/// where it has one, and with nothing else where it has none.
pub proof fn law_errors_are_written_in_full(error: CoreError, text: String, name: &'static str)
    requires
        call_ensures(CoreError::to_string, (&error,), text),
        error.kind matches Some(kind) ==> call_ensures(CoreErrorKind::as_str, (&kind,), name),
    ensures
        error.kind is None ==> text@ == error.message@,
        error.kind is Some ==> text@ == name@ + ": "@ + error.message@,
{
}

/// A failure has the kind and the message that it was given, and a copy of an
/// error is that error.
pub proof fn law_failures_and_copies(
    message: String,
    io: Error,
    failure: Error,
    kind: Option<CoreErrorKind>,
    error: CoreError,
    copy: CoreError,
)
    requires
        call_ensures(Error::io, (message,), io),
        call_ensures(Error::kind, (&failure,), kind),
        call_ensures(<CoreError as Clone>::clone, (&error,), copy),
    ensures
        io.kind is None,
        io.message == message,
        kind == failure.kind,
        copy == error,
{
}

/// Two kinds are worth a retry by default.
pub proof fn law_default_retries(kind: CoreErrorKind, retryable: bool)
    requires
        call_ensures(default_retryable, (kind,), retryable),
    ensures
        retryable <==> kind is QueueFull || kind is BackendUnavailable,
{
}

/// A result ends an operation, and who waits for it gets that very result: the
/// output or the error, and before it nothing.
pub proof fn law_waiting_gives_the_result(
    result: Result<OperationOutput, CoreError>,
    state: OperationState,
    over: bool,
    gotten: Option<Result<OperationOutput, CoreError>>,
    other: OperationState,
    early: Option<Result<OperationOutput, CoreError>>,
    other_over: bool,
)
    requires
        call_ensures(conclude, (result,), state),
        call_ensures(is_terminal, (&state,), over),
        call_ensures(waited, (state,), gotten),
        call_ensures(waited, (other,), early),
        call_ensures(is_terminal, (&other,), other_over),
    ensures
        over,
        gotten == Some(result),
        other is Queued || other is Running <==> early is None,
        other is Queued || other is Running <==> !other_over,
        other matches OperationState::Succeeded(output) ==> early == Some(
            Ok::<OperationOutput, CoreError>(output),
        ),
        other matches OperationState::Failed(error) ==> early == Some(
            Err::<OperationOutput, CoreError>(error),
        ),
{
}

/// A caller whose operation was abandoned learns that the executor ended first.
pub proof fn law_abandoned_operation(id: OperationId, error: CoreError)
    requires
        call_ensures(abandoned, (id,), error),
    ensures
        error.kind == Some(CoreErrorKind::Internal),
        error.message@ == "the control executor terminated before the operation completed"@,
        !error.retryable,
        error.operation_id == Some(id),
{
    assert(error@.kind == error.kind);
}

/// An exit is clean exactly where the executor has said that it is done, and a
/// death exactly where it is gone without having said so.
pub proof fn law_exit_of_a_look(done: bool, gone: bool, exit: Option<ExecutorExit>)
    requires
        call_ensures(executor_exit, (done, gone), exit),
    ensures
        exit == Some(ExecutorExit::Clean) <==> done,
        exit == Some(ExecutorExit::Died) <==> !done && gone,
{
}

// ---- the control plane -----------------------------------------------------

/// Options start with the documented bounds.
pub proof fn law_default_bounds(source_dir: String, working_dir: String, options: ControlOptions)
    requires
        call_ensures(ControlOptions::new, (source_dir, working_dir), options),
    ensures
        options.source_dir == source_dir,
        options.working_dir == working_dir,
        options.queue_capacity == 16,
        options.registry_capacity == 64,
        options.check_concurrency == 2,
{
}

/// A new control plane knows no operation, is open, and has the bounds and the
/// directories of its options.
pub proof fn law_new_control_plane(
    options: ControlOptions,
    ends: (CoreControl, mpsc::Receiver<ExecutorWork>),
    id: OperationId,
    known: Option<OperationState>,
)
    requires
        call_ensures(CoreControl::new, (options,), ends),
        call_ensures(CoreControl::operation, (&ends.0, id), known),
    ensures
        known is None,
        !ends.0@.closing,
        ends.0@.handed.len() == 0,
        ends.0@.queue_capacity == options.queue_capacity,
        ends.0@.registry_capacity == options.registry_capacity,
        ends.0@.source_dir == options.source_dir@,
        ends.0@.working_dir == options.working_dir@,
        ends.0@.queue == emptied_queue(ends.1),
{
}

/// The control plane answers for an operation with the state of its entry,
/// whichever state that is, and with nothing where it has none.
pub proof fn law_answer_is_the_entry(
    control: CoreControl,
    id: OperationId,
    known: Option<OperationState>,
)
    requires
        control.wf(),
        call_ensures(CoreControl::operation, (&control, id), known),
    ensures
        known is None <==> forall|i: int|
            0 <= i < control@.entries.len() ==> (#[trigger] control@.entries[i]).id != id,
        forall|i: int|
            0 <= i < control@.entries.len() && (#[trigger] control@.entries[i]).id == id ==> known
                == Some(control@.entries[i].state),
{
    control.law_registered_once();
    law_lookup_finds_the_entry(control@.entries, id);
}

/// What is recorded for a known operation is what the control plane answers from
/// then on; what is recorded for an unknown one is forgotten; and no other
/// operation is touched.
pub proof fn law_recorded_is_answered(
    control: &mut CoreControl,
    id: OperationId,
    state: OperationState,
    other: OperationId,
    earlier: Option<OperationState>,
    later: Option<OperationState>,
)
    requires
        old(control).wf(),
        call_ensures(CoreControl::operation, (&*old(control), other), earlier),
        call_ensures(CoreControl::record, (control, id, state), ()),
        call_ensures(CoreControl::operation, (&*final(control), other), later),
    ensures
        other == id && earlier is Some ==> later == Some(state),
        other == id && earlier is None ==> later is None,
        other != id ==> later == earlier,
        final(control)@.handed == old(control)@.handed,
        final(control)@.closing == old(control)@.closing,
{
    old(control).law_registered_once();
    law_recorded_state_is_read_back(old(control)@.entries, id, state, other);
    law_lookup_finds_the_entry(old(control)@.entries, other);
    law_lookup_finds_the_entry(final(control)@.entries, other);
}

/// A submission that is refused is answered with an error of its own operation
/// whose kind says why; one that succeeds gives a handle of its own operation.
/// Shutting down, a conflict, and a replay change nothing.
pub proof fn law_submission_is_answered(
    control: &mut CoreControl,
    envelope: CoreCommandEnvelope,
    handle: Result<OperationHandle, CoreError>,
    known: Option<OperationState>,
)
    requires
        old(control).wf(),
        call_ensures(CoreControl::operation, (&*old(control), envelope.operation_id), known),
        call_ensures(CoreControl::submit, (control, envelope), handle),
    ensures
        handle matches Ok(handle) ==> handle.spec_id() == envelope.operation_id,
        handle matches Err(error) ==> error.operation_id == Some(envelope.operation_id)
            && error.retryable == (error.kind == Some(CoreErrorKind::QueueFull)),
        old(control)@.closing <==> (handle matches Err(error) && error.kind == Some(
            CoreErrorKind::ShuttingDown,
        )),
        handle matches Err(error) ==> (error.kind == Some(CoreErrorKind::OperationConflict)
            ==> known is Some) && (error.kind == Some(CoreErrorKind::QueueFull) || error.kind
            == Some(CoreErrorKind::Internal) ==> known is None),
        old(control)@.closing || known is Some ==> final(control)@ == old(control)@,
        !old(control)@.closing && known is None && handle is Ok ==> final(control)@.handed
            == old(control)@.handed.push(
            ExecutorWork { id: envelope.operation_id, command: envelope.command },
        ) && (final(control)@.closing <==> envelope.command is Shutdown),
        handle is Err ==> final(control)@.handed == old(control)@.handed && final(control)@.closing
            == old(control)@.closing,
{
    let (before, after) = (old(control)@, final(control)@);
    old(control).law_registered_once();
    law_answer_is_the_entry(*old(control), envelope.operation_id, known);
    let answer = crate::control::outcome(handle);
    if handle is Err {
        assert(handle->Err_0@.kind == handle->Err_0.kind);
        assert(handle->Err_0@.retryable == handle->Err_0.retryable);
    }
    if before.closing {
        law_shutting_down_refuses_everything(before, envelope, answer, after);
    } else if known is Some {
        let i = place(before.entries, envelope.operation_id);
        law_lookup_finds_the_entry(before.entries, envelope.operation_id);
        assert(registered(before.entries, envelope.operation_id));
        law_known_id_is_replayed_or_in_conflict(before, envelope, answer, after, i);
    } else {
        law_new_id_is_registered_or_refused(before, envelope, answer, after);
        assert(handle is Ok ==> after.handed =~= before.handed.push(
            ExecutorWork { id: envelope.operation_id, command: envelope.command },
        ));
    }
}

/// What a submission makes of what the control plane answers: a new operation
/// that is accepted is queued, one that is refused is unknown, and one that was
/// known is as it was. Any other operation is as it was, too, unless it was over
/// and had to make room.
pub proof fn law_submission_and_answers(
    control: &mut CoreControl,
    envelope: CoreCommandEnvelope,
    handle: Result<OperationHandle, CoreError>,
    other: OperationId,
    earlier: Option<OperationState>,
    later: Option<OperationState>,
)
    requires
        old(control).wf(),
        call_ensures(CoreControl::operation, (&*old(control), other), earlier),
        call_ensures(CoreControl::submit, (control, envelope), handle),
        call_ensures(CoreControl::operation, (&*final(control), other), later),
    ensures
        other == envelope.operation_id && earlier is None && handle is Ok ==> later == Some(
            OperationState::Queued,
        ),
        other == envelope.operation_id && earlier is None && handle is Err ==> later is None,
        other == envelope.operation_id && earlier is Some ==> later == earlier,
        other != envelope.operation_id ==> later == earlier || (later is None && (
        earlier matches Some(state) && (state is Succeeded || state is Failed))),
{
    let (before, after) = (old(control)@, final(control)@);
    let answer = crate::control::outcome(handle);
    old(control).law_registered_once();
    final(control).law_registered_once();
    law_lookup_finds_the_entry(before.entries, other);
    law_lookup_finds_the_entry(after.entries, other);
    if registered(before.entries, other) {
        if !registered(after.entries, other) {
            lemma_lost_only_when_over(before, envelope, answer, after, other);
        } else if after != before {
            let i = place(after.entries, other);
            let room = evicted(before.entries, before.registry_capacity);
            if i < room.len() {
                assert(after.entries[i] == room[i]);
                lemma_evicted_from(before.entries, before.registry_capacity, i);
                let j = choose|j: int|
                    0 <= j < before.entries.len() && #[trigger] before.entries[j] == room[i];
                lemma_lookup_at(before.entries, j);
            }
        }
    } else {
        lemma_known_only_by_name(before, envelope, answer, after, other);
        if registered(after.entries, other) {
            let room = evicted(before.entries, before.registry_capacity);
            lemma_lookup_at(after.entries, room.len() as int);
        }
    }
}

/// The handle of a submission names the operation that was submitted, and what
/// it shows, and what is watched through it, is the cell of that operation.
pub proof fn law_handle_names_its_operation(
    control: &mut CoreControl,
    envelope: CoreCommandEnvelope,
    handle: OperationHandle,
    id: OperationId,
    state: OperationState,
    receiver: tokio::sync::watch::Receiver<OperationState>,
    i: int,
)
    requires
        old(control).wf(),
        call_ensures(CoreControl::submit, (control, envelope), Ok(handle)),
        call_ensures(OperationHandle::id, (&handle,), id),
        call_ensures(OperationHandle::state, (&handle,), state),
        call_ensures(OperationHandle::into_receiver, (handle,), receiver),
        0 <= i < final(control)@.entries.len(),
        final(control)@.entries[i].id == envelope.operation_id,
    ensures
        id == envelope.operation_id,
        cell_states(final(control)@.entries[i].cell).contains(state),
        crate::channels::read_cell(receiver) == final(control)@.entries[i].cell,
{
    old(control).law_registered_once();
    final(control).law_registered_once();
    crate::control_laws::lemma_submitted_is_found(
        old(control)@,
        envelope,
        (handle.spec_id(), handle.cell()),
        final(control)@,
    );
    lemma_lookup_at(final(control)@.entries, i);
}

/// Submitted twice, a reconcile is done once: the second call hands out the
/// cell of the first and changes nothing, where core, token, and config agree;
/// where one byte of the config was changed, at whatever place, it is a
/// conflict, and changes nothing either.
pub proof fn law_reconcile_submitted_twice(
    control: &mut CoreControl,
    first: CoreCommandEnvelope,
    a: ReconcileRequest,
    one: Result<OperationHandle, CoreError>,
    again: &mut CoreControl,
    second: CoreCommandEnvelope,
    b: ReconcileRequest,
    two: Result<OperationHandle, CoreError>,
    i: int,
)
    requires
        old(control).wf(),
        first.command == CoreCommand::Reconcile(Box::new(a)),
        second.command == CoreCommand::Reconcile(Box::new(b)),
        second.operation_id == first.operation_id,
        a.core == b.core,
        a.expected_applied == b.expected_applied,
        call_ensures(CoreControl::submit, (control, first), one),
        one is Ok,
        *old(again) == *final(control),
        call_ensures(CoreControl::submit, (again, second), two),
    ensures
        a.config.bytes() == b.config.bytes() ==> (two matches Ok(handle) && handle.cell()
            == one->Ok_0.cell() && handle.spec_id() == first.operation_id) && final(again)@ == old(
            again,
        )@,
        0 <= i < a.config.bytes().len() && a.config.bytes().len() == b.config.bytes().len()
            && a.config.bytes()[i] != b.config.bytes()[i] && (forall|j: int|
            0 <= j < a.config.bytes().len() && j != i ==> #[trigger] a.config.bytes()[j]
                == b.config.bytes()[j]) ==> (two matches Err(error) && error.kind == Some(
            CoreErrorKind::OperationConflict,
        ) && !error.retryable && error.operation_id == Some(first.operation_id)) && final(again)@
            == old(again)@,
{
    old(control).law_registered_once();
    let (x, y) = (a.config.bytes(), b.config.bytes());
    let handle = (one->Ok_0.spec_id(), one->Ok_0.cell());
    let answer = crate::control::outcome(two);
    if two is Err {
        assert(two->Err_0@.kind == two->Err_0.kind);
    }
    if 0 <= i < x.len() && x.len() == y.len() && x[i] != y[i] && (forall|j: int|
        0 <= j < x.len() && j != i ==> #[trigger] x[j] == y[j]) {
        assert(y =~= x.update(i, y[i]));
        law_changed_config_is_a_conflict(
            old(control)@,
            first,
            a,
            handle,
            final(control)@,
            second,
            b,
            i,
            y[i],
            answer,
            final(again)@,
        );
    }
    if x == y {
        law_requests_are_told_apart(a, b);
        crate::control_laws::lemma_submitted_is_found(
            old(control)@,
            first,
            handle,
            final(control)@,
        );
    }
}

/// Once a shutdown that was new has been accepted, every later submission is
/// refused for that reason.
pub proof fn law_shutdown_then_submission(
    control: &mut CoreControl,
    shutdown: CoreCommandEnvelope,
    known: Option<OperationState>,
    one: Result<OperationHandle, CoreError>,
    again: &mut CoreControl,
    later: CoreCommandEnvelope,
    two: Result<OperationHandle, CoreError>,
)
    requires
        old(control).wf(),
        shutdown.command is Shutdown,
        call_ensures(CoreControl::operation, (&*old(control), shutdown.operation_id), known),
        known is None,
        call_ensures(CoreControl::submit, (control, shutdown), one),
        one is Ok,
        *old(again) == *final(control),
        call_ensures(CoreControl::submit, (again, later), two),
    ensures
        two matches Err(error) && error.kind == Some(CoreErrorKind::ShuttingDown)
            && !error.retryable && error.operation_id == Some(later.operation_id),
        final(again)@ == old(again)@,
{
    law_submission_is_answered(control, shutdown, one, known);
    law_shutting_down_refuses_everything(
        old(again)@,
        later,
        crate::control::outcome(two),
        final(again)@,
    );
    if two is Err {
        assert(two->Err_0@.kind == two->Err_0.kind);
    }
}

/// The queue's answer decides what becomes of an admission: only one that was
/// accepted stands, only an accepted shutdown closes, and each refusal says why.
pub proof fn law_queue_decides(
    control: &mut CoreControl,
    id: OperationId,
    shutdown: bool,
    answer: Enqueued,
    settled: Result<(), CoreError>,
    known: Option<OperationState>,
    later: Option<OperationState>,
)
    requires
        old(control).wf(),
        call_ensures(CoreControl::operation, (&*old(control), id), known),
        call_ensures(CoreControl::settle, (control, id, shutdown, answer), settled),
        call_ensures(CoreControl::operation, (&*final(control), id), later),
    ensures
        settled is Ok <==> answer is Accepted,
        answer is Accepted ==> later == known && final(control)@.closing == (old(control)@.closing
            || shutdown),
        answer is Full ==> later is None && (settled matches Err(error) && error.kind == Some(
            CoreErrorKind::QueueFull,
        ) && error.retryable && error.operation_id == Some(id)),
        answer is Closed ==> later is None && (settled matches Err(error) && error.kind == Some(
            CoreErrorKind::Internal,
        ) && !error.retryable && error.operation_id == Some(id)),
        answer !is Accepted ==> final(control)@.closing == old(control)@.closing,
        final(control)@.handed == old(control)@.handed,
{
    old(control).law_registered_once();
    crate::registry_laws::law_removed_operation_is_gone(old(control)@.entries, id, id);
    law_lookup_finds_the_entry(final(control)@.entries, id);
    if settled is Err {
        assert(settled->Err_0@.kind == settled->Err_0.kind);
    }
}

/// A handle of a known operation shows what the control plane answers for it.
pub proof fn law_handle_shows_the_answer(
    control: CoreControl,
    handle: OperationHandle,
    shown: OperationState,
    known: Option<OperationState>,
)
    requires
        control.wf(),
        call_ensures(CoreControl::state_of, (&control, &handle), shown),
        call_ensures(CoreControl::operation, (&control, handle.spec_id()), known),
        lookup(control@.entries, handle.spec_id()) matches Some(entry) && entry.cell
            == handle.cell(),
    ensures
        known == Some(shown),
{
}

// ---- the executor ----------------------------------------------------------

/// A new executor waits for work.
pub proof fn law_new_executor_waits(executor: Executor, phase: ExecutorPhase)
    requires
        call_ensures(Executor::new, (), executor),
        call_ensures(Executor::phase, (&executor,), phase),
    ensures
        phase is Receiving,
{
}

/// A step records what its event says of an operation that is known, and leaves
/// every other as it was.
pub proof fn law_step_and_answers(
    executor: &mut Executor,
    control: &mut CoreControl,
    event: ExecutorEvent,
    action: Option<ExecutorAction>,
    id: OperationId,
    earlier: Option<OperationState>,
    later: Option<OperationState>,
)
    requires
        old(control).wf(),
        call_ensures(CoreControl::operation, (&*old(control), id), earlier),
        call_ensures(Executor::step, (executor, control, event), action),
        call_ensures(CoreControl::operation, (&*final(control), id), later),
    ensures
        earlier is None ==> later is None,
        earlier is Some ==> match (old(executor).spec_phase(), event) {
            (ExecutorPhase::Receiving, ExecutorEvent::Received(Some(work))) => if work.id == id {
                later == Some(OperationState::Running)
            } else {
                later == earlier
            },
            (
                ExecutorPhase::Executing { id: running, .. },
                ExecutorEvent::Executed(Ok(output)),
            ) => if running == id {
                later == Some(OperationState::Succeeded(output))
            } else {
                later == earlier
            },
            (
                ExecutorPhase::Executing { id: running, .. },
                ExecutorEvent::Executed(Err(error)),
            ) => if running == id {
                later == Some(OperationState::Failed(error))
            } else {
                later == earlier
            },
            _ => later == earlier,
        },
        match (old(executor).spec_phase(), event) {
            (ExecutorPhase::Receiving, ExecutorEvent::Received(Some(work))) => {
                &&& final(executor).spec_phase() matches ExecutorPhase::Executing {
                    id: running,
                    shutdown,
                } && running == work.id && (shutdown <==> work.command is Shutdown)
                &&& action == Some(ExecutorAction::Execute(work))
            },
            (ExecutorPhase::Receiving, ExecutorEvent::Received(None)) => {
                final(executor).spec_phase() is Draining && action == Some(ExecutorAction::Drain)
            },
            (ExecutorPhase::Executing { shutdown, .. }, ExecutorEvent::Executed(_)) => {
                &&& shutdown ==> final(executor).spec_phase() is Draining && action == Some(
                    ExecutorAction::Drain,
                )
                &&& !shutdown ==> final(executor).spec_phase() is Receiving && action == Some(
                    ExecutorAction::Receive,
                )
            },
            _ => final(executor).spec_phase() == old(executor).spec_phase() && action is None,
        },
{
    let (before, after) = (old(control)@, final(control)@);
    let (phase, next) = (old(executor).spec_phase(), final(executor).spec_phase());
    old(control).law_registered_once();
    final(control).law_registered_once();
    law_lookup_finds_the_entry(before.entries, id);
    law_lookup_finds_the_entry(after.entries, id);
    law_step_leads_on(phase, before, event, next, after, action);
    assert forall|i: int| 0 <= i < before.entries.len() implies after.entries.len()
        == before.entries.len() && (#[trigger] after.entries[i]).id == before.entries[i].id by {
        law_step_records_what_happened(phase, before, event, next, after, action, i);
    }
    if registered(before.entries, id) {
        let i = place(before.entries, id);
        law_step_records_what_happened(phase, before, event, next, after, action, i);
        lemma_lookup_at(after.entries, i);
        lemma_lookup_at(before.entries, i);
    } else if registered(after.entries, id) {
        let i = place(after.entries, id);
        if before.entries.len() > 0 {
            law_step_records_what_happened(phase, before, event, next, after, action, 0);
        }
        assert(before.entries.len() > 0 ==> before.entries[i].id == id);
    }
}

/// After a drain, a known operation whose last queued work is a stop, a
/// recovery, or a reconcile has failed because the control plane shut down,
/// under its own id, and is not worth a retry; only one whose last queued work
/// is a shutdown has succeeded. An operation without queued work is as it was.
pub proof fn law_drain_and_answers(
    executor: &mut Executor,
    control: &mut CoreControl,
    queue: &mut mpsc::Receiver<ExecutorWork>,
    id: OperationId,
    earlier: Option<OperationState>,
    later: Option<OperationState>,
    j: int,
)
    requires
        old(control).wf(),
        call_ensures(CoreControl::operation, (&*old(control), id), earlier),
        call_ensures(Executor::drain, (executor, control, queue), ()),
        call_ensures(CoreControl::operation, (&*final(control), id), later),
    ensures
        final(executor).spec_phase() is Exited,
        queue_closed(*final(queue)),
        earlier is None ==> later is None,
        (forall|k: int|
            0 <= k < held(*old(queue)).len() ==> (#[trigger] held(*old(queue))[k]).id != id)
            ==> later == earlier,
        earlier is Some && 0 <= j < held(*old(queue)).len() && held(*old(queue))[j].id == id && (
        forall|k: int|
            j < k < held(*old(queue)).len() ==> (#[trigger] held(*old(queue))[k]).id != id) ==> {
            &&& held(*old(queue))[j].command is Shutdown ==> later == Some(
                OperationState::Succeeded(OperationOutput::ShutDown),
            )
            &&& held(*old(queue))[j].command !is Shutdown ==> (
            later matches Some(OperationState::Failed(error)) && error.kind == Some(
                CoreErrorKind::ShuttingDown,
            ) && error.message@ == "the control plane shut down before this queued operation ran"@
                && !error.retryable && error.operation_id == Some(id))
        },
        old(control)@.queue == emptied_queue(*old(queue)) ==> held(*old(queue)) == old(
            control,
        )@.handed.skip(taken(*old(queue)) as int),
{
    let (before, after) = (old(control)@, final(control)@);
    let works = held(*old(queue));
    old(control).law_registered_once();
    final(control).law_registered_once();
    law_lookup_finds_the_entry(before.entries, id);
    law_lookup_finds_the_entry(after.entries, id);
    crate::executor_laws::lemma_drained_len(before, works, after);
    if registered(before.entries, id) {
        let i = place(before.entries, id);
        law_drained_operations_are_settled_by_their_command(before, works, after, i);
        lemma_lookup_at(after.entries, i);
        lemma_lookup_at(before.entries, i);
    } else if registered(after.entries, id) {
        let i = place(after.entries, id);
        law_drained_operations_are_settled_by_their_command(before, works, after, i);
        assert(before.entries[i].id == id);
    }
}

/// Unrun work is settled by its command: a shutdown has succeeded, and anything
/// else has failed because the control plane shut down.
pub proof fn law_unrun_work(work: ExecutorWork, state: OperationState)
    requires
        call_ensures(settle_unrun, (&work,), state),
    ensures
        work.command is Shutdown ==> state == OperationState::Succeeded(OperationOutput::ShutDown),
        work.command is Stop || work.command is Recover || work.command is Reconcile ==> (
        state matches OperationState::Failed(error) && error.kind == Some(
            CoreErrorKind::ShuttingDown,
        ) && error.message@ == "the control plane shut down before this queued operation ran"@
            && !error.retryable && error.operation_id == Some(work.id)),
{
    if state is Failed {
        assert(state->Failed_0@.kind == state->Failed_0.kind);
    }
}

// ---- running an operation --------------------------------------------------

/// A reconcile whose file was written is called for with what was requested,
/// from the file that holds exactly the request's bytes, whether or not the
/// config declares a digest.
pub proof fn law_reconcile_goes_through(
    work: ExecutorWork,
    request: ReconcileRequest,
    source_dir: &str,
    working_dir: &str,
    step: ExecutionStep,
    file: Materialization,
    pending: PendingReconcile,
    next: ExecutionStep,
)
    requires
        work.command == CoreCommand::Reconcile(Box::new(request)),
        call_ensures(begin, (work, source_dir, working_dir), step),
        step == (ExecutionStep::Write { file, pending }),
        call_ensures(written, (pending, Ok(())), next),
    ensures
        file.bytes@ == request.config.bytes(),
        file.directory@ == source_dir@,
        located(source_dir@, "reconcile-source.yaml"@, file.path@),
        next matches ExecutionStep::Call(ManagerCall::Reconcile { spec, expected_applied })
            && expected_applied == request.expected_applied && spec.core == request.core
            && spec.options == request.options && spec.config_path@ == file.path@
            && spec.working_dir@ == working_dir@ && spec.pid_file is None,
{
    let call = ManagerCall::Reconcile {
        spec: pending.spec,
        expected_applied: pending.expected_applied,
    };
    law_reconcile_is_called_with_the_request(
        work,
        request,
        source_dir@,
        working_dir@,
        step,
        call,
    );
}

/// A reconcile is refused exactly for a declared digest that is not that of its
/// bytes, and a write that failed ends it with that failure, under its id.
pub proof fn law_reconcile_is_refused(
    work: ExecutorWork,
    request: ReconcileRequest,
    source_dir: &str,
    working_dir: &str,
    step: ExecutionStep,
    failure: Error,
    next: ExecutionStep,
)
    requires
        work.command == CoreCommand::Reconcile(Box::new(request)),
        call_ensures(begin, (work, source_dir, working_dir), step),
        step matches ExecutionStep::Write { pending, .. } ==> call_ensures(
            written,
            (pending, Err(failure)),
            next,
        ),
    ensures
        request.config matches ConfigInput::Inline { bytes, expected_digest: Some(declared) }
            ==> declared@ != digest_text(bytes@) ==> (step matches ExecutionStep::Done(Err(error))
            && error.kind == Some(CoreErrorKind::InvalidConfig) && !error.retryable
            && error.operation_id == Some(work.id)),
        request.config matches ConfigInput::Inline { bytes, expected_digest: Some(declared) }
            ==> declared@ == digest_text(bytes@) ==> step is Write,
        request.config matches ConfigInput::Inline { expected_digest: None, .. } ==> step is Write,
        step is Write ==> (next matches ExecutionStep::Done(Err(error)) && error.kind
            == failure.kind && error.message@ == failure.message@ && error.operation_id == Some(
            work.id,
        )),
{
    law_reconcile_begins_where_the_digest_holds(
        work,
        request,
        source_dir@,
        working_dir@,
        step,
    );
    if next is Done && next->Done_0 is Err {
        assert(next->Done_0->Err_0@.kind == next->Done_0->Err_0.kind);
    }
}

/// A stop, a recovery, and a shutdown are the call of that name at once, and the
/// reply to it gives their output, or their failure under their id.
pub proof fn law_other_commands_go_through(
    work: ExecutorWork,
    source_dir: &str,
    working_dir: &str,
    step: ExecutionStep,
)
    requires
        call_ensures(begin, (work, source_dir, working_dir), step),
    ensures
        work.command is Stop <==> step == ExecutionStep::Call(ManagerCall::Stop),
        work.command is Recover <==> step == ExecutionStep::Call(ManagerCall::RecoverQuarantine),
        work.command is Shutdown <==> step == ExecutionStep::Call(ManagerCall::Shutdown),
{
}

/// The control plane runs an operation with its own directories.
pub proof fn law_control_plane_runs_operations(
    control: CoreControl,
    work: ExecutorWork,
    step: ExecutionStep,
)
    requires
        call_ensures(CoreControl::execute, (&control, work), step),
    ensures
        work.command is Stop <==> step == ExecutionStep::Call(ManagerCall::Stop),
        work.command is Recover <==> step == ExecutionStep::Call(ManagerCall::RecoverQuarantine),
        work.command is Shutdown <==> step == ExecutionStep::Call(ManagerCall::Shutdown),
        step matches ExecutionStep::Write { file, pending } ==> (
        work.command matches CoreCommand::Reconcile(request) && file.bytes@
            == request.config.bytes() && file.directory@ == control@.source_dir && located(
            control@.source_dir,
            "reconcile-source.yaml"@,
            file.path@,
        ) && pending.id == work.id && pending.expected_applied == request.expected_applied
            && pending.spec.core == request.core && pending.spec.options == request.options
            && pending.spec.config_path@ == file.path@ && pending.spec.working_dir@
            == control@.working_dir && pending.spec.pid_file is None),
{
}

/// A reply gives the output that it names, with its own outcome, or its own
/// failure.
pub proof fn law_replies_go_through(
    id: OperationId,
    reply: ManagerReply,
    result: Result<OperationOutput, CoreError>,
)
    requires
        call_ensures(replied, (id, reply), result),
    ensures
        match reply {
            ManagerReply::Reconciled(Ok(outcome)) => result == Ok::<OperationOutput, CoreError>(
                OperationOutput::Reconciled(outcome),
            ),
            ManagerReply::Stopped(Ok(_)) => result matches Ok(output) && output is Stopped,
            ManagerReply::Recovered(Ok(_)) => result matches Ok(output) && output is Recovered,
            ManagerReply::ShutDown(Ok(_)) => result matches Ok(output) && output is ShutDown,
            ManagerReply::Reconciled(Err(failure))
            | ManagerReply::Stopped(Err(failure))
            | ManagerReply::Recovered(Err(failure))
            | ManagerReply::ShutDown(Err(failure)) => result matches Err(error) && error.kind
                == failure.kind && error.message@ == failure.message@ && error.operation_id == Some(
                id,
            ) && (error.retryable <==> failure.kind == Some(CoreErrorKind::QueueFull)
                || failure.kind == Some(CoreErrorKind::BackendUnavailable)),
        },
{
    law_replies_are_concluded_by_what_they_say(id, reply, result);
}

// ---- checking a config -----------------------------------------------------

/// A check is planned exactly where a declared digest is that of the bytes, and
/// what it writes and validates is what was requested: all bytes and no others,
/// in a file of its own, read by the requested core.
pub proof fn law_check_goes_through(
    control: CoreControl,
    request: CheckRequest,
    id: OperationId,
    plan: Result<CheckPlan, CoreError>,
)
    requires
        call_ensures(CoreControl::check, (&control, request, id), plan),
    ensures
        plan matches Ok(plan) ==> plan.id == id && plan.file.bytes@ == request.config.bytes()
            && plan.file.directory@ == control@.source_dir && located(
            control@.source_dir,
            "check-source-"@ + digest_text(request.config.bytes()) + ".yaml"@,
            plan.file.path@,
        ) && plan.spec.core == request.core && plan.spec.config_path@ == plan.file.path@
            && plan.spec.working_dir@ == control@.working_dir && plan.spec.pid_file is None
            && plan.spec.options.settings@.len() == 0,
        request.config matches ConfigInput::Inline { bytes, expected_digest: Some(declared) } ==> (
        plan is Ok <==> declared@ == digest_text(bytes@)),
        request.config matches ConfigInput::Inline { expected_digest: None, .. } ==> plan is Ok,
        plan matches Err(error) ==> error.kind == Some(CoreErrorKind::InvalidConfig)
            && !error.retryable && error.operation_id == Some(id),
{
    law_declared_digest_decides(request.config, id);
    if plan is Err {
        assert(plan->Err_0@.kind == plan->Err_0.kind);
    } else {
        law_plan_checks_what_was_requested(
            plan->Ok_0,
            request,
            id,
            control@.source_dir,
            control@.working_dir,
        );
    }
}

/// The plan of a check does not depend on the control plane but for its
/// directories.
pub proof fn law_plan_goes_through(
    request: CheckRequest,
    id: OperationId,
    source_dir: &str,
    working_dir: &str,
    plan: Result<CheckPlan, CoreError>,
)
    requires
        call_ensures(plan_check, (request, id, source_dir, working_dir), plan),
    ensures
        plan matches Ok(plan) ==> plan.id == id && plan.file.bytes@ == request.config.bytes()
            && plan.file.directory@ == source_dir@ && located(
            source_dir@,
            "check-source-"@ + digest_text(request.config.bytes()) + ".yaml"@,
            plan.file.path@,
        ) && plan.spec.core == request.core && plan.spec.config_path@ == plan.file.path@
            && plan.spec.working_dir@ == working_dir@ && plan.spec.pid_file is None
            && plan.spec.options.settings@.len() == 0,
        request.config matches ConfigInput::Inline { bytes, expected_digest: Some(declared) } ==> (
        plan is Ok <==> declared@ == digest_text(bytes@)),
        request.config matches ConfigInput::Inline { expected_digest: None, .. } ==> plan is Ok,
{
    law_declared_digest_decides(request.config, id);
    if plan is Ok {
        law_plan_checks_what_was_requested(
            plan->Ok_0,
            request,
            id,
            source_dir@,
            working_dir@,
        );
    }
}

/// A check passes where the write and the verdict do, and otherwise fails with
/// their own failure: the write's under the id of the check, the verdict's under
/// none.
pub proof fn law_check_ends_with_the_verdict(
    id: OperationId,
    outcome: Result<(), Error>,
    wrote: Result<(), CoreError>,
    verdict: Result<(), Error>,
    result: Result<(), CoreError>,
    unavailable: CoreError,
)
    requires
        call_ensures(check_written, (id, outcome), wrote),
        call_ensures(checked, (verdict,), result),
        call_ensures(check_unavailable, (), unavailable),
    ensures
        wrote is Ok <==> outcome is Ok,
        outcome matches Err(failure) ==> (wrote matches Err(error) && error.kind == failure.kind
            && error.message@ == failure.message@ && error.operation_id == Some(id)),
        result is Ok <==> verdict is Ok,
        verdict matches Err(failure) ==> (result matches Err(error) && error.kind == failure.kind
            && error.message@ == failure.message@ && error.operation_id is None),
        unavailable.kind == Some(CoreErrorKind::Internal),
        unavailable.message@ == "the check semaphore is closed"@,
        !unavailable.retryable,
        unavailable.operation_id is None,
{
    assert(unavailable@.kind == unavailable.kind);
    if wrote is Err {
        assert(wrote->Err_0@.kind == wrote->Err_0.kind);
    }
    if result is Err {
        assert(result->Err_0@.kind == result->Err_0.kind);
    }
}

/// A config is materialized exactly where a declared digest is that of its
/// bytes, with all bytes and no others, at the directory joined with the name.
pub proof fn law_config_is_materialized(
    source_dir: &str,
    file_name: &str,
    config: ConfigInput,
    id: OperationId,
    file: Result<Materialization, CoreError>,
)
    requires
        call_ensures(materialize, (source_dir, file_name, config, id), file),
    ensures
        config matches ConfigInput::Inline { bytes, expected_digest: Some(declared) } ==> (
        file is Ok <==> declared@ == digest_text(bytes@)),
        config matches ConfigInput::Inline { expected_digest: None, .. } ==> file is Ok,
        file matches Ok(file) ==> file.bytes@ == config.bytes() && file.directory@ == source_dir@,
        file matches Ok(file) ==> file_name@.len() > 0 && file_name@[0] != '.'
            && !file_name@.contains('/') && !file_name@.contains('\\') && !file_name@.contains(':')
            ==> located(source_dir@, file_name@, file.path@),
        file matches Err(error) ==> error.kind == Some(CoreErrorKind::InvalidConfig)
            && !error.retryable && error.operation_id == Some(id),
{
    law_declared_digest_decides(config, id);
    law_plain_names(file_name@);
    if file is Err {
        assert(file->Err_0@.kind == file->Err_0.kind);
    } else {
        law_file_holds_the_config(file->Ok_0, source_dir@, file_name@, config);
    }
}

} // verus!
