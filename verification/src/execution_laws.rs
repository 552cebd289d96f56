//! What holds of running an operation and of checking a config, from the
//! request to the result.

#[allow(unused_imports)]
use crate::command::{CheckRequest, ConfigInput, CoreCommand, ReconcileRequest};
#[allow(unused_imports)]
use crate::digest::digest_text;
#[allow(unused_imports)]
use crate::error::{CoreError, CoreErrorKind};
#[allow(unused_imports)]
use crate::execution::{
    asks_for, begun, concludes, plans_check, CheckPlan, ExecutionStep, ManagerCall, ManagerReply,
};
#[allow(unused_imports)]
use crate::executor::ExecutorWork;
#[allow(unused_imports)]
use crate::materialize::{
    digest_holds, digest_mismatch, located, materializes, plain_name, Materialization,
};
#[allow(unused_imports)]
use crate::operation::OperationOutput;
#[allow(unused_imports)]
use crate::operation_id::OperationId;
use vstd::prelude::*;

verus! {

/// Any call that a reconcile asks for is a reconcile of what was requested:
/// the desired core, the tuning, and the compare-and-swap token go through
/// untouched, whether or not the config declares a digest, and the config is
/// read from the file that holds exactly the request's bytes.
pub proof fn law_reconcile_is_called_with_the_request(
    work: ExecutorWork,
    request: ReconcileRequest,
    source_dir: Seq<char>,
    working_dir: Seq<char>,
    step: ExecutionStep,
    call: ManagerCall,
)
    requires
        work.command == CoreCommand::Reconcile(Box::new(request)),
        begun(work, source_dir, working_dir, step),
        asks_for(step, call),
    ensures
        call matches ManagerCall::Reconcile { spec, expected_applied } && expected_applied
            == request.expected_applied && spec.core == request.core && spec.options
            == request.options && spec.working_dir@ == working_dir && spec.pid_file is None && (
        step matches ExecutionStep::Write { file, pending } && spec.config_path@ == file.path@
            && pending.id == work.id),
        step matches ExecutionStep::Write { file, .. } && (
        request.config matches ConfigInput::Inline { bytes, .. } && file.bytes@ == bytes@)
            && file.directory@ == source_dir && located(
            source_dir,
            "reconcile-source.yaml"@,
            file.path@,
        ),
{
}

/// A reconcile begins with its file exactly where the config declares no digest
/// or that of its bytes; otherwise it is over at once, and the error names both
/// digests.
pub proof fn law_reconcile_begins_where_the_digest_holds(
    work: ExecutorWork,
    request: ReconcileRequest,
    source_dir: Seq<char>,
    working_dir: Seq<char>,
    step: ExecutionStep,
)
    requires
        work.command == CoreCommand::Reconcile(Box::new(request)),
        begun(work, source_dir, working_dir, step),
    ensures
        match request.config {
            ConfigInput::Inline { bytes, expected_digest: Some(declared) } => {
                &&& declared@ == digest_text(bytes@) ==> step is Write
                &&& declared@ != digest_text(bytes@) ==> (
                step matches ExecutionStep::Done(Err(error)) && error.kind == Some(
                    CoreErrorKind::InvalidConfig,
                ) && error.message@ == "config digest mismatch: declared "@ + declared@
                    + ", computed "@ + digest_text(bytes@) && !error.retryable
                    && error.operation_id == Some(work.id))
            },
            ConfigInput::Inline { expected_digest: None, .. } => step is Write,
        },
{
}

/// Every other command is the call that it names, at once.
pub proof fn law_other_commands_are_calls(
    work: ExecutorWork,
    source_dir: Seq<char>,
    working_dir: Seq<char>,
    step: ExecutionStep,
)
    requires
        begun(work, source_dir, working_dir, step),
    ensures
        work.command is Stop ==> step == ExecutionStep::Call(ManagerCall::Stop),
        work.command is Recover ==> step == ExecutionStep::Call(ManagerCall::RecoverQuarantine),
        work.command is Shutdown ==> step == ExecutionStep::Call(ManagerCall::Shutdown),
        work.command is Reconcile ==> step !is Call,
{
}

/// A reply is concluded by what it says: a success by the output that it names,
/// with its own outcome, and a failure by its own kind and message, under the
/// operation's id.
pub proof fn law_replies_are_concluded_by_what_they_say(
    id: OperationId,
    reply: ManagerReply,
    result: Result<OperationOutput, CoreError>,
)
    requires
        concludes(id, reply, result),
    ensures
        match reply {
            ManagerReply::Reconciled(Ok(outcome)) => result == Ok::<OperationOutput, CoreError>(
                OperationOutput::Reconciled(outcome),
            ),
            ManagerReply::Stopped(Ok(_)) => result matches Ok(output) && output is Stopped,
            ManagerReply::Recovered(Ok(_)) => result matches Ok(output) && output is Recovered,
            ManagerReply::ShutDown(Ok(_)) => result matches Ok(output) && output is ShutDown,
            ManagerReply::Reconciled(Err(failure))
            | ManagerReply::Stopped(Err(failure))
            | ManagerReply::Recovered(Err(failure))
            | ManagerReply::ShutDown(Err(failure)) => result matches Err(error) && error.kind
                == failure.kind && error.message@ == failure.message@ && error.operation_id == Some(
                id,
            ) && (error.retryable <==> failure.kind == Some(CoreErrorKind::QueueFull)
                || failure.kind == Some(CoreErrorKind::BackendUnavailable)),
        },
{
}

/// What a plan writes and validates is what was requested: all bytes of the
/// config and no others, under the name that carries their digest, and the
/// requested core, which reads that very file, without tuning.
pub proof fn law_plan_checks_what_was_requested(
    plan: CheckPlan,
    request: CheckRequest,
    id: OperationId,
    source_dir: Seq<char>,
    working_dir: Seq<char>,
)
    requires
        plans_check(plan, request, id, source_dir, working_dir),
    ensures
        plan.id == id,
        request.config matches ConfigInput::Inline { bytes, .. } && plan.file.bytes@ == bytes@
            && located(
            source_dir,
            "check-source-"@ + digest_text(bytes@) + ".yaml"@,
            plan.file.path@,
        ),
        plan.file.directory@ == source_dir,
        plan.spec.core == request.core,
        plan.spec.config_path@ == plan.file.path@,
        plan.spec.working_dir@ == working_dir,
        plan.spec.pid_file is None,
        plan.spec.options.settings@.len() == 0,
{
}

/// A materialized config is its own bytes, all of them, in the directory given.
pub proof fn law_file_holds_the_config(
    file: Materialization,
    directory: Seq<char>,
    name: Seq<char>,
    config: ConfigInput,
)
    requires
        materializes(file, directory, name, config),
    ensures
        file.directory@ == directory,
        config matches ConfigInput::Inline { bytes, .. } && file.bytes@ == bytes@,
        plain_name(name) ==> located(directory, name, file.path@),
{
}

/// A config is accepted exactly where it declares no digest, or that of all of
/// its bytes, and the refusal names both digests.
pub proof fn law_declared_digest_decides(config: ConfigInput, id: OperationId)
    ensures
        match config {
            ConfigInput::Inline { bytes, expected_digest: Some(declared) } => {
                let refusal = digest_mismatch(config, id);
                &&& digest_holds(config) <==> declared@ == digest_text(bytes@)
                &&& refusal.kind == Some(CoreErrorKind::InvalidConfig)
                &&& refusal.message == "config digest mismatch: declared "@ + declared@
                    + ", computed "@ + digest_text(bytes@)
                &&& !refusal.retryable
                &&& refusal.operation_id == Some(id)
            },
            ConfigInput::Inline { expected_digest: None, .. } => digest_holds(config),
        },
{
}

/// A name that starts with no dot, and holds no separator and no colon, is
/// plain, however long it is.
pub proof fn law_plain_names(name: Seq<char>)
    ensures
        plain_name(name) <==> name.len() > 0 && name[0] != '.' && !name.contains('/')
            && !name.contains('\\') && !name.contains(':'),
{
    if name.len() > 0 && name[0] != '.' && !name.contains('/') && !name.contains('\\')
        && !name.contains(':') {
        assert forall|i: int| 0 <= i < name.len() implies #[trigger] name[i] != '/' && name[i]
            != '\\' && name[i] != ':' by {
            assert(name.contains(name[i]));
        }
    }
}

/// A file is located in its directory: its path begins with the whole
/// directory, ends with the whole name, and has between them nothing or one
/// separator. Of a directory that begins with `\\?\` the end alone is fixed.
pub proof fn law_located_below_the_directory(
    directory: Seq<char>,
    name: Seq<char>,
    path: Seq<char>,
)
    requires
        located(directory, name, path),
    ensures
        path.len() >= name.len(),
        path.skip(path.len() - name.len()) == name,
        directory.len() < 4 || directory.take(4) != seq!['\\', '\\', '?', '\\'] ==> {
            &&& path.len() >= directory.len() + name.len()
            &&& path.take(directory.len() as int) == directory
            &&& path.len() == directory.len() + name.len() || path.len() == directory.len() + 1
                + name.len() && (path[directory.len() as int] == '/' || path[directory.len() as int]
                == '\\')
            &&& path.len() == directory.len() + name.len() ==> directory.len() == 0
                || directory.last() == '/' || directory.last() == '\\' || directory.last() == ':'
            &&& directory.len() == 0 || directory.last() == '/' ==> path.len() == directory.len()
                + name.len()
        },
{
    assert(path.skip(path.len() - name.len()) =~= name);
    if directory.len() < 4 || directory.take(4) != seq!['\\', '\\', '?', '\\'] {
        if crate::materialize::verbatim(directory) {
            assert(directory.take(4) =~= seq!['\\', '\\', '?', '\\']);
        }
        assert(path.take(directory.len() as int) =~= directory);
    }
}

} // verus!
