//! One operation from its command to its result: which file is written, what
//! is asked of the core manager, and what its reply comes to.

use crate::command::{CheckRequest, ConfigInput, CoreCommand, ReconcileRequest};
use crate::digest::payload_digest;
#[allow(unused_imports)]
use crate::digest::{digest_text, lemma_digest_text_injective};
use crate::error::{CoreError, CoreErrorKind, Error};
#[allow(unused_imports)]
use crate::error::{portable_error, CoreErrorView};
use crate::executor::ExecutorWork;
use crate::instance::{ApplyOutcome, InstanceOptions, InstanceSpec, RevisionId};
use crate::materialize::{materialize, Materialization};
#[allow(unused_imports)]
use crate::materialize::{digest_holds, digest_mismatch, located, plain_name};
use crate::operation::OperationOutput;
use crate::operation_id::OperationId;
use vstd::prelude::*;

verus! {

/// A call of the core manager.
#[derive(Debug)]
pub enum ManagerCall {
    Reconcile { spec: InstanceSpec, expected_applied: Option<RevisionId> },
    Stop,
    RecoverQuarantine,
    Shutdown,
}

/// The core manager's reply to a call.
#[derive(Debug)]
pub enum ManagerReply {
    Reconciled(Result<ApplyOutcome, Error>),
    Stopped(Result<(), Error>),
    Recovered(Result<(), Error>),
    ShutDown(Result<(), Error>),
}

/// A reconcile whose config is about to be written.
#[derive(Debug)]
pub struct PendingReconcile {
    pub id: OperationId,
    pub spec: InstanceSpec,
    pub expected_applied: Option<RevisionId>,
}

/// What the host does next for an operation.
#[derive(Debug)]
pub enum ExecutionStep {
    /// Write the file, then go on by [`written`].
    Write { file: Materialization, pending: PendingReconcile },
    /// Make the call, then conclude by [`replied`].
    Call(ManagerCall),
    /// The operation is over.
    Done(Result<OperationOutput, CoreError>),
}

/// Whether a pending reconcile launches what was requested from the file.
pub open spec fn pending_for(
    pending: PendingReconcile,
    id: OperationId,
    request: ReconcileRequest,
    working_dir: Seq<char>,
    file: Materialization,
) -> bool {
    &&& pending.id == id
    &&& pending.spec.core == request.core
    &&& pending.spec.config_path@ == file.path@
    &&& pending.spec.working_dir@ == working_dir
    &&& pending.spec.pid_file is None
    &&& pending.spec.options == request.options
    &&& pending.expected_applied == request.expected_applied
}

/// What running an operation begins with. A reconcile whose config carries the
/// digest that it declares has its bytes written, under one fixed name in the
/// source directory; any other command is a call at once.
pub open spec fn begun(
    work: ExecutorWork,
    source_dir: Seq<char>,
    working_dir: Seq<char>,
    step: ExecutionStep,
) -> bool {
    match work.command {
        CoreCommand::Reconcile(request) => if digest_holds(request.config) {
            step matches ExecutionStep::Write { file, pending } && file.directory@ == source_dir
                && located(source_dir, "reconcile-source.yaml"@, file.path@) && file.bytes@
                == request.config.bytes() && pending_for(
                pending,
                work.id,
                *request,
                working_dir,
                file,
            )
        } else {
            step matches ExecutionStep::Done(Err(error)) && error@ == digest_mismatch(
                request.config,
                work.id,
            )
        },
        CoreCommand::Stop => step == ExecutionStep::Call(ManagerCall::Stop),
        CoreCommand::Recover => step == ExecutionStep::Call(ManagerCall::RecoverQuarantine),
        CoreCommand::Shutdown => step == ExecutionStep::Call(ManagerCall::Shutdown),
    }
}

/// Begins to run an operation.
pub fn begin(work: ExecutorWork, source_dir: &str, working_dir: &str) -> (step: ExecutionStep)
    ensures
        begun(work, source_dir@, working_dir@, step),
        step matches ExecutionStep::Write { file, pending } ==> (
        work.command matches CoreCommand::Reconcile(request) && file.bytes@
            == request.config.bytes() && pending.spec.config_path@ == file.path@
            && pending.expected_applied == request.expected_applied && pending.spec.core
            == request.core && pending.spec.options == request.options),
{
    let id: OperationId = work.id;
    match work.command {
        CoreCommand::Reconcile(request) => {
            let ReconcileRequest { core, config, options, expected_applied } = *request;
            proof {
                lemma_reconcile_source_is_plain();
            }
            // One fixed name: mutating operations are serialized, and after the
            // transaction the effective config lives in the runtime store, so
            // the source never accumulates.
            match materialize(source_dir, "reconcile-source.yaml", config, id) {
                Ok(file) => {
                    let spec = InstanceSpec {
                        core,
                        config_path: file.path.clone(),
                        working_dir: working_dir.to_owned(),
                        pid_file: None,
                        options,
                    };
                    ExecutionStep::Write {
                        file,
                        pending: PendingReconcile { id, spec, expected_applied },
                    }
                },
                Err(error) => ExecutionStep::Done(Err(error)),
            }
        },
        CoreCommand::Stop => ExecutionStep::Call(ManagerCall::Stop),
        CoreCommand::Recover => ExecutionStep::Call(ManagerCall::RecoverQuarantine),
        CoreCommand::Shutdown => ExecutionStep::Call(ManagerCall::Shutdown),
    }
}

/// Goes on once the file was written, or could not be.
pub fn written(pending: PendingReconcile, outcome: Result<(), Error>) -> (step: ExecutionStep)
    ensures
        match outcome {
            Ok(()) => step == ExecutionStep::Call(
                ManagerCall::Reconcile {
                    spec: pending.spec,
                    expected_applied: pending.expected_applied,
                },
            ),
            Err(error) => step matches ExecutionStep::Done(Err(portable)) && portable@
                == portable_error(error, Some(pending.id)),
        },
{
    match outcome {
        Ok(()) => ExecutionStep::Call(
            ManagerCall::Reconcile {
                spec: pending.spec,
                expected_applied: pending.expected_applied,
            },
        ),
        Err(error) => ExecutionStep::Done(Err(CoreError::from_domain(&error, Some(pending.id)))),
    }
}

/// What a reply comes to: the output of its command, or the domain's failure
/// in its portable form.
pub open spec fn concludes(
    id: OperationId,
    reply: ManagerReply,
    result: Result<OperationOutput, CoreError>,
) -> bool {
    match reply {
        ManagerReply::Reconciled(Ok(outcome)) => result
            == Ok::<OperationOutput, CoreError>(OperationOutput::Reconciled(outcome)),
        ManagerReply::Stopped(Ok(())) => result == Ok::<OperationOutput, CoreError>(
            OperationOutput::Stopped,
        ),
        ManagerReply::Recovered(Ok(())) => result == Ok::<OperationOutput, CoreError>(
            OperationOutput::Recovered,
        ),
        ManagerReply::ShutDown(Ok(())) => result == Ok::<OperationOutput, CoreError>(
            OperationOutput::ShutDown,
        ),
        ManagerReply::Reconciled(Err(error))
        | ManagerReply::Stopped(Err(error))
        | ManagerReply::Recovered(Err(error))
        | ManagerReply::ShutDown(Err(error)) => result matches Err(portable) && portable@
            == portable_error(error, Some(id)),
    }
}

/// Concludes an operation by the core manager's reply.
pub fn replied(id: OperationId, reply: ManagerReply) -> (result: Result<OperationOutput, CoreError>)
    ensures
        concludes(id, reply, result),
{
    match reply {
        ManagerReply::Reconciled(Ok(outcome)) => Ok(OperationOutput::Reconciled(outcome)),
        ManagerReply::Stopped(Ok(())) => Ok(OperationOutput::Stopped),
        ManagerReply::Recovered(Ok(())) => Ok(OperationOutput::Recovered),
        ManagerReply::ShutDown(Ok(())) => Ok(OperationOutput::ShutDown),
        ManagerReply::Reconciled(Err(error))
        | ManagerReply::Stopped(Err(error))
        | ManagerReply::Recovered(Err(error))
        | ManagerReply::ShutDown(Err(error)) => Err(CoreError::from_domain(&error, Some(id))),
    }
}

/// Whether a reply is one to a call.
pub open spec fn answers(call: ManagerCall, reply: ManagerReply) -> bool {
    match call {
        ManagerCall::Reconcile { .. } => reply is Reconciled,
        ManagerCall::Stop => reply is Stopped,
        ManagerCall::RecoverQuarantine => reply is Recovered,
        ManagerCall::Shutdown => reply is ShutDown,
    }
}

/// Whether an output is one of a command.
pub open spec fn output_of(command: CoreCommand, output: OperationOutput) -> bool {
    match command {
        CoreCommand::Reconcile(_) => output is Reconciled,
        CoreCommand::Stop => output is Stopped,
        CoreCommand::Recover => output is Recovered,
        CoreCommand::Shutdown => output is ShutDown,
    }
}

/// Whether a step asks for a call, at once or after its file was written.
pub open spec fn asks_for(step: ExecutionStep, call: ManagerCall) -> bool {
    match step {
        ExecutionStep::Write { pending, .. } => call == (ManagerCall::Reconcile {
            spec: pending.spec,
            expected_applied: pending.expected_applied,
        }),
        ExecutionStep::Call(asked) => call == asked,
        ExecutionStep::Done(_) => false,
    }
}

/// An operation's output belongs to its command: where the call that the
/// command asks for is answered, success gives an output of that command, with
/// the outcome of the reply, and failure the failure of the reply under the
/// operation's id.
pub proof fn law_output_belongs_to_its_command(
    work: ExecutorWork,
    source_dir: Seq<char>,
    working_dir: Seq<char>,
    step: ExecutionStep,
    call: ManagerCall,
    reply: ManagerReply,
    result: Result<OperationOutput, CoreError>,
)
    requires
        begun(work, source_dir, working_dir, step),
        asks_for(step, call),
        answers(call, reply),
        concludes(work.id, reply, result),
    ensures
        result matches Ok(output) ==> output_of(work.command, output),
        result matches Ok(OperationOutput::Reconciled(outcome)) ==> reply
            == ManagerReply::Reconciled(Ok(outcome)),
        result matches Err(error) ==> error.operation_id == Some(work.id),
{
}

/// An advisory check: the file to write, the instance to validate it by, and
/// the path to remove again.
#[derive(Debug)]
pub struct CheckPlan {
    pub id: OperationId,
    pub file: Materialization,
    pub spec: InstanceSpec,
}

/// The file name of a config under check.
pub open spec fn check_name(bytes: Seq<u8>) -> Seq<char> {
    "check-source-"@ + digest_text(bytes) + ".yaml"@
}

/// Whether a plan checks what was requested: the bytes are written under a name
/// of their own in the source directory, and validated from there with no
/// tuning.
pub open spec fn plans_check(
    plan: CheckPlan,
    request: CheckRequest,
    id: OperationId,
    source_dir: Seq<char>,
    working_dir: Seq<char>,
) -> bool {
    &&& plan.id == id
    &&& plan.file.directory@ == source_dir
    &&& located(source_dir, check_name(request.config.bytes()), plan.file.path@)
    &&& plan.file.bytes@ == request.config.bytes()
    &&& plan.spec.core == request.core
    &&& plan.spec.config_path@ == plan.file.path@
    &&& plan.spec.working_dir@ == working_dir
    &&& plan.spec.pid_file is None
    &&& plan.spec.options.settings@ == Seq::<(String, String)>::empty()
}

/// Plans an advisory check. A config that does not carry the digest that it
/// declares is refused before anything is written.
pub fn plan_check(
    request: CheckRequest,
    id: OperationId,
    source_dir: &str,
    working_dir: &str,
) -> (plan: Result<CheckPlan, CoreError>)
    ensures
        plan is Ok <==> digest_holds(request.config),
        plan matches Err(error) ==> error@ == digest_mismatch(request.config, id),
        plan matches Ok(plan) ==> plans_check(plan, request, id, source_dir@, working_dir@),
        plan matches Ok(plan) ==> plan.file.bytes@ == request.config.bytes() && plan.spec.core
            == request.core && plan.spec.config_path@ == plan.file.path@,
{
    let CheckRequest { core, config } = request;
    let mut name: String = "check-source-".to_owned();
    match &config {
        ConfigInput::Inline { bytes, .. } => {
            name.append(payload_digest(bytes.as_slice()).as_str());
        },
    }
    name.append(".yaml");
    proof {
        lemma_check_name_is_plain(config.bytes());
    }
    match materialize(source_dir, name.as_str(), config, id) {
        Ok(file) => {
            let spec = InstanceSpec {
                core,
                config_path: file.path.clone(),
                working_dir: working_dir.to_owned(),
                pid_file: None,
                options: InstanceOptions::default(),
            };
            Ok(CheckPlan { id, file, spec })
        },
        Err(error) => Err(error),
    }
}

/// What writing the file of a check comes to.
pub fn check_written(id: OperationId, outcome: Result<(), Error>) -> (result: Result<(), CoreError>)
    ensures
        result is Ok <==> outcome is Ok,
        outcome matches Err(error) ==> (result matches Err(portable) && portable@ == portable_error(
            error,
            Some(id),
        )),
{
    match outcome {
        Ok(()) => Ok(()),
        Err(error) => Err(CoreError::from_domain(&error, Some(id))),
    }
}

/// What the verdict on a checked config comes to. It belongs to no operation.
pub fn checked(verdict: Result<(), Error>) -> (result: Result<(), CoreError>)
    ensures
        result is Ok <==> verdict is Ok,
        verdict matches Err(error) ==> (result matches Err(portable) && portable@ == portable_error(
            error,
            None,
        )),
{
    match verdict {
        Ok(()) => Ok(()),
        Err(error) => Err(CoreError::from_domain(&error, None)),
    }
}

/// The answer to a check that could not wait for its turn.
pub fn check_unavailable() -> (error: CoreError)
    ensures
        error@ == (CoreErrorView {
            kind: Some(CoreErrorKind::Internal),
            message: "the check semaphore is closed"@,
            retryable: false,
            operation_id: None,
        }),
{
    CoreError::new(CoreErrorKind::Internal, "the check semaphore is closed", false)
}

proof fn lemma_reconcile_source_is_plain()
    ensures
        plain_name("reconcile-source.yaml"@),
{
    reveal_strlit("reconcile-source.yaml");
}

proof fn lemma_check_name_is_plain(bytes: Seq<u8>)
    ensures
        plain_name(check_name(bytes)),
{
    reveal_strlit("check-source-");
    reveal_strlit(".yaml");
    lemma_digest_text_injective(bytes, bytes);
    crate::hex::lemma_hex_text(
        crate::hex::be_bytes(crate::digest::fnv1a(bytes) as nat, 8),
        crate::hex::be_bytes(crate::digest::fnv1a(bytes) as nat, 8),
    );
    let (head, digest, tail) = ("check-source-"@, digest_text(bytes), ".yaml"@);
    let name = check_name(bytes);
    assert forall|i: int| 0 <= i < name.len() implies #[trigger] name[i] != '/' && name[i] != '\\'
        && name[i] != ':' by {
        if i < head.len() {
            assert(name[i] == head[i]);
        } else if i < head.len() + digest.len() {
            assert(name[i] == digest[i - head.len()]);
        } else {
            assert(name[i] == tail[i - head.len() - digest.len()]);
        }
    }
}

} // verus!
