use nyanpasu_core_manager::channels::Enqueued;
use nyanpasu_core_manager::control::executor_exit;
use nyanpasu_core_manager::error::default_retryable;
use nyanpasu_core_manager::executor::{
    settle_unrun, Executor, ExecutorAction, ExecutorEvent, ExecutorPhase, ExecutorWork,
};
use nyanpasu_core_manager::operation::{abandoned, conclude, is_terminal, waited};
use nyanpasu_core_manager::registry::{Admission, Registry};
use nyanpasu_core_manager::{
    ApplyOutcome, ConfigInput, ControlOptions, CoreCommand, CoreCommandEnvelope, CoreControl,
    CoreError, CoreErrorKind, CoreSpec, Error, ExecutorExit, InstanceOptions, OperationId,
    OperationOutput, OperationState, ReconcileRequest, RevisionId,
};
use tokio::sync::mpsc;

fn id(n: u8) -> OperationId {
    OperationId::from_bytes([n; 16])
}

fn options(queue: usize, registry: usize) -> ControlOptions {
    let mut options = ControlOptions::new("/run/source".to_string(), "/run/work".to_string());
    options.queue_capacity = queue;
    options.registry_capacity = registry;
    options
}

fn control(queue: usize, registry: usize) -> (CoreControl, mpsc::Receiver<ExecutorWork>) {
    CoreControl::new(options(queue, registry))
}

fn envelope(n: u8, command: CoreCommand) -> CoreCommandEnvelope {
    CoreCommandEnvelope { operation_id: id(n), command }
}

fn reconcile(bytes: &[u8]) -> CoreCommand {
    CoreCommand::Reconcile(Box::new(ReconcileRequest {
        core: CoreSpec {
            kind: "mihomo".to_string(),
            binary_path: "/opt/mihomo".to_string(),
            version: None,
            features: Vec::new(),
        },
        config: ConfigInput::inline(bytes.to_vec()),
        options: InstanceOptions::default(),
        expected_applied: None,
    }))
}

fn name(state: Option<OperationState>) -> &'static str {
    match state {
        None => "none",
        Some(OperationState::Queued) => "queued",
        Some(OperationState::Running) => "running",
        Some(OperationState::Succeeded(_)) => "succeeded",
        Some(OperationState::Failed(_)) => "failed",
    }
}

#[test]
fn domain_errors_convert_with_their_kind_and_default_retryability() {
    let already_running = Error {
        kind: Some(CoreErrorKind::AlreadyRunning),
        message: "the core is already running".to_string(),
    };
    let error = CoreError::from_domain(&already_running, None);
    assert_eq!(error.kind, Some(CoreErrorKind::AlreadyRunning));
    assert!(!error.retryable);

    let unclassified = CoreError::from_domain(
        &Error::io("boom".to_string()),
        Some(OperationId::from_bytes([7; 16])),
    );
    assert_eq!(unclassified.kind, None);
    assert!(!unclassified.retryable);
    assert_eq!(
        unclassified.operation_id,
        Some(OperationId::from_bytes([7; 16]))
    );
}

#[test]
fn admission_kinds_default_to_retryable() {
    assert!(CoreError::new(CoreErrorKind::QueueFull, "full", true).retryable);
    assert!(default_retryable(CoreErrorKind::QueueFull));
    assert!(default_retryable(CoreErrorKind::BackendUnavailable));
    assert!(!default_retryable(CoreErrorKind::OperationConflict));
    assert!(!default_retryable(CoreErrorKind::ShuttingDown));
}

#[test]
fn an_unavailable_backend_is_worth_a_retry() {
    let error = Error {
        kind: Some(CoreErrorKind::BackendUnavailable),
        message: "no backend".to_string(),
    };
    assert_eq!(error.kind(), Some(CoreErrorKind::BackendUnavailable));
    let portable = CoreError::from_domain(&error, Some(id(1)));
    assert!(portable.retryable);
    assert_eq!(portable.message, "no backend");
}

#[test]
fn errors_are_written_with_their_kind() {
    let error = CoreError::new(CoreErrorKind::QueueFull, "full", true).with_operation(id(3));
    assert_eq!(error.to_string(), "queue_full: full");
    assert_eq!(error.operation_id, Some(id(3)));
    assert_eq!(error.clone(), error);
    let unclassified = CoreError::from_domain(&Error::io("boom".to_string()), None);
    assert_eq!(unclassified.to_string(), "boom");
}

#[test]
fn options_default_to_their_bounds() {
    let options = ControlOptions::new("a".to_string(), "b".to_string());
    assert_eq!(options.source_dir, "a");
    assert_eq!(options.working_dir, "b");
    assert_eq!(options.queue_capacity, 16);
    assert_eq!(options.registry_capacity, 64);
    assert_eq!(options.check_concurrency, 2);
}

#[test]
fn an_accepted_operation_is_queued_and_handed_over() {
    let (mut control, mut queue) = control(4, 4);
    let handle = control.submit(envelope(1, CoreCommand::Stop)).unwrap();
    assert_eq!(handle.id(), id(1));
    assert_eq!(name(Some(handle.state())), "queued");
    assert_eq!(name(control.operation(id(1))), "queued");
    assert_eq!(name(control.operation(id(2))), "none");
    let work = queue.try_recv().unwrap();
    assert_eq!(work.id, id(1));
    assert!(matches!(work.command, CoreCommand::Stop));
    assert!(queue.try_recv().is_err());
}

#[test]
fn a_resubmission_leads_to_the_original() {
    let (mut control, mut queue) = control(4, 4);
    let first = control.submit(envelope(1, reconcile(b"a"))).unwrap();
    let second = control.submit(envelope(1, reconcile(b"a"))).unwrap();
    assert_eq!(second.id(), id(1));
    control.record(id(1), OperationState::Succeeded(OperationOutput::Stopped));
    assert_eq!(name(Some(first.state())), "succeeded");
    assert_eq!(name(Some(second.state())), "succeeded");
    let third = control.submit(envelope(1, reconcile(b"a"))).unwrap();
    assert_eq!(name(Some(third.state())), "succeeded");
    assert!(queue.try_recv().is_ok());
    assert!(queue.try_recv().is_err());
}

#[test]
fn a_handle_shows_what_the_control_plane_answers() {
    let (mut control, mut queue) = control(1, 4);
    let first = control.submit(envelope(1, reconcile(b"a"))).unwrap();
    assert_eq!(name(Some(control.state_of(&first))), "queued");
    queue.try_recv().unwrap();
    control.record(id(1), OperationState::Running);
    control.submit(envelope(2, CoreCommand::Stop)).unwrap();
    let again = control.submit(envelope(1, reconcile(b"a"))).unwrap();
    assert_eq!(name(Some(control.state_of(&again))), "running");
    assert_eq!(name(control.operation(id(1))), "running");
    control.record(id(1), OperationState::Succeeded(OperationOutput::Stopped));
    assert_eq!(name(Some(control.state_of(&first))), "succeeded");
    assert_eq!(name(control.operation(id(1))), "succeeded");
}

#[test]
fn an_operation_is_unknown_before_it_is_let_in_and_after_it_is_lost() {
    let (mut control, mut queue) = control(1, 1);
    assert_eq!(name(control.operation(id(1))), "none");
    control.submit(envelope(1, CoreCommand::Stop)).unwrap();
    assert_eq!(name(control.operation(id(1))), "queued");
    assert!(control.submit(envelope(2, CoreCommand::Stop)).is_err());
    assert_eq!(name(control.operation(id(2))), "none");
    assert_eq!(name(control.operation(id(1))), "queued");
    queue.try_recv().unwrap();
    control.record(id(1), OperationState::Succeeded(OperationOutput::Stopped));
    control.submit(envelope(2, CoreCommand::Stop)).unwrap();
    assert_eq!(name(control.operation(id(1))), "none");
    assert_eq!(name(control.operation(id(2))), "queued");
    queue.try_recv().unwrap();
    control.submit(envelope(1, CoreCommand::Recover)).unwrap();
    assert_eq!(name(control.operation(id(1))), "queued");
}

#[test]
fn a_reused_id_is_a_conflict() {
    let (mut control, mut queue) = control(4, 4);
    control.submit(envelope(1, reconcile(b"a"))).unwrap();
    let error = control.submit(envelope(1, reconcile(b"b"))).unwrap_err();
    assert_eq!(error.kind, Some(CoreErrorKind::OperationConflict));
    assert_eq!(
        error.message,
        "operation 01010101010101010101010101010101 was already submitted with a different payload"
    );
    assert!(!error.retryable);
    assert_eq!(error.operation_id, Some(id(1)));
    assert_eq!(name(control.operation(id(1))), "queued");
    assert!(queue.try_recv().is_ok());
    assert!(queue.try_recv().is_err());
}

#[test]
fn a_full_queue_refuses_and_leaves_no_trace() {
    let (mut control, mut queue) = control(1, 4);
    control.submit(envelope(1, CoreCommand::Stop)).unwrap();
    let error = control.submit(envelope(2, CoreCommand::Stop)).unwrap_err();
    assert_eq!(error.kind, Some(CoreErrorKind::QueueFull));
    assert_eq!(error.message, "the operation queue is full");
    assert!(error.retryable);
    assert_eq!(error.operation_id, Some(id(2)));
    assert_eq!(name(control.operation(id(2))), "none");
    queue.try_recv().unwrap();
    assert!(control.submit(envelope(2, CoreCommand::Stop)).is_ok());
    assert_eq!(queue.try_recv().unwrap().id, id(2));
}

#[test]
fn a_missing_executor_is_an_internal_error() {
    let (mut control, queue) = control(1, 4);
    drop(queue);
    let error = control.submit(envelope(1, CoreCommand::Shutdown)).unwrap_err();
    assert_eq!(error.kind, Some(CoreErrorKind::Internal));
    assert_eq!(error.message, "the control executor is gone");
    assert!(!error.retryable);
    assert_eq!(name(control.operation(id(1))), "none");
    let again = control.submit(envelope(2, CoreCommand::Stop)).unwrap_err();
    assert_eq!(again.kind, Some(CoreErrorKind::Internal));
}

#[test]
fn an_accepted_shutdown_closes_the_control_plane() {
    let (mut control, _queue) = control(4, 4);
    control.submit(envelope(1, CoreCommand::Shutdown)).unwrap();
    for n in [1, 2] {
        let error = control.submit(envelope(n, CoreCommand::Stop)).unwrap_err();
        assert_eq!(error.kind, Some(CoreErrorKind::ShuttingDown));
        assert_eq!(error.message, "the control plane is shutting down");
        assert!(!error.retryable);
        assert_eq!(error.operation_id, Some(id(n)));
    }
    assert_eq!(name(control.operation(id(1))), "queued");
}

#[test]
fn an_admission_is_settled_by_the_answer_of_the_queue() {
    let (mut control, _queue) = control(4, 4);
    control.submit(envelope(1, CoreCommand::Stop)).unwrap();
    assert!(control.settle(id(9), false, Enqueued::Accepted).is_ok());
    let full = control.settle(id(1), true, Enqueued::Full).unwrap_err();
    assert_eq!(full.kind, Some(CoreErrorKind::QueueFull));
    assert_eq!(name(control.operation(id(1))), "none");
    let closed = control.settle(id(1), true, Enqueued::Closed).unwrap_err();
    assert_eq!(closed.kind, Some(CoreErrorKind::Internal));
    assert!(control.submit(envelope(2, CoreCommand::Stop)).is_ok());
    assert!(control.settle(id(2), true, Enqueued::Accepted).is_ok());
    assert!(control.submit(envelope(3, CoreCommand::Stop)).is_err());
}

#[test]
fn a_dropped_handle_loses_nothing() {
    let (mut control, _queue) = control(4, 4);
    drop(control.submit(envelope(1, CoreCommand::Stop)).unwrap());
    control.record(id(1), OperationState::Running);
    assert_eq!(name(control.operation(id(1))), "running");
    control.record(id(1), OperationState::Succeeded(OperationOutput::Stopped));
    assert_eq!(name(control.operation(id(1))), "succeeded");
    let handle = control.submit(envelope(1, CoreCommand::Stop)).unwrap();
    assert_eq!(name(Some(handle.state())), "succeeded");
}

#[test]
fn eviction_takes_the_oldest_that_are_over() {
    let mut registry = Registry::new(3);
    for n in 1..=3 {
        assert!(matches!(registry.admit_operation(id(n), "d"), Ok(Admission::Registered(_))));
    }
    registry.set(id(2), OperationState::Succeeded(OperationOutput::Stopped));
    registry.set(id(3), OperationState::Failed(abandoned(id(3))));
    assert!(matches!(registry.admit_operation(id(4), "d"), Ok(Admission::Registered(_))));
    assert_eq!(name(registry.get(id(1))), "queued");
    assert_eq!(name(registry.get(id(2))), "none");
    assert_eq!(name(registry.get(id(3))), "failed");
    assert_eq!(name(registry.get(id(4))), "queued");
    assert!(matches!(registry.admit_operation(id(2), "other"), Ok(Admission::Registered(_))));
    assert_eq!(name(registry.get(id(3))), "none");
}

#[test]
fn operations_in_flight_are_never_evicted() {
    let mut registry = Registry::new(1);
    for n in 1..=5 {
        assert!(matches!(registry.admit_operation(id(n), "d"), Ok(Admission::Registered(_))));
    }
    registry.set(id(5), OperationState::Running);
    for n in 1..=4 {
        assert_eq!(name(registry.get(id(n))), "queued");
    }
    registry.set(id(1), OperationState::Succeeded(OperationOutput::Stopped));
    registry.set(id(3), OperationState::Succeeded(OperationOutput::Stopped));
    registry.admit_operation(id(6), "d").unwrap();
    assert_eq!(name(registry.get(id(1))), "none");
    assert_eq!(name(registry.get(id(2))), "queued");
    assert_eq!(name(registry.get(id(3))), "none");
    assert_eq!(name(registry.get(id(5))), "running");
}

#[test]
fn a_registry_without_capacity_keeps_only_what_is_in_flight() {
    let mut registry = Registry::new(0);
    registry.admit_operation(id(1), "d").unwrap();
    registry.set(id(1), OperationState::Succeeded(OperationOutput::Recovered));
    registry.admit_operation(id(2), "d").unwrap();
    assert_eq!(name(registry.get(id(1))), "none");
    assert_eq!(name(registry.get(id(2))), "queued");
}

#[test]
fn a_rollback_undoes_an_admission() {
    let mut registry = Registry::new(4);
    registry.admit_operation(id(1), "d").unwrap();
    registry.admit_operation(id(2), "d").unwrap();
    registry.remove(id(1));
    registry.remove(id(7));
    assert_eq!(name(registry.get(id(1))), "none");
    assert_eq!(name(registry.get(id(2))), "queued");
    assert!(matches!(registry.admit_operation(id(1), "other"), Ok(Admission::Registered(_))));
    assert!(matches!(registry.admit_operation(id(2), "d"), Ok(Admission::Existing(_))));
    assert!(registry.admit_operation(id(2), "other").is_err());
}

#[test]
fn a_state_is_recorded_for_registered_operations_only() {
    let mut registry = Registry::new(4);
    registry.set(id(1), OperationState::Running);
    assert_eq!(name(registry.get(id(1))), "none");
    registry.admit_operation(id(1), "d").unwrap();
    registry.admit_operation(id(2), "d").unwrap();
    registry.set(id(2), OperationState::Running);
    assert_eq!(name(registry.get(id(1))), "queued");
    assert_eq!(name(registry.get(id(2))), "running");
}

#[test]
fn a_wait_ends_with_the_terminal_state() {
    assert!(waited(OperationState::Queued).is_none());
    assert!(waited(OperationState::Running).is_none());
    assert_eq!(
        waited(OperationState::Succeeded(OperationOutput::Recovered)),
        Some(Ok(OperationOutput::Recovered))
    );
    assert_eq!(
        waited(OperationState::Failed(abandoned(id(1)))),
        Some(Err(abandoned(id(1))))
    );
    let error = abandoned(id(1));
    assert_eq!(error.kind, Some(CoreErrorKind::Internal));
    assert_eq!(
        error.message,
        "the control executor terminated before the operation completed"
    );
    assert_eq!(error.operation_id, Some(id(1)));
}

#[test]
fn only_results_are_terminal() {
    assert!(!is_terminal(&OperationState::Queued));
    assert!(!is_terminal(&OperationState::Running));
    assert!(is_terminal(&conclude(Ok(OperationOutput::Stopped))));
    assert!(is_terminal(&conclude(Err(abandoned(id(1))))));
    let revision = RevisionId { name: "r1".to_string() };
    let output = OperationOutput::Reconciled(ApplyOutcome::Started { revision });
    assert_eq!(output.clone(), output);
}

#[test]
fn the_executor_runs_operations_in_turn() {
    let (mut control, mut queue) = control(4, 4);
    let mut executor = Executor::new();
    control.submit(envelope(1, CoreCommand::Stop)).unwrap();
    control.submit(envelope(2, CoreCommand::Recover)).unwrap();
    let work = queue.try_recv().ok();
    let action = executor.step(&mut control, ExecutorEvent::Received(work));
    match action {
        Some(ExecutorAction::Execute(work)) => assert_eq!(work.id, id(1)),
        _ => panic!("the work was not run"),
    }
    assert_eq!(name(control.operation(id(1))), "running");
    assert_eq!(name(control.operation(id(2))), "queued");
    assert!(executor.step(&mut control, ExecutorEvent::Received(None)).is_none());
    let action =
        executor.step(&mut control, ExecutorEvent::Executed(Ok(OperationOutput::Stopped)));
    assert!(matches!(action, Some(ExecutorAction::Receive)));
    assert_eq!(name(control.operation(id(1))), "succeeded");
    let work = queue.try_recv().ok();
    executor.step(&mut control, ExecutorEvent::Received(work));
    let failed = CoreError::new(CoreErrorKind::Internal, "no", false);
    executor.step(&mut control, ExecutorEvent::Executed(Err(failed)));
    assert_eq!(name(control.operation(id(2))), "failed");
    assert!(matches!(executor.phase(), ExecutorPhase::Receiving));
}

#[test]
fn a_shutdown_drains_what_was_queued() {
    let (mut control, mut queue) = control(8, 8);
    let mut executor = Executor::new();
    control.submit(envelope(1, CoreCommand::Stop)).unwrap();
    control.submit(envelope(2, CoreCommand::Recover)).unwrap();
    let _ = queue.try_recv();
    let shutdown = ExecutorWork { id: id(1), command: CoreCommand::Shutdown };
    executor.step(&mut control, ExecutorEvent::Received(Some(shutdown)));
    let action =
        executor.step(&mut control, ExecutorEvent::Executed(Ok(OperationOutput::ShutDown)));
    assert!(matches!(action, Some(ExecutorAction::Drain)));
    assert!(matches!(executor.phase(), ExecutorPhase::Draining));
    control.submit(envelope(3, CoreCommand::Shutdown)).unwrap();
    executor.drain(&mut control, &mut queue);
    assert!(matches!(executor.phase(), ExecutorPhase::Exited));
    match control.operation(id(2)) {
        Some(OperationState::Failed(error)) => {
            assert_eq!(error.kind, Some(CoreErrorKind::ShuttingDown));
            assert_eq!(
                error.message,
                "the control plane shut down before this queued operation ran"
            );
            assert!(!error.retryable);
            assert_eq!(error.operation_id, Some(id(2)));
        }
        _ => panic!("the queued operation was left open"),
    }
    match control.operation(id(3)) {
        Some(OperationState::Succeeded(output)) => assert_eq!(output, OperationOutput::ShutDown),
        _ => panic!("the queued shutdown was left open"),
    }
    assert!(executor.step(&mut control, ExecutorEvent::Received(None)).is_none());
}

#[test]
fn operations_in_flight_are_bounded_by_the_queue() {
    let (mut control, mut queue) = control(2, 1);
    let mut executor = Executor::new();
    control.submit(envelope(1, CoreCommand::Stop)).unwrap();
    let work = queue.try_recv().ok();
    executor.step(&mut control, ExecutorEvent::Received(work));
    control.submit(envelope(2, CoreCommand::Stop)).unwrap();
    control.submit(envelope(3, CoreCommand::Stop)).unwrap();
    let error = control.submit(envelope(4, CoreCommand::Stop)).unwrap_err();
    assert_eq!(error.kind, Some(CoreErrorKind::QueueFull));
    assert_eq!(name(control.operation(id(1))), "running");
    assert_eq!(name(control.operation(id(2))), "queued");
    assert_eq!(name(control.operation(id(3))), "queued");
    assert_eq!(name(control.operation(id(4))), "none");
}

#[test]
fn a_drained_executor_leaves_nothing_open() {
    let (mut control, mut queue) = control(8, 8);
    let mut executor = Executor::new();
    for n in 1..=3 {
        control.submit(envelope(n, CoreCommand::Recover)).unwrap();
    }
    let work = queue.try_recv().ok();
    executor.step(&mut control, ExecutorEvent::Received(work));
    executor.step(&mut control, ExecutorEvent::Executed(Ok(OperationOutput::Recovered)));
    executor.step(&mut control, ExecutorEvent::Received(None));
    executor.drain(&mut control, &mut queue);
    assert_eq!(name(control.operation(id(1))), "succeeded");
    assert_eq!(name(control.operation(id(2))), "failed");
    assert_eq!(name(control.operation(id(3))), "failed");
}

#[test]
fn kinds_have_their_names() {
    for (kind, text) in [
        (CoreErrorKind::AlreadyRunning, "already_running"),
        (CoreErrorKind::BackendUnavailable, "backend_unavailable"),
        (CoreErrorKind::Internal, "internal"),
        (CoreErrorKind::InvalidConfig, "invalid_config"),
        (CoreErrorKind::OperationConflict, "operation_conflict"),
        (CoreErrorKind::QueueFull, "queue_full"),
        (CoreErrorKind::ShuttingDown, "shutting_down"),
    ] {
        assert_eq!(kind.as_str(), text);
    }
}

#[test]
fn an_ended_queue_stops_the_executor() {
    let (mut control, mut queue) = control(2, 2);
    let mut executor = Executor::new();
    let action = executor.step(&mut control, ExecutorEvent::Received(None));
    assert!(matches!(action, Some(ExecutorAction::Drain)));
    executor.drain(&mut control, &mut queue);
    let error = control.submit(envelope(1, CoreCommand::Stop)).unwrap_err();
    assert_eq!(error.message, "the control executor is gone");
}

#[test]
fn unrun_work_is_settled_by_its_command() {
    let shutdown = ExecutorWork { id: id(1), command: CoreCommand::Shutdown };
    assert_eq!(name(Some(settle_unrun(&shutdown))), "succeeded");
    let stop = ExecutorWork { id: id(1), command: CoreCommand::Stop };
    assert_eq!(name(Some(settle_unrun(&stop))), "failed");
}

#[test]
fn an_executor_is_done_gone_or_there() {
    assert_eq!(executor_exit(true, false), Some(ExecutorExit::Clean));
    assert_eq!(executor_exit(true, true), Some(ExecutorExit::Clean));
    assert_eq!(executor_exit(false, true), Some(ExecutorExit::Died));
    assert_eq!(executor_exit(false, false), None);
}

#[test]
fn an_exit_is_the_same_at_every_look() {
    for (done, gone) in [(true, false), (true, true), (false, true)] {
        let exit = executor_exit(done, gone);
        assert!(exit.is_some());
        assert_eq!(executor_exit(done, true), exit);
    }
}

#[test]
fn a_queue_that_was_emptied_takes_work_again() {
    let (mut control, mut queue) = control(1, 4);
    for n in 1..=5 {
        control.submit(envelope(n, CoreCommand::Stop)).unwrap();
        let error = control.submit(envelope(9, CoreCommand::Stop)).unwrap_err();
        assert_eq!(error.kind, Some(CoreErrorKind::QueueFull));
        assert_eq!(queue.try_recv().unwrap().id, id(n));
    }
}

#[test]
fn a_host_that_does_what_it_is_asked_ends_by_draining() {
    let (mut control, mut queue) = control(4, 4);
    let mut executor = Executor::new();
    control.submit(envelope(1, CoreCommand::Stop)).unwrap();
    control.submit(envelope(2, CoreCommand::Shutdown)).unwrap();
    let mut action = ExecutorAction::Receive;
    let mut executed = Vec::new();
    loop {
        let event = match action {
            ExecutorAction::Receive => ExecutorEvent::Received(queue.try_recv().ok()),
            ExecutorAction::Execute(work) => {
                executed.push(work.id);
                ExecutorEvent::Executed(Ok(OperationOutput::Stopped))
            }
            ExecutorAction::Drain => break,
        };
        action = executor.step(&mut control, event).unwrap();
    }
    assert_eq!(executed, vec![id(1), id(2)]);
    assert!(matches!(executor.phase(), ExecutorPhase::Draining));
}

#[test]
fn a_handle_gives_its_receiver() {
    let (mut control, _queue) = control(2, 2);
    let receiver = control.submit(envelope(1, CoreCommand::Stop)).unwrap().into_receiver();
    control.record(id(1), OperationState::Running);
    assert_eq!(name(Some(receiver.borrow().clone())), "running");
}
