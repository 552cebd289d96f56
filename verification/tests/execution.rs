use nyanpasu_core_manager::execution::{
    begin, check_unavailable, check_written, checked, replied, written, ExecutionStep, ManagerCall,
    ManagerReply,
};
use nyanpasu_core_manager::executor::ExecutorWork;
use nyanpasu_core_manager::materialize::materialize;
use nyanpasu_core_manager::{
    payload_digest, ApplyOutcome, CheckRequest, ConfigInput, ControlOptions, CoreCommand,
    CoreControl, CoreErrorKind, CoreSpec, Error, InstanceOptions, OperationId, OperationOutput,
    ReconcileRequest, RevisionId,
};

fn id() -> OperationId {
    OperationId::from_bytes([9; 16])
}

fn mihomo() -> CoreSpec {
    CoreSpec {
        kind: "mihomo".to_string(),
        binary_path: "/opt/mihomo".to_string(),
        version: None,
        features: Vec::new(),
    }
}

fn declared(bytes: &[u8], digest: &str) -> ConfigInput {
    ConfigInput::Inline { bytes: bytes.to_vec(), expected_digest: Some(digest.to_string()) }
}

fn work(config: ConfigInput) -> ExecutorWork {
    ExecutorWork {
        id: id(),
        command: CoreCommand::Reconcile(Box::new(ReconcileRequest {
            core: mihomo(),
            config,
            options: InstanceOptions { settings: vec![("grace".to_string(), "5s".to_string())] },
            expected_applied: Some(RevisionId { name: "r7".to_string() }),
        })),
    }
}

#[test]
fn a_config_becomes_a_file_of_the_source_directory() {
    let file = materialize("/run/source", "a.yaml", ConfigInput::inline(vec![1, 2]), id()).unwrap();
    assert_eq!(file.directory, "/run/source");
    assert_eq!(camino::Utf8Path::new(&file.path), camino::Utf8Path::new("/run/source/a.yaml"));
    assert_eq!(file.bytes, vec![1, 2]);
    let rooted = materialize("/", "a.yaml", ConfigInput::inline(vec![]), id()).unwrap();
    assert_eq!(rooted.path, "/a.yaml");
    for directory in ["C:\\runtime", "C:", "C:\\", "\\\\host\\share", "a:b/c", "back\\slash/"] {
        let file =
            materialize(directory, "a.yaml", ConfigInput::inline(vec![]), id()).unwrap();
        assert_eq!(file.path, camino::Utf8Path::new(directory).join("a.yaml").as_str());
        assert!(file.path.starts_with(directory));
        assert!(file.path.len() <= directory.len() + "/a.yaml".len());
    }
    let bare = materialize("", "a.yaml", ConfigInput::inline(vec![]), id()).unwrap();
    assert_eq!(bare.path, "a.yaml");
}

#[test]
fn a_declared_digest_is_verified() {
    let digest = payload_digest(b"mode: rule\n");
    assert!(materialize("/s", "a", declared(b"mode: rule\n", &digest), id()).is_ok());
    let error = materialize("/s", "a", declared(b"mode: rulf\n", &digest), id()).unwrap_err();
    assert_eq!(error.kind, Some(CoreErrorKind::InvalidConfig));
    assert_eq!(
        error.message,
        format!(
            "config digest mismatch: declared 66b10ec0d60ba874, computed {}",
            payload_digest(b"mode: rulf\n")
        )
    );
    assert!(!error.retryable);
    assert_eq!(error.operation_id, Some(id()));
}

#[test]
fn a_reconcile_writes_and_then_calls() {
    let step = begin(work(ConfigInput::inline(b"mode: rule\n".to_vec())), "/run/source", "/work");
    let (file, pending) = match step {
        ExecutionStep::Write { file, pending } => (file, pending),
        _ => panic!("nothing is written"),
    };
    assert_eq!(
        camino::Utf8Path::new(&file.path),
        camino::Utf8Path::new("/run/source/reconcile-source.yaml")
    );
    assert_eq!(file.bytes, b"mode: rule\n".to_vec());
    match written(pending, Ok(())) {
        ExecutionStep::Call(ManagerCall::Reconcile { spec, expected_applied }) => {
            assert_eq!(spec.core.binary_path, "/opt/mihomo");
            assert_eq!(spec.config_path, file.path);
            assert_eq!(spec.working_dir, "/work");
            assert!(spec.pid_file.is_none());
            assert_eq!(spec.options.settings.len(), 1);
            assert_eq!(expected_applied.unwrap().name, "r7");
        }
        _ => panic!("the manager is not called"),
    }
}

#[test]
fn a_reconcile_with_a_wrong_digest_is_over_at_once() {
    match begin(work(declared(b"x", "0000000000000000")), "/run/source", "/work") {
        ExecutionStep::Done(Err(error)) => {
            assert_eq!(error.kind, Some(CoreErrorKind::InvalidConfig))
        }
        _ => panic!("the mismatch was not noticed"),
    }
}

#[test]
fn a_failed_write_ends_the_reconcile() {
    let step = begin(work(ConfigInput::inline(vec![])), "/run/source", "/work");
    let pending = match step {
        ExecutionStep::Write { pending, .. } => pending,
        _ => panic!("nothing is written"),
    };
    match written(pending, Err(Error::io("disk full".to_string()))) {
        ExecutionStep::Done(Err(error)) => {
            assert_eq!(error.kind, None);
            assert_eq!(error.message, "disk full");
            assert_eq!(error.operation_id, Some(id()));
        }
        _ => panic!("the failure was lost"),
    }
}

#[test]
fn other_commands_are_calls_at_once() {
    let step = |command| begin(ExecutorWork { id: id(), command }, "/s", "/w");
    assert!(matches!(step(CoreCommand::Stop), ExecutionStep::Call(ManagerCall::Stop)));
    assert!(matches!(
        step(CoreCommand::Recover),
        ExecutionStep::Call(ManagerCall::RecoverQuarantine)
    ));
    assert!(matches!(step(CoreCommand::Shutdown), ExecutionStep::Call(ManagerCall::Shutdown)));
}

#[test]
fn replies_become_results() {
    let outcome = ApplyOutcome::Started { revision: RevisionId { name: "r8".to_string() } };
    assert_eq!(
        replied(id(), ManagerReply::Reconciled(Ok(outcome.clone()))),
        Ok(OperationOutput::Reconciled(outcome))
    );
    assert_eq!(replied(id(), ManagerReply::Stopped(Ok(()))), Ok(OperationOutput::Stopped));
    assert_eq!(replied(id(), ManagerReply::Recovered(Ok(()))), Ok(OperationOutput::Recovered));
    assert_eq!(replied(id(), ManagerReply::ShutDown(Ok(()))), Ok(OperationOutput::ShutDown));
    let unavailable = || Error {
        kind: Some(CoreErrorKind::BackendUnavailable),
        message: "gone".to_string(),
    };
    for reply in [
        ManagerReply::Reconciled(Err(unavailable())),
        ManagerReply::Stopped(Err(unavailable())),
        ManagerReply::Recovered(Err(unavailable())),
        ManagerReply::ShutDown(Err(unavailable())),
    ] {
        let error = replied(id(), reply).unwrap_err();
        assert_eq!(error.kind, Some(CoreErrorKind::BackendUnavailable));
        assert_eq!(error.message, "gone");
        assert!(error.retryable);
        assert_eq!(error.operation_id, Some(id()));
    }
}

#[test]
fn an_output_belongs_to_its_command() {
    let output = |command| match begin(ExecutorWork { id: id(), command }, "/s", "/w") {
        ExecutionStep::Call(ManagerCall::Stop) => replied(id(), ManagerReply::Stopped(Ok(()))),
        ExecutionStep::Call(ManagerCall::RecoverQuarantine) => {
            replied(id(), ManagerReply::Recovered(Ok(())))
        }
        ExecutionStep::Call(ManagerCall::Shutdown) => {
            replied(id(), ManagerReply::ShutDown(Ok(())))
        }
        _ => panic!("the manager is not called"),
    };
    assert_eq!(output(CoreCommand::Stop), Ok(OperationOutput::Stopped));
    assert_eq!(output(CoreCommand::Recover), Ok(OperationOutput::Recovered));
    assert_eq!(output(CoreCommand::Shutdown), Ok(OperationOutput::ShutDown));
}

#[test]
fn a_check_has_a_file_of_its_own() {
    let options = ControlOptions::new("/run/source".to_string(), "/work".to_string());
    let (control, _queue) = CoreControl::new(options);
    let request =
        CheckRequest { core: mihomo(), config: ConfigInput::inline(b"mode: rule\n".to_vec()) };
    let plan = control.check(request, id()).unwrap();
    assert_eq!(
        camino::Utf8Path::new(&plan.file.path),
        camino::Utf8Path::new("/run/source/check-source-66b10ec0d60ba874.yaml")
    );
    assert_eq!(plan.spec.config_path, plan.file.path);
    assert_eq!(plan.spec.working_dir, "/work");
    assert!(plan.spec.options.settings.is_empty());
    let request = CheckRequest { core: mihomo(), config: declared(b"x", "y") };
    let error = control.check(request, id()).unwrap_err();
    assert_eq!(error.kind, Some(CoreErrorKind::InvalidConfig));
    assert_eq!(error.operation_id, Some(id()));
    assert!(matches!(
        control.execute(ExecutorWork { id: id(), command: CoreCommand::Stop }),
        ExecutionStep::Call(ManagerCall::Stop)
    ));
}

#[test]
fn a_check_reports_its_failures() {
    assert!(check_written(id(), Ok(())).is_ok());
    let error = check_written(id(), Err(Error::io("disk full".to_string()))).unwrap_err();
    assert_eq!(error.operation_id, Some(id()));
    assert!(checked(Ok(())).is_ok());
    let invalid =
        Error { kind: Some(CoreErrorKind::InvalidConfig), message: "bad rule".to_string() };
    let error = checked(Err(invalid)).unwrap_err();
    assert_eq!(error.kind, Some(CoreErrorKind::InvalidConfig));
    assert_eq!(error.operation_id, None);
    assert_eq!(check_unavailable().message, "the check semaphore is closed");
    assert_eq!(check_unavailable().kind, Some(CoreErrorKind::Internal));
}
