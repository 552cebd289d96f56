use nyanpasu_core_manager::dns::{
    orphan_restored, override_epoch, reconcile_orphan_record, record_path, wanted, ActiveRuntime,
    DnsIntent, DnsLedger, DnsOverrideRecord, DnsOverrideState, DnsPersist, DnsStep, OrphanRead,
    OrphanStep,
};

fn intent() -> DnsIntent {
    DnsIntent { servers: vec!["198.18.0.2".to_string()] }
}

fn read_back(epoch: u64) -> DnsOverrideRecord {
    DnsOverrideRecord {
        interface: "Wi-Fi".to_string(),
        previous: vec!["10.0.0.1".to_string()],
        applied: vec!["198.18.0.2".to_string()],
        runtime_epoch: epoch,
        owner_generation: None,
        state: DnsOverrideState::Applied,
    }
}

#[test]
fn an_override_is_applied_and_restored_once() {
    let mut ledger = DnsLedger::new(true);
    match ledger.converge(Some((intent(), 1))) {
        DnsStep::Apply { persist, intent, epoch } => {
            assert_eq!(persist.applied, vec!["198.18.0.2".to_string()]);
            assert!(persist.previous.is_empty());
            assert_eq!(persist.interface, "");
            assert_eq!(persist.state, DnsOverrideState::Applied);
            assert_eq!(intent.servers, vec!["198.18.0.2".to_string()]);
            assert_eq!(epoch, 1);
            assert_eq!(ledger.record(), Some(persist));
        }
        _ => panic!("the override is not applied"),
    }
    match ledger.applied(Some(read_back(1))) {
        DnsPersist::Write(record) => assert_eq!(record, read_back(1)),
        _ => panic!("the record is not persisted"),
    }
    match ledger.restore() {
        DnsStep::Restore { persist, record } => {
            assert_eq!(record, read_back(1));
            assert_eq!(persist.state, DnsOverrideState::RestorePending);
            assert_eq!(persist.previous, vec!["10.0.0.1".to_string()]);
            assert_eq!(ledger.record(), Some(persist));
        }
        _ => panic!("the override is not restored"),
    }
    assert!(matches!(ledger.restored(true), DnsPersist::Clear));
    assert_eq!(ledger.record(), None);
    assert!(matches!(ledger.restore(), DnsStep::Done));
}

#[test]
fn a_second_converge_applies_again() {
    let mut ledger = DnsLedger::new(true);
    ledger.converge(Some((intent(), 1)));
    ledger.applied(Some(read_back(1)));
    match ledger.converge(Some((intent(), 1))) {
        DnsStep::Apply { intent, epoch, .. } => {
            assert_eq!(intent.servers, vec!["198.18.0.2".to_string()]);
            assert_eq!(epoch, 1);
        }
        _ => panic!("the override is not applied again"),
    }
}

#[test]
fn a_failed_apply_keeps_the_pre_record() {
    let mut ledger = DnsLedger::new(true);
    ledger.converge(Some((intent(), 4)));
    assert!(matches!(ledger.applied(None), DnsPersist::Keep));
    let kept = ledger.record().unwrap();
    assert!(kept.previous.is_empty());
    match ledger.restore() {
        DnsStep::Restore { record, .. } => assert_eq!(record, kept),
        _ => panic!("the uncertain override is not restored"),
    }
}

#[test]
fn a_failed_restore_keeps_the_record() {
    let mut ledger = DnsLedger::new(true);
    ledger.converge(Some((intent(), 4)));
    ledger.applied(Some(read_back(4)));
    ledger.restore();
    assert!(matches!(ledger.restored(false), DnsPersist::Keep));
    assert_eq!(ledger.record().unwrap().state, DnsOverrideState::RestorePending);
    assert!(matches!(ledger.restore(), DnsStep::Restore { .. }));
}

#[test]
fn a_converge_without_a_wish_restores() {
    let mut ledger = DnsLedger::new(true);
    assert!(matches!(ledger.converge(None), DnsStep::Done));
    ledger.converge(Some((intent(), 2)));
    assert!(matches!(ledger.converge(None), DnsStep::Restore { .. }));
}

#[test]
fn without_a_controller_nothing_happens() {
    let mut ledger = DnsLedger::new(false);
    assert!(matches!(ledger.converge(Some((intent(), 2))), DnsStep::Done));
    assert!(matches!(ledger.restore(), DnsStep::Done));
    assert_eq!(ledger.record(), None);
}

#[test]
fn an_override_needs_a_running_core() {
    assert_eq!(override_epoch(None), None);
    assert_eq!(override_epoch(Some(ActiveRuntime { terminal: true, epoch: 3 })), None);
    assert_eq!(override_epoch(Some(ActiveRuntime { terminal: false, epoch: 3 })), Some(3));
}

#[test]
fn an_override_is_wanted_where_a_running_core_asks_for_one() {
    assert_eq!(wanted(Some(3), Some(intent())), Some((intent(), 3)));
    assert_eq!(wanted(None, Some(intent())), None);
    assert_eq!(wanted(Some(3), None), None);
    assert_eq!(wanted(None, None), None);
}

#[test]
fn an_orphan_is_restored_and_then_cleared() {
    match reconcile_orphan_record(OrphanRead::Found(read_back(7)), true) {
        OrphanStep::Restore(record) => assert_eq!(record, read_back(7)),
        _ => panic!("the orphan is not restored"),
    }
    assert!(matches!(orphan_restored(true), OrphanStep::Clear));
    assert!(matches!(orphan_restored(false), OrphanStep::Leave));
}

#[test]
fn an_orphan_that_cannot_be_restored_is_kept() {
    for (read, controller) in [
        (OrphanRead::Missing, true),
        (OrphanRead::Unreadable, true),
        (OrphanRead::Found(read_back(7)), false),
    ] {
        assert!(matches!(reconcile_orphan_record(read, controller), OrphanStep::Leave));
    }
}

#[test]
fn the_record_has_its_place_in_the_store() {
    let path = record_path("/run/runtime");
    assert_eq!(
        camino::Utf8Path::new(&path),
        camino::Utf8Path::new("/run/runtime/dns-override.json")
    );
}
