//! DNS override convergence at the fixed phases of the core's transactions.
//!
//! Failure policy: a DNS failure never fails the core lifecycle transaction.
//! The record is kept, so a later restore can still undo it, and the caller's
//! outcome is unchanged. An error of the controller never implies that the
//! side effect is absent.
//!
//! The ledger decides and the host acts: it persists what it is told to before
//! it touches the system, and reports what came of it.

use crate::materialize::join_path;
#[allow(unused_imports)]
use crate::framing::texts;
#[allow(unused_imports)]
use crate::materialize::located;
use vstd::prelude::*;

verus! {

/// How far an override is.
#[derive(Debug, Clone, Copy, PartialEq, Eq, Structural)]
pub enum DnsOverrideState {
    Applied,
    RestorePending,
}

/// What an override did, and what it takes to undo it.
#[derive(Debug, PartialEq, Eq)]
pub struct DnsOverrideRecord {
    pub interface: String,
    /// The servers before the override.
    pub previous: Vec<String>,
    /// The servers of the override.
    pub applied: Vec<String>,
    /// The runtime that the override belongs to.
    pub runtime_epoch: u64,
    pub owner_generation: Option<u64>,
    pub state: DnsOverrideState,
}

/// The content of a [`DnsOverrideRecord`].
#[verifier::ext_equal]
pub struct DnsRecordView {
    pub interface: Seq<char>,
    pub previous: Seq<Seq<char>>,
    pub applied: Seq<Seq<char>>,
    pub runtime_epoch: u64,
    pub owner_generation: Option<u64>,
    pub state: DnsOverrideState,
}

impl View for DnsOverrideRecord {
    type V = DnsRecordView;

    open spec fn view(&self) -> DnsRecordView {
        DnsRecordView {
            interface: self.interface@,
            previous: texts(self.previous@),
            applied: texts(self.applied@),
            runtime_epoch: self.runtime_epoch,
            owner_generation: self.owner_generation,
            state: self.state,
        }
    }
}

/// Copies a list of strings.
fn copy_texts(strings: &Vec<String>) -> (copy: Vec<String>)
    ensures
        texts(copy@) == texts(strings@),
{
    let mut copy: Vec<String> = Vec::new();
    let mut i: usize = 0;
    while i < strings.len()
        invariant
            i <= strings@.len(),
            copy@.len() == i,
            forall|j: int| 0 <= j < i ==> (#[trigger] copy@[j])@ == strings@[j]@,
        decreases strings@.len() - i,
    {
        copy.push(strings[i].clone());
        i = i + 1;
    }
    proof {
        assert(texts(copy@) =~= texts(strings@));
    }
    copy
}

impl Clone for DnsOverrideRecord {
    fn clone(&self) -> (copy: Self)
        ensures
            copy@ == self@,
    {
        DnsOverrideRecord {
            interface: self.interface.clone(),
            previous: copy_texts(&self.previous),
            applied: copy_texts(&self.applied),
            runtime_epoch: self.runtime_epoch,
            owner_generation: self.owner_generation,
            state: self.state,
        }
    }
}

/// The override that a configuration asks for.
#[derive(Debug, Clone, PartialEq, Eq)]
pub struct DnsIntent {
    pub servers: Vec<String>,
}

/// The runtime that the core manager holds at present.
#[derive(Debug, Clone, Copy)]
pub struct ActiveRuntime {
    /// Whether it has come to a terminal state.
    pub terminal: bool,
    pub epoch: u64,
}

/// The epoch under which an override may be applied: a runtime is up.
pub fn override_epoch(active: Option<ActiveRuntime>) -> (epoch: Option<u64>)
    ensures
        epoch == match active {
            Some(runtime) => if runtime.terminal {
                None
            } else {
                Some(runtime.epoch)
            },
            None => None,
        },
{
    match active {
        Some(runtime) => {
            if runtime.terminal {
                None
            } else {
                Some(runtime.epoch)
            }
        },
        None => None,
    }
}

/// The override to converge to: one is wanted where a runtime is up and its
/// configuration asks for one.
pub fn wanted(epoch: Option<u64>, intent: Option<DnsIntent>) -> (desired: Option<(DnsIntent, u64)>)
    ensures
        desired == match (epoch, intent) {
            (Some(epoch), Some(intent)) => Some((intent, epoch)),
            _ => None,
        },
{
    match (epoch, intent) {
        (Some(epoch), Some(intent)) => Some((intent, epoch)),
        _ => None,
    }
}

/// What the host does next.
#[derive(Debug)]
pub enum DnsStep {
    /// Nothing.
    Done,
    /// Persist the record, then apply the override, then report by
    /// [`DnsLedger::applied`].
    Apply { persist: DnsOverrideRecord, intent: DnsIntent, epoch: u64 },
    /// Persist the first record, then undo the override of the second, then
    /// report by [`DnsLedger::restored`].
    Restore { persist: DnsOverrideRecord, record: DnsOverrideRecord },
}

/// What becomes of the persisted record.
#[derive(Debug)]
pub enum DnsPersist {
    /// It stays as it is.
    Keep,
    /// It is replaced.
    Write(DnsOverrideRecord),
    /// It is removed.
    Clear,
}

/// The content of a [`DnsStep`].
#[verifier::ext_equal]
pub enum DnsStepView {
    Done,
    Apply { persist: DnsRecordView, servers: Seq<Seq<char>>, epoch: u64 },
    Restore { persist: DnsRecordView, record: DnsRecordView },
}

impl View for DnsStep {
    type V = DnsStepView;

    open spec fn view(&self) -> DnsStepView {
        match self {
            DnsStep::Done => DnsStepView::Done,
            DnsStep::Apply { persist, intent, epoch } => DnsStepView::Apply {
                persist: persist@,
                servers: texts(intent.servers@),
                epoch: *epoch,
            },
            DnsStep::Restore { persist, record } => DnsStepView::Restore {
                persist: persist@,
                record: record@,
            },
        }
    }
}

/// The content of a [`DnsPersist`].
#[verifier::ext_equal]
pub enum DnsPersistView {
    Keep,
    Write(DnsRecordView),
    Clear,
}

impl View for DnsPersist {
    type V = DnsPersistView;

    open spec fn view(&self) -> DnsPersistView {
        match self {
            DnsPersist::Keep => DnsPersistView::Keep,
            DnsPersist::Write(record) => DnsPersistView::Write(record@),
            DnsPersist::Clear => DnsPersistView::Clear,
        }
    }
}

/// What the core manager remembers of the override, as long as it has a DNS
/// controller.
#[derive(Debug)]
pub struct DnsLedger {
    controller: bool,
    record: Option<DnsOverrideRecord>,
}

/// The content of a [`DnsLedger`].
#[verifier::ext_equal]
pub struct DnsLedgerView {
    pub controller: bool,
    pub record: Option<DnsRecordView>,
}

impl View for DnsLedger {
    type V = DnsLedgerView;

    closed spec fn view(&self) -> DnsLedgerView {
        DnsLedgerView {
            controller: self.controller,
            record: match self.record {
                Some(record) => Some(record@),
                None => None,
            },
        }
    }
}

/// The record that stands for an override before it is applied: a crash
/// between the two leaves an orphan whose restore is a read-back no-op.
pub open spec fn pre_record(servers: Seq<Seq<char>>, epoch: u64) -> DnsRecordView {
    DnsRecordView {
        interface: Seq::empty(),
        previous: Seq::empty(),
        applied: servers,
        runtime_epoch: epoch,
        owner_generation: None,
        state: DnsOverrideState::Applied,
    }
}

/// What restoring begins with: the recorded override, if there is one, is
/// marked as pending and undone.
pub open spec fn restore_begun(ledger: DnsLedgerView) -> (DnsLedgerView, DnsStepView) {
    match ledger.record {
        Some(record) if ledger.controller => {
            let pending = DnsRecordView { state: DnsOverrideState::RestorePending, ..record };
            (
                DnsLedgerView { record: Some(pending), ..ledger },
                DnsStepView::Restore { persist: pending, record },
            )
        },
        _ => (ledger, DnsStepView::Done),
    }
}

/// What converging begins with: an override that is wanted is recorded and
/// applied, and otherwise the recorded one is restored.
pub open spec fn converge_begun(
    ledger: DnsLedgerView,
    desired: Option<(Seq<Seq<char>>, u64)>,
) -> (DnsLedgerView, DnsStepView) {
    match desired {
        Some((servers, epoch)) => if ledger.controller {
            (
                DnsLedgerView { record: Some(pre_record(servers, epoch)), ..ledger },
                DnsStepView::Apply { persist: pre_record(servers, epoch), servers, epoch },
            )
        } else {
            (ledger, DnsStepView::Done)
        },
        None => restore_begun(ledger),
    }
}

/// What the controller's reply to an apply comes to: the record that it read
/// back takes the place of the one before, and a failure keeps that one.
pub open spec fn apply_ended(ledger: DnsLedgerView, reply: Option<DnsRecordView>) -> (
    DnsLedgerView,
    DnsPersistView,
) {
    match reply {
        Some(record) => (
            DnsLedgerView { record: Some(record), ..ledger },
            DnsPersistView::Write(record),
        ),
        None => (ledger, DnsPersistView::Keep),
    }
}

/// What the controller's reply to a restore comes to: success clears the
/// record, and a failure keeps it.
pub open spec fn restore_ended(ledger: DnsLedgerView, success: bool) -> (
    DnsLedgerView,
    DnsPersistView,
) {
    if success {
        (DnsLedgerView { record: None, ..ledger }, DnsPersistView::Clear)
    } else {
        (ledger, DnsPersistView::Keep)
    }
}

impl DnsLedger {
    /// A ledger without a record.
    pub fn new(controller: bool) -> (ledger: Self)
        ensures
            ledger@ == (DnsLedgerView { controller, record: None }),
    {
        DnsLedger { controller, record: None }
    }

    /// Converge tail: apply the override when a runtime is up and wants one,
    /// restore otherwise.
    pub fn converge(&mut self, desired: Option<(DnsIntent, u64)>) -> (step: DnsStep)
        ensures
            (final(self)@, step@) == converge_begun(
                old(self)@,
                match desired {
                    Some((intent, epoch)) => Some((texts(intent.servers@), epoch)),
                    None => None,
                },
            ),
    {
        match desired {
            Some((intent, epoch)) => {
                if !self.controller {
                    return DnsStep::Done;
                }
                let record = DnsOverrideRecord {
                    interface: String::new(),
                    previous: Vec::new(),
                    applied: copy_texts(&intent.servers),
                    runtime_epoch: epoch,
                    owner_generation: None,
                    state: DnsOverrideState::Applied,
                };
                proof {
                    assert(record@ =~= pre_record(texts(intent.servers@), epoch));
                }
                self.record = Some(record.clone());
                DnsStep::Apply { persist: record, intent, epoch }
            },
            None => self.restore(),
        }
    }

    /// Restore head or tail: undo the recorded override. It stands at the head
    /// of stop and shutdown, so that resolution never points at a core being
    /// torn down, and at the converge tail when nothing runs.
    pub fn restore(&mut self) -> (step: DnsStep)
        ensures
            (final(self)@, step@) == restore_begun(old(self)@),
    {
        if !self.controller {
            return DnsStep::Done;
        }
        match self.record.take() {
            Some(record) => {
                let mut pending: DnsOverrideRecord = record.clone();
                pending.state = DnsOverrideState::RestorePending;
                self.record = Some(pending.clone());
                DnsStep::Restore { persist: pending, record }
            },
            None => DnsStep::Done,
        }
    }

    /// Takes the controller's reply to an apply. `None` is a failure: the side
    /// effect is uncertain, and a later restore must still be able to undo it.
    pub fn applied(&mut self, reply: Option<DnsOverrideRecord>) -> (persist: DnsPersist)
        ensures
            (final(self)@, persist@) == apply_ended(
                old(self)@,
                match reply {
                    Some(record) => Some(record@),
                    None => None,
                },
            ),
    {
        match reply {
            Some(record) => {
                self.record = Some(record.clone());
                DnsPersist::Write(record)
            },
            None => DnsPersist::Keep,
        }
    }

    /// Takes the controller's reply to a restore.
    pub fn restored(&mut self, success: bool) -> (persist: DnsPersist)
        ensures
            (final(self)@, persist@) == restore_ended(old(self)@, success),
    {
        if success {
            self.record = None;
            DnsPersist::Clear
        } else {
            DnsPersist::Keep
        }
    }

    /// The record in memory.
    pub fn record(&self) -> (record: Option<DnsOverrideRecord>)
        ensures
            self@.record == match record {
                Some(record) => Some(record@),
                None => None,
            },
    {
        match &self.record {
            Some(record) => Some(record.clone()),
            None => None,
        }
    }
}

/// What was found in place of a persisted record at startup.
#[derive(Debug)]
pub enum OrphanRead {
    Missing,
    /// A file that is not a record.
    Unreadable,
    Found(DnsOverrideRecord),
}

/// What the host does with it.
#[derive(Debug)]
pub enum OrphanStep {
    /// Leave the file, if there is one, as it is.
    Leave,
    /// Undo the override of the record, then go on by [`orphan_restored`].
    Restore(DnsOverrideRecord),
    /// Remove the file.
    Clear,
}

/// Startup orphan reconcile: a record left behind by a dead process is
/// restored, a no-op when its side effect never landed, and then cleared. What
/// cannot be read, or cannot be restored for want of a controller, is kept.
pub fn reconcile_orphan_record(read: OrphanRead, controller: bool) -> (step: OrphanStep)
    ensures
        match read {
            OrphanRead::Found(record) if controller => step == OrphanStep::Restore(record),
            _ => step == OrphanStep::Leave,
        },
{
    match read {
        OrphanRead::Found(record) => {
            if controller {
                OrphanStep::Restore(record)
            } else {
                OrphanStep::Leave
            }
        },
        OrphanRead::Missing | OrphanRead::Unreadable => OrphanStep::Leave,
    }
}

/// Takes the controller's reply to the restore of an orphan.
pub fn orphan_restored(success: bool) -> (step: OrphanStep)
    ensures
        step == (if success {
            OrphanStep::Clear
        } else {
            OrphanStep::Leave
        }),
{
    if success {
        OrphanStep::Clear
    } else {
        OrphanStep::Leave
    }
}

/// The path of the persisted record in the runtime store.
pub fn record_path(store_dir: &str) -> (path: String)
    ensures
        located(store_dir@, "dns-override.json"@, path@),
{
    proof {
        reveal_strlit("dns-override.json");
    }
    join_path(store_dir, "dns-override.json")
}

/// The record comes before the side effect: whenever an override is about to
/// be applied or undone, what is persisted first is what the ledger remembers,
/// and it names the servers of that override.
pub proof fn law_record_comes_before_the_side_effect(
    ledger: DnsLedgerView,
    desired: Option<(Seq<Seq<char>>, u64)>,
)
    ensures
        match converge_begun(ledger, desired) {
            (after, DnsStepView::Apply { persist, servers, epoch }) => after.record == Some(persist)
                && persist.applied == servers && persist.runtime_epoch == epoch,
            (after, DnsStepView::Restore { persist, record }) => after.record == Some(persist)
                && ledger.record == Some(record) && persist.applied == record.applied
                && persist.previous == record.previous,
            (after, DnsStepView::Done) => after == ledger,
        },
{
}

/// An override whose apply failed can still be undone: the next restore is
/// asked to undo the servers that were wanted.
pub proof fn law_failed_apply_can_be_undone(
    ledger: DnsLedgerView,
    servers: Seq<Seq<char>>,
    epoch: u64,
)
    requires
        ledger.controller,
    ensures
        ({
            let (begun, _) = converge_begun(ledger, Some((servers, epoch)));
            let (ended, persist) = apply_ended(begun, None);
            &&& persist == DnsPersistView::Keep
            &&& restore_begun(ended).1 matches DnsStepView::Restore { record, .. } && record
                == pre_record(servers, epoch)
        }),
{
}

/// A restore that succeeds leaves nothing to restore, and one that fails leaves
/// the same override to restore.
pub proof fn law_restore_succeeds_once(ledger: DnsLedgerView)
    requires
        ledger.controller,
        ledger.record is Some,
    ensures
        ({
            let (begun, _) = restore_begun(ledger);
            let (cleared, persist) = restore_ended(begun, true);
            &&& persist == DnsPersistView::Clear
            &&& cleared.record is None
            &&& restore_begun(cleared) == (cleared, DnsStepView::Done)
        }),
        ({
            let (begun, _) = restore_begun(ledger);
            let (kept, persist) = restore_ended(begun, false);
            &&& persist == DnsPersistView::Keep
            &&& restore_begun(kept).1 matches DnsStepView::Restore { record, .. } && record
                == (DnsRecordView { state: DnsOverrideState::RestorePending, ..ledger.record->0 })
        }),
{
}

/// To converge is idempotent: whatever the ledger remembers, and however often
/// it is asked, the same wish leads to the same override.
pub proof fn law_converge_is_idempotent(
    ledger: DnsLedgerView,
    servers: Seq<Seq<char>>,
    epoch: u64,
    reply: Option<DnsRecordView>,
)
    requires
        ledger.controller,
    ensures
        ({
            let (begun, step) = converge_begun(ledger, Some((servers, epoch)));
            let (ended, _) = apply_ended(begun, reply);
            converge_begun(ended, Some((servers, epoch))) == (begun, step)
        }),
{
}

/// Without a controller nothing is done and nothing is remembered anew.
pub proof fn law_no_controller_no_effect(
    ledger: DnsLedgerView,
    desired: Option<(Seq<Seq<char>>, u64)>,
)
    requires
        !ledger.controller,
    ensures
        converge_begun(ledger, desired) == (ledger, DnsStepView::Done),
        restore_begun(ledger) == (ledger, DnsStepView::Done),
{
}

} // verus!
