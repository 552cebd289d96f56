//! What holds of the DNS override across the steps of the ledger.

#[allow(unused_imports)]
use crate::dns::{
    apply_ended, converge_begun, restore_begun, restore_ended, DnsLedgerView, DnsOverrideRecord,
    DnsOverrideState, DnsPersist, DnsPersistView, DnsRecordView, DnsStep, DnsStepView,
};
#[allow(unused_imports)]
use crate::framing::texts;
use vstd::prelude::*;

verus! {

/// Where nothing is wanted, whatever override is on record is undone: the
/// controller is asked to restore exactly that record, whatever it holds, and
/// the record stays, marked as pending, until it has.
pub proof fn law_converging_to_nothing_restores(ledger: DnsLedgerView, record: DnsRecordView)
    requires
        ledger.controller,
        ledger.record == Some(record),
    ensures
        ({
            let (after, step) = converge_begun(ledger, None);
            &&& step matches DnsStepView::Restore { persist, record: undone } && undone == record
                && after.record == Some(persist) && persist.state is RestorePending
                && persist.interface == record.interface && persist.previous == record.previous
                && persist.applied == record.applied && persist.runtime_epoch
                == record.runtime_epoch && persist.owner_generation == record.owner_generation
            &&& after.controller
        }),
        converge_begun(ledger, None) == restore_begun(ledger),
{
}

/// What was applied is what is undone: after an apply, of whatever servers and
/// in whatever epoch, a converge to nothing, or a restore, undoes the record
/// that the controller read back, or, where the apply failed, the one that was
/// persisted before it.
pub proof fn law_what_was_applied_is_undone(
    ledger: DnsLedgerView,
    servers: Seq<Seq<char>>,
    epoch: u64,
    reply: Option<DnsRecordView>,
)
    requires
        ledger.controller,
    ensures
        ({
            let (begun, applied) = converge_begun(ledger, Some((servers, epoch)));
            let (ended, _) = apply_ended(begun, reply);
            &&& converge_begun(ended, None).1 matches DnsStepView::Restore { record, .. }
                && match reply {
                Some(read_back) => record == read_back,
                None => applied matches DnsStepView::Apply { persist, .. } && record == persist,
            }
            &&& restore_begun(ended).1 matches DnsStepView::Restore { record, .. } && match reply {
                Some(read_back) => record == read_back,
                None => applied matches DnsStepView::Apply { persist, .. } && record == persist,
            }
        }),
{
}

/// Where an override is wanted, it is applied, with all of its servers and in
/// its epoch, whatever is on record; first a record of it is persisted and kept
/// that knows nothing yet of the system before it.
pub proof fn law_converging_to_a_wish_applies_it(
    ledger: DnsLedgerView,
    servers: Seq<Seq<char>>,
    epoch: u64,
)
    requires
        ledger.controller,
    ensures
        ({
            let (after, step) = converge_begun(ledger, Some((servers, epoch)));
            &&& step matches DnsStepView::Apply { persist, servers: wanted, epoch: running }
                && wanted == servers && running == epoch && after.record == Some(persist)
                && persist.interface.len() == 0 && persist.previous.len() == 0 && persist.applied
                == servers && persist.runtime_epoch == epoch && persist.owner_generation is None
                && persist.state is Applied
            &&& after.controller
        }),
{
}

/// A restore undoes exactly the record, whatever its state and content, and
/// where there is none it does nothing.
pub proof fn law_restoring_undoes_the_record(ledger: DnsLedgerView)
    requires
        ledger.controller,
    ensures
        ({
            let (after, step) = restore_begun(ledger);
            match ledger.record {
                Some(record) => {
                    &&& step matches DnsStepView::Restore { persist, record: undone } && undone
                        == record && after.record == Some(persist) && persist
                        == (DnsRecordView { state: DnsOverrideState::RestorePending, ..record })
                    &&& after.controller
                },
                None => after == ledger && step is Done,
            }
        }),
        ledger.record is None ==> converge_begun(ledger, None) == (ledger, DnsStepView::Done),
{
}

/// What the controller reports decides what is on record, in memory as on disk:
/// what it read back replaces the record, a restore that succeeded clears it,
/// and a failure of either changes neither.
pub proof fn law_reports_decide_the_record(ledger: DnsLedgerView, read_back: DnsRecordView)
    ensures
        ({
            let (after, persist) = apply_ended(ledger, Some(read_back));
            &&& after.record == Some(read_back)
            &&& persist == DnsPersistView::Write(read_back)
            &&& after.controller == ledger.controller
        }),
        apply_ended(ledger, None) == (ledger, DnsPersistView::Keep),
        ({
            let (after, persist) = restore_ended(ledger, true);
            &&& after.record is None
            &&& persist is Clear
            &&& after.controller == ledger.controller
        }),
        restore_ended(ledger, false) == (ledger, DnsPersistView::Keep),
{
}

/// The content of a record is all of its fields, and of its lists every server.
pub proof fn law_record_content(record: DnsOverrideRecord, i: int)
    ensures
        record@.interface == record.interface@,
        record@.previous.len() == record.previous@.len(),
        record@.applied.len() == record.applied@.len(),
        0 <= i < record.previous@.len() ==> record@.previous[i] == record.previous@[i]@,
        0 <= i < record.applied@.len() ==> record@.applied[i] == record.applied@[i]@,
        record@.runtime_epoch == record.runtime_epoch,
        record@.owner_generation == record.owner_generation,
        record@.state == record.state,
{
}

/// The content of a list of strings is the content of each, in order.
pub proof fn law_list_content(strings: Seq<String>, i: int)
    ensures
        texts(strings).len() == strings.len(),
        0 <= i < strings.len() ==> texts(strings)[i] == strings[i]@,
{
}

/// The content of a step is what it asks for, with the records and servers that
/// it carries.
pub proof fn law_step_content(step: DnsStep)
    ensures
        match step {
            DnsStep::Done => step@ is Done,
            DnsStep::Apply { persist, intent, epoch } => step@ matches DnsStepView::Apply {
                persist: p,
                servers: s,
                epoch: e,
            } && p == persist@ && s == texts(intent.servers@) && e == epoch,
            DnsStep::Restore { persist, record } => step@ matches DnsStepView::Restore {
                persist: p,
                record: r,
            } && p == persist@ && r == record@,
        },
{
}

/// The content of an order about the persisted record is that order.
pub proof fn law_persist_content(persist: DnsPersist)
    ensures
        match persist {
            DnsPersist::Keep => persist@ is Keep,
            DnsPersist::Write(record) => persist@ matches DnsPersistView::Write(r) && r == record@,
            DnsPersist::Clear => persist@ is Clear,
        },
{
}

} // verus!
