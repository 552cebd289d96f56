//! What holds of calls of the DNS ledger, over one call or over several in a
//! row.

#[allow(unused_imports)]
use crate::dns::{
    orphan_restored, override_epoch, reconcile_orphan_record, record_path, wanted, ActiveRuntime,
    DnsIntent, DnsLedger, DnsOverrideRecord, DnsPersist, DnsStep, OrphanRead, OrphanStep,
};
#[allow(unused_imports)]
use crate::dns_laws::{
    law_converging_to_a_wish_applies_it, law_converging_to_nothing_restores,
    law_restoring_undoes_the_record,
};
#[allow(unused_imports)]
use crate::framing::texts;
#[allow(unused_imports)]
use crate::materialize::located;
use vstd::prelude::*;

verus! {

/// An override is wanted exactly where a runtime is up, that is, there is one
/// and it has not ended, and its configuration asks for one; it is then wanted
/// as asked for, under the runtime's epoch.
pub proof fn law_override_is_wanted(
    active: Option<ActiveRuntime>,
    epoch: Option<u64>,
    intent: Option<DnsIntent>,
    desired: Option<(DnsIntent, u64)>,
)
    requires
        call_ensures(override_epoch, (active,), epoch),
        call_ensures(wanted, (epoch, intent), desired),
    ensures
        desired is Some <==> intent is Some && (active matches Some(runtime) && !runtime.terminal),
        desired matches Some((asked, running)) ==> intent == Some(asked) && (
        active matches Some(runtime) && running == runtime.epoch),
{
}

/// A new ledger has no record, and then nothing is restored.
pub proof fn law_new_ledger_restores_nothing(
    controller: bool,
    ledger: DnsLedger,
    later: &mut DnsLedger,
    step: DnsStep,
)
    requires
        call_ensures(DnsLedger::new, (controller,), ledger),
        *old(later) == ledger,
        call_ensures(DnsLedger::restore, (later,), step),
    ensures
        step is Done,
        final(later)@.record is None,
        final(later)@.controller == controller,
{
}

/// A wish is applied: all of its servers, in its epoch, and a record of them is
/// to be persisted first, which is the one in memory.
pub proof fn law_wish_is_applied(
    ledger: &mut DnsLedger,
    intent: DnsIntent,
    epoch: u64,
    step: DnsStep,
    kept: Option<DnsOverrideRecord>,
)
    requires
        old(ledger)@.controller,
        call_ensures(DnsLedger::converge, (ledger, Some((intent, epoch))), step),
        call_ensures(DnsLedger::record, (&*final(ledger),), kept),
    ensures
        step matches DnsStep::Apply { persist, intent: asked, epoch: running } && texts(
            asked.servers@,
        ) == texts(intent.servers@) && running == epoch && texts(persist.applied@) == texts(
            intent.servers@,
        ) && persist.runtime_epoch == epoch && persist.previous@.len() == 0 && persist.interface@.len()
            == 0 && persist.owner_generation is None && persist.state is Applied && (
        kept matches Some(record) && record@ == persist@),
{
    law_converging_to_a_wish_applies_it(old(ledger)@, texts(intent.servers@), epoch);
    if step is Apply {
        let persist = step->Apply_persist;
        crate::dns_laws::law_step_content(step);
        crate::dns_laws::law_record_content(persist, 0);
    }
}

/// What was applied is what is undone. After a report of an apply, to converge
/// to nothing undoes exactly the record that was reported, whatever it holds,
/// or, where the apply failed, the one in memory before; the record is marked as
/// pending and kept until the restore is reported.
pub proof fn law_applied_override_is_undone(
    ledger: &mut DnsLedger,
    reply: Option<DnsOverrideRecord>,
    order: DnsPersist,
    later: &mut DnsLedger,
    step: DnsStep,
    kept: Option<DnsOverrideRecord>,
)
    requires
        old(ledger)@.controller,
        old(ledger)@.record is Some,
        call_ensures(DnsLedger::applied, (ledger, reply), order),
        *old(later) == *final(ledger),
        call_ensures(DnsLedger::converge, (later, None), step),
        call_ensures(DnsLedger::record, (&*final(later),), kept),
    ensures
        reply is None <==> order is Keep,
        reply matches Some(read_back) ==> (order matches DnsPersist::Write(record) && record@
            == read_back@),
        step matches DnsStep::Restore { persist, record } && (match reply {
            Some(read_back) => record@ == read_back@,
            None => Some(record@) == old(ledger)@.record,
        }) && persist.state is RestorePending && texts(persist.previous@) == texts(record.previous@)
            && texts(persist.applied@) == texts(record.applied@) && persist.interface@
            == record.interface@ && persist.runtime_epoch == record.runtime_epoch
            && persist.owner_generation == record.owner_generation && (kept matches Some(memory)
            && memory@ == persist@),
{
    crate::dns_laws::law_persist_content(order);
    crate::dns_laws::law_step_content(step);
    law_converging_to_nothing_restores(old(later)@, old(later)@.record->0);
    if step is Restore {
        crate::dns_laws::law_record_content(step->Restore_persist, 0);
        crate::dns_laws::law_record_content(step->record, 0);
    }
}

/// Whatever is on record is undone by a restore, as it is by a converge to
/// nothing; where nothing is on record neither does anything.
pub proof fn law_record_is_undone(
    ledger: &mut DnsLedger,
    known: Option<DnsOverrideRecord>,
    step: DnsStep,
    other: &mut DnsLedger,
    same: DnsStep,
)
    requires
        old(ledger)@.controller,
        call_ensures(DnsLedger::record, (&*old(ledger),), known),
        call_ensures(DnsLedger::restore, (ledger,), step),
        *old(other) == *old(ledger),
        call_ensures(DnsLedger::converge, (other, None), same),
    ensures
        known is None ==> step is Done && final(ledger)@ == old(ledger)@,
        known matches Some(on_record) ==> (step matches DnsStep::Restore { persist, record }
            && record@ == on_record@ && persist.state is RestorePending && final(ledger)@.record
            == Some(persist@)),
        same@ == step@,
        final(other)@ == final(ledger)@,
{
    crate::dns_laws::law_step_content(step);
    law_restoring_undoes_the_record(old(ledger)@);
    if old(ledger)@.record is Some {
        law_converging_to_nothing_restores(old(ledger)@, old(ledger)@.record->0);
    }
    if step is Restore {
        crate::dns_laws::law_record_content(step->Restore_persist, 0);
    }
}

/// A restore that is reported as done clears the record, on disk and in memory,
/// and then there is nothing left to restore; one that is reported as failed
/// changes neither.
pub proof fn law_reported_restore(
    ledger: &mut DnsLedger,
    success: bool,
    order: DnsPersist,
    later: &mut DnsLedger,
    step: DnsStep,
)
    requires
        old(ledger)@.controller,
        call_ensures(DnsLedger::restored, (ledger, success), order),
        *old(later) == *final(ledger),
        call_ensures(DnsLedger::restore, (later,), step),
    ensures
        success ==> order is Clear && final(ledger)@.record is None && step is Done,
        !success ==> order is Keep && final(ledger)@ == old(ledger)@,
        !success && old(ledger)@.record is Some ==> (step matches DnsStep::Restore { record, .. }
            && Some(record@) == old(ledger)@.record),
{
    crate::dns_laws::law_persist_content(order);
    crate::dns_laws::law_step_content(step);
    law_restoring_undoes_the_record(old(later)@);
}

/// Without a controller nothing is applied and nothing restored.
pub proof fn law_ledger_without_a_controller(
    ledger: &mut DnsLedger,
    desired: Option<(DnsIntent, u64)>,
    step: DnsStep,
)
    requires
        !old(ledger)@.controller,
        call_ensures(DnsLedger::converge, (ledger, desired), step),
    ensures
        step is Done,
        final(ledger)@ == old(ledger)@,
{
}

/// An orphan is restored exactly where it was read as a record and there is a
/// controller, and it is the very record that was read; its file is removed
/// exactly where the restore succeeded.
pub proof fn law_orphan_is_restored(
    read: OrphanRead,
    controller: bool,
    step: OrphanStep,
    success: bool,
    next: OrphanStep,
)
    requires
        call_ensures(reconcile_orphan_record, (read, controller), step),
        call_ensures(orphan_restored, (success,), next),
    ensures
        step is Restore <==> read is Found && controller,
        step is Leave <==> !(read is Found && controller),
        step matches OrphanStep::Restore(record) ==> read == OrphanRead::Found(record),
        next is Clear <==> success,
        next is Leave <==> !success,
{
}

/// The record is in the runtime store, under its one name.
pub proof fn law_record_has_one_place(store_dir: &str, path: String)
    requires
        call_ensures(record_path, (store_dir,), path),
    ensures
        located(store_dir@, "dns-override.json"@, path@),
{
}

} // verus!
