//! What holds of the executor and the control plane together.

#[allow(unused_imports)]
use crate::command::{CoreCommand, CoreCommandEnvelope};
#[allow(unused_imports)]
use crate::control::{submitted, ControlView};
#[allow(unused_imports)]
use crate::error::{CoreErrorKind, CoreErrorView};
#[allow(unused_imports)]
use crate::executor::{
    drained, recorded_all, settles_unrun, stepped, ExecutorAction, ExecutorEvent, ExecutorPhase,
    ExecutorWork,
};
#[allow(unused_imports)]
use crate::operation::{terminal, OperationOutput, OperationState};
#[allow(unused_imports)]
use crate::operation_id::OperationId;
#[allow(unused_imports)]
use crate::registry::{evicted, ids_distinct, RegistryEntry};
#[allow(unused_imports)]
use crate::registry_laws::{in_flight, lemma_evicted_from};
use vstd::prelude::*;

verus! {

/// Whether no work of an operation is left in the queue after the executor has
/// received that many.
pub open spec fn delivered(handed: Seq<ExecutorWork>, received: int, id: OperationId) -> bool {
    forall|k: int| received <= k < handed.len() ==> (#[trigger] handed[k]).id != id
}

/// Whether the books of a control plane are in order after the executor has
/// received that many of the works handed over: every registered operation is
/// over, or is the one that is running, or has work left in the queue.
pub open spec fn settled(control: ControlView, received: int, phase: ExecutorPhase) -> bool {
    &&& 0 <= received <= control.handed.len()
    &&& forall|i: int|
        0 <= i < control.entries.len() && delivered(
            control.handed,
            received,
            (#[trigger] control.entries[i]).id,
        ) ==> terminal(control.entries[i].state) || (phase matches ExecutorPhase::Executing {
            id,
            ..
        } && id == control.entries[i].id)
}

/// How many works the executor has received after an event that belongs to the
/// phase.
pub open spec fn received_after(received: int, phase: ExecutorPhase, event: ExecutorEvent) -> int {
    match (phase, event) {
        (ExecutorPhase::Receiving, ExecutorEvent::Received(Some(_))) => received + 1,
        _ => received,
    }
}

/// Whether an event hands the executor the next of the works in the order in
/// which they were handed over, where it hands over any.
pub open spec fn in_order(handed: Seq<ExecutorWork>, received: int, event: ExecutorEvent) -> bool {
    event matches ExecutorEvent::Received(Some(work)) ==> received < handed.len() && work
        == handed[received]
}

/// The books of a new control plane are in order.
pub proof fn law_new_control_is_settled(control: ControlView)
    requires
        control.entries.len() == 0,
    ensures
        settled(control, 0, ExecutorPhase::Receiving),
{
}

/// A submission keeps the books in order, whatever it is answered.
pub proof fn law_submission_keeps_operations_settled(
    before: ControlView,
    envelope: CoreCommandEnvelope,
    answer: Result<(OperationId, int), CoreErrorView>,
    after: ControlView,
    received: int,
    phase: ExecutorPhase,
)
    requires
        settled(before, received, phase),
        submitted(before, envelope, answer, after),
    ensures
        settled(after, received, phase),
{
    let room = evicted(before.entries, before.registry_capacity);
    if after != before {
        assert forall|i: int| 0 <= i < after.entries.len() && delivered(
            after.handed,
            received,
            (#[trigger] after.entries[i]).id,
        ) implies terminal(after.entries[i].state) || (phase matches ExecutorPhase::Executing {
            id,
            ..
        } && id == after.entries[i].id) by {
            if i < room.len() {
                assert(after.entries[i] == room[i]);
                lemma_evicted_from(before.entries, before.registry_capacity, i);
                let j = choose|j: int|
                    0 <= j < before.entries.len() && #[trigger] before.entries[j] == room[i];
                assert forall|k: int| received <= k < before.handed.len() implies (
                #[trigger] before.handed[k]).id != room[i].id by {
                    assert(after.handed[k] == before.handed[k]);
                }
                assert(delivered(before.handed, received, before.entries[j].id));
            } else {
                assert(after.handed[before.handed.len() as int].id == after.entries[i].id);
            }
        }
    }
}

/// A step keeps the books in order: the executor takes what it receives to a
/// terminal state, one operation after another.
pub proof fn law_step_keeps_operations_settled(
    phase: ExecutorPhase,
    before: ControlView,
    event: ExecutorEvent,
    next: ExecutorPhase,
    after: ControlView,
    action: Option<ExecutorAction>,
    received: int,
)
    requires
        settled(before, received, phase),
        in_order(before.handed, received, event),
        stepped(phase, before, event, next, after, action),
    ensures
        settled(after, received_after(received, phase, event), next),
{
    let now = received_after(received, phase, event);
    assert forall|i: int| 0 <= i < after.entries.len() && delivered(
        after.handed,
        now,
        (#[trigger] after.entries[i]).id,
    ) implies terminal(after.entries[i].state) || (next matches ExecutorPhase::Executing { id, .. }
        && id == after.entries[i].id) by {
        assert(after.entries[i].id == before.entries[i].id);
        if now == received || before.handed[received].id != after.entries[i].id {
            assert(delivered(before.handed, received, before.entries[i].id));
        }
    }
}

/// A drained executor leaves nothing open: where the books were in order after
/// the works that it received, and what was handed over since is what it
/// drained, every operation that is still registered is over.
pub proof fn law_drained_executor_leaves_nothing_open(
    before: ControlView,
    received: int,
    after: ControlView,
)
    requires
        settled(before, received, ExecutorPhase::Draining),
        drained(before, before.handed.skip(received), after),
    ensures
        after.entries.len() == before.entries.len(),
        forall|i: int| 0 <= i < after.entries.len() ==> terminal((#[trigger] after.entries[i]).state),
{
    let works = before.handed.skip(received);
    let states = choose|states: Seq<OperationState>|
        states.len() == works.len() && after == #[trigger] recorded_all(before, works, states) && (
        forall|i: int| 0 <= i < works.len() ==> settles_unrun(works[i], #[trigger] states[i]));
    lemma_recorded_all(before, works, states);
    assert forall|i: int| 0 <= i < after.entries.len() implies terminal(
        (#[trigger] after.entries[i]).state,
    ) by {
        let id = before.entries[i].id;
        if !delivered(before.handed, received, id) {
            let k = choose|k: int|
                received <= k < before.handed.len() && (#[trigger] before.handed[k]).id == id;
            assert(works[k - received].id == id);
        }
    }
}

proof fn lemma_recorded_all(
    before: ControlView,
    works: Seq<ExecutorWork>,
    states: Seq<OperationState>,
)
    requires
        states.len() == works.len(),
        forall|i: int| 0 <= i < works.len() ==> settles_unrun(works[i], #[trigger] states[i]),
    ensures
        recorded_all(before, works, states).entries.len() == before.entries.len(),
        forall|i: int|
            #![trigger recorded_all(before, works, states).entries[i]]
            0 <= i < before.entries.len() ==> {
                let entry = recorded_all(before, works, states).entries[i];
                &&& entry.id == before.entries[i].id
                &&& terminal(before.entries[i].state) || (exists|j: int|
                    0 <= j < works.len() && (#[trigger] works[j]).id == entry.id) ==> terminal(
                    entry.state,
                )
            },
    decreases works.len(),
{
    if works.len() > 0 {
        let (rest, given) = (works.drop_last(), states.drop_last());
        assert forall|i: int| 0 <= i < rest.len() implies settles_unrun(
            rest[i],
            #[trigger] given[i],
        ) by {
            assert(settles_unrun(works[i], states[i]));
        }
        lemma_recorded_all(before, rest, given);
        let middle = recorded_all(before, rest, given);
        let after = recorded_all(before, works, states);
        assert(settles_unrun(works.last(), states[works.len() - 1]));
        assert forall|i: int| #![trigger after.entries[i]] 0 <= i < before.entries.len() implies {
            &&& after.entries[i].id == before.entries[i].id
            &&& terminal(before.entries[i].state) || (exists|j: int|
                0 <= j < works.len() && (#[trigger] works[j]).id == after.entries[i].id) ==> terminal(
                after.entries[i].state,
            )
        } by {
            assert(middle.entries[i].id == before.entries[i].id);
            if after.entries[i].id != works.last().id && exists|j: int|
                0 <= j < works.len() && (#[trigger] works[j]).id == after.entries[i].id {
                let j = choose|j: int|
                    0 <= j < works.len() && (#[trigger] works[j]).id == after.entries[i].id;
                assert(rest[j].id == middle.entries[i].id);
            }
        }
    }
}

/// Operations are serialized: one is begun only while none runs, and while one
/// runs nothing but its end leads on.
pub proof fn law_one_operation_at_a_time(
    phase: ExecutorPhase,
    before: ControlView,
    event: ExecutorEvent,
    next: ExecutorPhase,
    after: ControlView,
    action: Option<ExecutorAction>,
)
    requires
        stepped(phase, before, event, next, after, action),
    ensures
        action matches Some(ExecutorAction::Execute(work)) ==> phase is Receiving && (
        next matches ExecutorPhase::Executing { id, .. } && id == work.id),
        phase is Executing && event !is Executed ==> next == phase && after == before
            && action is None,
{
}

/// Whether an action belongs to a phase.
pub open spec fn asked_in(phase: ExecutorPhase, action: ExecutorAction) -> bool {
    match action {
        ExecutorAction::Receive => phase is Receiving,
        ExecutorAction::Execute(work) => phase == (ExecutorPhase::Executing {
            id: work.id,
            shutdown: work.command is Shutdown,
        }),
        ExecutorAction::Drain => phase is Draining,
    }
}

/// Whether an event is what an action leads to.
pub open spec fn comes_of(action: ExecutorAction, event: ExecutorEvent) -> bool {
    match action {
        ExecutorAction::Receive => event is Received,
        ExecutorAction::Execute(_) => event is Executed,
        ExecutorAction::Drain => false,
    }
}

/// A host that does what it is asked comes to an end by draining alone: each
/// event leads to an action of the next phase, and to drain is asked only once
/// a shutdown has run or the queue has ended.
pub proof fn law_host_ends_by_draining(
    phase: ExecutorPhase,
    asked: ExecutorAction,
    before: ControlView,
    event: ExecutorEvent,
    next: ExecutorPhase,
    after: ControlView,
    action: Option<ExecutorAction>,
)
    requires
        asked_in(phase, asked),
        comes_of(asked, event),
        stepped(phase, before, event, next, after, action),
    ensures
        action matches Some(action) && asked_in(next, action),
        action == Some(ExecutorAction::Drain) <==> match asked {
            ExecutorAction::Execute(work) => work.command is Shutdown,
            _ => event == ExecutorEvent::Received(None),
        },
{
}

/// Once the executor has stopped, whatever comes, it runs nothing more.
pub proof fn law_stopped_executor_runs_nothing(
    phase: ExecutorPhase,
    before: ControlView,
    event: ExecutorEvent,
    next: ExecutorPhase,
    after: ControlView,
    action: Option<ExecutorAction>,
)
    requires
        phase is Draining || phase is Exited,
        stepped(phase, before, event, next, after, action),
    ensures
        next == phase,
        after == before,
        action is None,
{
}

/// Operations in flight are bounded by the work queue: at any time there are no
/// more of them than works left in the queue and the one that is running.
pub proof fn law_in_flight_is_bounded_by_the_queue(
    control: ControlView,
    received: int,
    phase: ExecutorPhase,
)
    requires
        ids_distinct(control.entries),
        settled(control, received, phase),
    ensures
        control.entries.filter(in_flight()).len() <= control.handed.len() - received + (
        if phase is Executing {
            1int
        } else {
            0
        }),
{
    let open = control.entries.filter(in_flight());
    let queued = control.handed.skip(received);
    let works = if phase is Executing {
        queued.push(ExecutorWork { id: phase->id, command: CoreCommand::Stop })
    } else {
        queued
    };
    lemma_filter_distinct(control.entries);
    assert forall|i: int| 0 <= i < open.len() implies exists|k: int|
        0 <= k < works.len() && (#[trigger] works[k]).id == (#[trigger] open[i]).id by {
        let j = choose|j: int|
            0 <= j < control.entries.len() && #[trigger] control.entries[j] == open[i];
        let id = control.entries[j].id;
        if delivered(control.handed, received, id) {
            assert(works[queued.len() as int].id == id);
        } else {
            let k = choose|k: int|
                received <= k < control.handed.len() && (#[trigger] control.handed[k]).id == id;
            assert(works[k - received].id == id);
        }
    }
    lemma_no_more_than_works(open, works);
}

proof fn lemma_filter_distinct(entries: Seq<RegistryEntry>)
    requires
        ids_distinct(entries),
    ensures
        ids_distinct(entries.filter(in_flight())),
        forall|i: int|
            0 <= i < entries.filter(in_flight()).len() ==> !terminal(
                (#[trigger] entries.filter(in_flight())[i]).state,
            ) && exists|j: int|
                0 <= j < entries.len() && #[trigger] entries[j] == entries.filter(in_flight())[i],
    decreases entries.len(),
{
    reveal(Seq::filter);
    if entries.len() > 0 {
        let rest = entries.drop_last();
        assert(ids_distinct(rest)) by {
            assert forall|i: int, j: int| 0 <= i < j < rest.len() implies (#[trigger] rest[i]).id != (
            #[trigger] rest[j]).id by {
                assert(entries[i].id != entries[j].id);
            }
        }
        lemma_filter_distinct(rest);
        let (open, kept) = (entries.filter(in_flight()), rest.filter(in_flight()));
        let last = entries.len() - 1;
        assert forall|i: int| 0 <= i < kept.len() implies exists|j: int|
            0 <= j < last && #[trigger] entries[j] == #[trigger] kept[i] by {
            let j = choose|j: int| 0 <= j < rest.len() && #[trigger] rest[j] == kept[i];
            assert(entries[j] == kept[i]);
        }
        assert forall|i: int| 0 <= i < open.len() implies !terminal((#[trigger] open[i]).state)
            && exists|j: int| 0 <= j < entries.len() && #[trigger] entries[j] == open[i] by {
            if i < kept.len() {
                assert(open[i] == kept[i]);
            } else {
                assert(open[i] == entries[last]);
            }
        }
        assert forall|i: int, j: int| 0 <= i < j < open.len() implies (#[trigger] open[i]).id != (
        #[trigger] open[j]).id by {
            assert(open[i] == kept[i]);
            if j < kept.len() {
                assert(open[j] == kept[j]);
            } else {
                let k = choose|k: int| 0 <= k < last && #[trigger] entries[k] == kept[i];
                assert(entries[k].id != entries[last].id);
            }
        }
    }
}

/// Entries with distinct ids are no more than works among which each has one.
proof fn lemma_no_more_than_works(entries: Seq<RegistryEntry>, works: Seq<ExecutorWork>)
    requires
        ids_distinct(entries),
        forall|i: int|
            0 <= i < entries.len() ==> exists|k: int|
                0 <= k < works.len() && (#[trigger] works[k]).id == (#[trigger] entries[i]).id,
    ensures
        entries.len() <= works.len(),
    decreases entries.len(),
{
    if entries.len() > 0 {
        let last = entries.len() - 1;
        let rest = entries.drop_last();
        assert(entries[last] == entries.last());
        let used = choose|k: int| 0 <= k < works.len() && (#[trigger] works[k]).id == entries.last().id;
        let left = works.remove(used);
        assert forall|i: int, j: int| 0 <= i < j < rest.len() implies (#[trigger] rest[i]).id != (
        #[trigger] rest[j]).id by {
            assert(entries[i].id != entries[j].id);
        }
        assert forall|i: int| 0 <= i < rest.len() implies exists|k: int|
            0 <= k < left.len() && (#[trigger] left[k]).id == (#[trigger] rest[i]).id by {
            assert(rest[i] == entries[i] && entries[i].id != entries[last].id);
            let k = choose|k: int|
                0 <= k < works.len() && (#[trigger] works[k]).id == entries[i].id;
            assert(k != used);
            assert(left[if k < used { k } else { k - 1 }] == works[k]);
        }
        lemma_no_more_than_works(rest, left);
    }
}

/// Draining settles each registered operation by the last of its works that was
/// still queued. A shutdown was accomplished by the one that ran. A stop, a
/// recovery, and a reconcile never ran: each has failed because the control
/// plane shut down, under its own id, and is not worth a retry. An operation
/// without queued work keeps its state, and nothing else changes.
pub proof fn law_drained_operations_are_settled_by_their_command(
    before: ControlView,
    works: Seq<ExecutorWork>,
    after: ControlView,
    i: int,
)
    requires
        drained(before, works, after),
        0 <= i < before.entries.len(),
    ensures
        after.entries.len() == before.entries.len(),
        after.entries[i].id == before.entries[i].id,
        after.entries[i].digest == before.entries[i].digest,
        after.entries[i].cell == before.entries[i].cell,
        (forall|k: int| 0 <= k < works.len() ==> (#[trigger] works[k]).id != before.entries[i].id)
            ==> after.entries[i].state == before.entries[i].state,
        forall|j: int|
            #![trigger works[j]]
            0 <= j < works.len() && works[j].id == before.entries[i].id && (forall|k: int|
                j < k < works.len() ==> (#[trigger] works[k]).id != before.entries[i].id) ==> {
                &&& works[j].command is Shutdown ==> after.entries[i].state
                    == OperationState::Succeeded(OperationOutput::ShutDown)
                &&& works[j].command is Stop || works[j].command is Recover
                    || works[j].command is Reconcile ==> (
                after.entries[i].state matches OperationState::Failed(error) && error.kind == Some(
                    CoreErrorKind::ShuttingDown,
                ) && error.message@
                    == "the control plane shut down before this queued operation ran"@
                    && !error.retryable && error.operation_id == Some(before.entries[i].id))
            },
        after == (ControlView { entries: after.entries, ..before }),
{
    let states = choose|states: Seq<OperationState>|
        states.len() == works.len() && after == #[trigger] recorded_all(before, works, states) && (
        forall|i: int| 0 <= i < works.len() ==> settles_unrun(works[i], #[trigger] states[i]));
    let id = before.entries[i].id;
    lemma_recorded_rest(before, works, states, i);
    assert forall|j: int|
        #![trigger works[j]]
        0 <= j < works.len() && works[j].id == id && (forall|k: int|
            j < k < works.len() ==> (#[trigger] works[k]).id != id) implies {
        &&& after.entries[i].state == states[j]
        &&& settles_unrun(works[j], states[j])
    } by {
        lemma_recorded_last(before, works, states, i, j);
    }
}

/// Draining keeps every entry.
pub proof fn lemma_drained_len(before: ControlView, works: Seq<ExecutorWork>, after: ControlView)
    requires
        drained(before, works, after),
    ensures
        after.entries.len() == before.entries.len(),
{
    let states = choose|states: Seq<OperationState>|
        states.len() == works.len() && after == #[trigger] recorded_all(before, works, states) && (
        forall|i: int| 0 <= i < works.len() ==> settles_unrun(works[i], #[trigger] states[i]));
    lemma_recorded_all(before, works, states);
}

proof fn lemma_recorded_rest(
    before: ControlView,
    works: Seq<ExecutorWork>,
    states: Seq<OperationState>,
    i: int,
)
    requires
        states.len() == works.len(),
        0 <= i < before.entries.len(),
    ensures
        ({
            let after = recorded_all(before, works, states);
            &&& after == (ControlView { entries: after.entries, ..before })
            &&& after.entries.len() == before.entries.len()
            &&& after.entries[i].id == before.entries[i].id
            &&& after.entries[i].digest == before.entries[i].digest
            &&& after.entries[i].cell == before.entries[i].cell
            &&& (forall|k: int|
                0 <= k < works.len() ==> (#[trigger] works[k]).id != before.entries[i].id)
                ==> after.entries[i].state == before.entries[i].state
        }),
    decreases works.len(),
{
    if works.len() > 0 {
        let rest = works.drop_last();
        lemma_recorded_rest(before, rest, states.drop_last(), i);
        if forall|k: int|
            0 <= k < works.len() ==> (#[trigger] works[k]).id != before.entries[i].id {
            assert forall|k: int| 0 <= k < rest.len() implies (#[trigger] rest[k]).id
                != before.entries[i].id by {
                assert(works[k].id != before.entries[i].id);
            }
            assert(works[works.len() - 1].id != before.entries[i].id);
        }
    }
}

proof fn lemma_recorded_last(
    before: ControlView,
    works: Seq<ExecutorWork>,
    states: Seq<OperationState>,
    i: int,
    j: int,
)
    requires
        states.len() == works.len(),
        0 <= i < before.entries.len(),
        0 <= j < works.len(),
        works[j].id == before.entries[i].id,
        forall|k: int| j < k < works.len() ==> (#[trigger] works[k]).id != before.entries[i].id,
    ensures
        recorded_all(before, works, states).entries[i].state == states[j],
    decreases works.len(),
{
    let (rest, given) = (works.drop_last(), states.drop_last());
    lemma_recorded_rest(before, rest, given, i);
    if j < works.len() - 1 {
        assert forall|k: int| j < k < rest.len() implies (#[trigger] rest[k]).id
            != before.entries[i].id by {
            assert(works[k].id != before.entries[i].id);
        }
        assert(works[works.len() - 1].id != before.entries[i].id);
        lemma_recorded_last(before, rest, given, i, j);
    }
}

/// A step does to each registered operation what its event says of that
/// operation, and nothing to the others: work that is received makes it
/// running, whatever the command, and an end makes it succeeded with that very
/// output or failed with that very error.
pub proof fn law_step_records_what_happened(
    phase: ExecutorPhase,
    before: ControlView,
    event: ExecutorEvent,
    next: ExecutorPhase,
    after: ControlView,
    action: Option<ExecutorAction>,
    i: int,
)
    requires
        stepped(phase, before, event, next, after, action),
        0 <= i < before.entries.len(),
    ensures
        after == (ControlView { entries: after.entries, ..before }),
        after.entries.len() == before.entries.len(),
        after.entries[i].id == before.entries[i].id,
        after.entries[i].digest == before.entries[i].digest,
        after.entries[i].cell == before.entries[i].cell,
        match (phase, event) {
            (ExecutorPhase::Receiving, ExecutorEvent::Received(Some(work))) => {
                if work.id == before.entries[i].id {
                    after.entries[i].state is Running
                } else {
                    after.entries[i].state == before.entries[i].state
                }
            },
            (ExecutorPhase::Executing { id, .. }, ExecutorEvent::Executed(result)) => {
                if id == before.entries[i].id {
                    match result {
                        Ok(output) => after.entries[i].state == OperationState::Succeeded(output),
                        Err(error) => after.entries[i].state == OperationState::Failed(error),
                    }
                } else {
                    after.entries[i].state == before.entries[i].state
                }
            },
            _ => after.entries[i].state == before.entries[i].state,
        },
{
}

/// The executor goes on as its events say: what it receives it runs, with the
/// command that was received, and it stops for a shutdown that ran, whether
/// this succeeded or failed, and for the end of its queue, and for nothing else.
pub proof fn law_step_leads_on(
    phase: ExecutorPhase,
    before: ControlView,
    event: ExecutorEvent,
    next: ExecutorPhase,
    after: ControlView,
    action: Option<ExecutorAction>,
)
    requires
        stepped(phase, before, event, next, after, action),
    ensures
        match (phase, event) {
            (ExecutorPhase::Receiving, ExecutorEvent::Received(Some(work))) => {
                &&& next matches ExecutorPhase::Executing { id, shutdown } && id == work.id && (
                shutdown <==> work.command is Shutdown)
                &&& action == Some(ExecutorAction::Execute(work))
            },
            (ExecutorPhase::Receiving, ExecutorEvent::Received(None)) => next is Draining && action
                == Some(ExecutorAction::Drain),
            (ExecutorPhase::Executing { shutdown, .. }, ExecutorEvent::Executed(_)) => {
                &&& shutdown ==> next is Draining && action == Some(ExecutorAction::Drain)
                &&& !shutdown ==> next is Receiving && action == Some(ExecutorAction::Receive)
            },
            _ => next == phase && action is None,
        },
{
}

} // verus!
