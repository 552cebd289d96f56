//! The life of a control plane: which operations it knows after any history of
//! submissions and recordings.

#[allow(unused_imports)]
use crate::command::CoreCommandEnvelope;
#[allow(unused_imports)]
use crate::control::{command_digest, submitted, ControlView};
#[allow(unused_imports)]
use crate::error::CoreErrorView;
#[allow(unused_imports)]
use crate::executor::recorded;
#[allow(unused_imports)]
use crate::operation::{terminal, OperationState};
#[allow(unused_imports)]
use crate::operation_id::OperationId;
#[allow(unused_imports)]
use crate::registry::{evicted, ids_distinct, lookup, place, registered, RegistryEntry};
#[allow(unused_imports)]
use crate::registry_laws::{
    law_admitted_operation_is_found, law_open_operation_keeps_its_entry,
    law_recorded_state_is_read_back, lemma_evicted_entries,
};
use vstd::prelude::*;

verus! {

/// What changes a control plane. The executor's steps are recordings, and so is
/// draining, one for each piece of work.
pub enum ControlEvent {
    Submitted {
        envelope: CoreCommandEnvelope,
        answer: Result<(OperationId, int), CoreErrorView>,
    },
    Recorded { id: OperationId, state: OperationState },
}

/// What an event does.
pub open spec fn follows(before: ControlView, event: ControlEvent, after: ControlView) -> bool {
    match event {
        ControlEvent::Submitted { envelope, answer } => submitted(before, envelope, answer, after),
        ControlEvent::Recorded { id, state } => after == recorded(before, id, state),
    }
}

/// The life of a control plane: its states, from the first on, and the events
/// between them.
pub struct History {
    pub views: Seq<ControlView>,
    pub events: Seq<ControlEvent>,
}

impl History {
    /// Whether the control plane was new at first, and each state follows from
    /// the one before.
    pub open spec fn lived(self) -> bool {
        &&& self.views.len() == self.events.len() + 1
        &&& self.views[0].entries.len() == 0
        &&& forall|k: int|
            0 <= k < self.events.len() ==> follows(
                self.views[k],
                #[trigger] self.events[k],
                self.views[k + 1],
            )
    }

    /// Whether an event let an operation in that was not known.
    pub open spec fn let_in(self, k: int, id: OperationId) -> bool {
        &&& self.events[k] matches ControlEvent::Submitted { envelope, .. }
            && envelope.operation_id == id
        &&& !self.views[k].closing
        &&& !registered(self.views[k].entries, id)
    }

    /// Whether an event let an operation in, and rolled it back because the
    /// queue was full or the executor gone.
    pub open spec fn rolled_back(self, k: int, id: OperationId) -> bool {
        &&& self.let_in(k, id)
        &&& self.events[k]->answer is Err
    }

    /// Whether an event evicted an operation that was over.
    pub open spec fn evicted_when_over(self, k: int, id: OperationId) -> bool {
        &&& self.events[k] is Submitted
        &&& lookup(self.views[k].entries, id) matches Some(entry) && terminal(entry.state)
        &&& !registered(self.views[k + 1].entries, id)
    }

    /// Whether an event was the last, before the `n`th, that let an operation
    /// in.
    pub open spec fn last_let_in(self, n: int, k: int, id: OperationId) -> bool {
        &&& 0 <= k < n
        &&& self.let_in(k, id)
        &&& forall|m: int| k < m < n ==> !#[trigger] self.let_in(m, id)
    }

    /// Whether the last event that let an operation in took effect, and no
    /// event since has evicted it.
    pub open spec fn stands(self, n: int, k: int, id: OperationId) -> bool {
        &&& self.last_let_in(n, k, id)
        &&& !self.rolled_back(k, id)
        &&& forall|j: int| k < j < n ==> !#[trigger] self.evicted_when_over(j, id)
    }
}

/// Whatever is submitted and recorded, an operation is unknown exactly where it
/// was never let in, or where, since it was last let in, it was rolled back or
/// evicted after it was over.
pub proof fn law_unknown_operations(history: History, id: OperationId)
    requires
        history.lived(),
    ensures
        ({
            let n = history.events.len() as int;
            !registered(history.views[n].entries, id) <==> {
                ||| forall|k: int| 0 <= k < n ==> !#[trigger] history.let_in(k, id)
                ||| exists|k: int| #[trigger]
                    history.last_let_in(n, k, id) && (history.rolled_back(k, id) || exists|j: int|
                        k < j < n && #[trigger] history.evicted_when_over(j, id))
            }
        }),
{
    let n = history.events.len() as int;
    lemma_known(history, n, id);
    if registered(history.views[n].entries, id) {
        let k = choose|k: int| #[trigger] history.stands(n, k, id);
        assert(history.let_in(k, id));
        assert forall|other: int| #[trigger] history.last_let_in(n, other, id) implies other
            == k by {
            assert(history.let_in(other, id));
        }
    } else if exists|k: int| 0 <= k < n && #[trigger] history.let_in(k, id) {
        let k = choose|k: int| 0 <= k < n && #[trigger] history.let_in(k, id);
        lemma_some_is_last(history, n, k, id);
        let last = choose|last: int| #[trigger] history.last_let_in(n, last, id);
        assert(!history.stands(n, last, id));
    }
}

/// No operation is ever registered twice.
pub proof fn law_history_registers_once(history: History, n: int)
    requires
        history.lived(),
        0 <= n <= history.events.len(),
    ensures
        ids_distinct(history.views[n].entries),
    decreases n,
{
    if n > 0 {
        law_history_registers_once(history, n - 1);
        let (before, after) = (history.views[n - 1], history.views[n]);
        assert(follows(before, history.events[n - 1], after));
        match history.events[n - 1] {
            ControlEvent::Submitted { envelope, answer } => {
                let id = envelope.operation_id;
                lemma_evicted_entries(before.entries, before.registry_capacity, id);
                if !registered(before.entries, id) && answer is Ok {
                    law_admitted_operation_is_found(
                        before.entries,
                        before.registry_capacity,
                        RegistryEntry {
                            id,
                            digest: command_digest(envelope.command),
                            state: OperationState::Queued,
                            cell: answer->Ok_0.1,
                        },
                    );
                }
            },
            ControlEvent::Recorded { id, state } => {
                law_recorded_state_is_read_back(before.entries, id, state, id);
            },
        }
    }
}

/// A submission takes an entry away only from an operation that is over.
pub proof fn lemma_lost_only_when_over(
    before: ControlView,
    envelope: CoreCommandEnvelope,
    answer: Result<(OperationId, int), CoreErrorView>,
    after: ControlView,
    id: OperationId,
)
    requires
        submitted(before, envelope, answer, after),
        registered(before.entries, id),
        !registered(after.entries, id),
    ensures
        lookup(before.entries, id) matches Some(entry) && terminal(entry.state),
{
    let i = place(before.entries, id);
    let room = evicted(before.entries, before.registry_capacity);
    if !terminal(before.entries[i].state) {
        law_open_operation_keeps_its_entry(before.entries, before.registry_capacity, i);
        let j = choose|j: int| 0 <= j < room.len() && #[trigger] room[j] == before.entries[i];
        assert(after.entries[j] == room[j]);
    }
}

/// A submission makes no operation known but its own.
pub proof fn lemma_known_only_by_name(
    before: ControlView,
    envelope: CoreCommandEnvelope,
    answer: Result<(OperationId, int), CoreErrorView>,
    after: ControlView,
    id: OperationId,
)
    requires
        submitted(before, envelope, answer, after),
        !registered(before.entries, id),
    ensures
        registered(after.entries, id) <==> envelope.operation_id == id && !before.closing
            && answer is Ok,
{
    let room = evicted(before.entries, before.registry_capacity);
    lemma_evicted_entries(before.entries, before.registry_capacity, id);
    if !before.closing && !registered(before.entries, envelope.operation_id) && answer is Ok {
        assert(after.entries[room.len() as int].id == envelope.operation_id);
        if registered(after.entries, id) && envelope.operation_id != id {
            let i = place(after.entries, id);
            assert(room[i].id == id);
        }
    }
}

proof fn lemma_known(history: History, n: int, id: OperationId)
    requires
        history.lived(),
        0 <= n <= history.events.len(),
    ensures
        registered(history.views[n].entries, id) <==> exists|k: int| #[trigger]
            history.stands(n, k, id),
    decreases n,
{
    if n > 0 {
        let e = n - 1;
        lemma_known(history, e, id);
        let (before, after) = (history.views[e], history.views[n]);
        assert(follows(before, history.events[e], after));
        match history.events[e] {
            ControlEvent::Submitted { envelope, answer } => {
                if registered(before.entries, id) {
                    if !registered(after.entries, id) {
                        lemma_lost_only_when_over(before, envelope, answer, after, id);
                        assert(history.evicted_when_over(e, id));
                    }
                } else {
                    lemma_known_only_by_name(before, envelope, answer, after, id);
                }
            },
            ControlEvent::Recorded { id: other, state } => {
                assert forall|i: int| 0 <= i < before.entries.len() implies (
                #[trigger] after.entries[i]).id == before.entries[i].id by {}
                if registered(before.entries, id) {
                    assert(after.entries[place(before.entries, id)].id == id);
                }
            },
        }
        if registered(after.entries, id) {
            if registered(before.entries, id) {
                let k = choose|k: int| #[trigger] history.stands(e, k, id);
                assert(!history.let_in(e, id));
                assert(!history.evicted_when_over(e, id));
                assert(history.stands(n, k, id));
            } else {
                assert(history.let_in(e, id));
                assert(history.stands(n, e, id));
            }
        } else {
            assert forall|k: int| !#[trigger] history.stands(n, k, id) by {
                if history.stands(n, k, id) {
                    if k < e {
                        assert(!history.let_in(e, id));
                        assert(!history.evicted_when_over(e, id));
                        assert forall|m: int| k < m < e implies !#[trigger] history.let_in(
                            m,
                            id,
                        ) by {}
                        assert(history.stands(e, k, id));
                    } else {
                        assert(history.let_in(e, id));
                    }
                }
            }
        }
    } else {
        assert forall|k: int| !#[trigger] history.stands(n, k, id) by {}
    }
}

proof fn lemma_some_is_last(history: History, n: int, k: int, id: OperationId)
    requires
        0 <= k < n,
        history.let_in(k, id),
    ensures
        exists|last: int| #[trigger] history.last_let_in(n, last, id),
    decreases n - k,
{
    if exists|m: int| k < m < n && #[trigger] history.let_in(m, id) {
        let m = choose|m: int| k < m < n && #[trigger] history.let_in(m, id);
        lemma_some_is_last(history, n, m, id);
    } else {
        assert(history.last_let_in(n, k, id));
    }
}

} // verus!
