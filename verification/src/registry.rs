//! The bounded registry of recent operations.

use crate::channels::{open_cell, publish, read_latest, read_published, subscribe};
#[allow(unused_imports)]
use crate::channels::{cell_states, published, read_cell, written_cell};
use crate::error::{CoreError, CoreErrorKind};
#[allow(unused_imports)]
use crate::error::{CoreErrorView, operation_error};
#[allow(unused_imports)]
use crate::hex::hex_text;
use crate::operation::{is_terminal, OperationState};
#[allow(unused_imports)]
use crate::operation::terminal;
#[allow(unused_imports)]
use crate::operation_id::lemma_key_injective;
use crate::operation_id::OperationId;
use std::collections::{HashMap, VecDeque};
use tokio::sync::watch;
use vstd::prelude::*;

verus! {

/// Bounded most-recent-operations registry: the idempotency table and the
/// query surface for lost-response recovery. Losing an entry never affects the
/// runtime: a client that misses falls back to reading the core's status, and
/// the revision compare-and-swap blocks double application.
pub struct Registry {
    operations: HashMap<u128, RegisteredOperation>,
    order: VecDeque<OperationId>,
    capacity: usize,
}

struct RegisteredOperation {
    digest: String,
    state_tx: watch::Sender<OperationState>,
}

impl RegisteredOperation {
    spec fn state_is_published(self) -> bool {
        cell_states(written_cell(self.state_tx)).contains(published(self.state_tx))
    }
}

/// How an operation was admitted.
#[derive(Debug)]
pub enum Admission {
    /// New registration; the caller must enqueue the work.
    Registered(watch::Receiver<OperationState>),
    /// Same id and same digest: the original operation, wherever it is.
    Existing(watch::Receiver<OperationState>),
}

/// What the registry knows of one operation: its identity, the digest of its
/// payload, its state, and the cell in which the state is published.
pub struct RegistryEntry {
    pub id: OperationId,
    pub digest: Seq<char>,
    pub state: OperationState,
    pub cell: int,
}

/// The place of an operation among entries.
pub open spec fn place(entries: Seq<RegistryEntry>, id: OperationId) -> int {
    choose|i: int| 0 <= i < entries.len() && (#[trigger] entries[i]).id == id
}

/// Whether an operation is among entries.
pub open spec fn registered(entries: Seq<RegistryEntry>, id: OperationId) -> bool {
    exists|i: int| 0 <= i < entries.len() && (#[trigger] entries[i]).id == id
}

/// The entry of an operation.
pub open spec fn lookup(entries: Seq<RegistryEntry>, id: OperationId) -> Option<RegistryEntry> {
    if registered(entries, id) {
        Some(entries[place(entries, id)])
    } else {
        None
    }
}

/// No operation has two entries.
pub open spec fn ids_distinct(entries: Seq<RegistryEntry>) -> bool {
    forall|i: int, j: int|
        0 <= i < j < entries.len() ==> (#[trigger] entries[i]).id != (#[trigger] entries[j]).id
}

/// Entries, oldest first, without the `excess` oldest of those that are over.
pub open spec fn trimmed(entries: Seq<RegistryEntry>, excess: nat) -> Seq<RegistryEntry>
    decreases entries.len(),
{
    if entries.len() == 0 || excess == 0 {
        entries
    } else if terminal(entries[0].state) {
        trimmed(entries.drop_first(), (excess - 1) as nat)
    } else {
        seq![entries[0]] + trimmed(entries.drop_first(), excess)
    }
}

/// How many entries have to leave before one more fits into the capacity.
pub open spec fn excess(count: nat, capacity: nat) -> nat {
    if count >= capacity {
        (count - capacity + 1) as nat
    } else {
        0
    }
}

/// What is left of entries once room has been made for one more.
pub open spec fn evicted(entries: Seq<RegistryEntry>, capacity: nat) -> Seq<RegistryEntry> {
    trimmed(entries, excess(entries.len(), capacity))
}

/// Entries after the state of one operation has been set.
pub open spec fn with_state(
    entries: Seq<RegistryEntry>,
    id: OperationId,
    state: OperationState,
) -> Seq<RegistryEntry> {
    entries.map_values(
        |entry: RegistryEntry|
            if entry.id == id {
                RegistryEntry { state, ..entry }
            } else {
                entry
            },
    )
}

/// Entries without those of one operation.
pub open spec fn without(entries: Seq<RegistryEntry>, id: OperationId) -> Seq<RegistryEntry> {
    entries.filter(|entry: RegistryEntry| entry.id != id)
}

/// The answer to an id that was used before with another payload.
pub open spec fn conflict(id: OperationId) -> CoreErrorView {
    operation_error(
        CoreErrorKind::OperationConflict,
        "operation "@ + hex_text(id@) + " was already submitted with a different payload"@,
        false,
        id,
    )
}

impl View for Registry {
    type V = Seq<RegistryEntry>;

    /// The entries in the order of their admission.
    closed spec fn view(&self) -> Seq<RegistryEntry> {
        self.order@.map_values(|id: OperationId| self.entry(id))
    }
}

impl Registry {
    spec fn entry(self, id: OperationId) -> RegistryEntry {
        let operation = self.operations@[id.spec_key()];
        RegistryEntry {
            id,
            digest: operation.digest@,
            state: published(operation.state_tx),
            cell: written_cell(operation.state_tx),
        }
    }

    /// The order lists exactly the operations, each once, and the state of each
    /// is one that its cell holds.
    pub closed spec fn wf(self) -> bool {
        &&& self.order@.no_duplicates()
        &&& self.order@.len() == self.operations@.len()
        &&& forall|i: int|
            0 <= i < self.order@.len() ==> self.operations@.contains_key(
                (#[trigger] self.order@[i]).spec_key(),
            )
        &&& forall|key: u128| #[trigger]
            self.operations@.contains_key(key) ==> exists|i: int|
                0 <= i < self.order@.len() && (#[trigger] self.order@[i]).spec_key() == key
        &&& forall|key: u128| #[trigger]
            self.operations@.contains_key(key) ==> self.operations@[key].state_is_published()
    }

    pub closed spec fn spec_capacity(self) -> nat {
        self.capacity as nat
    }

    pub fn new(capacity: usize) -> (registry: Self)
        ensures
            registry.wf(),
            registry@ == Seq::<RegistryEntry>::empty(),
            registry.spec_capacity() == capacity,
    {
        let registry = Registry {
            operations: HashMap::new(),
            order: VecDeque::new(),
            capacity,
        };
        proof {
            broadcast use vstd::std_specs::hash::group_hash_axioms;
            assert(registry.operations@.dom() =~= Set::empty());
            assert(registry@ =~= Seq::empty());
        }
        registry
    }

    /// No operation is registered twice.
    pub proof fn law_registered_once(self)
        requires
            self.wf(),
        ensures
            ids_distinct(self@),
    {
        self.lemma_entries();
    }

    /// What the registry knows of an operation's state is a state that its cell
    /// holds.
    pub proof fn law_recorded_state_is_published(self, id: OperationId)
        requires
            self.wf(),
        ensures
            lookup(self@, id) matches Some(entry) ==> cell_states(entry.cell).contains(entry.state),
    {
        self.lemma_registered(id);
    }

    proof fn lemma_entries(self)
        requires
            self.wf(),
        ensures
            self@.len() == self.order@.len(),
            ids_distinct(self@),
            forall|i: int| 0 <= i < self@.len() ==> #[trigger] self@[i] == self.entry(self.order@[i]),
            forall|i: int| 0 <= i < self@.len() ==> (#[trigger] self@[i]).id == self.order@[i],
    {
    }

    /// An operation is registered where the map holds its key.
    proof fn lemma_registered(self, id: OperationId)
        requires
            self.wf(),
        ensures
            registered(self@, id) == self.operations@.contains_key(id.spec_key()),
            registered(self@, id) ==> lookup(self@, id) == Some(self.entry(id)),
    {
        self.lemma_entries();
        if self.operations@.contains_key(id.spec_key()) {
            let i = choose|i: int|
                0 <= i < self.order@.len() && (#[trigger] self.order@[i]).spec_key()
                    == id.spec_key();
            lemma_key_injective(self.order@[i], id);
            assert(self@[i].id == id);
        }
    }

    /// The place of an operation in the order.
    fn find(&self, id: OperationId) -> (found: Option<usize>)
        requires
            self.wf(),
        ensures
            found is Some <==> registered(self@, id),
            found matches Some(i) ==> i < self@.len() && self@[i as int].id == id,
    {
        proof {
            self.lemma_entries();
        }
        let key: u128 = id.key();
        let mut i: usize = 0;
        while i < self.order.len()
            invariant
                i <= self.order@.len(),
                key == id.spec_key(),
                self.wf(),
                forall|j: int| 0 <= j < i ==> (#[trigger] self.order@[j]) != id,
            decreases self.order@.len() - i,
        {
            let other: OperationId = self.order[i];
            if other.key() == key {
                proof {
                    lemma_key_injective(other, id);
                    self.lemma_entries();
                    assert(self@[i as int].id == id);
                }
                return Some(i);
            }
            i = i + 1;
        }
        proof {
            self.lemma_entries();
        }
        None
    }

    /// Drops the operation at a place of the order.
    fn drop_at(&mut self, i: usize)
        requires
            old(self).wf(),
            i < old(self)@.len(),
        ensures
            final(self).wf(),
            final(self)@ == old(self)@.remove(i as int),
            final(self).spec_capacity() == old(self).spec_capacity(),
    {
        broadcast use vstd::std_specs::hash::group_hash_axioms;

        proof {
            self.lemma_entries();
        }
        let id: OperationId = self.order[i];
        let ghost before = *self;
        self.order.remove(i);
        self.operations.remove(&id.key());
        proof {
            let after = *self;
            assert(after.operations@ == before.operations@.remove(id.spec_key()));
            assert forall|j: int| 0 <= j < after.order@.len() implies {
                let kept = #[trigger] after.order@[j];
                kept.spec_key() != id.spec_key() && before.operations@.contains_key(kept.spec_key())
            } by {
                let k = if j < i { j } else { j + 1 };
                assert(after.order@[j] == before.order@[k]);
                lemma_key_injective(after.order@[j], id);
            }
            assert forall|key: u128| #[trigger] after.operations@.contains_key(key) implies exists|
                j: int,
            | 0 <= j < after.order@.len() && (#[trigger] after.order@[j]).spec_key() == key by {
                assert(before.operations@.contains_key(key));
                let k = choose|k: int|
                    0 <= k < before.order@.len() && (#[trigger] before.order@[k]).spec_key() == key;
                let j = if k < i { k } else { k - 1 };
                assert(after.order@[j] == before.order@[k]);
            }
            assert(after.order@.no_duplicates()) by {
                assert forall|a: int, b: int|
                    0 <= a < after.order@.len() && 0 <= b < after.order@.len() && a != b implies
                    after.order@[a] != after.order@[b] by {
                    let c = if a < i { a } else { a + 1 };
                    let d = if b < i { b } else { b + 1 };
                    assert(after.order@[a] == before.order@[c]);
                    assert(after.order@[b] == before.order@[d]);
                }
            }
            assert(after@ =~= before@.remove(i as int));
        }
    }

    /// The place of the oldest operation that is over.
    fn oldest_terminal(&self) -> (found: Option<usize>)
        requires
            self.wf(),
        ensures
            found matches Some(i) ==> i < self@.len() && terminal(self@[i as int].state) && forall|
                j: int,
            |
                0 <= j < i ==> !terminal((#[trigger] self@[j]).state),
            found is None ==> forall|j: int|
                0 <= j < self@.len() ==> !terminal((#[trigger] self@[j]).state),
    {
        broadcast use vstd::std_specs::hash::group_hash_axioms;

        proof {
            self.lemma_entries();
        }
        let mut i: usize = 0;
        while i < self.order.len()
            invariant
                i <= self.order@.len(),
                self.wf(),
                self@.len() == self.order@.len(),
                forall|j: int| 0 <= j < i ==> !terminal((#[trigger] self@[j]).state),
            decreases self.order@.len() - i,
        {
            let id: OperationId = self.order[i];
            proof {
                self.lemma_entries();
                assert(self@[i as int] == self.entry(id));
            }
            match self.operations.get(&id.key()) {
                Some(operation) => {
                    if is_terminal(&read_published(&operation.state_tx)) {
                        return Some(i);
                    }
                },
                None => {
                    proof {
                        assert(self.operations@.contains_key(self.order@[i as int].spec_key()));
                    }
                },
            }
            i = i + 1;
        }
        None
    }

    /// Admits an operation: an id that is new is registered as queued, one that
    /// was submitted before with the same digest leads to the original
    /// operation, and one that was submitted with another digest is refused.
    ///
    /// Room is made by evicting the oldest *terminal* entries only. Operations
    /// in flight are never evicted; their count is already bounded by the work
    /// queue.
    pub fn admit_operation(&mut self, id: OperationId, digest: &str) -> (admission: Result<
        Admission,
        CoreError,
    >)
        requires
            old(self).wf(),
        ensures
            final(self).wf(),
            final(self).spec_capacity() == old(self).spec_capacity(),
            match lookup(old(self)@, id) {
                Some(entry) if entry.digest == digest@ => {
                    &&& final(self)@ == old(self)@
                    &&& admission matches Ok(Admission::Existing(receiver)) && read_cell(receiver)
                        == entry.cell
                },
                Some(_) => {
                    &&& final(self)@ == old(self)@
                    &&& admission matches Err(error) && error@ == conflict(id)
                },
                None => {
                    &&& admission matches Ok(Admission::Registered(receiver)) && final(self)@
                        == evicted(old(self)@, old(self).spec_capacity()).push(
                        RegistryEntry {
                            id,
                            digest: digest@,
                            state: OperationState::Queued,
                            cell: read_cell(receiver),
                        },
                    )
                },
            },
    {
        broadcast use vstd::std_specs::hash::group_hash_axioms;

        proof {
            self.lemma_registered(id);
        }
        let key: u128 = id.key();
        let digest: String = digest.to_owned();
        match self.operations.get(&key) {
            Some(existing) => {
                if existing.digest == digest {
                    return Ok(Admission::Existing(subscribe(&existing.state_tx)));
                }
                let mut message: String = "operation ".to_owned();
                message.append(id.to_string().as_str());
                message.append(" was already submitted with a different payload");
                return Err(
                    CoreError::new(
                        CoreErrorKind::OperationConflict,
                        message.as_str(),
                        false,
                    ).with_operation(id),
                );
            },
            None => {},
        }
        let ghost before = self@;
        let ghost capacity = self.spec_capacity();
        proof {
            self.lemma_entries();
        }
        while self.operations.len() >= self.capacity
            invariant
                self.wf(),
                self.spec_capacity() == capacity,
                key == id.spec_key(),
                !registered(self@, id),
                evicted(self@, capacity) == evicted(before, capacity),
            ensures
                self@ == evicted(before, capacity),
            decreases self@.len(),
        {
            broadcast use vstd::std_specs::hash::group_hash_axioms;

            proof {
                self.lemma_entries();
            }
            let ghost entries = self@;
            match self.oldest_terminal() {
                Some(i) => {
                    proof {
                        lemma_trim_oldest(entries, excess(entries.len(), capacity), i as int);
                    }
                    self.drop_at(i);
                    proof {
                        assert forall|j: int| 0 <= j < self@.len() implies (#[trigger] self@[j]).id
                            != id by {
                            let k = if j < i { j } else { j + 1 };
                            assert(self@[j] == entries[k]);
                        }
                    }
                },
                None => {
                    proof {
                        lemma_trim_nothing(entries, excess(entries.len(), capacity));
                    }
                    break;
                },
            }
        }
        proof {
            self.lemma_registered(id);
            self.lemma_entries();
        }
        let ghost kept = *self;
        let (state_tx, state_rx) = open_cell(OperationState::Queued);
        self.operations.insert(key, RegisteredOperation { digest, state_tx });
        self.order.push_back(id);
        proof {
            let after = *self;
            assert forall|j: int| 0 <= j < kept.order@.len() implies (
            #[trigger] kept.order@[j]).spec_key() != key by {
                assert(kept.operations@.contains_key(kept.order@[j].spec_key()));
            }
            assert forall|j: int| 0 <= j < after.order@.len() implies after.operations@.contains_key(
                (#[trigger] after.order@[j]).spec_key(),
            ) by {
                if j < kept.order@.len() {
                    assert(after.order@[j] == kept.order@[j]);
                }
            }
            assert forall|k: u128| #[trigger] after.operations@.contains_key(k) implies exists|j: int|
                0 <= j < after.order@.len() && (#[trigger] after.order@[j]).spec_key() == k by {
                if k == key {
                    assert(after.order@[kept.order@.len() as int].spec_key() == k);
                } else {
                    assert(kept.operations@.contains_key(k));
                    let j = choose|j: int|
                        0 <= j < kept.order@.len() && (#[trigger] kept.order@[j]).spec_key() == k;
                    assert(after.order@[j] == kept.order@[j]);
                }
            }
            assert(after.order@.no_duplicates());
            assert(after@ =~= kept@.push(
                RegistryEntry {
                    id,
                    digest: digest@,
                    state: OperationState::Queued,
                    cell: read_cell(state_rx),
                },
            ));
        }
        Ok(Admission::Registered(state_rx))
    }

    /// Rolls back a registration whose enqueue failed.
    pub fn remove(&mut self, id: OperationId)
        requires
            old(self).wf(),
        ensures
            final(self).wf(),
            final(self)@ == without(old(self)@, id),
            final(self).spec_capacity() == old(self).spec_capacity(),
    {
        match self.find(id) {
            Some(i) => {
                proof {
                    self.lemma_entries();
                    lemma_without_one(self@, id, i as int);
                }
                self.drop_at(i);
            },
            None => {
                proof {
                    lemma_without_none(self@, id);
                }
            },
        }
    }

    /// Records the state of an operation and tells everyone who watches it. An
    /// operation that is not registered stays so.
    pub fn set(&mut self, id: OperationId, state: OperationState)
        requires
            old(self).wf(),
        ensures
            final(self).wf(),
            final(self)@ == with_state(old(self)@, id, state),
            final(self).spec_capacity() == old(self).spec_capacity(),
    {
        broadcast use vstd::std_specs::hash::group_hash_axioms;

        let key: u128 = id.key();
        proof {
            self.lemma_entries();
            self.lemma_registered(id);
        }
        let ghost before = *self;
        match self.operations.remove(&key) {
            Some(mut operation) => {
                publish(&mut operation.state_tx, state);
                self.operations.insert(key, operation);
                proof {
                    let after = *self;
                    assert(after.operations@.dom() =~= before.operations@.dom());
                    assert forall|j: int| 0 <= j < after.order@.len() implies #[trigger] after@[j]
                        == with_state(before@, id, state)[j] by {
                        lemma_key_injective(after.order@[j], id);
                    }
                    assert(after@ =~= with_state(before@, id, state));
                }
            },
            None => {
                proof {
                    assert(self.operations@ =~= before.operations@);
                    assert(self@ =~= before@);
                    assert forall|j: int| 0 <= j < before@.len() implies before@[j].id != id by {}
                    assert(self@ =~= with_state(before@, id, state));
                }
            },
        }
    }

    /// The state of an operation, or `None` when its entry was evicted or
    /// never existed.
    pub fn get(&self, id: OperationId) -> (state: Option<OperationState>)
        requires
            self.wf(),
        ensures
            state == match lookup(self@, id) {
                Some(entry) => Some(entry.state),
                None => None,
            },
    {
        broadcast use vstd::std_specs::hash::group_hash_axioms;

        proof {
            self.lemma_registered(id);
        }
        match self.operations.get(&id.key()) {
            Some(operation) => Some(read_published(&operation.state_tx)),
            None => None,
        }
    }

    /// The state of an operation as a receiver shows it.
    pub(crate) fn read_through(
        &self,
        id: OperationId,
        receiver: &watch::Receiver<OperationState>,
    ) -> (state: OperationState)
        requires
            self.wf(),
        ensures
            cell_states(read_cell(*receiver)).contains(state),
            lookup(self@, id) matches Some(entry) ==> entry.cell == read_cell(*receiver) ==> state
                == entry.state,
    {
        broadcast use vstd::std_specs::hash::group_hash_axioms;

        proof {
            self.lemma_registered(id);
        }
        match self.operations.get(&id.key()) {
            Some(operation) => read_latest(receiver, Some(&operation.state_tx)),
            None => read_latest(receiver, None),
        }
    }
}

/// To trim is to drop the oldest entry that is over and to trim the rest by
/// one less.
pub proof fn lemma_trim_oldest(entries: Seq<RegistryEntry>, excess: nat, i: int)
    requires
        0 < excess,
        0 <= i < entries.len(),
        terminal(entries[i].state),
        forall|j: int| 0 <= j < i ==> !terminal((#[trigger] entries[j]).state),
    ensures
        trimmed(entries, excess) == trimmed(entries.remove(i), (excess - 1) as nat),
    decreases entries.len(),
{
    let rest = entries.drop_first();
    if i == 0 {
        assert(entries.remove(0) =~= rest);
    } else {
        assert forall|j: int| 0 <= j < i - 1 implies !terminal((#[trigger] rest[j]).state) by {
            assert(rest[j] == entries[j + 1]);
        }
        lemma_trim_oldest(rest, excess, i - 1);
        assert(entries.remove(i).drop_first() =~= rest.remove(i - 1));
        assert(!terminal(entries[0].state));
        assert(entries.remove(i) =~= seq![entries[0]] + rest.remove(i - 1));
    }
}

pub proof fn lemma_trim_nothing(entries: Seq<RegistryEntry>, excess: nat)
    requires
        forall|j: int| 0 <= j < entries.len() ==> !terminal((#[trigger] entries[j]).state),
    ensures
        trimmed(entries, excess) == entries,
    decreases entries.len(),
{
    if entries.len() > 0 {
        let rest = entries.drop_first();
        assert forall|j: int| 0 <= j < rest.len() implies !terminal((#[trigger] rest[j]).state) by {
            assert(rest[j] == entries[j + 1]);
        }
        lemma_trim_nothing(rest, excess);
        assert(!terminal(entries[0].state));
        assert(entries =~= seq![entries[0]] + rest);
    }
}

/// Where ids are distinct, dropping an operation drops its one entry.
pub proof fn lemma_without_one(entries: Seq<RegistryEntry>, id: OperationId, i: int)
    requires
        ids_distinct(entries),
        0 <= i < entries.len(),
        entries[i].id == id,
    ensures
        without(entries, id) == entries.remove(i),
    decreases entries.len(),
{
    reveal(Seq::filter);
    let rest = entries.drop_last();
    if i == entries.len() - 1 {
        assert forall|j: int| 0 <= j < rest.len() implies rest[j].id != id by {
            assert(entries[j].id != entries[i].id);
        }
        lemma_without_none(rest, id);
        assert(entries.remove(i) =~= rest);
    } else {
        assert(ids_distinct(rest)) by {
            assert forall|a: int, b: int| 0 <= a < b < rest.len() implies (#[trigger] rest[a]).id != (
            #[trigger] rest[b]).id by {
                assert(entries[a].id != entries[b].id);
            }
        }
        lemma_without_one(rest, id, i);
        assert(entries.last().id != id) by {
            assert(entries[i].id != entries[entries.len() - 1].id);
        }
        assert(entries.remove(i) =~= rest.remove(i).push(entries.last()));
    }
}

pub proof fn lemma_without_none(entries: Seq<RegistryEntry>, id: OperationId)
    requires
        forall|i: int| 0 <= i < entries.len() ==> (#[trigger] entries[i]).id != id,
    ensures
        without(entries, id) == entries,
    decreases entries.len(),
{
    reveal(Seq::filter);
    if entries.len() > 0 {
        lemma_without_none(entries.drop_last(), id);
        assert(entries =~= entries.drop_last().push(entries.last()));
    }
}

} // verus!
