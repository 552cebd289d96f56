//! What holds of the registry across its operations.

#[allow(unused_imports)]
use crate::operation::{terminal, OperationState};
#[allow(unused_imports)]
use crate::operation_id::OperationId;
#[allow(unused_imports)]
use crate::registry::{
    evicted, excess, ids_distinct, lemma_trim_nothing, lemma_trim_oldest, lemma_without_none,
    lemma_without_one, lookup, place, registered, trimmed, with_state, without, RegistryEntry,
};
use vstd::prelude::*;

verus! {

/// Tells the operations in flight from those that are over.
pub open spec fn in_flight() -> spec_fn(RegistryEntry) -> bool {
    |entry: RegistryEntry| !terminal(entry.state)
}

/// Whether every entry is in flight.
pub open spec fn all_in_flight(entries: Seq<RegistryEntry>) -> bool {
    forall|i: int| 0 <= i < entries.len() ==> !terminal((#[trigger] entries[i]).state)
}

/// How many of the oldest entries a trim looks at.
spec fn cut(entries: Seq<RegistryEntry>, excess: nat) -> nat
    decreases entries.len(),
{
    if entries.len() == 0 || excess == 0 {
        0
    } else if terminal(entries[0].state) {
        1 + cut(entries.drop_first(), (excess - 1) as nat)
    } else {
        1 + cut(entries.drop_first(), excess)
    }
}

proof fn lemma_trim_at_cut(entries: Seq<RegistryEntry>, excess: nat)
    ensures
        cut(entries, excess) <= entries.len(),
        trimmed(entries, excess) == entries.take(cut(entries, excess) as int).filter(in_flight())
            + entries.skip(cut(entries, excess) as int),
    decreases entries.len(),
{
    reveal(Seq::filter);
    if entries.len() == 0 || excess == 0 {
        assert(entries.take(0).filter(in_flight()) =~= Seq::empty());
        assert(entries.take(0).filter(in_flight()) + entries.skip(0) =~= entries);
    } else {
        let rest = entries.drop_first();
        let left = if terminal(entries[0].state) {
            (excess - 1) as nat
        } else {
            excess
        };
        lemma_trim_at_cut(rest, left);
        let c = cut(rest, left) as int;
        let first = seq![entries[0]];
        assert(entries.take(c + 1) =~= first + rest.take(c));
        assert(entries.skip(c + 1) =~= rest.skip(c));
        Seq::filter_distributes_over_add(first, rest.take(c), in_flight());
        assert(first.drop_last() =~= Seq::empty());
        assert(first.drop_last().filter(in_flight()) =~= Seq::empty());
        assert(first.last() == entries[0]);
        assert(in_flight()(entries[0]) == !terminal(entries[0].state));
        assert(first.filter(in_flight()) =~= if terminal(entries[0].state) {
            Seq::empty()
        } else {
            first
        });
        assert(trimmed(entries, excess) =~= entries.take(c + 1).filter(in_flight()) + entries.skip(
            c + 1,
        ));
    }
}

/// Eviction takes the oldest operations that are over: up to some point of the
/// order none of these is left, and from there on nothing was touched.
pub proof fn law_eviction_takes_the_oldest(entries: Seq<RegistryEntry>, capacity: nat)
    ensures
        exists|point: int|
            0 <= point <= entries.len() && evicted(entries, capacity) == #[trigger] entries.take(
                point,
            ).filter(in_flight()) + entries.skip(point),
{
    let k = excess(entries.len(), capacity);
    lemma_trim_at_cut(entries, k);
    assert(evicted(entries, capacity) == entries.take(cut(entries, k) as int).filter(in_flight())
        + entries.skip(cut(entries, k) as int));
}

/// Operations in flight are never evicted, and they keep their order.
pub proof fn law_in_flight_is_never_evicted(entries: Seq<RegistryEntry>, capacity: nat)
    ensures
        evicted(entries, capacity).filter(in_flight()) == entries.filter(in_flight()),
{
    let k = excess(entries.len(), capacity);
    lemma_trim_at_cut(entries, k);
    let c = cut(entries, k) as int;
    let (head, tail) = (entries.take(c), entries.skip(c));
    assert(entries =~= head + tail);
    Seq::filter_distributes_over_add(head, tail, in_flight());
    Seq::filter_distributes_over_add(head.filter(in_flight()), tail, in_flight());
    lemma_filter_twice(head);
}

proof fn lemma_filter_twice(entries: Seq<RegistryEntry>)
    ensures
        entries.filter(in_flight()).filter(in_flight()) == entries.filter(in_flight()),
    decreases entries.len(),
{
    reveal(Seq::filter);
    if entries.len() > 0 {
        let rest = entries.drop_last().filter(in_flight());
        lemma_filter_twice(entries.drop_last());
        if !terminal(entries.last().state) {
            assert(rest.push(entries.last()).drop_last() =~= rest);
        }
    }
}

proof fn lemma_trim_len(entries: Seq<RegistryEntry>, excess: nat)
    ensures
        trimmed(entries, excess).len() == entries.len() - excess || all_in_flight(
            trimmed(entries, excess),
        ),
        entries.len() - excess <= trimmed(entries, excess).len() <= entries.len(),
    decreases entries.len(),
{
    if entries.len() > 0 && excess > 0 {
        let rest = entries.drop_first();
        if terminal(entries[0].state) {
            lemma_trim_len(rest, (excess - 1) as nat);
        } else {
            lemma_trim_len(rest, excess);
            let kept = trimmed(rest, excess);
            if all_in_flight(kept) {
                assert forall|i: int| 0 <= i < trimmed(entries, excess).len() implies !terminal(
                    (#[trigger] trimmed(entries, excess)[i]).state,
                ) by {
                    if i > 0 {
                        assert(trimmed(entries, excess)[i] == kept[i - 1]);
                    }
                }
            }
        }
    }
}

/// The registry is bounded: with a new operation it holds no more than its
/// capacity, unless everything else in it is in flight.
pub proof fn law_admission_keeps_the_bound(entries: Seq<RegistryEntry>, capacity: nat)
    ensures
        evicted(entries, capacity).len() + 1 <= capacity || all_in_flight(
            evicted(entries, capacity),
        ),
        entries.len() < capacity ==> evicted(entries, capacity) == entries,
{
    lemma_trim_len(entries, excess(entries.len(), capacity));
}

/// Nothing is evicted for its own sake: no more operations leave than the new
/// one needs room for.
pub proof fn law_eviction_is_no_larger_than_needed(entries: Seq<RegistryEntry>, capacity: nat)
    requires
        entries.len() >= capacity,
    ensures
        evicted(entries, capacity).len() + 1 >= capacity,
{
    lemma_trim_len(entries, excess(entries.len(), capacity));
}

/// What is left after an eviction was there before, with distinct ids again.
pub proof fn lemma_evicted_entries(entries: Seq<RegistryEntry>, capacity: nat, id: OperationId)
    ensures
        registered(evicted(entries, capacity), id) ==> registered(entries, id),
        ids_distinct(entries) ==> ids_distinct(evicted(entries, capacity)),
{
    lemma_trimmed_entries(entries, excess(entries.len(), capacity), id);
}

proof fn lemma_trimmed_entries(entries: Seq<RegistryEntry>, excess: nat, id: OperationId)
    ensures
        registered(trimmed(entries, excess), id) ==> registered(entries, id),
        ids_distinct(entries) ==> ids_distinct(trimmed(entries, excess)),
    decreases entries.len(),
{
    if entries.len() > 0 && excess > 0 {
        let rest = entries.drop_first();
        let result = trimmed(entries, excess);
        if terminal(entries[0].state) {
            lemma_trimmed_entries(rest, (excess - 1) as nat, id);
            if registered(result, id) {
                let i = place(rest, id);
                assert(entries[i + 1].id == id);
            }
            if ids_distinct(entries) {
                lemma_rest_distinct(entries);
            }
        } else {
            let kept = trimmed(rest, excess);
            lemma_trimmed_entries(rest, excess, id);
            lemma_trimmed_entries(rest, excess, entries[0].id);
            if registered(result, id) {
                let i = place(result, id);
                if i == 0 {
                    assert(entries[0].id == id);
                } else {
                    assert(kept[i - 1].id == id);
                    let j = place(rest, id);
                    assert(entries[j + 1].id == id);
                }
            }
            if ids_distinct(entries) {
                lemma_rest_distinct(entries);
                assert forall|i: int, j: int| 0 <= i < j < result.len() implies (
                #[trigger] result[i]).id != (#[trigger] result[j]).id by {
                    assert(result[j] == kept[j - 1]);
                    if i == 0 {
                        if kept[j - 1].id == entries[0].id {
                            let k = place(rest, entries[0].id);
                            assert(entries[k + 1].id == entries[0].id);
                        }
                    } else {
                        assert(result[i] == kept[i - 1]);
                    }
                }
            }
        }
    }
}

/// An operation in flight keeps its entry through an eviction.
pub proof fn law_open_operation_keeps_its_entry(
    entries: Seq<RegistryEntry>,
    capacity: nat,
    i: int,
)
    requires
        0 <= i < entries.len(),
        !terminal(entries[i].state),
    ensures
        exists|j: int|
            0 <= j < evicted(entries, capacity).len() && #[trigger] evicted(entries, capacity)[j]
                == entries[i],
{
    let k = excess(entries.len(), capacity);
    lemma_trimmed_keeps(entries, k, i);
    let j = choose|j: int|
        0 <= j < trimmed(entries, k).len() && #[trigger] trimmed(entries, k)[j] == entries[i];
    assert(evicted(entries, capacity)[j] == entries[i]);
}

proof fn lemma_trimmed_keeps(entries: Seq<RegistryEntry>, excess: nat, i: int)
    requires
        0 <= i < entries.len(),
        !terminal(entries[i].state),
    ensures
        exists|j: int|
            0 <= j < trimmed(entries, excess).len() && #[trigger] trimmed(entries, excess)[j]
                == entries[i],
    decreases entries.len(),
{
    let result = trimmed(entries, excess);
    if excess == 0 {
        assert(result[i] == entries[i]);
    } else {
        let rest = entries.drop_first();
        if terminal(entries[0].state) {
            lemma_trimmed_keeps(rest, (excess - 1) as nat, i - 1);
        } else if i == 0 {
            assert(result[0] == entries[0]);
        } else {
            lemma_trimmed_keeps(rest, excess, i - 1);
            let kept = trimmed(rest, excess);
            let j = choose|j: int| 0 <= j < kept.len() && #[trigger] kept[j] == rest[i - 1];
            assert(result[j + 1] == kept[j]);
        }
    }
}

/// Every entry that an eviction leaves was there before.
pub proof fn lemma_evicted_from(entries: Seq<RegistryEntry>, capacity: nat, i: int)
    requires
        0 <= i < evicted(entries, capacity).len(),
    ensures
        exists|j: int|
            0 <= j < entries.len() && #[trigger] entries[j] == evicted(entries, capacity)[i],
{
    lemma_trimmed_from(entries, excess(entries.len(), capacity), i);
}

proof fn lemma_trimmed_from(entries: Seq<RegistryEntry>, excess: nat, i: int)
    requires
        0 <= i < trimmed(entries, excess).len(),
    ensures
        exists|j: int|
            0 <= j < entries.len() && #[trigger] entries[j] == trimmed(entries, excess)[i],
    decreases entries.len(),
{
    let entry = trimmed(entries, excess)[i];
    if entries.len() > 0 && excess > 0 {
        let rest = entries.drop_first();
        if terminal(entries[0].state) {
            lemma_trimmed_from(rest, (excess - 1) as nat, i);
        } else if i > 0 {
            lemma_trimmed_from(rest, excess, i - 1);
        }
        if terminal(entries[0].state) || i > 0 {
            let j = choose|j: int| 0 <= j < rest.len() && #[trigger] rest[j] == entry;
            assert(entries[j + 1] == entry);
        } else {
            assert(entries[0] == entry);
        }
    } else {
        assert(entries[i] == entry);
    }
}

proof fn lemma_rest_distinct(entries: Seq<RegistryEntry>)
    requires
        entries.len() > 0,
        ids_distinct(entries),
    ensures
        ids_distinct(entries.drop_first()),
{
    let rest = entries.drop_first();
    assert forall|i: int, j: int| 0 <= i < j < rest.len() implies (#[trigger] rest[i]).id != (
    #[trigger] rest[j]).id by {
        assert(entries[i + 1].id != entries[j + 1].id);
    }
}

/// The entry of an operation is the one at any place that has its id.
pub proof fn lemma_lookup_at(entries: Seq<RegistryEntry>, i: int)
    requires
        ids_distinct(entries),
        0 <= i < entries.len(),
    ensures
        lookup(entries, entries[i].id) == Some(entries[i]),
{
    let j = place(entries, entries[i].id);
    assert(entries[j].id == entries[i].id);
}

/// An operation that was admitted is found again as it was admitted, so that
/// to submit it once more leads to it and to submit another payload under its
/// id is a conflict.
pub proof fn law_admitted_operation_is_found(
    entries: Seq<RegistryEntry>,
    capacity: nat,
    entry: RegistryEntry,
)
    requires
        ids_distinct(entries),
        !registered(entries, entry.id),
    ensures
        ids_distinct(evicted(entries, capacity).push(entry)),
        lookup(evicted(entries, capacity).push(entry), entry.id) == Some(entry),
{
    let kept = evicted(entries, capacity);
    let after = kept.push(entry);
    lemma_evicted_entries(entries, capacity, entry.id);
    assert forall|i: int, j: int| 0 <= i < j < after.len() implies (#[trigger] after[i]).id != (
    #[trigger] after[j]).id by {
        assert(after[i] == kept[i]);
        if j < kept.len() {
            assert(after[j] == kept[j]);
        }
    }
    lemma_lookup_at(after, kept.len() as int);
}

/// To roll an admission back leaves what the eviction left, and where there
/// was room, exactly what there was before.
pub proof fn law_rollback_undoes_admission(
    entries: Seq<RegistryEntry>,
    capacity: nat,
    entry: RegistryEntry,
)
    requires
        ids_distinct(entries),
        !registered(entries, entry.id),
    ensures
        without(evicted(entries, capacity).push(entry), entry.id) == evicted(entries, capacity),
        entries.len() < capacity ==> without(evicted(entries, capacity).push(entry), entry.id)
            == entries,
{
    let kept = evicted(entries, capacity);
    law_admitted_operation_is_found(entries, capacity, entry);
    lemma_without_one(kept.push(entry), entry.id, kept.len() as int);
    assert(kept.push(entry).remove(kept.len() as int) =~= kept);
    law_admission_keeps_the_bound(entries, capacity);
}

/// A rolled-back operation is gone, and no other is touched.
pub proof fn law_removed_operation_is_gone(
    entries: Seq<RegistryEntry>,
    id: OperationId,
    other: OperationId,
)
    requires
        ids_distinct(entries),
    ensures
        !registered(without(entries, id), id),
        other != id ==> lookup(without(entries, id), other) == lookup(entries, other),
{
    if registered(entries, id) {
        let p = place(entries, id);
        lemma_without_one(entries, id, p);
        let rest = entries.remove(p);
        assert forall|j: int| 0 <= j < rest.len() implies (#[trigger] rest[j]).id != id by {
            let k = if j < p { j } else { j + 1 };
            assert(rest[j] == entries[k]);
            assert(entries[p].id != entries[k].id);
        }
        if other != id {
            lemma_distinct_without(entries, p);
            if registered(entries, other) {
                let q = place(entries, other);
                let k = if q < p { q } else { q - 1 };
                assert(rest[k] == entries[q]);
                lemma_lookup_at(rest, k);
            } else {
                assert forall|j: int| 0 <= j < rest.len() implies (#[trigger] rest[j]).id != other by {
                    let k = if j < p { j } else { j + 1 };
                    assert(rest[j] == entries[k]);
                }
            }
        }
    } else {
        lemma_without_none(entries, id);
    }
}

proof fn lemma_distinct_without(entries: Seq<RegistryEntry>, p: int)
    requires
        ids_distinct(entries),
        0 <= p < entries.len(),
    ensures
        ids_distinct(entries.remove(p)),
{
    let rest = entries.remove(p);
    assert forall|i: int, j: int| 0 <= i < j < rest.len() implies (#[trigger] rest[i]).id != (
    #[trigger] rest[j]).id by {
        let a = if i < p { i } else { i + 1 };
        let b = if j < p { j } else { j + 1 };
        assert(rest[i] == entries[a]);
        assert(rest[j] == entries[b]);
    }
}

/// A recorded state is the one that is read back; the operation's digest and
/// cell stay, and so does every other operation. To record a state for an
/// operation that is not registered changes nothing.
pub proof fn law_recorded_state_is_read_back(
    entries: Seq<RegistryEntry>,
    id: OperationId,
    state: OperationState,
    other: OperationId,
)
    requires
        ids_distinct(entries),
    ensures
        ids_distinct(with_state(entries, id, state)),
        lookup(entries, id) matches Some(entry) ==> lookup(with_state(entries, id, state), id)
            == Some(RegistryEntry { state, ..entry }),
        other != id ==> lookup(with_state(entries, id, state), other) == lookup(entries, other),
        !registered(entries, id) ==> with_state(entries, id, state) == entries,
{
    let after = with_state(entries, id, state);
    assert forall|i: int| 0 <= i < after.len() implies (#[trigger] after[i]).id == entries[i].id by {}
    assert forall|i: int, j: int| 0 <= i < j < after.len() implies (#[trigger] after[i]).id != (
    #[trigger] after[j]).id by {
        assert(entries[i].id != entries[j].id);
    }
    if registered(entries, id) {
        let i = place(entries, id);
        assert(after[i].id == id);
        lemma_lookup_at(after, i);
    } else {
        assert(after =~= entries);
    }
    if other != id {
        if registered(entries, other) {
            let i = place(entries, other);
            assert(after[i] == entries[i]);
            lemma_lookup_at(after, i);
        } else {
            assert forall|i: int| 0 <= i < after.len() implies (#[trigger] after[i]).id != other by {
                assert(entries[i].id != other);
            }
        }
    }
}

/// What is in flight is what is queued or running.
pub proof fn law_in_flight_is_queued_or_running(entry: RegistryEntry)
    ensures
        in_flight()(entry) <==> entry.state is Queued || entry.state is Running,
        all_in_flight(seq![entry]) <==> entry.state is Queued || entry.state is Running,
{
    if all_in_flight(seq![entry]) {
        assert(!terminal(seq![entry][0].state));
    }
}

/// An operation is found exactly where an entry has its id, and what is found
/// is that entry.
pub proof fn law_lookup_finds_the_entry(entries: Seq<RegistryEntry>, id: OperationId)
    ensures
        lookup(entries, id) is None <==> forall|i: int|
            0 <= i < entries.len() ==> (#[trigger] entries[i]).id != id,
        lookup(entries, id) matches Some(entry) ==> entry.id == id && entries.contains(entry),
        ids_distinct(entries) ==> forall|i: int|
            0 <= i < entries.len() && (#[trigger] entries[i]).id == id ==> lookup(entries, id)
                == Some(entries[i]),
{
    if registered(entries, id) {
        assert(entries.contains(entries[place(entries, id)]));
    }
    if ids_distinct(entries) {
        assert forall|i: int| 0 <= i < entries.len() && (#[trigger] entries[i]).id
            == id implies lookup(entries, id) == Some(entries[i]) by {
            lemma_lookup_at(entries, i);
        }
    }
}

/// To record a state sets the state of that operation, whatever it was before
/// and whatever the new one is, and nothing else.
pub proof fn law_recording_sets_one_state(
    entries: Seq<RegistryEntry>,
    id: OperationId,
    state: OperationState,
    i: int,
)
    requires
        0 <= i < entries.len(),
    ensures
        with_state(entries, id, state).len() == entries.len(),
        with_state(entries, id, state)[i].id == entries[i].id,
        with_state(entries, id, state)[i].digest == entries[i].digest,
        with_state(entries, id, state)[i].cell == entries[i].cell,
        entries[i].id == id ==> with_state(entries, id, state)[i].state == state,
        entries[i].id != id ==> with_state(entries, id, state)[i].state == entries[i].state,
{
}

/// To roll back takes the entry of that operation out, whatever its state, and
/// leaves the others in their order.
pub proof fn law_rolling_back_takes_one_entry(entries: Seq<RegistryEntry>, id: OperationId)
    requires
        ids_distinct(entries),
    ensures
        forall|i: int|
            0 <= i < entries.len() && (#[trigger] entries[i]).id == id ==> without(entries, id)
                == entries.remove(i),
        (forall|i: int| 0 <= i < entries.len() ==> (#[trigger] entries[i]).id != id) ==> without(
            entries,
            id,
        ) == entries,
{
    assert forall|i: int| 0 <= i < entries.len() && (#[trigger] entries[i]).id == id implies without(
        entries,
        id,
    ) == entries.remove(i) by {
        lemma_without_one(entries, id, i);
    }
    if forall|i: int| 0 <= i < entries.len() ==> (#[trigger] entries[i]).id != id {
        lemma_without_none(entries, id);
    }
}

/// Room is made for a new operation from those that have succeeded or failed,
/// the oldest first, one at a time, and only as long as there is no room.
pub proof fn law_room_is_made_one_at_a_time(entries: Seq<RegistryEntry>, capacity: nat, i: int)
    ensures
        entries.len() < capacity ==> evicted(entries, capacity) == entries,
        (forall|j: int|
            0 <= j < entries.len() ==> (#[trigger] entries[j]).state is Queued
                || entries[j].state is Running) ==> evicted(entries, capacity) == entries,
        entries.len() >= capacity && 0 <= i < entries.len() && (entries[i].state is Succeeded
            || entries[i].state is Failed) && (forall|j: int|
            0 <= j < i ==> (#[trigger] entries[j]).state is Queued || entries[j].state is Running)
            ==> evicted(entries, capacity) == evicted(entries.remove(i), capacity),
{
    let k = excess(entries.len(), capacity);
    if forall|j: int|
        0 <= j < entries.len() ==> (#[trigger] entries[j]).state is Queued
            || entries[j].state is Running {
        assert forall|j: int| 0 <= j < entries.len() implies !terminal(
            (#[trigger] entries[j]).state,
        ) by {
            assert(entries[j].state is Queued || entries[j].state is Running);
        }
        lemma_trim_nothing(entries, k);
    }
    if entries.len() >= capacity && 0 <= i < entries.len() && (entries[i].state is Succeeded
        || entries[i].state is Failed) && (forall|j: int|
        0 <= j < i ==> (#[trigger] entries[j]).state is Queued || entries[j].state is Running) {
        assert forall|j: int| 0 <= j < i implies !terminal((#[trigger] entries[j]).state) by {
            assert(entries[j].state is Queued || entries[j].state is Running);
        }
        lemma_trim_oldest(entries, k, i);
        assert(excess(entries.remove(i).len(), capacity) == (k - 1) as nat);
    }
}

} // verus!
