//! The channels of tokio that the control plane is built on.

use crate::executor::ExecutorWork;
use crate::operation::OperationState;
use tokio::sync::{mpsc, watch};
use vstd::prelude::*;

verus! {

/// `tokio::sync::watch::Sender`: the writing end of a cell that holds the last
/// value written to it.
#[verifier::external_type_specification]
#[verifier::external_body]
#[verifier::reject_recursive_types(T)]
pub struct ExWatchSender<T>(watch::Sender<T>);

/// `tokio::sync::watch::Receiver`: a reading end of such a cell.
#[verifier::external_type_specification]
#[verifier::external_body]
#[verifier::reject_recursive_types(T)]
pub struct ExWatchReceiver<T>(watch::Receiver<T>);

/// `tokio::sync::mpsc::Sender`: the writing end of a bounded queue.
#[verifier::external_type_specification]
#[verifier::external_body]
#[verifier::reject_recursive_types(T)]
pub struct ExQueueSender<T>(mpsc::Sender<T>);

/// `tokio::sync::mpsc::Receiver`: the reading end of a bounded queue.
#[verifier::external_type_specification]
#[verifier::external_body]
#[verifier::reject_recursive_types(T)]
pub struct ExQueueReceiver<T>(mpsc::Receiver<T>);

/// The state that the cell of a sender holds. A cell has one sender: none is
/// ever cloned.
pub uninterp spec fn published(sender: watch::Sender<OperationState>) -> OperationState;

/// The cell that a sender writes.
pub uninterp spec fn written_cell(sender: watch::Sender<OperationState>) -> int;

/// The cell that a receiver reads.
pub uninterp spec fn read_cell(receiver: watch::Receiver<OperationState>) -> int;

/// The states that a cell holds at one time or another: the one it was opened
/// with and each one published in it.
pub uninterp spec fn cell_states(cell: int) -> Set<OperationState>;

/// The work that the queue has accepted from a sender, in order. A queue has one
/// sender: none is ever cloned.
pub uninterp spec fn accepted(sender: mpsc::Sender<ExecutorWork>) -> Seq<ExecutorWork>;

/// The most work that the queue of a sender holds at one time.
pub uninterp spec fn queue_bound(sender: mpsc::Sender<ExecutorWork>) -> nat;

/// The queue that a sender fills.
pub uninterp spec fn filled_queue(sender: mpsc::Sender<ExecutorWork>) -> int;

/// The queue that a receiver empties.
pub uninterp spec fn emptied_queue(receiver: mpsc::Receiver<ExecutorWork>) -> int;

/// Whether a queue comes to be full, at one time or another, when it has
/// accepted that many works.
pub uninterp spec fn queue_filled(queue: int, count: nat) -> bool;

/// Whether a queue comes to be closed at one time or another, by its receiver
/// or with it.
pub uninterp spec fn queue_ended(queue: int) -> bool;

/// How many works a receiver has handed out.
pub uninterp spec fn taken(receiver: mpsc::Receiver<ExecutorWork>) -> nat;

/// Whether a receiver has closed its queue.
pub uninterp spec fn queue_closed(receiver: mpsc::Receiver<ExecutorWork>) -> bool;

/// The work that a queue still holds for its receiver, in order: what it hands
/// out, one call after another, from its closing until it first has nothing to
/// hand out. A send that another thread has begun by then and not ended is no
/// part of it.
pub uninterp spec fn held(receiver: mpsc::Receiver<ExecutorWork>) -> Seq<ExecutorWork>;

/// How the queue answered.
#[derive(Debug, Clone, Copy, PartialEq, Eq, Structural)]
pub enum Enqueued {
    Accepted,
    Full,
    Closed,
}

/// Calls `tokio::sync::watch::channel`: a new cell holds the state given, which
/// is then one of its states, and the receiver reads the cell that the sender
/// writes.
#[verifier::external_body]
pub(crate) fn open_cell(state: OperationState) -> (ends: (
    watch::Sender<OperationState>,
    watch::Receiver<OperationState>,
))
    ensures
        published(ends.0) == state,
        read_cell(ends.1) == written_cell(ends.0),
        cell_states(written_cell(ends.0)).contains(state),
{
    watch::channel(state)
}

/// Calls `tokio::sync::watch::Sender::send_replace`: the cell holds the state
/// given from now on, which is then one of its states, also where no receiver
/// is left to be told. The call waits for callers that are reading the cell at
/// the moment.
#[verifier::external_body]
pub(crate) fn publish(sender: &mut watch::Sender<OperationState>, state: OperationState)
    ensures
        published(*final(sender)) == state,
        written_cell(*final(sender)) == written_cell(*old(sender)),
        cell_states(written_cell(*final(sender))).contains(state),
{
    sender.send_replace(state);
}

/// Calls `tokio::sync::watch::Sender::borrow` and copies the state that the
/// cell holds.
#[verifier::external_body]
pub(crate) fn read_published(sender: &watch::Sender<OperationState>) -> (state: OperationState)
    ensures
        state == published(*sender),
{
    sender.borrow().clone()
}

/// Calls `tokio::sync::watch::Sender::subscribe`: one more receiver reads the
/// cell that the sender writes.
#[verifier::external_body]
pub(crate) fn subscribe(sender: &watch::Sender<OperationState>) -> (receiver: watch::Receiver<
    OperationState,
>)
    ensures
        read_cell(receiver) == written_cell(*sender),
{
    sender.subscribe()
}

/// Calls `tokio::sync::watch::Receiver::borrow` and copies the state that the
/// cell holds: it is one of the states of that cell. Which one depends on what
/// the sender has written by the time of the call. Where that sender is lent to
/// the call, nothing is written meanwhile, and the state is the one that it
/// published last.
#[verifier::external_body]
pub(crate) fn read_latest(
    receiver: &watch::Receiver<OperationState>,
    lent: Option<&watch::Sender<OperationState>>,
) -> (state: OperationState)
    ensures
        cell_states(read_cell(*receiver)).contains(state),
        lent matches Some(sender) ==> written_cell(*sender) == read_cell(*receiver) ==> state
            == published(*sender),
{
    let _ = lent;
    receiver.borrow().clone()
}

/// Calls `tokio::sync::mpsc::channel`: a new queue has the bound given and has
/// accepted nothing, and the receiver empties the queue that the sender fills
/// and has handed out nothing.
/// The call panics on a bound of zero and on one above an eighth of the range
/// of `usize`.
#[verifier::external_body]
pub(crate) fn open_queue(bound: usize) -> (ends: (
    mpsc::Sender<ExecutorWork>,
    mpsc::Receiver<ExecutorWork>,
))
    requires
        0 < bound <= usize::MAX / 8,
    ensures
        accepted(ends.0) == Seq::<ExecutorWork>::empty(),
        queue_bound(ends.0) == bound,
        emptied_queue(ends.1) == filled_queue(ends.0),
        taken(ends.1) == 0,
{
    mpsc::channel(bound)
}

/// Calls `tokio::sync::mpsc::Sender::try_send`: the queue accepts the work, or
/// refuses it and drops it. It answers that it is full only where it is full
/// after the works accepted so far, and these are no fewer than its bound: each
/// takes one of that many places, and the receiver alone gives places back. It
/// is closed only where its receiver has closed it or is gone. Which of the
/// answers that are left comes is not claimed: it depends on what the receiver
/// has taken and on whether it is still there.
#[verifier::external_body]
pub(crate) fn enqueue(sender: &mut mpsc::Sender<ExecutorWork>, work: ExecutorWork) -> (answer:
    Enqueued)
    ensures
        accepted(*final(sender)) == (if answer == Enqueued::Accepted {
            accepted(*old(sender)).push(work)
        } else {
            accepted(*old(sender))
        }),
        answer == Enqueued::Full ==> accepted(*old(sender)).len() >= queue_bound(*old(sender))
            && queue_filled(filled_queue(*old(sender)), accepted(*old(sender)).len()),
        answer == Enqueued::Closed ==> queue_ended(filled_queue(*old(sender))),
        queue_bound(*final(sender)) == queue_bound(*old(sender)),
        filled_queue(*final(sender)) == filled_queue(*old(sender)),
{
    match sender.try_send(work) {
        Ok(()) => Enqueued::Accepted,
        Err(mpsc::error::TrySendError::Full(_)) => Enqueued::Full,
        Err(mpsc::error::TrySendError::Closed(_)) => Enqueued::Closed,
    }
}

/// Calls `tokio::sync::mpsc::Receiver::close`: the queue is closed and accepts
/// nothing more, and what it holds stays. The sender is lent to the call, so no
/// send is under way: where it fills this queue, the queue holds what it has
/// accepted, in order, but for as many works as the receiver has handed out.
#[verifier::external_body]
pub(crate) fn close_queue(
    receiver: &mut mpsc::Receiver<ExecutorWork>,
    lent: &mpsc::Sender<ExecutorWork>,
)
    ensures
        filled_queue(*lent) == emptied_queue(*old(receiver)) ==> taken(*old(receiver)) <= accepted(
            *lent,
        ).len() && held(*final(receiver)) == accepted(*lent).skip(taken(*old(receiver)) as int),
        queue_closed(*final(receiver)),
        queue_ended(emptied_queue(*final(receiver))),
        held(*final(receiver)) == held(*old(receiver)),
        emptied_queue(*final(receiver)) == emptied_queue(*old(receiver)),
{
    let _ = lent;
    receiver.close();
}

/// Calls `tokio::sync::mpsc::Receiver::try_recv` on a closed queue: it hands
/// out the first of what it holds, or nothing where it holds nothing.
#[verifier::external_body]
pub(crate) fn take_queued(receiver: &mut mpsc::Receiver<ExecutorWork>) -> (work: Option<
    ExecutorWork,
>)
    requires
        queue_closed(*old(receiver)),
    ensures
        match work {
            Some(work) => held(*old(receiver)) == seq![work] + held(*final(receiver)),
            None => held(*old(receiver)).len() == 0,
        },
        queue_closed(*final(receiver)),
        emptied_queue(*final(receiver)) == emptied_queue(*old(receiver)),
{
    receiver.try_recv().ok()
}

} // verus!
