//! What holds of the channel across its operations.

use vstd::prelude::*;

use super::order::{first_default, first_max, has_default, last_max, lemma_first_max, lemma_top_rank, rank_of, top_rank};
use super::state::{
    index_of_id, lemma_longest_bounds, lemma_longest_le, longest, ActorMessage, ChanView, CtrlMsg, MailboxFull,
    ReceiverPoll,
};
use super::rx::{receive_dropped, receive_poll, ReceiveFuture, ReceivePoll, Receiver};
use super::{HasPriority, Priority};
use crate::error::Error;

verus! {

/// A message sent to a channel that is not connected is refused with `Disconnected`, and the
/// channel is unchanged.
pub proof fn law_disconnected_refuses<M: HasPriority, B: HasPriority>(v: ChanView<M, B>, m: M)
    requires
        !v.is_connected(),
    ensures
        v.try_send_to_one(m) == (v, Err::<Result<(), MailboxFull>, Error>(Error::Disconnected)),
{
}

/// Messages of default priority leave the ordered mailbox in the order they were sent: two
/// such messages sent one after the other, with no receiver waiting and room in the mailbox,
/// are queued behind the earlier ones in the order of sending.
pub proof fn law_ordered_in_send_order<M: HasPriority, B: HasPriority>(v: ChanView<M, B>, a: M, b: M)
    requires
        v.is_connected(),
        v.waiting_rx.len() == 0,
        a.spec_priority() == Priority::spec_default(),
        b.spec_priority() == Priority::spec_default(),
        !v.is_full(v.ordered.len() + 1int),
    ensures
        v.try_send_to_one(a).0.try_send_to_one(b).0.ordered == v.ordered.push(a).push(b),
        v.try_send_to_one(a).1 == Ok::<Result<(), MailboxFull>, Error>(Ok(())),
        v.try_send_to_one(a).0.try_send_to_one(b).1 == Ok::<Result<(), MailboxFull>, Error>(Ok(())),
{
}

/// The ordered mailbox is taken from its front.
pub proof fn law_ordered_takes_front<M: HasPriority, B: HasPriority>(v: ChanView<M, B>)
    requires
        v.ordered.len() > 0,
    ensures
        v.pop_ordered().1 == Some(v.ordered[0]),
        v.pop_ordered().0.ordered.take(v.ordered.len() - 1) == v.ordered.drop_first(),
{
    let (s2, w) = ChanView { ordered: v.ordered.drop_first(), ..v }.take_waiting_ordered();
    assert(s2.ordered == v.ordered.drop_first());
    assert(v.ordered.drop_first().push(v.ordered[0]).take(v.ordered.len() - 1) =~= v.ordered.drop_first());
    assert(v.ordered.drop_first().take(v.ordered.len() - 1) =~= v.ordered.drop_first());
}

/// The priority mailbox hands out a message of the highest priority it holds.
pub proof fn law_priority_takes_highest<M: HasPriority, B: HasPriority>(v: ChanView<M, B>)
    requires
        v.prioritised.len() > 0,
    ensures
        v.pop_priority().1 matches Some(m) && rank_of(m) == top_rank(v.prioritised),
        forall|j: int| 0 <= j < v.prioritised.len() ==> rank_of(#[trigger] v.prioritised[j]) <= rank_of(v.pop_priority().1.unwrap()),
{
    lemma_first_max(v.prioritised);
}

/// A default priority message is taken from the ordered mailbox only if the other two
/// mailboxes are empty: while the priority mailbox or the receiver's broadcast mailbox holds a
/// message, a receive leaves the ordered mailbox as it is.
pub proof fn law_ordered_only_when_others_empty<M: HasPriority, B: HasPriority>(v: ChanView<M, B>, k: int)
    requires
        0 <= k < v.mailboxes.len(),
        v.prioritised.len() > 0 || v.mailboxes[k].1.len() > 0,
    ensures
        v.try_recv(k).0.ordered == v.ordered,
        v.try_recv(k).1 is Ok,
{
    lemma_top_rank(v.prioritised);
    lemma_top_rank(v.mailboxes[k].1);
    if v.prioritised.len() > 0 {
        lemma_first_max(v.prioritised);
    }
    if v.mailboxes[k].1.len() > 0 {
        lemma_first_max(v.mailboxes[k].1);
    }
}

/// A message sent while a receiver waits goes straight to the receiver that has waited
/// longest, and that receiver's next poll hands it over.
pub proof fn law_waiting_receiver_gets_message<M: HasPriority, B: HasPriority>(v: ChanView<M, B>, m: M, k: int)
    requires
        v.is_connected(),
        v.waiting_rx.len() > 0,
        index_of_id(v.rx_mail, v.waiting_rx[0]) < 0,
    ensures
        v.try_send_to_one(m).1 == Ok::<Result<(), MailboxFull>, Error>(Ok(())),
        v.try_send_to_one(m).0.poll_receiver(v.waiting_rx[0], k).1 == ReceiverPoll::Ready(
            Some(ActorMessage::<M, B>::ToOneActor(m)),
        ),
{
    let v1 = v.try_send_to_one(m).0;
    let id = v.waiting_rx[0];
    let n = v.rx_mail.len() as int;
    assert(v1.rx_mail[n] == (id, CtrlMsg::NewMessage(m)));
    super::state::lemma_index_of_id_exists(v1.rx_mail, id, n);
    let i = index_of_id(v1.rx_mail, id);
    if i < n {
        assert(v1.rx_mail[i] == v.rx_mail[i]);
        super::state::lemma_index_of_id_exists(v.rx_mail, id, i);
    }
}

/// A message of default priority sent to an idle actor, whose mailboxes are empty and which
/// has room, is what its receiver takes next.
pub proof fn law_sent_message_is_received<M: HasPriority, B: HasPriority>(v: ChanView<M, B>, m: M, k: int)
    requires
        v.is_connected(),
        v.waiting_rx.len() == 0,
        v.ordered.len() == 0,
        v.prioritised.len() == 0,
        0 <= k < v.mailboxes.len(),
        v.mailboxes[k].1.len() == 0,
        m.spec_priority() == Priority::spec_default(),
        !v.is_full(0),
    ensures
        v.try_send_to_one(m).0.try_recv(k).1 == Ok::<ActorMessage<M, B>, u64>(ActorMessage::ToOneActor(m)),
{
    let v1 = v.try_send_to_one(m).0;
    assert(v1.ordered =~= seq![m]);
    assert(v1.prioritised.len() == 0);
    assert(v1.mailboxes[k].1.len() == 0);
}

/// A message of higher priority sent to an idle actor, whose mailboxes are empty and which
/// has room, is what its receiver takes next.
pub proof fn law_sent_priority_message_is_received<M: HasPriority, B: HasPriority>(v: ChanView<M, B>, m: M, k: int)
    requires
        v.is_connected(),
        v.waiting_rx.len() == 0,
        v.prioritised.len() == 0,
        0 <= k < v.mailboxes.len(),
        v.mailboxes[k].1.len() == 0,
        m.spec_priority() != Priority::spec_default(),
        !v.is_full(0),
    ensures
        v.try_send_to_one(m).0.try_recv(k).1 == Ok::<ActorMessage<M, B>, u64>(ActorMessage::ToOneActor(m)),
{
    let v1 = v.try_send_to_one(m).0;
    assert(v1.prioritised =~= seq![m]);
    assert(v1.mailboxes[k].1.len() == 0);
    lemma_top_rank(v1.prioritised);
    lemma_top_rank(v1.mailboxes[k].1);
    lemma_first_max(v1.prioritised);
    assert(rank_of(m) > 0) by {
        if rank_of(m) <= 0 {
            assert(m.spec_priority() == Priority::Valued(0));
        }
    }
}

/// A send never queues into a full mailbox: the message waits instead, and both mailboxes stay
/// as they were.
pub proof fn law_full_mailbox_parks_sender<M: HasPriority, B: HasPriority>(v: ChanView<M, B>, m: M)
    requires
        v.is_connected(),
        v.waiting_rx.len() == 0,
        m.spec_priority() == Priority::spec_default() ==> v.ordered_full(),
        m.spec_priority() != Priority::spec_default() ==> v.priority_full(),
    ensures
        v.try_send_to_one(m).1 == Ok::<Result<(), MailboxFull>, Error>(Err(MailboxFull(v.next_id))),
        v.try_send_to_one(m).0.ordered == v.ordered,
        v.try_send_to_one(m).0.prioritised == v.prioritised,
        v.try_send_to_one(m).0.waiting_one == v.waiting_one.push(super::state::WaitingSender { id: v.next_id, message: m }),
{
}

/// A broadcast is queued in every broadcast mailbox, behind what each already holds.
pub proof fn law_broadcast_reaches_every_mailbox<M: HasPriority, B: HasPriority>(v: ChanView<M, B>, m: std::sync::Arc<B>)
    requires
        v.is_connected(),
        !v.broadcast_full(),
    ensures
        v.try_send_to_all(m).1 == Ok::<Result<(), MailboxFull>, Error>(Ok(())),
        v.try_send_to_all(m).0.mailboxes.len() == v.mailboxes.len(),
        forall|k: int| 0 <= k < v.mailboxes.len() ==> (#[trigger] v.try_send_to_all(m).0.mailboxes[k]).1 == v.mailboxes[k].1.push(m),
{
}

/// A broadcast sent while the broadcast mailboxes are full waits: every mailbox stays as it
/// was, whatever the broadcast's priority.
pub proof fn law_full_broadcast_parks_sender<M: HasPriority, B: HasPriority>(v: ChanView<M, B>, m: std::sync::Arc<B>)
    requires
        v.is_connected(),
        v.broadcast_full(),
    ensures
        v.try_send_to_all(m).1 == Ok::<Result<(), MailboxFull>, Error>(Err(MailboxFull(v.next_id))),
        v.try_send_to_all(m).0.mailboxes == v.mailboxes,
        v.try_send_to_all(m).0.waiting_all == v.waiting_all.push(super::state::WaitingSender { id: v.next_id, message: m }),
{
}

/// Each receiver takes the broadcasts in its mailbox from high to low priority, the earliest
/// sent among equals.
pub proof fn law_broadcast_takes_highest<M: HasPriority, B: HasPriority>(v: ChanView<M, B>, k: int)
    requires
        0 <= k < v.mailboxes.len(),
        v.mailboxes[k].1.len() > 0,
    ensures
        v.pop_broadcast(k).1 == Some(v.mailboxes[k].1[first_max(v.mailboxes[k].1)]),
        forall|j: int| 0 <= j < v.mailboxes[k].1.len() ==> rank_of(#[trigger] v.mailboxes[k].1[j]) <= rank_of(v.pop_broadcast(k).1.unwrap()),
        forall|j: int| 0 <= j < first_max(v.mailboxes[k].1) ==> rank_of(#[trigger] v.mailboxes[k].1[j]) < rank_of(v.pop_broadcast(k).1.unwrap()),
{
    lemma_first_max(v.mailboxes[k].1);
}

/// The broadcast tail is only shortened when the longest mailbox is: after a receiver takes a
/// broadcast (and no waiting broadcast is admitted), the tail is the length of the longest
/// mailbox, which still counts every broadcast some other receiver has not taken.
pub proof fn law_tail_waits_for_slowest<M: HasPriority, B: HasPriority>(v: ChanView<M, B>, k: int)
    requires
        v.wf(),
        0 <= k < v.mailboxes.len(),
        v.mailboxes[k].1.len() > 0,
        v.waiting_all.len() == 0,
    ensures
        v.pop_broadcast(k).0.tail == super::state::longest(v.pop_broadcast(k).0.mailboxes),
        forall|j: int| 0 <= j < v.mailboxes.len() && j != k ==> (#[trigger] v.pop_broadcast(k).0.mailboxes[j]) == v.mailboxes[j],
{
    let q = v.mailboxes[k].1;
    lemma_first_max(q);
    let i = first_max(q);
    let boxes = v.mailboxes.update(k, (v.mailboxes[k].0, q.remove(i)));
    super::state::lemma_longest_bounds(v.mailboxes);
    assert forall|j: int| 0 <= j < boxes.len() implies (#[trigger] boxes[j]).1.len() <= super::state::longest(v.mailboxes) by {
        assert(v.mailboxes[j].1.len() <= super::state::longest(v.mailboxes));
    }
    super::state::lemma_longest_le(boxes, super::state::longest(v.mailboxes) as int);
    let s1 = ChanView { mailboxes: boxes, tail: super::state::longest(boxes) as usize, ..v };
    assert(s1.take_waiting_broadcast() == (s1, None::<std::sync::Arc<B>>));
    assert(v.pop_broadcast(k).0 == s1);
}

/// With every mailbox empty and no strong sender left, a receiver is told to shut down; with a
/// strong sender left, it waits instead.
pub proof fn law_empty_mailbox_shutdown_or_wait<M: HasPriority, B: HasPriority>(v: ChanView<M, B>, k: int)
    requires
        v.ordered.len() == 0,
        v.prioritised.len() == 0,
        0 <= k < v.mailboxes.len(),
        v.mailboxes[k].1.len() == 0,
    ensures
        v.sender_count == 0 ==> v.try_recv(k) == (v, Ok::<ActorMessage<M, B>, u64>(ActorMessage::Shutdown)),
        v.sender_count > 0 ==> v.try_recv(k).1 == Err::<ActorMessage<M, B>, u64>(v.next_id),
{
}

/// A receiver that has just begun to wait is woken only by a later notification: polling it at
/// once finds it pending.
pub proof fn law_fresh_waiter_pending<M: HasPriority, B: HasPriority>(v: ChanView<M, B>, k: int, j: int)
    requires
        v.wf(),
        v.try_recv(k).1 is Err,
    ensures
        v.try_recv(k).0.poll_receiver(v.try_recv(k).1->Err_0, j) == (v.try_recv(k).0, ReceiverPoll::<M, B>::Pending),
{
    let (v1, r) = v.try_recv(k);
    let id = v.next_id;
    assert(v1.rx_mail == v.rx_mail);
    assert forall|i: int| 0 <= i < v1.rx_mail.len() implies (#[trigger] v1.rx_mail[i]).0 != id by {
        assert(v.rx_mail[i].0 < v.next_id);
    }
    super::state::lemma_index_of_id_none(v1.rx_mail, id);
    assert(v1.waiting_rx[v1.waiting_rx.len() - 1] == id);
}

/// A message put back after a cancelled delivery, with no receiver waiting, is the first
/// ordered message when it has the default priority.
pub proof fn law_requeue_goes_first<M: HasPriority, B: HasPriority>(v: ChanView<M, B>, m: M)
    requires
        v.waiting_rx.len() == 0,
        m.spec_priority() == Priority::spec_default(),
    ensures
        v.requeue(m).ordered == seq![m] + v.ordered,
        v.requeue(m).pop_ordered().1 == Some(m),
{
    assert(v.ordered.insert(0, m) =~= seq![m] + v.ordered);
}

/// When the ordered mailbox frees a slot, the first waiting sender of default priority is
/// admitted behind the queued messages.
pub proof fn law_ordered_admits_first_waiting<M: HasPriority, B: HasPriority>(v: ChanView<M, B>)
    requires
        v.ordered.len() > 0,
        v.ordered_full(),
        !v.is_full(v.ordered.len() - 1),
        has_default(v.waiting_one),
    ensures
        v.pop_ordered().0.ordered == v.ordered.drop_first().push(v.waiting_one[first_default(v.waiting_one)].message),
        v.pop_ordered().0.finished == v.finished.push((v.waiting_one[first_default(v.waiting_one)].id, true)),
{
}

/// When the priority mailbox frees a slot, the waiting sender of highest priority (the last
/// to begin waiting among equals) is admitted.
pub proof fn law_priority_admits_highest_waiting<M: HasPriority, B: HasPriority>(v: ChanView<M, B>)
    requires
        v.prioritised.len() > 0,
        !v.is_full(v.prioritised.len() - 1),
        v.waiting_one.len() > 0,
    ensures
        v.pop_priority().0.prioritised.last() == v.waiting_one[last_max(v.waiting_one)].message,
{
    lemma_first_max(v.prioritised);
    super::order::lemma_last_max(v.waiting_one);
}

/// The number of messages in a mailbox whose three queues are within their capacity is at most
/// three times that capacity.
pub proof fn law_len_within_three_capacities<M: HasPriority, B: HasPriority>(v: ChanView<M, B>, cap: usize)
    requires
        v.capacity == Some(cap),
        v.within_capacity(),
    ensures
        v.len() <= 3 * cap,
{
}

proof fn lemma_pop_ordered_capacity<M: HasPriority, B: HasPriority>(v: ChanView<M, B>)
    requires
        v.within_capacity(),
    ensures
        v.pop_ordered().0.within_capacity(),
{
}

proof fn lemma_pop_priority_capacity<M: HasPriority, B: HasPriority>(v: ChanView<M, B>)
    requires
        v.within_capacity(),
    ensures
        v.pop_priority().0.within_capacity(),
{
    if v.prioritised.len() > 0 {
        lemma_first_max(v.prioritised);
    }
}

proof fn lemma_pop_broadcast_capacity<M: HasPriority, B: HasPriority>(v: ChanView<M, B>, k: int)
    requires
        longest(v.mailboxes) <= v.tail,
        v.within_capacity(),
        0 <= k < v.mailboxes.len(),
    ensures
        v.pop_broadcast(k).0.within_capacity(),
{
    let q = v.mailboxes[k].1;
    if q.len() > 0 {
        lemma_first_max(q);
        let boxes = v.mailboxes.update(k, (v.mailboxes[k].0, q.remove(first_max(q))));
        lemma_longest_bounds(v.mailboxes);
        assert forall|j: int| 0 <= j < boxes.len() implies (#[trigger] boxes[j]).1.len() <= v.tail by {
            assert(v.mailboxes[j].1.len() <= longest(v.mailboxes));
        }
        lemma_longest_le(boxes, v.tail as int);
    }
}

proof fn lemma_recv_capacity<M: HasPriority, B: HasPriority>(v: ChanView<M, B>, k: int, id: u64)
    requires
        v.wf(),
        v.within_capacity(),
        0 <= k < v.mailboxes.len(),
    ensures
        v.try_recv(k).0.within_capacity(),
        v.poll_receiver(id, k).0.within_capacity(),
{
    lemma_pop_ordered_capacity(v);
    lemma_pop_priority_capacity(v);
    lemma_pop_broadcast_capacity(v, k);
    let i = index_of_id(v.rx_mail, id);
    if i >= 0 {
        let s1 = ChanView { rx_mail: v.rx_mail.remove(i), ..v };
        lemma_pop_broadcast_capacity(s1, k);
    }
}

/// Sends never fill a mailbox beyond the capacity: every operation but putting back a message
/// whose delivery was cancelled and broadcasting the shutdown notice keeps each mailbox within
/// it, as a fresh channel is; so the channel then holds at most three times the capacity.
pub proof fn law_capacity_kept<M: HasPriority, B: HasPriority>(
    v: ChanView<M, B>,
    m: M,
    b: std::sync::Arc<B>,
    k: int,
    id: u64,
    capacity: Option<usize>,
)
    requires
        v.wf(),
        v.within_capacity(),
        0 <= k < v.mailboxes.len(),
    ensures
        ChanView::<M, B>::initial(capacity).within_capacity(),
        v.try_send_to_one(m).0.within_capacity(),
        v.try_send_to_all(b).0.within_capacity(),
        v.try_recv(k).0.within_capacity(),
        v.poll_receiver(id, k).0.within_capacity(),
        v.cancel_receiver(id).0.within_capacity(),
        v.poll_sender(id).0.within_capacity(),
        v.cancel_sender(id).within_capacity(),
        v.shutdown_waiting_receivers().within_capacity(),
        v.add_receiver().within_capacity(),
        v.uncount_receiver().within_capacity(),
        v.release_mailbox(id).within_capacity(),
        v.capacity matches Some(c) ==> v.len() <= 3 * c,
{
    lemma_recv_capacity(v, k, id);
    reveal(ChanView::shutdown_waiting_senders);
}

/// Once the last strong sender has gone, every receiver that was waiting is told to shut down.
pub proof fn law_waiting_receivers_shut_down<M: HasPriority, B: HasPriority>(v: ChanView<M, B>, i: int, k: int)
    requires
        0 <= i < v.waiting_rx.len(),
        index_of_id(v.rx_mail, v.waiting_rx[i]) < 0,
    ensures
        v.shutdown_waiting_receivers().poll_receiver(v.waiting_rx[i], k).1 == ReceiverPoll::Ready(
            Some(ActorMessage::<M, B>::Shutdown),
        ),
{
    let id = v.waiting_rx[i];
    let w = v.shutdown_waiting_receivers();
    let n = v.rx_mail.len() as int;
    let extra = v.waiting_rx.map_values(|x: u64| (x, CtrlMsg::<M>::Shutdown));
    assert(w.rx_mail[n + i] == extra[i]);
    super::state::lemma_index_of_id_exists(w.rx_mail, id, n + i);
    let j = index_of_id(w.rx_mail, id);
    if j < n {
        assert(w.rx_mail[j] == v.rx_mail[j]);
        super::state::lemma_index_of_id_exists(v.rx_mail, id, j);
    } else {
        assert(w.rx_mail[j] == extra[j - n]);
    }
}

/// Dropping a receive that had already been handed a message loses no message: it is back in
/// the ordered or the priority mailbox, or handed to another waiting receiver.
pub proof fn law_dropped_receive_keeps_message<M: HasPriority, B: HasPriority>(
    v: ChanView<M, B>,
    rx: Receiver,
    id: u64,
    m: M,
)
    requires
        v.receiver_count > 1,
        index_of_id(v.rx_mail, id) >= 0,
        v.rx_mail[index_of_id(v.rx_mail, id)].1 == CtrlMsg::NewMessage(m),
    ensures
        ({
            let w = receive_dropped(v, ReceiveFuture::Waiting(rx, id));
            ||| w.ordered.contains(m)
            ||| w.prioritised.contains(m)
            ||| exists|j: int| 0 <= j < w.rx_mail.len() && #[trigger] w.rx_mail[j].1 == CtrlMsg::NewMessage(m)
        }),
{
    let (v1, back) = v.cancel_receiver(id);
    assert(back == Some(m));
    let v2 = v1.requeue(m);
    let w = receive_dropped(v, ReceiveFuture::Waiting(rx, id));
    assert(v2.receiver_count == v.receiver_count);
    assert(w.ordered == v2.ordered && w.prioritised == v2.prioritised && w.rx_mail == v2.rx_mail);
    if v1.waiting_rx.len() > 0 {
        let n = v1.rx_mail.len() as int;
        assert(w.rx_mail[n].1 == CtrlMsg::NewMessage(m));
    } else if m.spec_priority() == Priority::spec_default() {
        assert(w.ordered[0] == m);
    } else {
        assert(w.prioritised[w.prioritised.len() - 1] == m);
    }
}

/// A receive that has been handed a message completes in a single poll, with that message.
pub proof fn law_handed_message_completes_receive<M: HasPriority, B: HasPriority>(
    v: ChanView<M, B>,
    rx: Receiver,
    id: u64,
    m: M,
)
    requires
        index_of_id(v.rx_mail, id) >= 0,
        v.rx_mail[index_of_id(v.rx_mail, id)].1 == CtrlMsg::NewMessage(m),
    ensures
        receive_poll(v, ReceiveFuture::Waiting(rx, id)).1 == ReceiveFuture::Done,
        receive_poll(v, ReceiveFuture::Waiting(rx, id)).2 == ReceivePoll::Ready(ActorMessage::<M, B>::ToOneActor(m)),
{
}

/// `n` receives in a row by the receiver whose broadcast mailbox is at index `k`: the state
/// they leave and what each one returned.
pub open spec fn receive_n<M: HasPriority, B: HasPriority>(v: ChanView<M, B>, k: int, n: nat) -> (
    ChanView<M, B>,
    Seq<Result<ActorMessage<M, B>, u64>>,
)
    decreases n,
{
    if n == 0 {
        (v, Seq::empty())
    } else {
        let (v1, r) = v.try_recv(k);
        let (vn, rs) = receive_n(v1, k, (n - 1) as nat);
        (vn, seq![r] + rs)
    }
}

/// Once no strong sender is left, an actor still handles the messages left in the ordered
/// mailbox, in the order they were sent, and is then told to shut down (while the other
/// mailboxes are empty and no sender of a default priority message is parked).
pub proof fn law_left_messages_then_shutdown<M: HasPriority, B: HasPriority>(v: ChanView<M, B>, k: int)
    requires
        0 <= k < v.mailboxes.len(),
        v.prioritised.len() == 0,
        v.mailboxes[k].1.len() == 0,
        !has_default(v.waiting_one),
        v.sender_count == 0,
    ensures
        receive_n(v, k, v.ordered.len()).1 == v.ordered.map_values(
            |m: M| Ok::<ActorMessage<M, B>, u64>(ActorMessage::ToOneActor(m)),
        ),
        receive_n(v, k, v.ordered.len()).0.try_recv(k).1 == Ok::<ActorMessage<M, B>, u64>(ActorMessage::Shutdown),
    decreases v.ordered.len(),
{
    let n = v.ordered.len();
    let want = v.ordered.map_values(|m: M| Ok::<ActorMessage<M, B>, u64>(ActorMessage::ToOneActor(m)));
    if n == 0 {
        assert(want =~= Seq::empty());
    } else {
        let s1 = ChanView { ordered: v.ordered.drop_first(), ..v };
        let v1 = v.try_recv(k).0;
        assert(v1 == s1);
        law_left_messages_then_shutdown(v1, k);
        let rest = v1.ordered.map_values(|m: M| Ok::<ActorMessage<M, B>, u64>(ActorMessage::ToOneActor(m)));
        assert(receive_n(v, k, n).1 == seq![v.try_recv(k).1] + rest);
        assert(want =~= seq![v.try_recv(k).1] + rest);
    }
}

/// A receive hands out a message of the highest priority among the priority mailbox and the
/// receiver's broadcast mailbox: a message for one actor taken while either holds a message
/// comes from the priority mailbox and ranks at least as high as everything in both; a
/// broadcast is taken only when it ranks above everything in the priority mailbox and at least
/// as high as everything in the receiver's mailbox.
pub proof fn law_recv_takes_highest<M: HasPriority, B: HasPriority>(v: ChanView<M, B>, k: int)
    requires
        0 <= k < v.mailboxes.len(),
        v.prioritised.len() > 0 || v.mailboxes[k].1.len() > 0,
    ensures
        v.try_recv(k).1 is Ok,
        v.try_recv(k).1 matches Ok(ActorMessage::ToOneActor(m)) ==> {
            &&& v.prioritised.contains(m)
            &&& forall|j: int| 0 <= j < v.prioritised.len() ==> rank_of(#[trigger] v.prioritised[j]) <= rank_of(m)
            &&& forall|j: int| 0 <= j < v.mailboxes[k].1.len() ==> rank_of(#[trigger] v.mailboxes[k].1[j]) <= rank_of(m)
        },
        v.try_recv(k).1 matches Ok(ActorMessage::ToAllActors(b)) ==> {
            &&& v.mailboxes[k].1.contains(b)
            &&& forall|j: int| 0 <= j < v.prioritised.len() ==> rank_of(#[trigger] v.prioritised[j]) < rank_of(b)
            &&& forall|j: int| 0 <= j < v.mailboxes[k].1.len() ==> rank_of(#[trigger] v.mailboxes[k].1[j]) <= rank_of(b)
        },
{
    let p = v.prioritised;
    let q = v.mailboxes[k].1;
    lemma_top_rank(p);
    lemma_top_rank(q);
    if p.len() > 0 {
        lemma_first_max(p);
        assert(p[first_max(p)] == p[first_max(p)]);
    }
    if q.len() > 0 {
        lemma_first_max(q);
        assert(q[first_max(q)] == q[first_max(q)]);
    }
}

/// A broadcast wakes every receiver that was waiting for a message: none is left waiting, and a
/// receiver that waited with nothing yet handed to it, polled next, is handed the broadcast
/// from its (until then empty) mailbox.
pub proof fn law_broadcast_wakes_waiting_receivers<M: HasPriority, B: HasPriority>(
    v: ChanView<M, B>,
    b: std::sync::Arc<B>,
    i: int,
    k: int,
)
    requires
        v.is_connected(),
        !v.broadcast_full(),
        0 <= i < v.waiting_rx.len(),
        index_of_id(v.rx_mail, v.waiting_rx[i]) < 0,
        0 <= k < v.mailboxes.len(),
        v.mailboxes[k].1.len() == 0,
    ensures
        v.try_send_to_all(b).1 == Ok::<Result<(), MailboxFull>, Error>(Ok(())),
        v.try_send_to_all(b).0.waiting_rx.len() == 0,
        v.try_send_to_all(b).0.poll_receiver(v.waiting_rx[i], k).1 == ReceiverPoll::Ready(
            Some(ActorMessage::<M, B>::ToAllActors(b)),
        ),
{
    let id = v.waiting_rx[i];
    let w = v.try_send_to_all(b).0;
    let n = v.rx_mail.len() as int;
    let extra = v.waiting_rx.map_values(|x: u64| (x, CtrlMsg::<M>::NewBroadcast));
    assert(w.rx_mail == v.rx_mail + extra);
    assert(w.rx_mail[n + i] == extra[i]);
    super::state::lemma_index_of_id_exists(w.rx_mail, id, n + i);
    let j = index_of_id(w.rx_mail, id);
    if j < n {
        assert(w.rx_mail[j] == v.rx_mail[j]);
        super::state::lemma_index_of_id_exists(v.rx_mail, id, j);
    }
    assert(w.rx_mail[j] == extra[j - n]);
    let s1 = ChanView { rx_mail: w.rx_mail.remove(j), ..w };
    assert(s1.mailboxes[k].1 =~= seq![b]);
    lemma_first_max(s1.mailboxes[k].1);
}

/// A receiver that lets go of a broadcast mailbox it alone held removes that mailbox, with
/// whatever broadcasts it still held, and leaves every other mailbox as it was; a mailbox held by
/// others as well is kept, with one holder less.
pub proof fn law_released_mailbox_gone<M: HasPriority, B: HasPriority>(v: ChanView<M, B>, id: u64)
    requires
        v.wf(),
        index_of_id(v.mailboxes, id) >= 0,
    ensures
        ({
            let k = index_of_id(v.mailboxes, id);
            let w = v.release_mailbox(id);
            &&& v.holders[k] <= 1 ==> index_of_id(w.mailboxes, id) < 0 && w.mailboxes.len() == v.mailboxes.len() - 1
                && forall|j: int| 0 <= j < v.mailboxes.len() && j != k ==> w.mailboxes.contains(#[trigger] v.mailboxes[j])
            &&& v.holders[k] > 1 ==> w.mailboxes == v.mailboxes && w.holders[k] == v.holders[k] - 1
        }),
{
    let k = index_of_id(v.mailboxes, id);
    super::state::lemma_index_of_id_valid(v.mailboxes, id);
    let w = v.release_mailbox(id);
    if v.holders[k] <= 1 {
        assert(w.mailboxes == v.mailboxes.remove(k));
        assert forall|j: int| 0 <= j < w.mailboxes.len() implies (#[trigger] w.mailboxes[j]).0 != id by {
            if j < k {
                assert(w.mailboxes[j] == v.mailboxes[j]);
            } else {
                assert(w.mailboxes[j] == v.mailboxes[j + 1]);
            }
        }
        super::state::lemma_index_of_id_none(w.mailboxes, id);
        assert forall|j: int| 0 <= j < v.mailboxes.len() && j != k implies w.mailboxes.contains(#[trigger] v.mailboxes[j]) by {
            if j < k {
                assert(w.mailboxes[j] == v.mailboxes[j]);
            } else {
                assert(w.mailboxes[j - 1] == v.mailboxes[j]);
            }
        }
    }
}

} // verus!
