//! The abstract state of an actor's channel and what each of its operations does to it.

use std::sync::Arc;

use vstd::prelude::*;

use super::order::{first_default, first_max, has_default, last_max, top_rank};
use super::{HasPriority, Priority};
use crate::error::Error;

verus! {

/// A message that could not be queued because its mailbox was full, together with the id under
/// which its sender waits for space.
pub struct WaitingSender<M> {
    /// The id of the waiting sender.
    pub id: u64,
    /// The message it waits to deliver.
    pub message: M,
}

impl<M: HasPriority> HasPriority for WaitingSender<M> {
    open spec fn spec_priority(&self) -> Priority {
        self.message.spec_priority()
    }

    fn priority(&self) -> (p: Priority) {
        self.message.priority()
    }
}

impl<B: HasPriority> HasPriority for Arc<B> {
    open spec fn spec_priority(&self) -> Priority {
        (**self).spec_priority()
    }

    fn priority(&self) -> (p: Priority) {
        (**self).priority()
    }
}

/// A notification handed to a receiver that waits for a message.
pub enum CtrlMsg<M> {
    /// A message to one actor, delivered directly to the waiting receiver.
    NewMessage(M),
    /// A broadcast has been queued in every broadcast mailbox.
    NewBroadcast,
    /// The last sender has gone away.
    Shutdown,
}

/// What an actor is handed by its mailbox.
pub enum ActorMessage<M, B> {
    /// A message for this actor alone.
    ToOneActor(M),
    /// A message for every actor on the address.
    ToAllActors(Arc<B>),
    /// The channel has no senders left: the actor should stop.
    Shutdown,
}

/// An error returned in case the mailbox of an actor is full: the id of the waiting sender that
/// now holds the message.
#[derive(Clone, Copy, PartialEq, Eq, Structural, Debug)]
pub struct MailboxFull(pub u64);

/// The abstract state of a channel.
pub struct ChanView<M, B> {
    /// The capacity of each of the three mailboxes, if bounded.
    pub capacity: Option<usize>,
    /// The number of strong senders.
    pub sender_count: usize,
    /// The number of receivers.
    pub receiver_count: usize,
    /// Messages of default priority, in the order they are handled.
    pub ordered: Seq<M>,
    /// Messages of other priorities, in the order they arrived.
    pub prioritised: Seq<M>,
    /// The broadcast mailbox of each receiver: its id and its broadcasts in arrival order.
    pub mailboxes: Seq<(u64, Seq<Arc<B>>)>,
    /// For each broadcast mailbox, the number of receivers that hold it.
    pub holders: Seq<usize>,
    /// The length of the longest broadcast mailbox, as last counted.
    pub tail: usize,
    /// Senders of messages to one actor waiting for space, in the order they began to wait.
    pub waiting_one: Seq<WaitingSender<M>>,
    /// Senders of broadcasts waiting for space, in the order they began to wait.
    pub waiting_all: Seq<WaitingSender<Arc<B>>>,
    /// Waiting senders that are done waiting: whether their message was delivered.
    pub finished: Seq<(u64, bool)>,
    /// Receivers waiting for a message, in the order they began to wait.
    pub waiting_rx: Seq<u64>,
    /// Notifications handed to waiting receivers and not yet taken.
    pub rx_mail: Seq<(u64, CtrlMsg<M>)>,
    /// The next unused id.
    pub next_id: u64,
}

/// The length of the longest queue among `mailboxes`.
pub open spec fn longest<B>(mailboxes: Seq<(u64, Seq<Arc<B>>)>) -> nat
    decreases mailboxes.len(),
{
    if mailboxes.len() == 0 {
        0
    } else {
        let r = longest(mailboxes.drop_last());
        let l = mailboxes.last().1.len();
        if l > r {
            l
        } else {
            r
        }
    }
}

/// `mailboxes` with `m` queued in each one.
pub open spec fn all_pushed<B>(mailboxes: Seq<(u64, Seq<Arc<B>>)>, m: Arc<B>) -> Seq<(u64, Seq<Arc<B>>)> {
    mailboxes.map_values(|mb: (u64, Seq<Arc<B>>)| (mb.0, mb.1.push(m)))
}

/// The first index of an entry with id `id`, or `-1`.
#[verifier::opaque]
pub open spec fn index_of_id<T>(s: Seq<(u64, T)>, id: u64) -> int {
    if exists|i: int| 0 <= i < s.len() && (#[trigger] s[i]).0 == id {
        choose|i: int|
            0 <= i < s.len() && (#[trigger] s[i]).0 == id && forall|j: int|
                0 <= j < i ==> (#[trigger] s[j]).0 != id
    } else {
        -1
    }
}

/// The first index of a waiting sender with id `id`, or `-1`.
#[verifier::opaque]
pub open spec fn index_of_waiting<M>(s: Seq<WaitingSender<M>>, id: u64) -> int {
    if exists|i: int| 0 <= i < s.len() && (#[trigger] s[i]).id == id {
        choose|i: int|
            0 <= i < s.len() && (#[trigger] s[i]).id == id && forall|j: int|
                0 <= j < i ==> (#[trigger] s[j]).id != id
    } else {
        -1
    }
}

/// The first index of `id` in `s`, or `-1`.
#[verifier::opaque]
pub open spec fn index_of<T>(s: Seq<T>, x: T) -> int {
    if s.contains(x) {
        choose|i: int| 0 <= i < s.len() && s[i] == x && forall|j: int| 0 <= j < i ==> s[j] != x
    } else {
        -1
    }
}

impl<M: HasPriority, B: HasPriority> ChanView<M, B> {
    /// The state of a fresh channel.
    pub open spec fn initial(capacity: Option<usize>) -> Self {
        ChanView {
            capacity,
            sender_count: 0,
            receiver_count: 0,
            ordered: Seq::empty(),
            prioritised: Seq::empty(),
            mailboxes: Seq::empty(),
            holders: Seq::empty(),
            tail: 0,
            waiting_one: Seq::empty(),
            waiting_all: Seq::empty(),
            finished: Seq::empty(),
            waiting_rx: Seq::empty(),
            rx_mail: Seq::empty(),
            next_id: 0,
        }
    }

    /// The longest broadcast mailbox is never longer than the counted tail, the broadcast
    /// mailboxes have distinct ids, every mailbox and every waiting or notified receiver has an
    /// id below the next unused one, and the ids of parked senders and recorded outcomes are
    /// distinct.
    pub open spec fn wf(self) -> bool {
        &&& longest(self.mailboxes) <= self.tail
        &&& self.holders.len() == self.mailboxes.len()
        &&& forall|i: int| 0 <= i < self.mailboxes.len() ==> (#[trigger] self.mailboxes[i]).0 < self.next_id
        &&& forall|i: int, j: int|
            0 <= i < j < self.mailboxes.len() ==> (#[trigger] self.mailboxes[i]).0 != (#[trigger] self.mailboxes[j]).0
        &&& forall|i: int| 0 <= i < self.waiting_rx.len() ==> #[trigger] self.waiting_rx[i] < self.next_id
        &&& forall|i: int| 0 <= i < self.rx_mail.len() ==> (#[trigger] self.rx_mail[i]).0 < self.next_id
        &&& self.senders_distinct()
    }

    /// Both a receiver and a strong sender exist.
    pub open spec fn is_connected(self) -> bool {
        self.receiver_count > 0 && self.sender_count > 0
    }

    /// A queue of length `n` is full.
    pub open spec fn is_full(self, n: int) -> bool {
        match self.capacity {
            Some(cap) => n >= cap,
            None => false,
        }
    }

    /// The ordered mailbox is full.
    pub open spec fn ordered_full(self) -> bool {
        self.is_full(self.ordered.len() as int)
    }

    /// The priority mailbox is full.
    pub open spec fn priority_full(self) -> bool {
        self.is_full(self.prioritised.len() as int)
    }

    /// The broadcast mailboxes are full.
    pub open spec fn broadcast_full(self) -> bool {
        self.is_full(self.tail as int)
    }

    /// Each of the three mailboxes holds at most the capacity, when there is one.
    pub open spec fn within_capacity(self) -> bool {
        match self.capacity {
            Some(c) => self.ordered.len() <= c && self.prioritised.len() <= c && self.tail <= c,
            None => true,
        }
    }

    /// The number of messages in the mailbox, counting each broadcast once.
    pub open spec fn len(self) -> int {
        self.tail + self.ordered.len() + self.prioritised.len()
    }

    /// Hands `m` to the receiver that has waited longest; gives `m` back if none waits.
    pub open spec fn fulfil_receiver(self, m: M) -> (Self, Option<M>) {
        if self.waiting_rx.len() > 0 {
            (
                ChanView {
                    waiting_rx: self.waiting_rx.drop_first(),
                    rx_mail: self.rx_mail.push((self.waiting_rx[0], CtrlMsg::NewMessage(m))),
                    ..self
                },
                None,
            )
        } else {
            (self, Some(m))
        }
    }

    /// Takes the message of the first waiting sender of default priority.
    pub open spec fn take_waiting_ordered(self) -> (Self, Option<M>) {
        if has_default(self.waiting_one) {
            let i = first_default(self.waiting_one);
            let w = self.waiting_one[i];
            (
                ChanView {
                    waiting_one: self.waiting_one.remove(i),
                    finished: self.finished.push((w.id, true)),
                    ..self
                },
                Some(w.message),
            )
        } else {
            (self, None)
        }
    }

    /// Takes the message of the last waiting sender of highest priority.
    pub open spec fn take_waiting_priority(self) -> (Self, Option<M>) {
        if self.waiting_one.len() > 0 {
            let i = last_max(self.waiting_one);
            let w = self.waiting_one[i];
            (
                ChanView {
                    waiting_one: self.waiting_one.remove(i),
                    finished: self.finished.push((w.id, true)),
                    ..self
                },
                Some(w.message),
            )
        } else {
            (self, None)
        }
    }

    /// Takes the broadcast of the last waiting broadcaster of highest priority.
    pub open spec fn take_waiting_broadcast(self) -> (Self, Option<Arc<B>>) {
        if self.waiting_all.len() > 0 {
            let i = last_max(self.waiting_all);
            let w = self.waiting_all[i];
            (
                ChanView {
                    waiting_all: self.waiting_all.remove(i),
                    finished: self.finished.push((w.id, true)),
                    ..self
                },
                Some(w.message),
            )
        } else {
            (self, None)
        }
    }

    /// Queues `m` in every broadcast mailbox and wakes every waiting receiver.
    pub open spec fn send_broadcast(self, m: Arc<B>) -> Self {
        ChanView {
            mailboxes: all_pushed(self.mailboxes, m),
            waiting_rx: Seq::empty(),
            rx_mail: self.rx_mail + self.waiting_rx.map_values(
                |id: u64| (id, CtrlMsg::<M>::NewBroadcast),
            ),
            tail: (self.tail + 1) as usize,
            ..self
        }
    }

    /// Takes the first ordered message, refilling the ordered mailbox from a waiting sender.
    pub open spec fn pop_ordered(self) -> (Self, Option<M>) {
        if self.ordered.len() == 0 {
            (self, None)
        } else {
            let m = self.ordered[0];
            let s1 = ChanView { ordered: self.ordered.drop_first(), ..self };
            if !s1.ordered_full() {
                let (s2, w) = s1.take_waiting_ordered();
                match w {
                    Some(x) => (ChanView { ordered: s2.ordered.push(x), ..s2 }, Some(m)),
                    None => (s2, Some(m)),
                }
            } else {
                (s1, Some(m))
            }
        }
    }

    /// Takes the first priority message of highest priority, refilling the priority mailbox
    /// from a waiting sender.
    pub open spec fn pop_priority(self) -> (Self, Option<M>) {
        if self.prioritised.len() == 0 {
            (self, None)
        } else {
            let i = first_max(self.prioritised);
            let m = self.prioritised[i];
            let s1 = ChanView { prioritised: self.prioritised.remove(i), ..self };
            if !s1.priority_full() {
                let (s2, w) = s1.take_waiting_priority();
                match w {
                    Some(x) => (ChanView { prioritised: s2.prioritised.push(x), ..s2 }, Some(m)),
                    None => (s2, Some(m)),
                }
            } else {
                (s1, Some(m))
            }
        }
    }

    /// Takes the first broadcast of highest priority from mailbox `k`, recounts the tail, and
    /// admits a waiting broadcast if there is room.
    pub open spec fn pop_broadcast(self, k: int) -> (Self, Option<Arc<B>>) {
        let q = self.mailboxes[k].1;
        if q.len() == 0 {
            (self, None)
        } else {
            let i = first_max(q);
            let m = q[i];
            let boxes = self.mailboxes.update(k, (self.mailboxes[k].0, q.remove(i)));
            let s1 = ChanView { mailboxes: boxes, tail: longest(boxes) as usize, ..self };
            if !s1.broadcast_full() {
                let (s2, w) = s1.take_waiting_broadcast();
                match w {
                    Some(x) => (s2.send_broadcast(x), Some(m)),
                    None => (s2, Some(m)),
                }
            } else {
                (s1, Some(m))
            }
        }
    }

    /// Chooses the next message for the receiver whose broadcast mailbox is `k`: an ordered one
    /// only while the other two mailboxes are empty, else the one of higher priority of those
    /// two. When there is none, the receiver is registered as waiting under a fresh id (`Err`),
    /// unless no sender is left (`Shutdown`).
    pub open spec fn try_recv(self, k: int) -> (Self, Result<ActorMessage<M, B>, u64>) {
        let bp = top_rank(self.mailboxes[k].1);
        let sp = top_rank(self.prioritised);
        if self.prioritised.len() == 0 && self.mailboxes[k].1.len() == 0 && self.ordered.len() > 0 {
            let (s1, m) = self.pop_ordered();
            (s1, Ok(ActorMessage::ToOneActor(m.unwrap())))
        } else if sp >= bp && self.prioritised.len() > 0 {
            let (s1, m) = self.pop_priority();
            (s1, Ok(ActorMessage::ToOneActor(m.unwrap())))
        } else if sp < bp {
            let (s1, m) = self.pop_broadcast(k);
            (s1, Ok(ActorMessage::ToAllActors(m.unwrap())))
        } else if self.sender_count == 0 {
            (self, Ok(ActorMessage::Shutdown))
        } else {
            (
                ChanView {
                    waiting_rx: self.waiting_rx.push(self.next_id),
                    next_id: (self.next_id + 1) as u64,
                    ..self
                },
                Err(self.next_id),
            )
        }
    }

    /// Queues a message for one actor: to a waiting receiver, else into its mailbox, else to a
    /// fresh waiting sender when that mailbox is full.
    pub open spec fn try_send_to_one(self, m: M) -> (Self, Result<Result<(), MailboxFull>, Error>) {
        if !self.is_connected() {
            (self, Err(Error::Disconnected))
        } else {
            let (s1, r) = self.fulfil_receiver(m);
            match r {
                None => (s1, Ok(Ok(()))),
                Some(m) => {
                    if m.spec_priority() == Priority::spec_default() && !s1.ordered_full() {
                        (ChanView { ordered: s1.ordered.push(m), ..s1 }, Ok(Ok(())))
                    } else if m.spec_priority() != Priority::spec_default() && !s1.priority_full() {
                        (ChanView { prioritised: s1.prioritised.push(m), ..s1 }, Ok(Ok(())))
                    } else {
                        (
                            ChanView {
                                waiting_one: s1.waiting_one.push(
                                    WaitingSender { id: s1.next_id, message: m },
                                ),
                                next_id: (s1.next_id + 1) as u64,
                                ..s1
                            },
                            Ok(Err(MailboxFull(s1.next_id))),
                        )
                    }
                },
            }
        }
    }

    /// Queues a broadcast in every mailbox, or hands it to a fresh waiting sender when the
    /// broadcast mailboxes are full.
    pub open spec fn try_send_to_all(self, m: Arc<B>) -> (
        Self,
        Result<Result<(), MailboxFull>, Error>,
    ) {
        if !self.is_connected() {
            (self, Err(Error::Disconnected))
        } else if self.broadcast_full() {
            (
                ChanView {
                    waiting_all: self.waiting_all.push(WaitingSender { id: self.next_id, message: m }),
                    next_id: (self.next_id + 1) as u64,
                    ..self
                },
                Ok(Err(MailboxFull(self.next_id))),
            )
        } else {
            (self.send_broadcast(m), Ok(Ok(())))
        }
    }

    /// Puts back a message whose delivery was cancelled: to a waiting receiver, else to the
    /// front of the ordered mailbox or into the priority mailbox.
    pub open spec fn requeue(self, m: M) -> Self {
        let (s1, r) = self.fulfil_receiver(m);
        match r {
            None => s1,
            Some(m) => {
                if m.spec_priority() == Priority::spec_default() {
                    ChanView { ordered: s1.ordered.insert(0, m), ..s1 }
                } else {
                    ChanView { prioritised: s1.prioritised.push(m), ..s1 }
                }
            },
        }
    }

    /// Tells every waiting receiver that the channel shut down.
    pub open spec fn shutdown_waiting_receivers(self) -> Self {
        ChanView {
            waiting_rx: Seq::empty(),
            rx_mail: self.rx_mail + self.waiting_rx.map_values(
                |id: u64| (id, CtrlMsg::<M>::Shutdown),
            ),
            ..self
        }
    }

    /// Drops every queued message and closes every waiting sender.
    #[verifier::opaque]
    pub open spec fn shutdown_waiting_senders(self) -> Self {
        ChanView {
            ordered: Seq::empty(),
            prioritised: Seq::empty(),
            mailboxes: Seq::empty(),
            holders: Seq::empty(),
            waiting_one: Seq::empty(),
            waiting_all: Seq::empty(),
            finished: self.finished + self.waiting_one.map_values(
                |w: WaitingSender<M>| (w.id, false),
            ) + self.waiting_all.map_values(|w: WaitingSender<Arc<B>>| (w.id, false)),
            ..self
        }
    }
}

} // verus!

verus! {

/// The rank of an optional priority; an absent priority ranks below every present one.
pub open spec fn opt_rank(p: Option<Priority>) -> int {
    match p {
        Some(p) => p.rank(),
        None => -1,
    }
}

/// Every mailbox is at most as long as the longest one.
pub proof fn lemma_longest_bounds<B>(s: Seq<(u64, Seq<Arc<B>>)>)
    ensures
        forall|i: int| 0 <= i < s.len() ==> (#[trigger] s[i]).1.len() <= longest(s),
    decreases s.len(),
{
    if s.len() > 0 {
        lemma_longest_bounds(s.drop_last());
        assert forall|i: int| 0 <= i < s.len() implies (#[trigger] s[i]).1.len() <= longest(s) by {
            if i < s.len() - 1 {
                assert(s[i] == s.drop_last()[i]);
            }
        }
    }
}

/// A bound on every mailbox bounds the longest one.
pub proof fn lemma_longest_le<B>(s: Seq<(u64, Seq<Arc<B>>)>, n: int)
    requires
        n >= 0,
        forall|i: int| 0 <= i < s.len() ==> (#[trigger] s[i]).1.len() <= n,
    ensures
        longest(s) <= n,
    decreases s.len(),
{
    if s.len() > 0 {
        let t = s.drop_last();
        assert forall|i: int| 0 <= i < t.len() implies (#[trigger] t[i]).1.len() <= n by {
            assert(t[i] == s[i]);
        }
        lemma_longest_le(t, n);
    }
}

/// Queueing a broadcast everywhere lengthens the longest mailbox by at most one.
pub proof fn lemma_longest_all_pushed<B>(s: Seq<(u64, Seq<Arc<B>>)>, m: Arc<B>)
    ensures
        longest(all_pushed(s, m)) <= longest(s) + 1,
{
    lemma_longest_bounds(s);
    let t = all_pushed(s, m);
    assert forall|i: int| 0 <= i < t.len() implies (#[trigger] t[i]).1.len() <= longest(s) + 1 by {
        assert(t[i].1 == s[i].1.push(m));
    }
    lemma_longest_le(t, longest(s) + 1int);
}

/// The first entry with id `id` is at `i`.
pub proof fn lemma_index_of_id<T>(s: Seq<(u64, T)>, id: u64, i: int)
    requires
        0 <= i < s.len(),
        s[i].0 == id,
        forall|j: int| 0 <= j < i ==> (#[trigger] s[j]).0 != id,
    ensures
        index_of_id(s, id) == i,
{
    reveal(index_of_id);
    let k = index_of_id(s, id);
    assert(0 <= k < s.len() && s[k].0 == id && forall|j: int| 0 <= j < k ==> (#[trigger] s[j]).0 != id);
    if k < i {
        assert(s[k].0 != id);
    } else if i < k {
        assert(s[i].0 != id);
    }
}

/// The first waiting sender with id `id` is at `i`.
pub proof fn lemma_index_of_waiting<M>(s: Seq<WaitingSender<M>>, id: u64, i: int)
    requires
        0 <= i < s.len(),
        s[i].id == id,
        forall|j: int| 0 <= j < i ==> (#[trigger] s[j]).id != id,
    ensures
        index_of_waiting(s, id) == i,
{
    reveal(index_of_waiting);
    let k = index_of_waiting(s, id);
    assert(0 <= k < s.len() && s[k].id == id && forall|j: int| 0 <= j < k ==> (#[trigger] s[j]).id != id);
    if k < i {
        assert(s[k].id != id);
    } else if i < k {
        assert(s[i].id != id);
    }
}

/// The first occurrence of `x` is at `i`.
pub proof fn lemma_index_of<T>(s: Seq<T>, x: T, i: int)
    requires
        0 <= i < s.len(),
        s[i] == x,
        forall|j: int| 0 <= j < i ==> s[j] != x,
    ensures
        index_of(s, x) == i,
{
    reveal(index_of);
    assert(s.contains(x));
    let k = index_of(s, x);
    assert(0 <= k < s.len() && s[k] == x && forall|j: int| 0 <= j < k ==> s[j] != x);
    if k < i {
        assert(s[k] != x);
    } else if i < k {
        assert(s[i] != x);
    }
}

} // verus!

verus! {

/// The outcome of polling a receiver that waits for a message.
pub enum ReceiverPoll<M, B> {
    /// No notification has arrived yet.
    Pending,
    /// A notification arrived: the message it carried or led to, or `None` when it turned out
    /// to hold nothing (a broadcast already taken, or a receiver the channel no longer knows).
    Ready(Option<ActorMessage<M, B>>),
}

/// The outcome of polling a sender that waits for space.
#[derive(Clone, Copy, Debug)]
pub enum SenderPoll {
    /// The message is still waiting for space.
    Pending,
    /// The wait is over: `Ok` once the message was delivered, `Err(Disconnected)` if the
    /// channel closed first.
    Ready(Result<(), Error>),
}

impl<M: HasPriority, B: HasPriority> ChanView<M, B> {
    /// Polls the waiting receiver `id`, whose broadcast mailbox is at index `k`.
    pub open spec fn poll_receiver(self, id: u64, k: int) -> (Self, ReceiverPoll<M, B>) {
        let i = index_of_id(self.rx_mail, id);
        if i >= 0 {
            let s1 = ChanView { rx_mail: self.rx_mail.remove(i), ..self };
            match self.rx_mail[i].1 {
                CtrlMsg::NewMessage(m) => (s1, ReceiverPoll::Ready(Some(ActorMessage::ToOneActor(m)))),
                CtrlMsg::Shutdown => (s1, ReceiverPoll::Ready(Some(ActorMessage::Shutdown))),
                CtrlMsg::NewBroadcast => {
                    let (s2, b) = s1.pop_broadcast(k);
                    match b {
                        Some(x) => (s2, ReceiverPoll::Ready(Some(ActorMessage::ToAllActors(x)))),
                        None => (s2, ReceiverPoll::Ready(None)),
                    }
                },
            }
        } else if self.waiting_rx.contains(id) {
            (self, ReceiverPoll::Pending)
        } else {
            (self, ReceiverPoll::Ready(None))
        }
    }

    /// Withdraws the waiting receiver `id`, handing back a message that had already been
    /// delivered to it.
    pub open spec fn cancel_receiver(self, id: u64) -> (Self, Option<M>) {
        let s1 = if self.waiting_rx.contains(id) {
            ChanView { waiting_rx: self.waiting_rx.remove(index_of(self.waiting_rx, id)), ..self }
        } else {
            self
        };
        let i = index_of_id(s1.rx_mail, id);
        if i >= 0 {
            let s2 = ChanView { rx_mail: s1.rx_mail.remove(i), ..s1 };
            match s1.rx_mail[i].1 {
                CtrlMsg::NewMessage(m) => (s2, Some(m)),
                _ => (s2, None),
            }
        } else {
            (s1, None)
        }
    }

    /// Polls the waiting sender `id`: pending while its message is parked, then, as often as it
    /// is polled, the recorded outcome. The record stays until the sender is withdrawn.
    pub open spec fn poll_sender(self, id: u64) -> (Self, SenderPoll) {
        if index_of_waiting(self.waiting_one, id) >= 0 || index_of_waiting(self.waiting_all, id)
            >= 0 {
            (self, SenderPoll::Pending)
        } else {
            let i = index_of_id(self.finished, id);
            if i >= 0 {
                (
                    self,
                    SenderPoll::Ready(
                        if self.finished[i].1 {
                            Ok(())
                        } else {
                            Err(Error::Disconnected)
                        },
                    ),
                )
            } else {
                (self, SenderPoll::Ready(Err(Error::Disconnected)))
            }
        }
    }

    /// Withdraws the waiting sender `id`: its message, if still parked, is dropped.
    pub open spec fn cancel_sender(self, id: u64) -> Self {
        let i1 = index_of_waiting(self.waiting_one, id);
        let s1 = if i1 >= 0 {
            ChanView { waiting_one: self.waiting_one.remove(i1), ..self }
        } else {
            self
        };
        let i2 = index_of_waiting(s1.waiting_all, id);
        let s2 = if i2 >= 0 {
            ChanView { waiting_all: s1.waiting_all.remove(i2), ..s1 }
        } else {
            s1
        };
        let i3 = index_of_id(s2.finished, id);
        if i3 >= 0 {
            ChanView { finished: s2.finished.remove(i3), ..s2 }
        } else {
            s2
        }
    }
}

} // verus!

verus! {

impl<M: HasPriority, B: HasPriority> ChanView<M, B> {
    /// Queueing a broadcast keeps a well-formed state well-formed.
    pub proof fn lemma_send_broadcast_wf(self, m: Arc<B>)
        requires
            self.wf(),
            self.tail < usize::MAX,
        ensures
            self.send_broadcast(m).wf(),
    {
        lemma_longest_all_pushed(self.mailboxes, m);
        let t = self.send_broadcast(m);
        let extra = self.waiting_rx.map_values(|id: u64| (id, CtrlMsg::<M>::NewBroadcast));
        assert forall|i: int| 0 <= i < t.rx_mail.len() implies (#[trigger] t.rx_mail[i]).0 < t.next_id by {
            if i >= self.rx_mail.len() {
                assert(t.rx_mail[i] == extra[i - self.rx_mail.len()]);
                assert(self.waiting_rx[i - self.rx_mail.len()] < self.next_id);
            }
        }
    }
}

} // verus!

verus! {

impl<M: HasPriority, B: HasPriority> ChanView<M, B> {
    /// A receiver lets go of the broadcast mailbox with id `id`: the last holder's going drops
    /// the mailbox with the broadcasts it holds.
    pub open spec fn release_mailbox(self, id: u64) -> Self {
        let k = index_of_id(self.mailboxes, id);
        if k < 0 {
            self
        } else if self.holders[k] <= 1 {
            ChanView { mailboxes: self.mailboxes.remove(k), holders: self.holders.remove(k), ..self }
        } else {
            ChanView { holders: self.holders.update(k, (self.holders[k] - 1) as usize), ..self }
        }
    }

    /// A receiver is uncounted; the last receiver's going drops every queued message and closes
    /// every waiting sender.
    pub open spec fn uncount_receiver(self) -> Self {
        if self.receiver_count == 1 {
            (ChanView { receiver_count: 0, ..self }).shutdown_waiting_senders()
        } else {
            ChanView { receiver_count: (self.receiver_count - 1) as usize, ..self }
        }
    }

    /// A new receiver, counted, with a new empty broadcast mailbox under the next id.
    pub open spec fn add_receiver(self) -> Self {
        ChanView {
            receiver_count: (self.receiver_count + 1) as usize,
            mailboxes: self.mailboxes.push((self.next_id, Seq::empty())),
            holders: self.holders.push(1),
            next_id: (self.next_id + 1) as u64,
            ..self
        }
    }
}

} // verus!

verus! {

/// Some entry of `s` has id `id` exactly when the first such entry exists.
pub proof fn lemma_index_of_id_exists<T>(s: Seq<(u64, T)>, id: u64, i: int)
    requires
        0 <= i < s.len(),
        s[i].0 == id,
    ensures
        0 <= index_of_id(s, id) <= i,
        s[index_of_id(s, id)].0 == id,
    decreases i,
{
    if exists|j: int| 0 <= j < i && (#[trigger] s[j]).0 == id {
        let j = choose|j: int| 0 <= j < i && (#[trigger] s[j]).0 == id;
        lemma_index_of_id_exists(s, id, j);
    } else {
        lemma_index_of_id(s, id, i);
    }
}

/// A non-negative first index of `id` is the index of an entry with that id.
pub proof fn lemma_index_of_id_valid<T>(s: Seq<(u64, T)>, id: u64)
    requires
        index_of_id(s, id) >= 0,
    ensures
        0 <= index_of_id(s, id) < s.len(),
        s[index_of_id(s, id)].0 == id,
{
    reveal(index_of_id);
    let j = choose|j: int| 0 <= j < s.len() && (#[trigger] s[j]).0 == id;
    lemma_index_of_id_exists(s, id, j);
}

impl<M: HasPriority, B: HasPriority> ChanView<M, B> {
    /// After a receiver is cloned and the first one let go, the clone's new mailbox is still
    /// there.
    pub proof fn lemma_clone_then_release(self, old_mailbox: u64)
        requires
            self.wf(),
            self.next_id < u64::MAX,
            0 < self.receiver_count < usize::MAX,
            index_of_id(self.mailboxes, old_mailbox) >= 0,
        ensures
            ({
                let v = self.add_receiver().uncount_receiver().release_mailbox(old_mailbox);
                &&& index_of_id(v.mailboxes, self.next_id) >= 0
                &&& v.tail == self.tail
                &&& v.next_id == self.next_id + 1
            }),
    {
        let a = self.add_receiver();
        assert(a.receiver_count != 1);
        let u = a.uncount_receiver();
        assert(u.mailboxes == a.mailboxes && u.holders == a.holders && u.tail == a.tail && u.next_id == a.next_id);
        let n = self.mailboxes.len() as int;
        assert(u.mailboxes[n].0 == self.next_id);
        let k0 = index_of_id(self.mailboxes, old_mailbox);
        lemma_index_of_id_valid(self.mailboxes, old_mailbox);
        assert(u.mailboxes[k0] == self.mailboxes[k0]);
        lemma_index_of_id_exists(u.mailboxes, old_mailbox, k0);
        let k = index_of_id(u.mailboxes, old_mailbox);
        assert(k < n);
        let v = u.release_mailbox(old_mailbox);
        if u.holders[k] <= 1 {
            assert(v.mailboxes == u.mailboxes.remove(k));
            assert(v.mailboxes[n - 1] == u.mailboxes[n]);
            lemma_index_of_id_exists(v.mailboxes, self.next_id, n - 1);
        } else {
            assert(v.mailboxes == u.mailboxes);
            lemma_index_of_id_exists(v.mailboxes, self.next_id, n);
        }
    }
}

} // verus!

verus! {

/// No entry has id `id`.
pub proof fn lemma_index_of_id_none<T>(s: Seq<(u64, T)>, id: u64)
    requires
        forall|j: int| 0 <= j < s.len() ==> (#[trigger] s[j]).0 != id,
    ensures
        index_of_id(s, id) == -1,
{
    reveal(index_of_id);
}

/// No waiting sender has id `id`.
pub proof fn lemma_index_of_waiting_none<M>(s: Seq<WaitingSender<M>>, id: u64)
    requires
        forall|j: int| 0 <= j < s.len() ==> (#[trigger] s[j]).id != id,
    ensures
        index_of_waiting(s, id) == -1,
{
    reveal(index_of_waiting);
}

} // verus!

verus! {

/// Some waiting sender in `s` has id `id`: the first one is found.
pub proof fn lemma_index_of_waiting_exists<M>(s: Seq<WaitingSender<M>>, id: u64, i: int)
    requires
        0 <= i < s.len(),
        s[i].id == id,
    ensures
        0 <= index_of_waiting(s, id) <= i,
        s[index_of_waiting(s, id)].id == id,
    decreases i,
{
    if exists|j: int| 0 <= j < i && (#[trigger] s[j]).id == id {
        let j = choose|j: int| 0 <= j < i && (#[trigger] s[j]).id == id;
        lemma_index_of_waiting_exists(s, id, j);
    } else {
        lemma_index_of_waiting(s, id, i);
    }
}

/// A non-negative first index of a waiting sender with id `id` is the index of such a sender.
pub proof fn lemma_index_of_waiting_valid<M>(s: Seq<WaitingSender<M>>, id: u64)
    requires
        index_of_waiting(s, id) >= 0,
    ensures
        0 <= index_of_waiting(s, id) < s.len(),
        s[index_of_waiting(s, id)].id == id,
{
    reveal(index_of_waiting);
    let j = choose|j: int| 0 <= j < s.len() && (#[trigger] s[j]).id == id;
    lemma_index_of_waiting_exists(s, id, j);
}

} // verus!
