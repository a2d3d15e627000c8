//! The mailbox of an actor. Latency is prioritised over most accurate prioritisation: at most one
//! low priority message may be handled before piled-up higher priority messages will be handled.

use std::collections::VecDeque;
use std::sync::Arc;

use vstd::prelude::*;

pub mod heap;
pub mod laws;
pub mod order;
pub mod parked;
pub mod rx;
pub mod state;
pub mod tx;

pub use state::{ActorMessage, ChanView, CtrlMsg, MailboxFull, ReceiverPoll, SenderPoll, WaitingSender};

use order::{find_first_default, find_first_max, find_last_max, first_default, has_default, last_max};
use order::{opt_lt, top_priority};
use state::{
    index_of, index_of_id, index_of_waiting, lemma_index_of, lemma_index_of_id, lemma_index_of_id_none,
    lemma_index_of_waiting, lemma_index_of_waiting_none,
};
use crate::error::Error;
use state::{all_pushed, lemma_longest_bounds, lemma_longest_le, longest};

verus! {

/// The priority of a message. Shutdown notices outrank every valued priority.
#[derive(Clone, Copy, PartialEq, Eq, Structural, Debug, Hash, PartialOrd, Ord)]
pub enum Priority {
    /// A user-chosen priority; larger values are handled first.
    Valued(u32),
    /// The priority of the notice that stops an actor.
    Shutdown,
}

impl Priority {
    /// The position of this priority in the total order of priorities.
    pub open spec fn rank(self) -> int {
        match self {
            Priority::Valued(v) => v as int,
            Priority::Shutdown => u32::MAX as int + 1,
        }
    }

    /// The priority of a message sent without an explicit priority.
    pub open spec fn spec_default() -> Priority {
        Priority::Valued(0)
    }

    /// Returns whether `self` orders strictly before `other`.
    pub fn lt(&self, other: &Priority) -> (r: bool)
        ensures
            r == (self.rank() < other.rank()),
    {
        match (self, other) {
            (Priority::Valued(a), Priority::Valued(b)) => *a < *b,
            (Priority::Valued(_), Priority::Shutdown) => true,
            (Priority::Shutdown, _) => false,
        }
    }

    /// Returns whether `self` is the default priority, `Valued(0)`.
    pub fn is_default(&self) -> (r: bool)
        ensures
            r == (*self == Priority::spec_default()),
    {
        match self {
            Priority::Valued(v) => *v == 0,
            Priority::Shutdown => false,
        }
    }
}

/// Two priorities are equal exactly when their ranks are equal.
pub proof fn lemma_rank_injective(a: Priority, b: Priority)
    ensures
        a.rank() == b.rank() <==> a == b,
{
}

impl Default for Priority {
    fn default() -> (p: Priority)
        ensures
            p == Priority::spec_default(),
    {
        Priority::Valued(0)
    }
}

/// Something that carries a [`Priority`].
pub trait HasPriority {
    /// The priority of this value.
    spec fn spec_priority(&self) -> Priority;

    /// Returns the priority of this value.
    fn priority(&self) -> (p: Priority)
        ensures
            p == self.spec_priority(),
    ;
}

} // verus!

verus! {

/// The broadcast mailbox of one receiver.
pub struct BroadcastMailbox<B> {
    id: u64,
    queue: Vec<Arc<B>>,
    holders: usize,
}

/// The channel shared by the senders and receivers of an actor's address: three mailboxes
/// (ordered, priority and broadcast), the senders waiting for space in them and the receivers
/// waiting for a message.
pub struct Chan<M, B> {
    capacity: Option<usize>,
    sender_count: usize,
    receiver_count: usize,
    ordered_queue: VecDeque<M>,
    priority_queue: Vec<M>,
    broadcast_queues: Vec<BroadcastMailbox<B>>,
    broadcast_tail: usize,
    waiting_send_to_one: VecDeque<WaitingSender<M>>,
    waiting_send_to_all: VecDeque<WaitingSender<Arc<B>>>,
    finished_senders: Vec<(u64, bool)>,
    waiting_receivers: VecDeque<u64>,
    receiver_mail: Vec<(u64, CtrlMsg<M>)>,
    next_id: u64,
}

/// The id and contents of a broadcast mailbox.
spec fn mailbox_view<B>(mb: BroadcastMailbox<B>) -> (u64, Seq<Arc<B>>) {
    (mb.id, mb.queue@)
}

impl<M, B> View for Chan<M, B> {
    type V = ChanView<M, B>;

    closed spec fn view(&self) -> ChanView<M, B> {
        ChanView {
            capacity: self.capacity,
            sender_count: self.sender_count,
            receiver_count: self.receiver_count,
            ordered: self.ordered_queue@,
            prioritised: self.priority_queue@,
            mailboxes: self.broadcast_queues@.map_values(|mb: BroadcastMailbox<B>| mailbox_view(mb)),
            holders: self.broadcast_queues@.map_values(|mb: BroadcastMailbox<B>| mb.holders),
            tail: self.broadcast_tail,
            waiting_one: self.waiting_send_to_one@,
            waiting_all: self.waiting_send_to_all@,
            finished: self.finished_senders@,
            waiting_rx: self.waiting_receivers@,
            rx_mail: self.receiver_mail@,
            next_id: self.next_id,
        }
    }
}

/// `Arc::clone`: a second pointer to the same allocation, so the same value.
#[verifier::external_body]
fn share<B>(b: &Arc<B>) -> (r: Arc<B>)
    ensures
        r == *b,
{
    Arc::clone(b)
}

impl<M: HasPriority, B: HasPriority> Chan<M, B> {
    /// A channel with no senders, receivers or messages, whose three mailboxes each hold at
    /// most `capacity` messages (unbounded when `None`).
    pub fn new(capacity: Option<usize>) -> (c: Self)
        ensures
            c@ == ChanView::<M, B>::initial(capacity),
            c@.wf(),
    {
        let c = Chan {
            capacity,
            sender_count: 0,
            receiver_count: 0,
            ordered_queue: VecDeque::new(),
            priority_queue: Vec::new(),
            broadcast_queues: Vec::new(),
            broadcast_tail: 0,
            waiting_send_to_one: VecDeque::new(),
            waiting_send_to_all: VecDeque::new(),
            finished_senders: Vec::new(),
            waiting_receivers: VecDeque::new(),
            receiver_mail: Vec::new(),
            next_id: 0,
        };
        assert(c@.mailboxes =~= Seq::empty());
        assert(c@.holders =~= Seq::empty());
        c
    }

    /// Whether both a receiver and a strong sender exist.
    pub fn is_connected(&self) -> (r: bool)
        ensures
            r == self@.is_connected(),
    {
        self.receiver_count > 0 && self.sender_count > 0
    }

    /// The number of messages in the mailbox: the broadcast tail plus the ordered and priority
    /// messages.
    pub fn len(&self) -> (r: usize)
        requires
            self@.len() <= usize::MAX,
        ensures
            r == self@.len(),
    {
        self.broadcast_tail + self.ordered_queue.len() + self.priority_queue.len()
    }

    /// Whether the number of messages in the mailbox fits in a `usize`, so that [`Chan::len`]
    /// can count it.
    pub fn len_fits(&self) -> (r: bool)
        ensures
            r == (self@.len() <= usize::MAX),
    {
        match self.broadcast_tail.checked_add(self.ordered_queue.len()) {
            Some(n) => n.checked_add(self.priority_queue.len()).is_some(),
            None => false,
        }
    }

    /// Whether the mailbox holds no message.
    pub fn is_empty(&self) -> (r: bool)
        requires
            self@.len() <= usize::MAX,
        ensures
            r == (self@.len() == 0),
    {
        self.len() == 0
    }

    /// The capacity of each mailbox.
    pub fn capacity(&self) -> (r: Option<usize>)
        ensures
            r == self@.capacity,
    {
        self.capacity
    }

    fn is_full(&self, n: usize) -> (r: bool)
        ensures
            r == self@.is_full(n as int),
    {
        match self.capacity {
            Some(cap) => n >= cap,
            None => false,
        }
    }

    fn is_broadcast_full(&self) -> (r: bool)
        ensures
            r == self@.broadcast_full(),
    {
        self.is_full(self.broadcast_tail)
    }

    fn is_ordered_full(&self) -> (r: bool)
        ensures
            r == self@.ordered_full(),
    {
        self.is_full(self.ordered_queue.len())
    }

    fn is_priority_full(&self) -> (r: bool)
        ensures
            r == self@.priority_full(),
    {
        self.is_full(self.priority_queue.len())
    }

    /// Hands `msg` to the receiver that has waited longest, or gives it back.
    fn try_fulfill_receiver(&mut self, msg: M) -> (r: Result<(), M>)
        requires
            old(self)@.wf(),
        ensures
            (final(self)@, match r {
                Ok(()) => None,
                Err(m) => Some(m),
            }) == old(self)@.fulfil_receiver(msg),
            final(self)@.wf(),
    {
        match self.waiting_receivers.pop_front() {
            Some(rx) => {
                self.receiver_mail.push((rx, CtrlMsg::NewMessage(msg)));
                proof {
                    assert(self.waiting_receivers@ =~= old(self)@.waiting_rx.drop_first());
                    assert(self@ =~= old(self)@.fulfil_receiver(msg).0);
                }
                Ok(())
            },
            None => Err(msg),
        }
    }

    /// Takes the message of the first waiting sender of default priority; that sender is then
    /// done, with its message delivered.
    fn try_take_waiting_ordered_message(&mut self) -> (r: Option<M>)
        ensures
            (final(self)@, r) == old(self)@.take_waiting_ordered(),
    {
        let w = find_remove_next_default_priority(&mut self.waiting_send_to_one)?;
        self.finished_senders.push((w.id, true));
        proof {
            assert(self@ =~= old(self)@.take_waiting_ordered().0);
        }
        Some(w.message)
    }

    /// Takes the message of the last waiting sender of highest priority.
    fn try_take_waiting_priority_message(&mut self) -> (r: Option<M>)
        ensures
            (final(self)@, r) == old(self)@.take_waiting_priority(),
    {
        let w = find_remove_highest_priority(&mut self.waiting_send_to_one)?;
        self.finished_senders.push((w.id, true));
        proof {
            assert(self@ =~= old(self)@.take_waiting_priority().0);
        }
        Some(w.message)
    }

    /// Takes the broadcast of the last waiting broadcaster of highest priority.
    fn try_take_waiting_broadcast_message(&mut self) -> (r: Option<Arc<B>>)
        ensures
            (final(self)@, r) == old(self)@.take_waiting_broadcast(),
    {
        let w = find_remove_highest_priority(&mut self.waiting_send_to_all)?;
        self.finished_senders.push((w.id, true));
        proof {
            assert(self@ =~= old(self)@.take_waiting_broadcast().0);
        }
        Some(w.message)
    }

    /// Takes the first ordered message, refilling the ordered mailbox from a waiting sender of
    /// default priority when there is room.
    fn pop_ordered(&mut self) -> (r: Option<M>)
        requires
            old(self)@.wf(),
        ensures
            (final(self)@, r) == old(self)@.pop_ordered(),
            final(self)@.wf(),
    {
        let msg = self.ordered_queue.pop_front()?;
        proof {
            assert(self.ordered_queue@ =~= old(self)@.ordered.drop_first());
            assert(self@ =~= ChanView { ordered: old(self)@.ordered.drop_first(), ..old(self)@ });
        }
        if !self.is_ordered_full() {
            if let Some(m) = self.try_take_waiting_ordered_message() {
                self.ordered_queue.push_back(m);
                proof {
                    let (s2, _w) = ChanView { ordered: old(self)@.ordered.drop_first(), ..old(self)@ }.take_waiting_ordered();
                    assert(self@ =~= ChanView { ordered: s2.ordered.push(m), ..s2 });
                }
            }
        }
        proof {
            parked::lemma_pop_ordered(old(self)@);
        }
        Some(msg)
    }

    /// Takes the first priority message of highest priority, refilling the priority mailbox
    /// from the waiting sender of highest priority when there is room.
    fn pop_priority(&mut self) -> (r: Option<M>)
        requires
            old(self)@.wf(),
        ensures
            (final(self)@, r) == old(self)@.pop_priority(),
            final(self)@.wf(),
    {
        if self.priority_queue.len() == 0 {
            return None;
        }
        let i = find_first_max(&self.priority_queue);
        let msg = self.priority_queue.remove(i);
        proof {
            assert(self@ =~= ChanView { prioritised: old(self)@.prioritised.remove(i as int), ..old(self)@ });
        }
        if !self.is_priority_full() {
            if let Some(m) = self.try_take_waiting_priority_message() {
                self.priority_queue.push(m);
                proof {
                    let (s2, _w) = ChanView { prioritised: old(self)@.prioritised.remove(i as int), ..old(self)@ }.take_waiting_priority();
                    assert(self@ =~= ChanView { prioritised: s2.prioritised.push(m), ..s2 });
                }
            }
        }
        proof {
            parked::lemma_pop_priority(old(self)@);
        }
        Some(msg)
    }

    /// Takes the first broadcast of highest priority from the mailbox at index `k`, recounts
    /// the tail and admits the waiting broadcast of highest priority when there is room.
    fn pop_broadcast(&mut self, k: usize) -> (r: Option<Arc<B>>)
        requires
            k < old(self)@.mailboxes.len(),
            old(self)@.wf(),
            old(self)@.tail < usize::MAX,
        ensures
            (final(self)@, r) == old(self)@.pop_broadcast(k as int),
            final(self)@.wf(),
    {
        if self.broadcast_queues[k].queue.len() == 0 {
            assert(old(self)@.mailboxes[k as int].1.len() == 0);
            return None;
        }
        let ghost s = self@;
        let mut slot = BroadcastMailbox { id: 0, queue: Vec::new(), holders: 0 };
        self.broadcast_queues.set_and_swap(k, &mut slot);
        let i = find_first_max(&slot.queue);
        let message = slot.queue.remove(i);
        self.broadcast_queues.set_and_swap(k, &mut slot);
        let ghost boxes = s.mailboxes.update(k as int, (s.mailboxes[k as int].0, s.mailboxes[k as int].1.remove(i as int)));
        proof {
            assert(self@.mailboxes =~= boxes);
            assert(self@.holders =~= s.holders);
            lemma_longest_bounds(s.mailboxes);
            assert forall|j: int| 0 <= j < boxes.len() implies (#[trigger] boxes[j]).1.len() <= longest(s.mailboxes) by {
                assert(s.mailboxes[j].1.len() <= longest(s.mailboxes));
            }
            lemma_longest_le(boxes, longest(s.mailboxes) as int);
        }
        self.broadcast_tail = self.longest_broadcast_queue();
        let ghost s1 = self@;
        proof {
            assert(s1 =~= ChanView { mailboxes: boxes, tail: longest(boxes) as usize, ..s });
        }
        proof {
            parked::lemma_same_senders(s, s1);
        }
        if !self.is_broadcast_full() {
            if let Some(m) = self.try_take_waiting_broadcast_message() {
                proof {
                    parked::lemma_take_broadcast(s1);
                    self@.lemma_send_broadcast_wf(m);
                }
                self.send_broadcast(m);
            }
        }
        Some(message)
    }

    /// The index of the broadcast mailbox with id `id`.
    fn find_mailbox(&self, id: u64) -> (r: Option<usize>)
        ensures
            match r {
                Some(k) => k as int == index_of_id(self@.mailboxes, id) && k < self@.mailboxes.len(),
                None => index_of_id(self@.mailboxes, id) == -1,
            },
    {
        let mut k: usize = 0;
        while k < self.broadcast_queues.len()
            invariant
                k <= self@.mailboxes.len(),
                forall|j: int| 0 <= j < k ==> (#[trigger] self@.mailboxes[j]).0 != id,
            decreases self@.mailboxes.len() - k,
        {
            if self.broadcast_queues[k].id == id {
                proof {
                    lemma_index_of_id(self@.mailboxes, id, k as int);
                }
                return Some(k);
            }
            k = k + 1;
        }
        proof {
            lemma_index_of_id_none(self@.mailboxes, id);
        }
        None
    }

    /// Chooses the next message for the receiver whose broadcast mailbox has id `mailbox`. An
    /// ordered message is taken only while both the priority mailbox and the broadcast mailbox
    /// are empty; otherwise the message of higher priority of the two is taken, the priority
    /// mailbox's on a tie. With all mailboxes empty, the receiver is told to shut down
    /// if no strong sender is left, and is otherwise registered as waiting under the returned
    /// id.
    pub fn try_recv(&mut self, mailbox: u64) -> (r: Result<ActorMessage<M, B>, u64>)
        requires
            index_of_id(old(self)@.mailboxes, mailbox) >= 0,
            old(self)@.wf(),
            old(self)@.tail < usize::MAX,
            old(self)@.next_id < u64::MAX,
        ensures
            (final(self)@, r) == old(self)@.try_recv(index_of_id(old(self)@.mailboxes, mailbox)),
            final(self)@.wf(),
    {
        let k = self.find_mailbox(mailbox).unwrap();
        let broadcast_priority = top_priority(&self.broadcast_queues[k].queue);
        let shared_priority = top_priority(&self.priority_queue);
        proof {
            assert(self.broadcast_queues@[k as int].queue@ == self@.mailboxes[k as int].1);
        }
        // Take from the ordered mailbox only while the other two are empty
        if shared_priority.is_none() && broadcast_priority.is_none() {
            if let Some(msg) = self.pop_ordered() {
                return Ok(ActorMessage::ToOneActor(msg));
            }
        }
        // Choose which priority channel to take from
        if !opt_lt(shared_priority, broadcast_priority) && shared_priority.is_some() {
            Ok(ActorMessage::ToOneActor(self.pop_priority().unwrap()))
        } else if opt_lt(shared_priority, broadcast_priority) {
            Ok(ActorMessage::ToAllActors(self.pop_broadcast(k).unwrap()))
        } else {
            if self.sender_count == 0 {
                return Ok(ActorMessage::Shutdown);
            }
            let id = self.next_id;
            self.next_id = self.next_id + 1;
            self.waiting_receivers.push_back(id);
            proof {
                assert(self@ =~= ChanView {
                    waiting_rx: old(self)@.waiting_rx.push(id),
                    next_id: (id + 1) as u64,
                    ..old(self)@
                });
            }
            Err(id)
        }
    }

    /// Queues a message for one actor: hands it to the receiver that has waited longest, else
    /// queues it in the ordered (default priority) or priority mailbox, else, when that
    /// mailbox is full, parks it with a new waiting sender whose id is returned.
    pub fn try_send_to_one(&mut self, message: M) -> (r: Result<Result<(), MailboxFull>, Error>)
        requires
            old(self)@.wf(),
            old(self)@.next_id < u64::MAX,
        ensures
            (final(self)@, r) == old(self)@.try_send_to_one(message),
            final(self)@.wf(),
    {
        if !self.is_connected() {
            return Err(Error::Disconnected);
        }
        let unfulfilled_msg = match self.try_fulfill_receiver(message) {
            Err(msg) => msg,
            Ok(()) => {
                return Ok(Ok(()));
            },
        };
        let is_default = unfulfilled_msg.priority().is_default();
        if is_default && !self.is_ordered_full() {
            self.ordered_queue.push_back(unfulfilled_msg);
        } else if !is_default && !self.is_priority_full() {
            self.priority_queue.push(unfulfilled_msg);
        } else {
            let id = self.next_id;
            self.next_id = self.next_id + 1;
            self.waiting_send_to_one.push_back(WaitingSender { id, message: unfulfilled_msg });
            return Ok(Err(MailboxFull(id)));
        }
        Ok(Ok(()))
    }

    /// Queues a broadcast in every broadcast mailbox, or, when they are full, parks it with a
    /// new waiting sender whose id is returned.
    pub fn try_send_to_all(&mut self, message: Arc<B>) -> (r: Result<Result<(), MailboxFull>, Error>)
        requires
            old(self)@.wf(),
            old(self)@.next_id < u64::MAX,
            old(self)@.tail < usize::MAX,
        ensures
            (final(self)@, r) == old(self)@.try_send_to_all(message),
            final(self)@.wf(),
    {
        if !self.is_connected() {
            return Err(Error::Disconnected);
        }
        if self.is_broadcast_full() {
            let id = self.next_id;
            self.next_id = self.next_id + 1;
            self.waiting_send_to_all.push_back(WaitingSender { id, message });
            proof {
                assert(self@ =~= (ChanView {
                    waiting_all: old(self)@.waiting_all.push(WaitingSender { id, message }),
                    next_id: (id + 1) as u64,
                    ..old(self)@
                }));
            }
            return Ok(Err(MailboxFull(id)));
        }
        proof {
            self@.lemma_send_broadcast_wf(message);
        }
        self.send_broadcast(message);
        Ok(Ok(()))
    }

    /// Puts back a message whose delivery to a receiver was cancelled: to a waiting receiver,
    /// else to the front of the ordered mailbox (keeping its order as far as possible) or into
    /// the priority mailbox.
    pub fn requeue_message(&mut self, msg: M)
        requires
            old(self)@.wf(),
        ensures
            final(self)@ == old(self)@.requeue(msg),
            final(self)@.wf(),
    {
        if let Err(msg) = self.try_fulfill_receiver(msg) {
            if msg.priority().is_default() {
                // Preserve ordering as much as possible by pushing to the front
                self.ordered_queue.push_front(msg);
                proof {
                    assert(seq![msg] + old(self)@.ordered =~= old(self)@.ordered.insert(0, msg));
                }
            } else {
                self.priority_queue.push(msg);
            }
        }
    }

    /// Whether a broadcast mailbox with id `id` exists.
    pub fn has_mailbox(&self, id: u64) -> (r: bool)
        ensures
            r == (index_of_id(self@.mailboxes, id) >= 0),
    {
        self.find_mailbox(id).is_some()
    }

    /// The number of receivers that hold the broadcast mailbox with id `id`, if there is one.
    pub fn mailbox_holders(&self, id: u64) -> (r: Option<usize>)
        requires
            self@.wf(),
        ensures
            index_of_id(self@.mailboxes, id) >= 0 ==> r == Some(self@.holders[index_of_id(self@.mailboxes, id)]),
            index_of_id(self@.mailboxes, id) < 0 ==> r.is_none(),
    {
        match self.find_mailbox(id) {
            Some(k) => Some(self.broadcast_queues[k].holders),
            None => None,
        }
    }

    /// The length of the longest broadcast mailbox, as last counted.
    pub fn broadcast_tail(&self) -> (r: usize)
        ensures
            r == self@.tail,
    {
        self.broadcast_tail
    }

    /// How many ids for new waiting senders, waiting receivers and mailboxes remain.
    pub fn fresh_ids(&self) -> (r: u64)
        ensures
            r == u64::MAX - self@.next_id,
    {
        u64::MAX - self.next_id
    }

    /// The number of strong senders.
    pub fn sender_count(&self) -> (r: usize)
        ensures
            r == self@.sender_count,
    {
        self.sender_count
    }

    /// The number of receivers.
    pub fn receiver_count(&self) -> (r: usize)
        ensures
            r == self@.receiver_count,
    {
        self.receiver_count
    }

    /// Counts a new receiver.
    pub fn increment_receiver_count(&mut self)
        requires
            old(self)@.receiver_count < usize::MAX,
        ensures
            final(self)@ == (ChanView { receiver_count: (old(self)@.receiver_count + 1) as usize, ..old(self)@ }),
    {
        self.receiver_count = self.receiver_count + 1;
    }

    /// Uncounts a receiver. When it was the last one, every queued message is dropped and every
    /// waiting sender closed, and `true` is returned.
    pub fn decrement_receiver_count(&mut self) -> (last: bool)
        requires
            old(self)@.receiver_count > 0,
            old(self)@.wf(),
        ensures
            last == (old(self)@.receiver_count == 1),
            last ==> final(self)@ == (ChanView { receiver_count: 0, ..old(self)@ }).shutdown_waiting_senders(),
            !last ==> final(self)@ == (ChanView { receiver_count: (old(self)@.receiver_count - 1) as usize, ..old(self)@ }),
            final(self)@.wf(),
    {
        self.receiver_count = self.receiver_count - 1;
        if self.receiver_count != 0 {
            return false;
        }
        self.shutdown_waiting_senders();
        true
    }

    /// Counts a new strong sender.
    pub fn increment_sender_count(&mut self)
        requires
            old(self)@.sender_count < usize::MAX,
        ensures
            final(self)@ == (ChanView { sender_count: (old(self)@.sender_count + 1) as usize, ..old(self)@ }),
    {
        self.sender_count = self.sender_count + 1;
    }

    /// Counts a new strong sender only if a strong sender still exists.
    pub fn try_increment_sender_count(&mut self) -> (r: bool)
        requires
            old(self)@.sender_count < usize::MAX,
        ensures
            r == (old(self)@.sender_count > 0),
            r ==> final(self)@ == (ChanView { sender_count: (old(self)@.sender_count + 1) as usize, ..old(self)@ }),
            !r ==> final(self)@ == old(self)@,
    {
        if self.sender_count == 0 {
            return false;
        }
        self.sender_count = self.sender_count + 1;
        true
    }

    /// Uncounts a strong sender, returning whether it was the last one.
    pub fn decrement_sender_count(&mut self) -> (last: bool)
        requires
            old(self)@.sender_count > 0,
        ensures
            last == (old(self)@.sender_count == 1),
            final(self)@ == (ChanView { sender_count: (old(self)@.sender_count - 1) as usize, ..old(self)@ }),
    {
        self.sender_count = self.sender_count - 1;
        self.sender_count == 0
    }

    /// Creates a new, empty broadcast mailbox held by one receiver and returns its id.
    pub fn new_broadcast_mailbox(&mut self) -> (id: u64)
        requires
            old(self)@.next_id < u64::MAX,
            old(self)@.wf(),
        ensures
            id == old(self)@.next_id,
            final(self)@ == (ChanView {
                mailboxes: old(self)@.mailboxes.push((id, Seq::empty())),
                holders: old(self)@.holders.push(1),
                next_id: (id + 1) as u64,
                ..old(self)@
            }),
            final(self)@.wf(),
    {
        let id = self.next_id;
        self.next_id = self.next_id + 1;
        self.broadcast_queues.push(BroadcastMailbox { id, queue: Vec::new(), holders: 1 });
        proof {
            let boxes = self@.mailboxes;
            assert(boxes =~= old(self)@.mailboxes.push((id, Seq::empty())));
            assert(self@.holders =~= old(self)@.holders.push(1));
            lemma_longest_bounds(old(self)@.mailboxes);
            assert forall|j: int| 0 <= j < boxes.len() implies (#[trigger] boxes[j]).1.len() <= old(self)@.tail by {
                if j < old(self)@.mailboxes.len() {
                    assert(boxes[j] == old(self)@.mailboxes[j]);
                }
            }
            lemma_longest_le(boxes, old(self)@.tail as int);
        }
        id
    }

    /// Counts one more receiver holding the broadcast mailbox with id `id`.
    pub fn share_broadcast_mailbox(&mut self, id: u64)
        requires
            old(self)@.wf(),
            index_of_id(old(self)@.mailboxes, id) >= 0 ==> old(self)@.holders[index_of_id(old(self)@.mailboxes, id)] < usize::MAX,
        ensures
            index_of_id(old(self)@.mailboxes, id) >= 0 ==> final(self)@ == (ChanView {
                holders: old(self)@.holders.update(
                    index_of_id(old(self)@.mailboxes, id),
                    (old(self)@.holders[index_of_id(old(self)@.mailboxes, id)] + 1) as usize,
                ),
                ..old(self)@
            }),
            index_of_id(old(self)@.mailboxes, id) < 0 ==> final(self)@ == old(self)@,
            final(self)@.wf(),
    {
        if let Some(k) = self.find_mailbox(id) {
            let mut slot = BroadcastMailbox { id: 0, queue: Vec::new(), holders: 0 };
            self.broadcast_queues.set_and_swap(k, &mut slot);
            slot.holders = slot.holders + 1;
            self.broadcast_queues.set_and_swap(k, &mut slot);
            proof {
                assert(self@.mailboxes =~= old(self)@.mailboxes);
                assert(self@.holders =~= old(self)@.holders.update(k as int, (old(self)@.holders[k as int] + 1) as usize));
            }
        }
    }

    /// A receiver lets go of the broadcast mailbox with id `id`; when it was the last holder,
    /// the mailbox and the broadcasts it still holds are dropped.
    pub fn release_broadcast_mailbox(&mut self, id: u64)
        requires
            old(self)@.wf(),
        ensures
            final(self)@ == old(self)@.release_mailbox(id),
            final(self)@.wf(),
    {
        if let Some(k) = self.find_mailbox(id) {
            if self.broadcast_queues[k].holders > 1 {
                let mut slot = BroadcastMailbox { id: 0, queue: Vec::new(), holders: 0 };
                self.broadcast_queues.set_and_swap(k, &mut slot);
                slot.holders = slot.holders - 1;
                self.broadcast_queues.set_and_swap(k, &mut slot);
                proof {
                    assert(self@.mailboxes =~= old(self)@.mailboxes);
                    assert(self@.holders =~= old(self)@.holders.update(k as int, (old(self)@.holders[k as int] - 1) as usize));
                }
                return;
            }
            let _dropped = self.broadcast_queues.remove(k);
            proof {
                let boxes = self@.mailboxes;
                assert(boxes =~= old(self)@.mailboxes.remove(k as int));
                assert(self@.holders =~= old(self)@.holders.remove(k as int));
                lemma_longest_bounds(old(self)@.mailboxes);
                assert forall|j: int| 0 <= j < boxes.len() implies (#[trigger] boxes[j]).1.len() <= old(self)@.tail by {
                    if j < k {
                        assert(boxes[j] == old(self)@.mailboxes[j]);
                    } else {
                        assert(boxes[j] == old(self)@.mailboxes[j + 1]);
                    }
                }
                lemma_longest_le(boxes, old(self)@.tail as int);
            }
        }
    }

    /// Tells every waiting receiver that the channel shut down.
    pub fn shutdown_waiting_receivers(&mut self)
        requires
            old(self)@.wf(),
        ensures
            final(self)@ == old(self)@.shutdown_waiting_receivers(),
            final(self)@.wf(),
    {
        let mut rx: VecDeque<u64> = VecDeque::new();
        std::mem::swap(&mut rx, &mut self.waiting_receivers);
        let mut mail: Vec<(u64, CtrlMsg<M>)> = Vec::new();
        std::mem::swap(&mut mail, &mut self.receiver_mail);
        let mut k: usize = 0;
        let ghost old_mail = mail@;
        let ghost old_rx = rx@;
        while k < rx.len()
            invariant
                k <= old_rx.len(),
                rx@ == old_rx,
                mail@ == old_mail + old_rx.take(k as int).map_values(
                    |id: u64| (id, CtrlMsg::<M>::Shutdown),
                ),
            decreases old_rx.len() - k,
        {
            let id = rx[k];
            mail.push((id, CtrlMsg::Shutdown));
            proof {
                assert(old_rx.take(k + 1) =~= old_rx.take(k as int).push(id));
                assert(mail@ =~= old_mail + old_rx.take(k + 1).map_values(
                    |id: u64| (id, CtrlMsg::<M>::Shutdown),
                ));
            }
            k = k + 1;
        }
        self.receiver_mail = mail;
        proof {
            assert(old_rx.take(k as int) =~= old_rx);
            assert(self@ =~= old(self)@.shutdown_waiting_receivers());
        }
    }

    /// Broadcasts the shutdown notice `notice` to every receiver.
    pub fn shutdown_all_receivers(&mut self, notice: Arc<B>)
        requires
            old(self)@.wf(),
            old(self)@.tail < usize::MAX,
        ensures
            final(self)@ == old(self)@.send_broadcast(notice),
            final(self)@.wf(),
    {
        proof {
            self@.lemma_send_broadcast_wf(notice);
        }
        self.send_broadcast(notice);
    }

    /// Drops every queued message and closes every waiting sender.
    fn shutdown_waiting_senders(&mut self)
        requires
            old(self)@.wf(),
        ensures
            final(self)@ == old(self)@.shutdown_waiting_senders(),
            final(self)@.wf(),
    {
        self.ordered_queue.clear();
        self.priority_queue.clear();
        self.broadcast_queues.clear();
        let mut one: VecDeque<WaitingSender<M>> = VecDeque::new();
        std::mem::swap(&mut one, &mut self.waiting_send_to_one);
        let mut all: VecDeque<WaitingSender<Arc<B>>> = VecDeque::new();
        std::mem::swap(&mut all, &mut self.waiting_send_to_all);
        let mut done: Vec<(u64, bool)> = Vec::new();
        std::mem::swap(&mut done, &mut self.finished_senders);
        let ghost d0 = done@;
        let ghost o0 = one@;
        let ghost a0 = all@;
        let mut k: usize = 0;
        while k < one.len()
            invariant
                k <= o0.len(),
                one@ == o0,
                done@ == d0 + o0.take(k as int).map_values(|w: WaitingSender<M>| (w.id, false)),
            decreases o0.len() - k,
        {
            let id = one[k].id;
            done.push((id, false));
            proof {
                assert(o0.take(k + 1) =~= o0.take(k as int).push(o0[k as int]));
                assert(done@ =~= d0 + o0.take(k + 1).map_values(|w: WaitingSender<M>| (w.id, false)));
            }
            k = k + 1;
        }
        proof {
            assert(o0.take(k as int) =~= o0);
        }
        let ghost d1 = done@;
        let mut k: usize = 0;
        while k < all.len()
            invariant
                k <= a0.len(),
                all@ == a0,
                done@ == d1 + a0.take(k as int).map_values(|w: WaitingSender<Arc<B>>| (w.id, false)),
            decreases a0.len() - k,
        {
            let id = all[k].id;
            done.push((id, false));
            proof {
                assert(a0.take(k + 1) =~= a0.take(k as int).push(a0[k as int]));
                assert(done@ =~= d1 + a0.take(k + 1).map_values(|w: WaitingSender<Arc<B>>| (w.id, false)));
            }
            k = k + 1;
        }
        proof {
            assert(a0.take(k as int) =~= a0);
        }
        self.finished_senders = done;
        proof {
            assert(self@.mailboxes =~= Seq::empty());
            assert(self@.holders =~= Seq::empty());
            reveal(ChanView::shutdown_waiting_senders);
            assert(self@ =~= old(self)@.shutdown_waiting_senders());
        }
    }

    /// Polls the receiver `id` that waits for a message; its broadcast mailbox has id
    /// `mailbox`. A broadcast notification leads to taking a broadcast from that mailbox, which
    /// may already be empty.
    pub fn poll_waiting_receiver(&mut self, id: u64, mailbox: u64) -> (r: ReceiverPoll<M, B>)
        requires
            index_of_id(old(self)@.mailboxes, mailbox) >= 0,
            old(self)@.wf(),
            old(self)@.tail < usize::MAX,
        ensures
            (final(self)@, r) == old(self)@.poll_receiver(id, index_of_id(old(self)@.mailboxes, mailbox)),
            final(self)@.wf(),
    {
        let k = self.find_mailbox(mailbox).unwrap();
        match find_id(&self.receiver_mail, id) {
            Some(i) => {
                let (_id, ctrl) = self.receiver_mail.remove(i);
                match ctrl {
                    CtrlMsg::NewMessage(msg) => ReceiverPoll::Ready(Some(ActorMessage::ToOneActor(msg))),
                    CtrlMsg::Shutdown => ReceiverPoll::Ready(Some(ActorMessage::Shutdown)),
                    CtrlMsg::NewBroadcast => match self.pop_broadcast(k) {
                        Some(msg) => ReceiverPoll::Ready(Some(ActorMessage::ToAllActors(msg))),
                        None => ReceiverPoll::Ready(None),
                    },
                }
            },
            None => {
                if find_u64(&self.waiting_receivers, id).is_some() {
                    ReceiverPoll::Pending
                } else {
                    ReceiverPoll::Ready(None)
                }
            },
        }
    }

    /// Withdraws the receiver `id` that waits for a message, handing back a message that had
    /// already been delivered to it but not yet taken.
    pub fn cancel_waiting_receiver(&mut self, id: u64) -> (r: Option<M>)
        requires
            old(self)@.wf(),
        ensures
            (final(self)@, r) == old(self)@.cancel_receiver(id),
            final(self)@.wf(),
    {
        if let Some(i) = find_u64(&self.waiting_receivers, id) {
            let _ = self.waiting_receivers.remove(i);
            proof {
                let w = self@.waiting_rx;
                assert forall|j: int| 0 <= j < w.len() implies #[trigger] w[j] < self@.next_id by {
                    if j < i {
                        assert(w[j] == old(self)@.waiting_rx[j]);
                    } else {
                        assert(w[j] == old(self)@.waiting_rx[j + 1]);
                    }
                }
            }
        }
        match find_id(&self.receiver_mail, id) {
            Some(i) => {
                let ghost before = self.receiver_mail@;
                assert(before == old(self)@.rx_mail);
                let (_id, ctrl) = self.receiver_mail.remove(i);
                proof {
                    let w = self@.rx_mail;
                    assert forall|j: int| 0 <= j < w.len() implies (#[trigger] w[j]).0 < self@.next_id by {
                        if j < i {
                            assert(w[j] == before[j]);
                        } else {
                            assert(w[j] == before[j + 1]);
                        }
                    }
                }
                match ctrl {
                    CtrlMsg::NewMessage(msg) => Some(msg),
                    _ => None,
                }
            },
            None => None,
        }
    }

    /// Withdraws the receiver `id` that waits for a message; a message already delivered to it
    /// is put back into the channel so that it is not lost.
    pub fn drop_waiting_receiver(&mut self, id: u64)
        requires
            old(self)@.wf(),
        ensures
            final(self)@ == (match old(self)@.cancel_receiver(id).1 {
                Some(m) => old(self)@.cancel_receiver(id).0.requeue(m),
                None => old(self)@.cancel_receiver(id).0,
            }),
            final(self)@.wf(),
    {
        if let Some(msg) = self.cancel_waiting_receiver(id) {
            self.requeue_message(msg);
        }
    }

    /// Polls the sender `id` that waits for space: pending while its message is parked, then
    /// the outcome, for as long as the sender is not withdrawn.
    pub fn poll_waiting_sender(&self, id: u64) -> (r: SenderPoll)
        requires
            self@.wf(),
        ensures
            (self@, r) == self@.poll_sender(id),
    {
        if find_waiting(&self.waiting_send_to_one, id).is_some() || find_waiting(&self.waiting_send_to_all, id).is_some() {
            return SenderPoll::Pending;
        }
        match find_id(&self.finished_senders, id) {
            Some(i) => {
                if self.finished_senders[i].1 {
                    SenderPoll::Ready(Ok(()))
                } else {
                    SenderPoll::Ready(Err(Error::Disconnected))
                }
            },
            None => SenderPoll::Ready(Err(Error::Disconnected)),
        }
    }

    /// Withdraws the sender `id` that waits for space; its message, if still parked, is
    /// dropped.
    pub fn cancel_waiting_sender(&mut self, id: u64)
        requires
            old(self)@.wf(),
        ensures
            final(self)@ == old(self)@.cancel_sender(id),
            final(self)@.wf(),
    {
        if let Some(i) = find_waiting(&self.waiting_send_to_one, id) {
            let _ = self.waiting_send_to_one.remove(i);
        }
        if let Some(i) = find_waiting(&self.waiting_send_to_all, id) {
            let _ = self.waiting_send_to_all.remove(i);
        }
        if let Some(i) = find_id(&self.finished_senders, id) {
            let _ = self.finished_senders.remove(i);
        }
    }

    /// Takes the next broadcast for the receiver whose broadcast mailbox has id `mailbox`.
    pub fn next_broadcast_message(&mut self, mailbox: u64) -> (r: Option<Arc<B>>)
        requires
            index_of_id(old(self)@.mailboxes, mailbox) >= 0,
            old(self)@.wf(),
            old(self)@.tail < usize::MAX,
        ensures
            (final(self)@, r) == old(self)@.pop_broadcast(index_of_id(old(self)@.mailboxes, mailbox)),
            final(self)@.wf(),
    {
        let k = self.find_mailbox(mailbox).unwrap();
        self.pop_broadcast(k)
    }

    /// The length of the longest broadcast mailbox.
    fn longest_broadcast_queue(&self) -> (r: usize)
        ensures
            r == longest(self@.mailboxes),
    {
        let mut longest_len: usize = 0;
        let mut k: usize = 0;
        while k < self.broadcast_queues.len()
            invariant
                k <= self.broadcast_queues@.len(),
                longest_len == longest(self@.mailboxes.take(k as int)),
            decreases self.broadcast_queues@.len() - k,
        {
            let l = self.broadcast_queues[k].queue.len();
            proof {
                let s = self@.mailboxes;
                assert(s.take(k + 1).drop_last() =~= s.take(k as int));
                assert(s.take(k + 1).last() == s[k as int]);
            }
            if l > longest_len {
                longest_len = l;
            }
            k = k + 1;
        }
        proof {
            assert(self@.mailboxes.take(k as int) =~= self@.mailboxes);
        }
        longest_len
    }

    /// Queues `m` in every broadcast mailbox, wakes every waiting receiver and advances the
    /// tail.
    fn send_broadcast(&mut self, m: Arc<B>)
        requires
            old(self)@.tail < usize::MAX,
        ensures
            final(self)@ == old(self)@.send_broadcast(m),
    {
        let mut boxes: Vec<BroadcastMailbox<B>> = Vec::new();
        std::mem::swap(&mut boxes, &mut self.broadcast_queues);
        let ghost old_boxes = boxes@;
        let mut k: usize = 0;
        while k < boxes.len()
            invariant
                k <= boxes@.len(),
                boxes@.len() == old_boxes.len(),
                forall|i: int| 0 <= i < k ==> (#[trigger] boxes@[i]).id == old_boxes[i].id
                    && boxes@[i].queue@ == old_boxes[i].queue@.push(m) && boxes@[i].holders == old_boxes[i].holders,
                forall|i: int| k <= i < old_boxes.len() ==> #[trigger] boxes@[i] == old_boxes[i],
            decreases boxes@.len() - k,
        {
            let mut slot = BroadcastMailbox { id: 0, queue: Vec::new(), holders: 0 };
            boxes.set_and_swap(k, &mut slot);
            slot.queue.push(share(&m));
            boxes.set_and_swap(k, &mut slot);
            k = k + 1;
        }
        self.broadcast_queues = boxes;
        let mut rx: VecDeque<u64> = VecDeque::new();
        std::mem::swap(&mut rx, &mut self.waiting_receivers);
        let mut mail: Vec<(u64, CtrlMsg<M>)> = Vec::new();
        std::mem::swap(&mut mail, &mut self.receiver_mail);
        let mut woken: usize = 0;
        let ghost old_mail = mail@;
        let ghost old_rx = rx@;
        while woken < rx.len()
            invariant
                woken <= old_rx.len(),
                rx@ == old_rx,
                mail@ == old_mail + old_rx.take(woken as int).map_values(
                    |id: u64| (id, CtrlMsg::<M>::NewBroadcast),
                ),
            decreases old_rx.len() - woken,
        {
            let id = rx[woken];
            mail.push((id, CtrlMsg::NewBroadcast));
            proof {
                assert(old_rx.take(woken + 1) =~= old_rx.take(woken as int).push(id));
                assert(mail@ =~= old_mail + old_rx.take(woken + 1).map_values(
                    |id: u64| (id, CtrlMsg::<M>::NewBroadcast),
                ));
            }
            woken = woken + 1;
        }
        self.receiver_mail = mail;
        self.broadcast_tail = self.broadcast_tail + 1;
        proof {
            assert(old_rx.take(woken as int) =~= old_rx);
            let ms = self@.mailboxes;
            let want = all_pushed(old(self)@.mailboxes, m);
            assert forall|i: int| 0 <= i < ms.len() implies ms[i] == want[i] by {
                assert(ms[i] == mailbox_view(boxes@[i]));
            }
            assert(ms =~= want);
            assert(self@.holders =~= old(self)@.holders);
            assert(self@ =~= old(self)@.send_broadcast(m));
        }
    }
}


/// Removes and returns the first waiting sender whose message has the default priority.
pub fn find_remove_next_default_priority<T: HasPriority>(
    queue: &mut VecDeque<WaitingSender<T>>,
) -> (r: Option<WaitingSender<T>>)
    ensures
        match r {
            Some(w) => has_default(old(queue)@) && w == old(queue)@[first_default(old(queue)@)]
                && final(queue)@ == old(queue)@.remove(first_default(old(queue)@)),
            None => !has_default(old(queue)@) && final(queue)@ == old(queue)@,
        },
{
    let pos = find_first_default(queue)?;
    queue.remove(pos)
}

/// Removes and returns the last waiting sender whose message has the highest priority.
pub fn find_remove_highest_priority<T: HasPriority>(
    queue: &mut VecDeque<WaitingSender<T>>,
) -> (r: Option<WaitingSender<T>>)
    ensures
        match r {
            Some(w) => old(queue)@.len() > 0 && w == old(queue)@[last_max(old(queue)@)]
                && final(queue)@ == old(queue)@.remove(last_max(old(queue)@)),
            None => old(queue)@.len() == 0 && final(queue)@ == old(queue)@,
        },
{
    if queue.len() == 0 {
        return None;
    }
    let pos = find_last_max(queue);
    queue.remove(pos)
}


/// The first index of an entry with id `id`.
fn find_id<T>(v: &Vec<(u64, T)>, id: u64) -> (r: Option<usize>)
    ensures
        match r {
            Some(i) => i as int == index_of_id(v@, id) && i < v@.len(),
            None => index_of_id(v@, id) == -1,
        },
{
    let mut k: usize = 0;
    while k < v.len()
        invariant
            k <= v@.len(),
            forall|j: int| 0 <= j < k ==> (#[trigger] v@[j]).0 != id,
        decreases v@.len() - k,
    {
        if v[k].0 == id {
            proof {
                lemma_index_of_id(v@, id, k as int);
            }
            return Some(k);
        }
        k = k + 1;
    }
    proof {
        lemma_index_of_id_none(v@, id);
    }
    None
}

/// The first index of `id`.
fn find_u64(v: &VecDeque<u64>, id: u64) -> (r: Option<usize>)
    ensures
        match r {
            Some(i) => i as int == index_of(v@, id) && i < v@.len() && v@.contains(id),
            None => !v@.contains(id),
        },
{
    let mut k: usize = 0;
    while k < v.len()
        invariant
            k <= v@.len(),
            forall|j: int| 0 <= j < k ==> v@[j] != id,
        decreases v@.len() - k,
    {
        if v[k] == id {
            proof {
                lemma_index_of(v@, id, k as int);
            }
            return Some(k);
        }
        k = k + 1;
    }
    None
}

/// The first index of a waiting sender with id `id`.
fn find_waiting<T>(v: &VecDeque<WaitingSender<T>>, id: u64) -> (r: Option<usize>)
    ensures
        match r {
            Some(i) => i as int == index_of_waiting(v@, id) && i < v@.len(),
            None => index_of_waiting(v@, id) == -1,
        },
{
    let mut k: usize = 0;
    while k < v.len()
        invariant
            k <= v@.len(),
            forall|j: int| 0 <= j < k ==> (#[trigger] v@[j]).id != id,
        decreases v@.len() - k,
    {
        if v[k].id == id {
            proof {
                lemma_index_of_waiting(v@, id, k as int);
            }
            return Some(k);
        }
        k = k + 1;
    }
    proof {
        lemma_index_of_waiting_none(v@, id);
    }
    None
}

/// Creates an actor's channel, whose capacity applies severally to each of its three mailboxes
/// (ordered, priority and broadcast), with one strong sender and one receiver.
pub fn new<M: HasPriority, B: HasPriority>(capacity: Option<usize>) -> (r: (Chan<M, B>, tx::Sender<tx::TxStrong>, rx::Receiver))
    ensures
        r.0@ == (ChanView {
            sender_count: 1,
            receiver_count: 1,
            mailboxes: seq![(0u64, Seq::<Arc<B>>::empty())],
            holders: seq![1usize],
            next_id: 1,
            ..ChanView::<M, B>::initial(capacity)
        }),
        r.0@.wf(),
        r.1.spec_is_strong(),
        r.2.mailbox == 0,
{
    let mut chan = Chan::new(capacity);
    let tx = tx::Sender::new(&mut chan);
    let rx = rx::Receiver::new(&mut chan);
    proof {
        assert(chan@.mailboxes =~= seq![(0u64, Seq::<Arc<B>>::empty())]);
        assert(chan@.holders =~= seq![1usize]);
    }
    (chan, tx, rx)
}

} // verus!
