//! The receiving side of a channel: receivers, their reference count, and the future through
//! which an actor receives its next message.

use vstd::prelude::*;

use super::state::{index_of_id, ReceiverPoll};
use super::tx::{Sender, TxStrong, TxWeak};
use super::{ActorMessage, Chan, ChanView, HasPriority};

verus! {

/// A reference count for the receiving end of the channel, the mailbox of an actor.
pub struct Rx(());

impl Rx {
    /// Counts a new receiver.
    pub fn make_new<M: HasPriority, B: HasPriority>(&self, chan: &mut Chan<M, B>) -> (r: Rx)
        requires
            old(chan)@.receiver_count < usize::MAX,
        ensures
            final(chan)@ == (ChanView {
                receiver_count: (old(chan)@.receiver_count + 1) as usize,
                ..old(chan)@
            }),
    {
        chan.increment_receiver_count();
        Rx(())
    }

    /// Uncounts a receiver; returns whether it was the last one, in which case every queued
    /// message was dropped and every waiting sender closed.
    pub fn destroy<M: HasPriority, B: HasPriority>(&self, chan: &mut Chan<M, B>) -> (last: bool)
        requires
            old(chan)@.receiver_count > 0,
            old(chan)@.wf(),
        ensures
            last == (old(chan)@.receiver_count == 1),
            last ==> final(chan)@ == (ChanView { receiver_count: 0, ..old(chan)@ }).shutdown_waiting_senders(),
            !last ==> final(chan)@ == (ChanView {
                receiver_count: (old(chan)@.receiver_count - 1) as usize,
                ..old(chan)@
            }),
            final(chan)@.wf(),
    {
        chan.decrement_receiver_count()
    }

    /// A receiver's reference count is strong.
    pub fn is_strong(&self) -> (r: bool)
        ensures
            r,
    {
        true
    }
}

/// A receiver of an actor's messages: it is counted among the channel's receivers and holds a
/// broadcast mailbox, which it may share with other receivers.
pub struct Receiver {
    /// The id of the broadcast mailbox this receiver holds.
    pub mailbox: u64,
}

/// The state of receiving the next message.
pub enum ReceiveFuture {
    /// Not yet polled, or woken without a message: the channel is asked again.
    New(Receiver),
    /// Registered with the channel as waiting, under the given id.
    Waiting(Receiver, u64),
    /// A message has been received.
    Done,
}

/// The outcome of polling a [`ReceiveFuture`].
pub enum ReceivePoll<M, B> {
    /// No message yet: the receiver waits.
    Pending,
    /// The next message for the actor.
    Ready(ActorMessage<M, B>),
}

/// Polling a receive that asks the channel: a message is ready, and the receive's receiver is
/// let go of, or the receiver now waits under a fresh id.
pub open spec fn receive_from_new<M: HasPriority, B: HasPriority>(
    v: ChanView<M, B>,
    mailbox: u64,
) -> (ChanView<M, B>, ReceiveFuture, ReceivePoll<M, B>) {
    let (v1, r) = v.try_recv(index_of_id(v.mailboxes, mailbox));
    match r {
        Ok(m) => (v1.uncount_receiver().release_mailbox(mailbox), ReceiveFuture::Done, ReceivePoll::Ready(m)),
        Err(id) => (v1, ReceiveFuture::Waiting(Receiver { mailbox }, id), ReceivePoll::Pending),
    }
}

/// What one poll of a receive does: a waiting receiver takes its notification, and once a
/// message is ready the receive's receiver is let go of; a notification that holds nothing
/// sends it back to the channel with a clone of its receiver, which holds a new broadcast
/// mailbox of its own.
pub open spec fn receive_poll<M: HasPriority, B: HasPriority>(
    v: ChanView<M, B>,
    fut: ReceiveFuture,
) -> (ChanView<M, B>, ReceiveFuture, ReceivePoll<M, B>) {
    match fut {
        ReceiveFuture::New(rx) => receive_from_new(v, rx.mailbox),
        ReceiveFuture::Waiting(rx, id) => {
            let (v1, p) = v.poll_receiver(id, index_of_id(v.mailboxes, rx.mailbox));
            match p {
                ReceiverPoll::Pending => (v1, ReceiveFuture::Waiting(rx, id), ReceivePoll::Pending),
                ReceiverPoll::Ready(Some(m)) => (
                    v1.uncount_receiver().release_mailbox(rx.mailbox),
                    ReceiveFuture::Done,
                    ReceivePoll::Ready(m),
                ),
                ReceiverPoll::Ready(None) => {
                    let v2 = v1.add_receiver().uncount_receiver().release_mailbox(rx.mailbox);
                    receive_from_new(v2, v1.next_id)
                },
            }
        },
        ReceiveFuture::Done => (v, fut, ReceivePoll::Pending),
    }
}

/// Dropping a receive: a waiting receiver is withdrawn and a message already delivered to it is
/// put back into the channel, so that no message is lost; the receive's receiver is let go of.
pub open spec fn receive_dropped<M: HasPriority, B: HasPriority>(v: ChanView<M, B>, fut: ReceiveFuture) -> ChanView<M, B> {
    match fut {
        ReceiveFuture::New(rx) => v.uncount_receiver().release_mailbox(rx.mailbox),
        ReceiveFuture::Waiting(rx, id) => {
            let (v1, back) = v.cancel_receiver(id);
            let v2 = match back {
                Some(m) => v1.requeue(m),
                None => v1,
            };
            v2.uncount_receiver().release_mailbox(rx.mailbox)
        },
        ReceiveFuture::Done => v,
    }
}

/// Cancelling a receive: a waiting receiver is withdrawn and the message already handed to it,
/// if any, is returned rather than put back; the receive's receiver is let go of.
pub open spec fn receive_cancelled<M: HasPriority, B: HasPriority>(v: ChanView<M, B>, fut: ReceiveFuture) -> (
    ChanView<M, B>,
    Option<M>,
) {
    match fut {
        ReceiveFuture::New(rx) => (v.uncount_receiver().release_mailbox(rx.mailbox), None),
        ReceiveFuture::Waiting(rx, id) => {
            let (v1, back) = v.cancel_receiver(id);
            (v1.uncount_receiver().release_mailbox(rx.mailbox), back)
        },
        ReceiveFuture::Done => (v, None),
    }
}

/// The states of the channel and of a receive in which the receive can be polled; polling a
/// receive that is over finds it pending.
pub open spec fn can_poll<M: HasPriority, B: HasPriority>(v: ChanView<M, B>, fut: ReceiveFuture) -> bool {
    &&& v.wf()
    &&& match fut {
        ReceiveFuture::New(rx) => {
            &&& v.receiver_count > 0
            &&& v.tail < usize::MAX
            &&& v.next_id < u64::MAX - 2
            &&& index_of_id(v.mailboxes, rx.mailbox) >= 0
        },
        ReceiveFuture::Waiting(rx, _) => {
            &&& v.receiver_count > 0
            &&& v.tail < usize::MAX
            &&& v.next_id < u64::MAX - 2
            &&& index_of_id(v.mailboxes, rx.mailbox) >= 0
        },
        ReceiveFuture::Done => true,
    }
}

impl Receiver {
    /// A new receiver: counted among the receivers, with a new broadcast mailbox of its own.
    pub fn new<M: HasPriority, B: HasPriority>(chan: &mut Chan<M, B>) -> (r: Receiver)
        requires
            old(chan)@.receiver_count < usize::MAX,
            old(chan)@.next_id < u64::MAX,
            old(chan)@.wf(),
        ensures
            r.mailbox == old(chan)@.next_id,
            final(chan)@ == old(chan)@.add_receiver(),
            final(chan)@.wf(),
    {
        chan.increment_receiver_count();
        let mailbox = chan.new_broadcast_mailbox();
        Receiver { mailbox }
    }

    /// A clone of this receiver: counted among the receivers, with a new broadcast mailbox of
    /// its own.
    pub fn clone_receiver<M: HasPriority, B: HasPriority>(&self, chan: &mut Chan<M, B>) -> (r: Receiver)
        requires
            old(chan)@.receiver_count < usize::MAX,
            old(chan)@.next_id < u64::MAX,
            old(chan)@.wf(),
        ensures
            r.mailbox == old(chan)@.next_id,
            final(chan)@ == old(chan)@.add_receiver(),
            final(chan)@.wf(),
    {
        Receiver::new(chan)
    }

    /// A strong sender to this receiver's channel, unless the last strong sender has gone.
    pub fn sender<M: HasPriority, B: HasPriority>(&self, chan: &mut Chan<M, B>) -> (r: Option<TxStrong>)
        requires
            old(chan)@.sender_count < usize::MAX,
        ensures
            r.is_some() == (old(chan)@.sender_count > 0),
            r.is_some() ==> final(chan)@ == (ChanView {
                sender_count: (old(chan)@.sender_count + 1) as usize,
                ..old(chan)@
            }),
            r.is_none() ==> final(chan)@ == old(chan)@,
    {
        TxStrong::try_new(chan)
    }

    /// A weak sender to this receiver's channel.
    pub fn weak_sender<M: HasPriority, B: HasPriority>(&self, chan: &Chan<M, B>) -> (r: Sender<TxWeak>)
        ensures
            !r.spec_is_strong(),
    {
        Sender::new_weak(chan)
    }

    /// Takes the next broadcast from this receiver's mailbox.
    pub fn next_broadcast_message<M: HasPriority, B: HasPriority>(
        &self,
        chan: &mut Chan<M, B>,
    ) -> (r: Option<std::sync::Arc<B>>)
        requires
            index_of_id(old(chan)@.mailboxes, self.mailbox) >= 0,
            old(chan)@.wf(),
            old(chan)@.tail < usize::MAX,
        ensures
            (final(chan)@, r) == old(chan)@.pop_broadcast(index_of_id(old(chan)@.mailboxes, self.mailbox)),
            final(chan)@.wf(),
    {
        chan.next_broadcast_message(self.mailbox)
    }

    /// Starts receiving the next message, through a receiver counted anew that shares this
    /// receiver's broadcast mailbox.
    pub fn receive<M: HasPriority, B: HasPriority>(&self, chan: &mut Chan<M, B>) -> (r: ReceiveFuture)
        requires
            old(chan)@.receiver_count < usize::MAX,
            old(chan)@.wf(),
            index_of_id(old(chan)@.mailboxes, self.mailbox) >= 0,
            old(chan)@.holders[index_of_id(old(chan)@.mailboxes, self.mailbox)] < usize::MAX,
        ensures
            r == ReceiveFuture::New(Receiver { mailbox: self.mailbox }),
            final(chan)@ == (ChanView {
                receiver_count: (old(chan)@.receiver_count + 1) as usize,
                holders: old(chan)@.holders.update(
                    index_of_id(old(chan)@.mailboxes, self.mailbox),
                    (old(chan)@.holders[index_of_id(old(chan)@.mailboxes, self.mailbox)] + 1) as usize,
                ),
                ..old(chan)@
            }),
            final(chan)@.wf(),
    {
        chan.share_broadcast_mailbox(self.mailbox);
        chan.increment_receiver_count();
        ReceiveFuture::New(Receiver { mailbox: self.mailbox })
    }

    /// Drops this receiver: it is uncounted (the last receiver's going drops every queued
    /// message and closes every waiting sender) and lets go of its broadcast mailbox. Returns
    /// whether it was the last receiver.
    pub fn release<M: HasPriority, B: HasPriority>(self, chan: &mut Chan<M, B>) -> (last: bool)
        requires
            old(chan)@.receiver_count > 0,
            old(chan)@.wf(),
        ensures
            last == (old(chan)@.receiver_count == 1),
            final(chan)@ == old(chan)@.uncount_receiver().release_mailbox(self.mailbox),
            final(chan)@.wf(),
    {
        let last = chan.decrement_receiver_count();
        chan.release_broadcast_mailbox(self.mailbox);
        last
    }
}

impl ReceiveFuture {
    /// Whether a message has been received.
    pub fn is_terminated(&self) -> (r: bool)
        ensures
            r == (*self is Done),
    {
        match self {
            ReceiveFuture::Done => true,
            _ => false,
        }
    }

    /// Polls for the next message. A receiver that waits and is woken by a notification that
    /// holds nothing asks the channel again at once, through a clone of its receiver.
    pub fn poll<M: HasPriority, B: HasPriority>(&mut self, chan: &mut Chan<M, B>) -> (r: ReceivePoll<M, B>)
        requires
            can_poll(old(chan)@, *old(self)),
            old(chan)@.receiver_count < usize::MAX,
        ensures
            (final(chan)@, *final(self), r) == receive_poll(old(chan)@, *old(self)),
            final(chan)@.wf(),
    {
        let mut state = ReceiveFuture::Done;
        std::mem::swap(&mut state, self);
        match state {
            ReceiveFuture::New(rx) => self.poll_new(chan, rx),
            ReceiveFuture::Waiting(rx, id) => {
                match chan.poll_waiting_receiver(id, rx.mailbox) {
                    ReceiverPoll::Pending => {
                        *self = ReceiveFuture::Waiting(rx, id);
                        ReceivePoll::Pending
                    },
                    ReceiverPoll::Ready(Some(msg)) => {
                        rx.release(chan);
                        ReceivePoll::Ready(msg)
                    },
                    ReceiverPoll::Ready(None) => {
                        // False positive wake up: try receive again through a clone of the
                        // receiver, letting go of the old one.
                        proof {
                            chan@.lemma_clone_then_release(rx.mailbox);
                        }
                        let fresh = rx.clone_receiver(chan);
                        rx.release(chan);
                        self.poll_new(chan, fresh)
                    },
                }
            },
            ReceiveFuture::Done => ReceivePoll::Pending,
        }
    }

    /// Cancels this receive, returning the message it had been handed but not yet taken (see
    /// [`receive_cancelled`]). The receive is then over.
    pub fn cancel<M: HasPriority, B: HasPriority>(&mut self, chan: &mut Chan<M, B>) -> (r: Option<M>)
        requires
            old(chan)@.wf(),
            !(*old(self) is Done) ==> old(chan)@.receiver_count > 0,
        ensures
            (final(chan)@, r) == receive_cancelled(old(chan)@, *old(self)),
            *final(self) is Done,
            final(chan)@.wf(),
    {
        let mut state = ReceiveFuture::Done;
        std::mem::swap(&mut state, self);
        match state {
            ReceiveFuture::New(rx) => {
                rx.release(chan);
                None
            },
            ReceiveFuture::Waiting(rx, id) => {
                let back = chan.cancel_waiting_receiver(id);
                rx.release(chan);
                back
            },
            ReceiveFuture::Done => None,
        }
    }

    /// Drops this receive (see [`receive_dropped`]).
    pub fn release<M: HasPriority, B: HasPriority>(self, chan: &mut Chan<M, B>)
        requires
            old(chan)@.wf(),
            !(self is Done) ==> old(chan)@.receiver_count > 0,
        ensures
            final(chan)@ == receive_dropped(old(chan)@, self),
            final(chan)@.wf(),
    {
        match self {
            ReceiveFuture::New(rx) => {
                rx.release(chan);
            },
            ReceiveFuture::Waiting(rx, id) => {
                chan.drop_waiting_receiver(id);
                rx.release(chan);
            },
            ReceiveFuture::Done => {},
        }
    }

    fn poll_new<M: HasPriority, B: HasPriority>(&mut self, chan: &mut Chan<M, B>, rx: Receiver) -> (r: ReceivePoll<M, B>)
        requires
            old(chan)@.wf(),
            old(chan)@.tail < usize::MAX,
            old(chan)@.next_id < u64::MAX,
            old(chan)@.receiver_count > 0,
            index_of_id(old(chan)@.mailboxes, rx.mailbox) >= 0,
        ensures
            (final(chan)@, *final(self), r) == receive_from_new(old(chan)@, rx.mailbox),
            final(chan)@.wf(),
    {
        match chan.try_recv(rx.mailbox) {
            Ok(msg) => {
                rx.release(chan);
                *self = ReceiveFuture::Done;
                ReceivePoll::Ready(msg)
            },
            Err(id) => {
                *self = ReceiveFuture::Waiting(rx, id);
                ReceivePoll::Pending
            },
        }
    }
}

} // verus!
