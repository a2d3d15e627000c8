//! Broadcasting a message to every actor on an address.

use vstd::prelude::*;

use crate::envelope::{BroadcastEnvelopeConcrete, BroadcastMessage, MessageEnvelope};
use crate::inbox::{Chan, SenderPoll};
use crate::send_future::{arc_of, points_to, sending_poll, SentMessage, Sending, SetPriority};

verus! {

/// The state of broadcasting a message to every actor on an address. By default a broadcast
/// has priority 0; actors handle broadcasts from high to low priority on a best-effort basis.
/// It resolves once the message is queued in the broadcast mailboxes; when they are full, it
/// waits until there is room.
pub struct BroadcastFuture<M, B> {
    inner: Sending<M, B>,
}

impl<M: MessageEnvelope, B: MessageEnvelope> BroadcastFuture<M, B> {
    /// The state of the underlying send.
    pub closed spec fn sending(self) -> Sending<M, B> {
        self.inner
    }

    /// Sets the priority of this broadcast, which is a caller error once it has been polled.
    pub fn priority(self, priority: u32) -> (r: Self)
        requires
            self.sending() is New,
        ensures
            r.sending() == self.sending().with_priority(priority),
    {
        let mut this = self;
        this.inner.set_priority(priority);
        this
    }

    /// Drops the broadcast: one still waiting for room is withdrawn and dropped.
    pub fn cancel(self, chan: &mut Chan<M, B>)
        requires
            old(chan)@.wf(),
        ensures
            final(chan)@ == (match self.sending() {
                Sending::WaitingToSend { waiting } => old(chan)@.cancel_sender(waiting),
                _ => old(chan)@,
            }),
            final(chan)@.wf(),
    {
        self.inner.cancel(chan)
    }

    /// Polls the broadcast.
    pub fn poll(&mut self, chan: &mut Chan<M, B>) -> (r: SenderPoll)
        requires
            !(old(self).sending() is Done),
            old(chan)@.wf(),
            old(chan)@.next_id < u64::MAX,
            old(chan)@.tail < usize::MAX,
        ensures
            (final(chan)@, final(self).sending(), r) == sending_poll(old(chan)@, old(self).sending()),
            old(self).sending() matches Sending::New { msg: SentMessage::ToAllActors(b) } ==> points_to(
                arc_of(b),
                b,
            ),
            final(chan)@.wf(),
    {
        self.inner.poll(chan)
    }
}

impl<M: MessageEnvelope, A, T> BroadcastFuture<M, BroadcastMessage<A, T>> {
    /// A broadcast of `message` with the default priority 0, not yet offered to the channel.
    pub fn new(message: T) -> (r: Self)
        ensures
            r.sending() matches Sending::New { msg: SentMessage::ToAllActors(BroadcastMessage::Message(e)) }
                && e.spec_message() == message && e.spec_priority_value() == 0,
    {
        let envelope = BroadcastEnvelopeConcrete::new(message, 0);
        BroadcastFuture { inner: Sending::New { msg: SentMessage::ToAllActors(BroadcastMessage::Message(envelope)) } }
    }
}

} // verus!
