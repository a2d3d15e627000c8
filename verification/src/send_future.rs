//! Sending a message: the states of a send, from a message not yet offered to the channel,
//! through waiting for space in a full mailbox, to done.

use std::sync::Arc;

use vstd::prelude::*;

use crate::envelope::{BroadcastEnvelopeConcrete, BroadcastMessage, MessageEnvelope, ReturningEnvelope};
use crate::inbox::{Chan, ChanView, MailboxFull, SenderPoll};

verus! {

/// A message on its way into a channel.
pub enum SentMessage<M, B> {
    /// A message for one actor.
    ToOneActor(M),
    /// A message for every actor.
    ToAllActors(B),
}

impl<M: MessageEnvelope, B: MessageEnvelope> SentMessage<M, B> {
    /// This message with its priority set.
    pub open spec fn with_priority(self, priority: u32) -> Self {
        match self {
            SentMessage::ToOneActor(m) => SentMessage::ToOneActor(m.with_priority(priority)),
            SentMessage::ToAllActors(b) => SentMessage::ToAllActors(b.with_priority(priority)),
        }
    }
}

/// `a` points to `b`.
pub open spec fn points_to<B>(a: Arc<B>, b: B) -> bool {
    a == b
}

/// The shared pointer holding `b`: the one a broadcast is queued as. Polling a new broadcast
/// shows that it holds `b` (see [`Sending::poll`]).
pub open spec fn arc_of<B>(b: B) -> Arc<B> {
    choose|a: Arc<B>| #[trigger] points_to(a, b)
}

/// The state of sending a message to an actor.
pub enum Sending<M, B> {
    /// The message has not yet been offered to the channel.
    New {
        /// The message.
        msg: SentMessage<M, B>,
    },
    /// The mailbox was full: the message waits for space under the given id.
    WaitingToSend {
        /// The id of the waiting sender holding the message.
        waiting: u64,
    },
    /// The send is over.
    Done,
}

/// Something whose message's priority can still be set.
pub trait SetPriority: Sized {
    /// Whether the priority can still be set.
    spec fn accepts_priority(&self) -> bool;

    /// This value with the priority of its message set.
    spec fn with_priority(self, priority: u32) -> Self;

    /// Sets the priority of the message, which must not yet have been offered to the channel:
    /// setting it later is a caller error.
    fn set_priority(&mut self, priority: u32)
        requires
            old(self).accepts_priority(),
        ensures
            *final(self) == old(self).with_priority(priority),
    ;
}

impl<M: MessageEnvelope, B: MessageEnvelope> SetPriority for Sending<M, B> {
    open spec fn accepts_priority(&self) -> bool {
        self is New
    }

    open spec fn with_priority(self, priority: u32) -> Self {
        match self {
            Sending::New { msg } => Sending::New { msg: msg.with_priority(priority) },
            other => other,
        }
    }

    fn set_priority(&mut self, new_priority: u32) {
        match self {
            Sending::New { msg: SentMessage::ToOneActor(msg) } => msg.set_priority(new_priority),
            Sending::New { msg: SentMessage::ToAllActors(msg) } => msg.set_priority(new_priority),
            _ => {},
        }
    }
}

/// What polling a send does: a new message is offered to the channel (a message parked in a
/// full mailbox leaves the send waiting); a waiting send asks after its parked message and,
/// once it has an outcome, is over and lets go of the record of it.
pub open spec fn sending_poll<M: MessageEnvelope, B: MessageEnvelope>(
    v: ChanView<M, B>,
    s: Sending<M, B>,
) -> (ChanView<M, B>, Sending<M, B>, SenderPoll) {
    match s {
        Sending::New { msg } => {
            let (v1, r) = match msg {
                SentMessage::ToOneActor(m) => v.try_send_to_one(m),
                SentMessage::ToAllActors(b) => v.try_send_to_all(arc_of(b)),
            };
            match r {
                Ok(Ok(())) => (v1, Sending::Done, SenderPoll::Ready(Ok(()))),
                Err(e) => (v1, Sending::Done, SenderPoll::Ready(Err(e))),
                Ok(Err(MailboxFull(id))) => (v1, Sending::WaitingToSend { waiting: id }, SenderPoll::Pending),
            }
        },
        Sending::WaitingToSend { waiting } => {
            let (v1, p) = v.poll_sender(waiting);
            match p {
                SenderPoll::Pending => (v1, s, SenderPoll::Pending),
                SenderPoll::Ready(r) => (v1.cancel_sender(waiting), Sending::Done, SenderPoll::Ready(r)),
            }
        },
        Sending::Done => (v, s, SenderPoll::Pending),
    }
}

/// A message parked when its mailbox is full is pending when its send is polled again at once.
pub proof fn lemma_parked_message_pending<M: MessageEnvelope, B: MessageEnvelope>(
    v: ChanView<M, B>,
    m: M,
)
    requires
        v.try_send_to_one(m).1 matches Ok(Err(MailboxFull(id))),
    ensures
        ({
            let (v1, r) = v.try_send_to_one(m);
            let id = r->Ok_0->Err_0.0;
            v1.poll_sender(id) == (v1, SenderPoll::Pending)
        }),
{
    let (v1, r) = v.try_send_to_one(m);
    let id = r->Ok_0->Err_0.0;
    let n = v1.waiting_one.len() - 1;
    assert(v1.waiting_one[n].id == id);
    crate::inbox::state::lemma_index_of_waiting_exists(v1.waiting_one, id, n);
}

/// A new send polled on a channel that is not connected is refused: it is over, it reports
/// that the actor disconnected, and the channel is unchanged.
pub proof fn law_send_to_disconnected_refused<M: MessageEnvelope, B: MessageEnvelope>(
    v: ChanView<M, B>,
    msg: SentMessage<M, B>,
)
    requires
        !v.is_connected(),
    ensures
        sending_poll(v, Sending::New { msg }) == (v, Sending::<M, B>::Done, SenderPoll::Ready(
            Err(crate::error::Error::Disconnected),
        )),
{
}

/// A new send polled on a connected channel with room, while no receiver waits, is reported
/// sent and is over: a message of default priority joins the back of the ordered mailbox, any
/// other the priority mailbox, and a broadcast the back of every broadcast mailbox.
pub proof fn law_send_with_room_reports_sent<M: MessageEnvelope, B: MessageEnvelope>(
    v: ChanView<M, B>,
    msg: SentMessage<M, B>,
)
    requires
        v.is_connected(),
        v.waiting_rx.len() == 0,
        msg matches SentMessage::ToOneActor(m) ==> (if m.spec_priority() == crate::inbox::Priority::spec_default() {
            !v.ordered_full()
        } else {
            !v.priority_full()
        }),
        msg is ToAllActors ==> !v.broadcast_full(),
    ensures
        sending_poll(v, Sending::New { msg }).1 == Sending::<M, B>::Done,
        sending_poll(v, Sending::New { msg }).2 == SenderPoll::Ready(Ok(())),
        msg matches SentMessage::ToOneActor(m) ==> (if m.spec_priority() == crate::inbox::Priority::spec_default() {
            sending_poll(v, Sending::New { msg }).0.ordered == v.ordered.push(m)
        } else {
            sending_poll(v, Sending::New { msg }).0.prioritised == v.prioritised.push(m)
        }),
        msg matches SentMessage::ToAllActors(b) ==> forall|k: int|
            0 <= k < v.mailboxes.len() ==> (#[trigger] sending_poll(v, Sending::New { msg }).0.mailboxes[k]).1
                == v.mailboxes[k].1.push(arc_of(b)),
{
}

impl<M: MessageEnvelope, B: MessageEnvelope> Sending<M, B> {
    /// Whether the send is over.
    pub fn is_terminated(&self) -> (r: bool)
        ensures
            r == (*self is Done),
    {
        match self {
            Sending::Done => true,
            _ => false,
        }
    }

    /// Drops the send: a message still parked in a full mailbox is withdrawn and dropped.
    pub fn cancel(self, chan: &mut Chan<M, B>)
        requires
            old(chan)@.wf(),
        ensures
            final(chan)@ == (match self {
                Sending::WaitingToSend { waiting } => old(chan)@.cancel_sender(waiting),
                _ => old(chan)@,
            }),
            final(chan)@.wf(),
    {
        if let Sending::WaitingToSend { waiting } = self {
            chan.cancel_waiting_sender(waiting);
        }
    }

    /// Polls the send. A message offered to a full mailbox is parked and the send waits; a
    /// parked message is pending when polled again at once (see
    /// [`lemma_parked_message_pending`]), so the poll then returns at once.
    pub fn poll(&mut self, chan: &mut Chan<M, B>) -> (r: SenderPoll)
        requires
            !(*old(self) is Done),
            old(chan)@.wf(),
            old(chan)@.next_id < u64::MAX,
            old(chan)@.tail < usize::MAX,
        ensures
            (final(chan)@, *final(self), r) == sending_poll(old(chan)@, *old(self)),
            *old(self) matches Sending::New { msg: SentMessage::ToAllActors(b) } ==> points_to(arc_of(b), b),
            final(chan)@.wf(),
    {
        let mut state = Sending::Done;
        std::mem::swap(&mut state, self);
        match state {
            Sending::New { msg } => {
                let r = match msg {
                    SentMessage::ToOneActor(m) => chan.try_send_to_one(m),
                    SentMessage::ToAllActors(b) => {
                        let a = Arc::new(b);
                        assert(points_to(a, b));
                        assert(a == arc_of(b));
                        chan.try_send_to_all(a)
                    },
                };
                match r {
                    Ok(Ok(())) => SenderPoll::Ready(Ok(())),
                    Err(e) => SenderPoll::Ready(Err(e)),
                    Ok(Err(MailboxFull(id))) => {
                        *self = Sending::WaitingToSend { waiting: id };
                        SenderPoll::Pending
                    },
                }
            },
            Sending::WaitingToSend { waiting } => {
                match chan.poll_waiting_sender(waiting) {
                    SenderPoll::Pending => {
                        *self = Sending::WaitingToSend { waiting };
                        SenderPoll::Pending
                    },
                    SenderPoll::Ready(r) => {
                        // The send is over: its outcome is no longer needed.
                        chan.cancel_waiting_sender(waiting);
                        SenderPoll::Ready(r)
                    },
                }
            },
            Sending::Done => SenderPoll::Pending,
        }
    }
}

/// The "sending" state of a [`SendFuture`] whose actor type is named.
pub struct ActorNamedSending<M, B> {
    /// The state of the send.
    pub future: Sending<M, B>,
}

impl<M: MessageEnvelope, B: MessageEnvelope> SetPriority for ActorNamedSending<M, B> {
    open spec fn accepts_priority(&self) -> bool {
        self.future.accepts_priority()
    }

    open spec fn with_priority(self, priority: u32) -> Self {
        ActorNamedSending { future: self.future.with_priority(priority) }
    }

    fn set_priority(&mut self, priority: u32) {
        self.future.set_priority(priority)
    }
}

/// A future that represents the state of sending a message to an actor: its sending state and
/// what it resolves to.
pub struct SendFuture<F, S> {
    /// The sending state.
    pub inner: F,
    /// What the future resolves to once the message is queued.
    pub state: S,
}

/// Marker for a [`SendFuture`] that resolves to the handler's return value, through `receiver`.
pub struct ResolveToHandlerReturn<R> {
    /// The receiver of the handler's return value.
    pub receiver: R,
}

/// Marker for a [`SendFuture`] that resolves to the receiver of the handler's return value
/// once the message is queued.
pub struct ResolveToReceiver<R> {
    /// The receiver, until it is handed out.
    pub receiver: Option<R>,
}

impl<R> ResolveToReceiver<R> {
    /// Hands out the receiver once the message is queued; `None` after it was handed out.
    pub fn take(&mut self) -> (r: Option<R>)
        ensures
            r == old(self).receiver,
            final(self).receiver.is_none(),
    {
        let mut out = None;
        std::mem::swap(&mut out, &mut self.receiver);
        out
    }
}

/// Marker for a [`SendFuture`] that broadcasts messages.
pub struct Broadcast(());

impl Broadcast {
    /// The broadcast marker.
    pub fn new() -> (b: Broadcast) {
        Broadcast(())
    }
}

impl<F: SetPriority, S> SendFuture<F, S> {
    /// Sets the priority of the message, which is a caller error once the future has been
    /// polled.
    pub fn priority(self, new_priority: u32) -> (r: Self)
        requires
            self.inner.accepts_priority(),
        ensures
            r.inner == self.inner.with_priority(new_priority),
            r.state == self.state,
    {
        let mut this = self;
        this.inner.set_priority(new_priority);
        this
    }
}

impl<F, R> SendFuture<F, ResolveToHandlerReturn<R>> {
    /// Splits off the receiver of the handler's return value: the future then resolves to that
    /// receiver once the message is queued.
    pub fn split_receiver(self) -> (r: SendFuture<F, ResolveToReceiver<R>>)
        ensures
            r.inner == self.inner,
            r.state.receiver == Some(self.state.receiver),
    {
        SendFuture { inner: self.inner, state: ResolveToReceiver { receiver: Some(self.state.receiver) } }
    }
}

impl<A, T, S, B: MessageEnvelope, R> SendFuture<
    ActorNamedSending<ReturningEnvelope<A, T, S>, B>,
    ResolveToHandlerReturn<R>,
> {
    /// A send of `message` with the default priority 0, whose result goes to `result_sender`
    /// and is awaited through `receiver`, not yet offered to the channel.
    pub fn sending_named(message: T, result_sender: S, receiver: R) -> (r: Self)
        ensures
            r.inner.future matches Sending::New { msg: SentMessage::ToOneActor(e) }
                && e.spec_message() == message && e.spec_result_sender() == result_sender
                && e.spec_priority_value() == 0,
            r.state.receiver == receiver,
    {
        let envelope = ReturningEnvelope::new(message, result_sender, 0);
        SendFuture {
            inner: ActorNamedSending { future: Sending::New { msg: SentMessage::ToOneActor(envelope) } },
            state: ResolveToHandlerReturn { receiver },
        }
    }
}

impl<M: MessageEnvelope, A, T> SendFuture<ActorNamedSending<M, BroadcastMessage<A, T>>, Broadcast> {
    /// A broadcast of `message` with the default priority 0, not yet offered to the channel.
    pub fn broadcast_named(message: T) -> (r: Self)
        ensures
            r.inner.future matches Sending::New {
                msg: SentMessage::ToAllActors(BroadcastMessage::Message(e)),
            } && e.spec_message() == message && e.spec_priority_value() == 0,
    {
        let envelope = BroadcastEnvelopeConcrete::new(message, 0);
        SendFuture {
            inner: ActorNamedSending {
                future: Sending::New { msg: SentMessage::ToAllActors(BroadcastMessage::Message(envelope)) },
            },
            state: Broadcast(()),
        }
    }
}

impl<M: MessageEnvelope, B: MessageEnvelope, S> SendFuture<ActorNamedSending<M, B>, S> {
    /// Polls the queuing of the message.
    pub fn poll_sending(&mut self, chan: &mut Chan<M, B>) -> (r: SenderPoll)
        requires
            !(old(self).inner.future is Done),
            old(chan)@.wf(),
            old(chan)@.next_id < u64::MAX,
            old(chan)@.tail < usize::MAX,
        ensures
            (final(chan)@, final(self).inner.future, r) == sending_poll(old(chan)@, old(self).inner.future),
            old(self).inner.future matches Sending::New { msg: SentMessage::ToAllActors(b) } ==> points_to(
                arc_of(b),
                b,
            ),
            final(self).state == old(self).state,
            final(chan)@.wf(),
    {
        self.inner.future.poll(chan)
    }
}

} // verus!
