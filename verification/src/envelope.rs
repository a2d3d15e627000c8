//! Message envelopes: a message together with its priority (and, for messages that return a
//! value, the sender of the result), erasing the message type so that one channel carries
//! every kind of message an actor handles.

use std::marker::PhantomData;

use vstd::prelude::*;

use crate::inbox::{ActorMessage, HasPriority, Priority};

verus! {

/// The span of a message request. Without instrumentation it records nothing.
#[derive(Clone, Copy, Debug)]
pub struct Span(());

impl Span {
    /// Runs `f` inside this span and returns its result.
    pub fn in_scope<R, F: FnOnce() -> R>(&self, f: F) -> (r: R)
        requires
            f.requires(()),
        ensures
            f.ensures((), r),
    {
        f()
    }

    /// A span that records nothing.
    pub fn none() -> (s: Span) {
        Span(())
    }

    /// Whether this span records nothing, which holds of every span without instrumentation.
    pub fn is_none(&self) -> (r: bool)
        ensures
            r,
    {
        true
    }
}

/// The spans of a message request: the request itself and its wait for the actor.
#[derive(Clone, Copy, Debug)]
pub struct Instrumentation {
    parent: Span,
    waiting_for_actor: Span,
}

impl Instrumentation {
    /// The spans of a request that record nothing.
    pub closed spec fn spec_empty() -> Instrumentation {
        Instrumentation { parent: Span(()), waiting_for_actor: Span(()) }
    }

    /// Spans that record nothing.
    pub fn empty() -> (i: Instrumentation)
        ensures
            i == Instrumentation::spec_empty(),
    {
        Instrumentation { parent: Span::none(), waiting_for_actor: Span::none() }
    }

    /// The spans of a request for the message named `message`; without instrumentation they
    /// record nothing.
    pub fn started(message: &str) -> (i: Instrumentation)
        ensures
            i == Instrumentation::spec_empty(),
    {
        Instrumentation::empty()
    }

    /// Runs the handler future `fut` inside the handler span: the future itself and that span.
    pub fn apply<F>(self, fut: F) -> (r: (F, Span))
        ensures
            r.0 == fut,
    {
        (fut, Span::none())
    }
}

/// A message envelope whose priority can be changed until it is sent.
pub trait MessageEnvelope: HasPriority + Sized {
    /// This envelope with its priority set to `new_priority`, as far as it has one to set.
    spec fn with_priority(self, new_priority: u32) -> Self;

    /// Sets the priority of this envelope.
    fn set_priority(&mut self, new_priority: u32)
        ensures
            *final(self) == old(self).with_priority(new_priority),
    ;
}

/// An envelope for a message that returns a result: the message, the sender of its result and
/// its priority.
pub struct ReturningEnvelope<A, M, S> {
    message: M,
    result_sender: S,
    priority: u32,
    phantom: PhantomData<A>,
    instrumentation: Instrumentation,
}

impl<A, M, S> ReturningEnvelope<A, M, S> {
    /// The message.
    pub closed spec fn spec_message(self) -> M {
        self.message
    }

    /// The sender of the result.
    pub closed spec fn spec_result_sender(self) -> S {
        self.result_sender
    }

    /// The priority, as a number.
    pub closed spec fn spec_priority_value(self) -> u32 {
        self.priority
    }

    /// An envelope for `message` whose result goes to `result_sender`.
    pub fn new(message: M, result_sender: S, priority: u32) -> (e: Self)
        ensures
            e.spec_message() == message,
            e.spec_result_sender() == result_sender,
            e.spec_priority_value() == priority,
    {
        ReturningEnvelope {
            message,
            result_sender,
            priority,
            phantom: PhantomData,
            instrumentation: Instrumentation::empty(),
        }
    }

    /// Opens the envelope: the message and the sender of its result.
    pub fn into_parts(self) -> (r: (M, S))
        ensures
            r.0 == self.spec_message(),
            r.1 == self.spec_result_sender(),
    {
        (self.message, self.result_sender)
    }
}

impl<A, M, S> HasPriority for ReturningEnvelope<A, M, S> {
    open spec fn spec_priority(&self) -> Priority {
        Priority::Valued(self.spec_priority_value())
    }

    fn priority(&self) -> (p: Priority) {
        Priority::Valued(self.priority)
    }
}

impl<A, M, S> MessageEnvelope for ReturningEnvelope<A, M, S> {
    closed spec fn with_priority(self, new_priority: u32) -> Self {
        ReturningEnvelope { priority: new_priority, ..self }
    }

    fn set_priority(&mut self, new_priority: u32) {
        self.priority = new_priority;
    }
}

/// The priority of a returning envelope is the priority it was last given.
pub proof fn lemma_returning_priority<A, M, S>(e: ReturningEnvelope<A, M, S>, p: u32)
    ensures
        e.with_priority(p).spec_priority() == Priority::Valued(p),
        e.with_priority(p).spec_message() == e.spec_message(),
        e.with_priority(p).spec_result_sender() == e.spec_result_sender(),
{
}

/// An envelope for a message sent to every actor on an address.
pub struct BroadcastEnvelopeConcrete<A, M> {
    message: M,
    /// The priority of the broadcast.
    pub priority: u32,
    phantom: PhantomData<A>,
    instrumentation: Instrumentation,
}

impl<A, M> BroadcastEnvelopeConcrete<A, M> {
    /// The message.
    pub closed spec fn spec_message(self) -> M {
        self.message
    }

    /// The priority, as a number.
    pub closed spec fn spec_priority_value(self) -> u32 {
        self.priority
    }

    /// An envelope broadcasting `message` with priority `priority`.
    pub fn new(message: M, priority: u32) -> (e: Self)
        ensures
            e.spec_message() == message,
            e.spec_priority_value() == priority,
    {
        BroadcastEnvelopeConcrete {
            message,
            priority,
            phantom: PhantomData,
            instrumentation: Instrumentation::empty(),
        }
    }

    /// The message, which each actor handles a clone of.
    pub fn message(&self) -> (m: &M)
        ensures
            *m == self.spec_message(),
    {
        &self.message
    }
}

impl<A, M> HasPriority for BroadcastEnvelopeConcrete<A, M> {
    open spec fn spec_priority(&self) -> Priority {
        Priority::Valued(self.spec_priority_value())
    }

    fn priority(&self) -> (p: Priority) {
        Priority::Valued(self.priority)
    }
}

impl<A, M> MessageEnvelope for BroadcastEnvelopeConcrete<A, M> {
    closed spec fn with_priority(self, new_priority: u32) -> Self {
        BroadcastEnvelopeConcrete { priority: new_priority, ..self }
    }

    fn set_priority(&mut self, new_priority: u32) {
        self.priority = new_priority;
    }
}

/// Setting a broadcast's priority changes nothing else.
pub proof fn lemma_broadcast_priority<A, M>(e: BroadcastEnvelopeConcrete<A, M>, p: u32)
    ensures
        e.with_priority(p).spec_priority_value() == p,
        e.with_priority(p).spec_message() == e.spec_message(),
{
}

/// The notice, broadcast to every actor on an address, to stop.
pub struct Shutdown<A>(PhantomData<A>);

impl<A> Shutdown<A> {
    /// A shutdown notice.
    pub fn new() -> (s: Self) {
        Shutdown(PhantomData)
    }
}

impl<A> HasPriority for Shutdown<A> {
    open spec fn spec_priority(&self) -> Priority {
        Priority::Shutdown
    }

    fn priority(&self) -> (p: Priority) {
        Priority::Shutdown
    }
}

impl<A> MessageEnvelope for Shutdown<A> {
    /// A shutdown notice keeps its priority.
    open spec fn with_priority(self, new_priority: u32) -> Self {
        self
    }

    fn set_priority(&mut self, new_priority: u32) {
    }
}

/// What travels in the broadcast mailboxes: a broadcast message or the shutdown notice.
pub enum BroadcastMessage<A, M> {
    /// A message for every actor.
    Message(BroadcastEnvelopeConcrete<A, M>),
    /// The notice to stop.
    Shutdown(Shutdown<A>),
}

impl<A, M> HasPriority for BroadcastMessage<A, M> {
    open spec fn spec_priority(&self) -> Priority {
        match self {
            BroadcastMessage::Message(m) => m.spec_priority(),
            BroadcastMessage::Shutdown(s) => s.spec_priority(),
        }
    }

    fn priority(&self) -> (p: Priority) {
        match self {
            BroadcastMessage::Message(m) => m.priority(),
            BroadcastMessage::Shutdown(s) => s.priority(),
        }
    }
}

impl<A, M> MessageEnvelope for BroadcastMessage<A, M> {
    open spec fn with_priority(self, new_priority: u32) -> Self {
        match self {
            BroadcastMessage::Message(m) => BroadcastMessage::Message(m.with_priority(new_priority)),
            BroadcastMessage::Shutdown(s) => BroadcastMessage::Shutdown(s),
        }
    }

    fn set_priority(&mut self, new_priority: u32) {
        match self {
            BroadcastMessage::Message(m) => m.set_priority(new_priority),
            BroadcastMessage::Shutdown(_) => {},
        }
    }
}

/// Whether `message` tells the actor to stop rather than hands it a message to handle: the
/// channel shut down, or the notice to stop was broadcast.
pub fn stops_actor<M, A, T>(message: &ActorMessage<M, BroadcastMessage<A, T>>) -> (r: bool)
    ensures
        r == match *message {
            ActorMessage::ToOneActor(_) => false,
            ActorMessage::ToAllActors(b) => *b is Shutdown,
            ActorMessage::Shutdown => true,
        },
{
    match message {
        ActorMessage::ToOneActor(_) => false,
        ActorMessage::ToAllActors(b) => match &**b {
            BroadcastMessage::Message(_) => false,
            BroadcastMessage::Shutdown(_) => true,
        },
        ActorMessage::Shutdown => true,
    }
}

} // verus!
