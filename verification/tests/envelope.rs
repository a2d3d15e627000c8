use std::collections::VecDeque;

use xtra::envelope::{
    BroadcastEnvelopeConcrete, BroadcastMessage, Instrumentation, MessageEnvelope, ReturningEnvelope, Shutdown, Span,
};
use xtra::inbox::{
    find_remove_highest_priority, find_remove_next_default_priority, ActorMessage, Chan, HasPriority, Priority,
    SenderPoll, WaitingSender,
};
use xtra::instrumentation::InstrumentedExt;
use xtra::refcount::RefCounter;
use xtra::send_future::{ResolveToReceiver, Sending};
use xtra::{BroadcastFuture, Error, SendFuture};

type Envelope = ReturningEnvelope<(), &'static str, ()>;
type Notice = BroadcastMessage<(), &'static str>;

fn handled(chan: &mut Chan<Envelope, Notice>, mailbox: u64) -> Option<&'static str> {
    match chan.try_recv(mailbox) {
        Ok(ActorMessage::ToOneActor(e)) => Some(e.into_parts().0),
        Ok(ActorMessage::ToAllActors(b)) => match &*b {
            BroadcastMessage::Message(e) => Some(*e.message()),
            BroadcastMessage::Shutdown(_) => None,
        },
        _ => None,
    }
}

#[test]
fn error_descriptions() {
    assert_eq!(Error::Disconnected.description(), "Actor address disconnected");
    assert_eq!(Error::Interrupted.description(), "Message request interrupted");
    assert_ne!(Error::Disconnected, Error::Interrupted);
}

#[test]
fn priorities_order_shutdown_last() {
    assert!(Priority::Valued(1).lt(&Priority::Valued(2)));
    assert!(!Priority::Valued(2).lt(&Priority::Valued(2)));
    assert!(Priority::Valued(u32::MAX).lt(&Priority::Shutdown));
    assert!(!Priority::Shutdown.lt(&Priority::Valued(u32::MAX)));
    assert!(Priority::default().is_default());
    assert!(!Priority::Valued(3).is_default());
    assert!(!Priority::Shutdown.is_default());
}

#[test]
fn set_priority_msg_channel() {
    let (mut chan, _tx, rx) = xtra::inbox::new::<Envelope, Notice>(None);

    let mut first = SendFuture::sending_named("ordered 0", (), ()).split_receiver();
    assert!(matches!(first.poll_sending(&mut chan), SenderPoll::Ready(Ok(()))));
    let mut second = SendFuture::sending_named("priority 1", (), ()).priority(1).split_receiver();
    assert!(matches!(second.poll_sending(&mut chan), SenderPoll::Ready(Ok(()))));
    let mut third = SendFuture::sending_named("priority 2", (), ()).split_receiver().priority(2);
    assert!(matches!(third.poll_sending(&mut chan), SenderPoll::Ready(Ok(()))));

    assert_eq!(handled(&mut chan, rx.mailbox), Some("priority 2"));
    assert_eq!(handled(&mut chan, rx.mailbox), Some("priority 1"));
    assert_eq!(handled(&mut chan, rx.mailbox), Some("ordered 0"));
}

#[test]
fn split_receiver_hands_out_the_receiver_once() {
    let fut: SendFuture<_, _> = SendFuture::<xtra::ActorNamedSending<Envelope, Notice>, _>::sending_named(
        "hello", (), 42u8,
    );
    let mut split = fut.split_receiver();
    assert_eq!(split.state.take(), Some(42u8));
    assert_eq!(split.state.take(), None);
    let mut empty: ResolveToReceiver<u8> = ResolveToReceiver { receiver: None };
    assert_eq!(empty.take(), None);
}

#[test]
fn send_future_waits_for_room_then_sends() {
    let (mut chan, _tx, rx) = xtra::inbox::new::<Envelope, Notice>(Some(1));
    let mut first = SendFuture::sending_named("a", (), ()).split_receiver();
    let mut second = SendFuture::sending_named("b", (), ()).split_receiver();
    assert!(matches!(first.poll_sending(&mut chan), SenderPoll::Ready(Ok(()))));
    assert!(first.inner.future.is_terminated());
    assert!(matches!(second.poll_sending(&mut chan), SenderPoll::Pending));
    assert!(matches!(second.poll_sending(&mut chan), SenderPoll::Pending));
    assert!(!second.inner.future.is_terminated());
    assert_eq!(handled(&mut chan, rx.mailbox), Some("a"));
    assert!(matches!(second.poll_sending(&mut chan), SenderPoll::Ready(Ok(()))));
    assert!(matches!(second.inner.future, Sending::Done));
    assert_eq!(handled(&mut chan, rx.mailbox), Some("b"));
}

#[test]
fn broadcast_future_priority() {
    let (mut chan, _tx, rx) = xtra::inbox::new::<Envelope, Notice>(None);
    let mut low = BroadcastFuture::<Envelope, Notice>::new("low");
    let mut high = BroadcastFuture::<Envelope, Notice>::new("high").priority(3);
    assert!(matches!(low.poll(&mut chan), SenderPoll::Ready(Ok(()))));
    assert!(matches!(high.poll(&mut chan), SenderPoll::Ready(Ok(()))));
    assert_eq!(handled(&mut chan, rx.mailbox), Some("high"));
    assert_eq!(handled(&mut chan, rx.mailbox), Some("low"));
}

#[test]
fn broadcast_named_send_future() {
    let (mut chan, _tx, rx) = xtra::inbox::new::<Envelope, Notice>(None);
    let mut fut = SendFuture::<xtra::ActorNamedSending<Envelope, Notice>, _>::broadcast_named("all").priority(2);
    assert!(matches!(fut.poll_sending(&mut chan), SenderPoll::Ready(Ok(()))));
    assert_eq!(chan.broadcast_tail(), 1);
    assert_eq!(handled(&mut chan, rx.mailbox), Some("all"));
}

#[test]
fn envelope_priorities() {
    let mut e: Envelope = ReturningEnvelope::new("m", (), 0);
    assert_eq!(e.priority(), Priority::Valued(0));
    e.set_priority(9);
    assert_eq!(e.priority(), Priority::Valued(9));
    assert_eq!(e.into_parts().0, "m");

    let mut b = BroadcastEnvelopeConcrete::<(), u32>::new(5, 1);
    b.set_priority(4);
    assert_eq!(b.priority, 4);
    assert_eq!(*b.message(), 5);

    let mut s = BroadcastMessage::<(), u32>::Shutdown(Shutdown::new());
    s.set_priority(1);
    assert_eq!(s.priority(), Priority::Shutdown);
    let mut m = BroadcastMessage::<(), u32>::Message(BroadcastEnvelopeConcrete::new(1, 0));
    m.set_priority(6);
    assert_eq!(m.priority(), Priority::Valued(6));
}

#[test]
fn spans_without_instrumentation() {
    let span = Span::none();
    assert!(span.is_none());
    assert_eq!(span.in_scope(|| 7), 7);
    let (fut, handler_span) = Instrumentation::started("hello").apply(11u8);
    assert_eq!(fut, 11);
    assert!(handler_span.is_none());
    assert_eq!(Instrumentation::empty().apply("x").0, "x");
    assert_eq!(5u8.instrumented_child().msg, 5);
    assert_eq!("y".instrumented_follows_from().msg, "y");
}

#[test]
fn highest_priority_waiting_sender_leaves_first() {
    let mut q: VecDeque<WaitingSender<Envelope>> = VecDeque::new();
    q.push_back(WaitingSender { id: 1, message: ReturningEnvelope::new("a", (), 2) });
    q.push_back(WaitingSender { id: 2, message: ReturningEnvelope::new("b", (), 5) });
    q.push_back(WaitingSender { id: 3, message: ReturningEnvelope::new("c", (), 5) });
    q.push_back(WaitingSender { id: 4, message: ReturningEnvelope::new("d", (), 1) });
    assert_eq!(find_remove_highest_priority(&mut q).map(|w| w.id), Some(3));
    assert_eq!(find_remove_highest_priority(&mut q).map(|w| w.id), Some(2));
    assert_eq!(find_remove_highest_priority(&mut q).map(|w| w.id), Some(1));
    assert_eq!(q.len(), 1);
    let mut empty: VecDeque<WaitingSender<Envelope>> = VecDeque::new();
    assert!(find_remove_highest_priority(&mut empty).is_none());
}

#[test]
fn next_default_priority_waiting_sender_leaves_first() {
    let mut q: VecDeque<WaitingSender<Envelope>> = VecDeque::new();
    q.push_back(WaitingSender { id: 1, message: ReturningEnvelope::new("a", (), 2) });
    q.push_back(WaitingSender { id: 2, message: ReturningEnvelope::new("b", (), 0) });
    q.push_back(WaitingSender { id: 3, message: ReturningEnvelope::new("c", (), 0) });
    assert_eq!(find_remove_next_default_priority(&mut q).map(|w| w.id), Some(2));
    assert_eq!(find_remove_next_default_priority(&mut q).map(|w| w.id), Some(3));
    assert!(find_remove_next_default_priority(&mut q).is_none());
    assert_eq!(q.len(), 1);
}

#[test]
fn dropped_send_withdraws_its_parked_message() {
    let (mut chan, _tx, rx) = xtra::inbox::new::<Envelope, Notice>(Some(1));
    let mut first = SendFuture::sending_named("a", (), ()).split_receiver();
    let mut second = SendFuture::sending_named("b", (), ()).split_receiver();
    assert!(matches!(first.poll_sending(&mut chan), SenderPoll::Ready(Ok(()))));
    assert!(matches!(second.poll_sending(&mut chan), SenderPoll::Pending));
    let waiting = match second.inner.future {
        Sending::WaitingToSend { waiting } => waiting,
        _ => panic!("the second message waits for room"),
    };
    second.inner.future.cancel(&mut chan);
    assert!(matches!(chan.poll_waiting_sender(waiting), SenderPoll::Ready(Err(Error::Disconnected))));
    assert_eq!(handled(&mut chan, rx.mailbox), Some("a"));
    assert_eq!(chan.len(), 0);
}

#[test]
fn dropped_broadcast_withdraws_its_parked_message() {
    let (mut chan, _tx, _rx) = xtra::inbox::new::<Envelope, Notice>(Some(1));
    let mut first = BroadcastFuture::<Envelope, Notice>::new("first");
    let mut second = BroadcastFuture::<Envelope, Notice>::new("second");
    assert!(matches!(first.poll(&mut chan), SenderPoll::Ready(Ok(()))));
    assert!(matches!(second.poll(&mut chan), SenderPoll::Pending));
    second.cancel(&mut chan);
    assert_eq!(chan.broadcast_tail(), 1);
}

#[test]
fn started_instrumentation_is_empty() {
    let started = Instrumentation::started("hello");
    let (fut, span) = started.apply(3u8);
    assert_eq!(fut, 3);
    assert!(span.is_none());
}

#[test]
fn stop_decisions() {
    let stop: ActorMessage<Envelope, Notice> = ActorMessage::Shutdown;
    assert!(xtra::envelope::stops_actor(&stop));
    let notice: ActorMessage<Envelope, Notice> =
        ActorMessage::ToAllActors(std::sync::Arc::new(BroadcastMessage::Shutdown(Shutdown::new())));
    assert!(xtra::envelope::stops_actor(&notice));
    let broadcast: ActorMessage<Envelope, Notice> =
        ActorMessage::ToAllActors(std::sync::Arc::new(BroadcastMessage::Message(BroadcastEnvelopeConcrete::new("b", 0))));
    assert!(!xtra::envelope::stops_actor(&broadcast));
    let one: ActorMessage<Envelope, Notice> = ActorMessage::ToOneActor(ReturningEnvelope::new("m", (), 0));
    assert!(!xtra::envelope::stops_actor(&one));
}

#[test]
fn len_fits_and_reference_counts() {
    let (mut chan, tx, _rx) = xtra::inbox::new::<Envelope, Notice>(None);
    assert!(chan.len_fits());
    assert_eq!(chan.len(), 0);
    assert!(tx.rc().is_strong());
    let weak = tx.downgrade();
    assert!(!weak.rc().is_strong());
    assert!(tx.release(&mut chan));
}
