use std::sync::Arc;

use xtra::envelope::{BroadcastEnvelopeConcrete, BroadcastMessage, ReturningEnvelope, Shutdown};
use xtra::inbox::rx::{ReceiveFuture, ReceivePoll, Receiver};
use xtra::inbox::{ActorMessage, Chan, MailboxFull, SenderPoll};
use xtra::Error;

#[derive(Clone, Debug, PartialEq)]
enum Message {
    Broadcast { priority: u32 },
    Priority { priority: u32 },
    Ordered { ord: u32 },
}

type Envelope = ReturningEnvelope<(), Message, ()>;
type Notice = BroadcastMessage<(), Message>;
type Channel = Chan<Envelope, Notice>;

#[derive(Debug, PartialEq)]
enum Got {
    Message(Message),
    Stop,
    Waiting,
}

fn send(chan: &mut Channel, msg: Message) -> Result<Result<(), MailboxFull>, Error> {
    match msg {
        Message::Broadcast { priority } => {
            let notice = BroadcastMessage::Message(BroadcastEnvelopeConcrete::new(msg, priority));
            chan.try_send_to_all(Arc::new(notice))
        }
        Message::Priority { priority } => chan.try_send_to_one(ReturningEnvelope::new(msg, (), priority)),
        Message::Ordered { .. } => chan.try_send_to_one(ReturningEnvelope::new(msg, (), 0)),
    }
}

fn parked(r: Result<Result<(), MailboxFull>, Error>) -> u64 {
    match r {
        Ok(Err(MailboxFull(id))) => id,
        other => panic!("expected the message to wait, got {:?}", other),
    }
}

fn recv(chan: &mut Channel, mailbox: u64) -> Got {
    match chan.try_recv(mailbox) {
        Ok(ActorMessage::ToOneActor(envelope)) => Got::Message(envelope.into_parts().0),
        Ok(ActorMessage::ToAllActors(notice)) => match &*notice {
            BroadcastMessage::Message(envelope) => Got::Message(envelope.message().clone()),
            BroadcastMessage::Shutdown(_) => Got::Stop,
        },
        Ok(ActorMessage::Shutdown) => Got::Stop,
        Err(id) => {
            let _ = chan.cancel_waiting_receiver(id);
            Got::Waiting
        }
    }
}

fn is_pending(p: SenderPoll) -> bool {
    matches!(p, SenderPoll::Pending)
}

fn is_sent(p: SenderPoll) -> bool {
    matches!(p, SenderPoll::Ready(Ok(())))
}

#[test]
fn handle_order() {
    let (mut chan, tx, rx) = xtra::inbox::new::<Envelope, Notice>(None);
    let sent = vec![
        Message::Ordered { ord: 0 },
        Message::Ordered { ord: 1 },
        Message::Ordered { ord: 2 },
        Message::Broadcast { priority: 2 },
        Message::Broadcast { priority: 3 },
        Message::Broadcast { priority: 1 },
        Message::Priority { priority: 4 },
        Message::Broadcast { priority: 5 },
    ];
    for msg in sent {
        assert_eq!(send(&mut chan, msg), Ok(Ok(())));
    }
    assert!(tx.release(&mut chan));

    let mut handled = vec![];
    loop {
        match recv(&mut chan, rx.mailbox) {
            Got::Message(m) => handled.push(m),
            Got::Stop => break,
            Got::Waiting => panic!("a channel without senders never waits"),
        }
    }

    assert_eq!(
        handled,
        vec![
            Message::Broadcast { priority: 5 },
            Message::Priority { priority: 4 },
            Message::Broadcast { priority: 3 },
            Message::Broadcast { priority: 2 },
            Message::Broadcast { priority: 1 },
            Message::Ordered { ord: 0 },
            Message::Ordered { ord: 1 },
            Message::Ordered { ord: 2 },
        ]
    );
}

#[test]
fn waiting_sender_order() {
    let (mut chan, _tx, rx) = xtra::inbox::new::<Envelope, Notice>(Some(1));

    // With ordered messages
    assert_eq!(send(&mut chan, Message::Ordered { ord: 0 }), Ok(Ok(())));
    let first = parked(send(&mut chan, Message::Ordered { ord: 1 }));
    let second = parked(send(&mut chan, Message::Ordered { ord: 2 }));
    assert!(is_pending(chan.poll_waiting_sender(first)));
    assert!(is_pending(chan.poll_waiting_sender(second)));

    assert_eq!(recv(&mut chan, rx.mailbox), Got::Message(Message::Ordered { ord: 0 }));

    assert!(is_pending(chan.poll_waiting_sender(second)));
    assert!(is_sent(chan.poll_waiting_sender(first)));

    // With priority
    assert_eq!(send(&mut chan, Message::Priority { priority: 1 }), Ok(Ok(())));
    let lesser = parked(send(&mut chan, Message::Priority { priority: 1 }));
    let greater = parked(send(&mut chan, Message::Priority { priority: 2 }));
    assert!(is_pending(chan.poll_waiting_sender(lesser)));
    assert!(is_pending(chan.poll_waiting_sender(greater)));

    assert_eq!(recv(&mut chan, rx.mailbox), Got::Message(Message::Priority { priority: 1 }));

    assert!(is_pending(chan.poll_waiting_sender(lesser)));
    assert!(is_sent(chan.poll_waiting_sender(greater)));

    // With broadcast
    assert_eq!(send(&mut chan, Message::Broadcast { priority: 3 }), Ok(Ok(())));
    let lesser = parked(send(&mut chan, Message::Broadcast { priority: 4 }));
    let greater = parked(send(&mut chan, Message::Broadcast { priority: 5 }));
    assert!(is_pending(chan.poll_waiting_sender(lesser)));
    assert!(is_pending(chan.poll_waiting_sender(greater)));

    assert_eq!(recv(&mut chan, rx.mailbox), Got::Message(Message::Broadcast { priority: 3 }));

    assert!(is_pending(chan.poll_waiting_sender(lesser)));
    assert!(is_sent(chan.poll_waiting_sender(greater)));
}

#[test]
fn address_send_exercises_backpressure() {
    // Regular send
    let (mut chan, _tx, rx) = xtra::inbox::new::<Envelope, Notice>(Some(1));
    assert_eq!(
        send(&mut chan, Message::Ordered { ord: 0 }),
        Ok(Ok(())),
        "be able to queue 1 message because the mailbox is empty"
    );
    let second = parked(send(&mut chan, Message::Ordered { ord: 1 }));
    chan.cancel_waiting_sender(second);
    assert!(recv(&mut chan, rx.mailbox) != Got::Waiting);
    assert_eq!(
        send(&mut chan, Message::Ordered { ord: 2 }),
        Ok(Ok(())),
        "be able to queue another message because the mailbox is empty again"
    );
    assert_eq!(recv(&mut chan, rx.mailbox), Got::Message(Message::Ordered { ord: 2 }));

    // Priority send
    let (mut chan, _tx, rx) = xtra::inbox::new::<Envelope, Notice>(Some(1));
    assert_eq!(
        send(&mut chan, Message::Priority { priority: 1 }),
        Ok(Ok(())),
        "be able to queue 1 priority message because the mailbox is empty"
    );
    let second = parked(send(&mut chan, Message::Priority { priority: 1 }));
    chan.cancel_waiting_sender(second);
    assert!(recv(&mut chan, rx.mailbox) != Got::Waiting);
    assert_eq!(
        send(&mut chan, Message::Priority { priority: 1 }),
        Ok(Ok(())),
        "be able to queue another priority message because the mailbox is empty again"
    );

    // Broadcast
    assert_eq!(
        send(&mut chan, Message::Broadcast { priority: 2 }),
        Ok(Ok(())),
        "be able to queue 1 broadcast because the mailbox is empty"
    );
    let second = parked(send(&mut chan, Message::Broadcast { priority: 1 }));
    chan.cancel_waiting_sender(second);
    assert_eq!(recv(&mut chan, rx.mailbox), Got::Message(Message::Broadcast { priority: 2 }));
    assert_eq!(
        send(&mut chan, Message::Broadcast { priority: 2 }),
        Ok(Ok(())),
        "be able to queue another broadcast because the mailbox is empty again"
    );
}

#[test]
fn broadcast_tail_advances_bound_1() {
    let (mut chan, _tx, ngwevu) = xtra::inbox::new::<Envelope, Notice>(Some(1));
    let indlovu = Receiver::new(&mut chan);

    assert_eq!(send(&mut chan, Message::Broadcast { priority: 0 }), Ok(Ok(())));

    let refused = parked(send(&mut chan, Message::Broadcast { priority: 0 }));
    chan.cancel_waiting_sender(refused);

    let waiting = parked(send(&mut chan, Message::Broadcast { priority: 0 }));
    assert!(
        is_pending(chan.poll_waiting_sender(waiting)),
        "New broadcast message should not be accepted when tail = len"
    );
    assert_eq!(recv(&mut chan, indlovu.mailbox), Got::Message(Message::Broadcast { priority: 0 }));
    assert_eq!(recv(&mut chan, ngwevu.mailbox), Got::Message(Message::Broadcast { priority: 0 }));

    let refused = parked(send(&mut chan, Message::Broadcast { priority: 0 }));
    chan.cancel_waiting_sender(refused);

    assert!(
        is_sent(chan.poll_waiting_sender(waiting)),
        "New broadcast message should be accepted now"
    );

    assert_eq!(recv(&mut chan, indlovu.mailbox), Got::Message(Message::Broadcast { priority: 0 }));
    assert_eq!(recv(&mut chan, ngwevu.mailbox), Got::Message(Message::Broadcast { priority: 0 }));

    assert_eq!(
        send(&mut chan, Message::Broadcast { priority: 0 }),
        Ok(Ok(())),
        "New broadcast message should be accepted when queue is empty"
    );

    let lesser = parked(send(&mut chan, Message::Broadcast { priority: 1 }));
    let greater = parked(send(&mut chan, Message::Broadcast { priority: 2 }));
    assert!(is_pending(chan.poll_waiting_sender(lesser)), "Queue is full - should wait");
    assert!(is_pending(chan.poll_waiting_sender(greater)), "Queue is full - should wait");

    assert_eq!(recv(&mut chan, ngwevu.mailbox), Got::Message(Message::Broadcast { priority: 0 }));
    assert_eq!(recv(&mut chan, indlovu.mailbox), Got::Message(Message::Broadcast { priority: 0 }));

    assert!(is_pending(chan.poll_waiting_sender(lesser)), "Low prio - should wait");
    assert!(is_sent(chan.poll_waiting_sender(greater)), "High prio - shouldn't wait");

    assert_eq!(recv(&mut chan, ngwevu.mailbox), Got::Message(Message::Broadcast { priority: 2 }));
    assert_eq!(recv(&mut chan, indlovu.mailbox), Got::Message(Message::Broadcast { priority: 2 }));

    assert!(is_sent(chan.poll_waiting_sender(lesser)), "Low prio should be sent in now");

    let full = send(&mut chan, Message::Broadcast { priority: 10 });
    assert!(matches!(full, Ok(Err(_))), "Channel should not accept when full");
}

#[test]
fn broadcast_tail_advances_bound_2() {
    let (mut chan, _tx, ngwevu) = xtra::inbox::new::<Envelope, Notice>(Some(2));
    let indlovu = Receiver::new(&mut chan);

    assert_eq!(send(&mut chan, Message::Broadcast { priority: 0 }), Ok(Ok(())));
    assert_eq!(send(&mut chan, Message::Broadcast { priority: 0 }), Ok(Ok(())));

    assert_eq!(recv(&mut chan, indlovu.mailbox), Got::Message(Message::Broadcast { priority: 0 }));
    assert_eq!(recv(&mut chan, indlovu.mailbox), Got::Message(Message::Broadcast { priority: 0 }));
    assert_eq!(recv(&mut chan, ngwevu.mailbox), Got::Message(Message::Broadcast { priority: 0 }));

    assert_eq!(
        send(&mut chan, Message::Broadcast { priority: 0 }),
        Ok(Ok(())),
        "New broadcast message should be accepted when queue has space"
    );
}

#[test]
fn broadcast_tail_does_not_advance_unless_both_handle() {
    let (mut chan, _tx, ngwevu) = xtra::inbox::new::<Envelope, Notice>(Some(2));
    let indlovu = Receiver::new(&mut chan);

    assert_eq!(send(&mut chan, Message::Broadcast { priority: 0 }), Ok(Ok(())));
    assert_eq!(send(&mut chan, Message::Broadcast { priority: 0 }), Ok(Ok(())));

    assert_eq!(recv(&mut chan, ngwevu.mailbox), Got::Message(Message::Broadcast { priority: 0 }));

    let waiting = parked(send(&mut chan, Message::Broadcast { priority: 0 }));
    assert!(is_pending(chan.poll_waiting_sender(waiting)));
    assert_eq!(chan.broadcast_tail(), 2);
    assert!(chan.has_mailbox(indlovu.mailbox));
}

#[test]
fn no_sender_returns_shutdown() {
    let (mut chan, tx, rx) = xtra::inbox::new::<Envelope, Notice>(None);
    assert!(tx.release(&mut chan));
    assert_eq!(recv(&mut chan, rx.mailbox), Got::Stop);
}

#[test]
fn send_without_receiver_is_disconnected() {
    let (mut chan, _tx, rx) = xtra::inbox::new::<Envelope, Notice>(Some(1));
    assert!(rx.release(&mut chan));
    assert!(!chan.is_connected());
    assert_eq!(send(&mut chan, Message::Ordered { ord: 0 }), Err(Error::Disconnected));
    assert_eq!(send(&mut chan, Message::Broadcast { priority: 0 }), Err(Error::Disconnected));
}

#[test]
fn last_receiver_leaving_disconnects_waiting_senders() {
    let (mut chan, _tx, rx) = xtra::inbox::new::<Envelope, Notice>(Some(1));
    assert_eq!(send(&mut chan, Message::Ordered { ord: 0 }), Ok(Ok(())));
    let waiting = parked(send(&mut chan, Message::Ordered { ord: 1 }));
    assert!(rx.release(&mut chan));
    assert!(matches!(chan.poll_waiting_sender(waiting), SenderPoll::Ready(Err(Error::Disconnected))));
    assert_eq!(chan.len(), 0);
}

#[test]
fn waiting_receiver_gets_next_message() {
    let (mut chan, _tx, rx) = xtra::inbox::new::<Envelope, Notice>(None);
    let id = match chan.try_recv(rx.mailbox) {
        Err(id) => id,
        Ok(_) => panic!("an empty channel makes the receiver wait"),
    };
    assert!(matches!(chan.poll_waiting_receiver(id, rx.mailbox), xtra::inbox::ReceiverPoll::Pending));
    assert_eq!(send(&mut chan, Message::Priority { priority: 7 }), Ok(Ok(())));
    assert_eq!(chan.len(), 0);
    match chan.poll_waiting_receiver(id, rx.mailbox) {
        xtra::inbox::ReceiverPoll::Ready(Some(ActorMessage::ToOneActor(e))) => {
            assert_eq!(e.into_parts().0, Message::Priority { priority: 7 })
        }
        _ => panic!("the waiting receiver is handed the message"),
    }
}

#[test]
fn cancelled_receiver_hands_back_its_message() {
    let (mut chan, _tx, rx) = xtra::inbox::new::<Envelope, Notice>(None);
    let id = match chan.try_recv(rx.mailbox) {
        Err(id) => id,
        Ok(_) => panic!("an empty channel makes the receiver wait"),
    };
    assert_eq!(send(&mut chan, Message::Ordered { ord: 3 }), Ok(Ok(())));
    let back = chan.cancel_waiting_receiver(id).expect("the delivered message comes back");
    chan.requeue_message(back);
    assert_eq!(chan.len(), 1);
    assert_eq!(recv(&mut chan, rx.mailbox), Got::Message(Message::Ordered { ord: 3 }));
}

#[test]
fn requeued_message_goes_first() {
    let (mut chan, _tx, rx) = xtra::inbox::new::<Envelope, Notice>(None);
    assert_eq!(send(&mut chan, Message::Ordered { ord: 1 }), Ok(Ok(())));
    chan.requeue_message(ReturningEnvelope::new(Message::Ordered { ord: 0 }, (), 0));
    assert_eq!(recv(&mut chan, rx.mailbox), Got::Message(Message::Ordered { ord: 0 }));
    assert_eq!(recv(&mut chan, rx.mailbox), Got::Message(Message::Ordered { ord: 1 }));
}

#[test]
fn shutdown_notice_outranks_every_message() {
    let (mut chan, _tx, rx) = xtra::inbox::new::<Envelope, Notice>(None);
    assert_eq!(send(&mut chan, Message::Priority { priority: u32::MAX }), Ok(Ok(())));
    chan.shutdown_all_receivers(Arc::new(BroadcastMessage::Shutdown(Shutdown::new())));
    assert_eq!(recv(&mut chan, rx.mailbox), Got::Stop);
    assert_eq!(recv(&mut chan, rx.mailbox), Got::Message(Message::Priority { priority: u32::MAX }));
}

#[test]
fn len_counts_all_three_mailboxes() {
    let (mut chan, _tx, _rx) = xtra::inbox::new::<Envelope, Notice>(Some(2));
    assert!(chan.is_empty());
    assert_eq!(send(&mut chan, Message::Ordered { ord: 0 }), Ok(Ok(())));
    assert_eq!(send(&mut chan, Message::Priority { priority: 1 }), Ok(Ok(())));
    assert_eq!(send(&mut chan, Message::Broadcast { priority: 1 }), Ok(Ok(())));
    assert_eq!(chan.len(), 3);
    assert_eq!(chan.capacity(), Some(2));
}

#[test]
fn no_sender_returns_disconnected() {
    let (mut chan, addr, ctx) = xtra::inbox::new::<Envelope, Notice>(None);
    assert!(addr.release(&mut chan));
    let weak = ctx.weak_sender(&chan);
    assert!(!weak.is_strong());
    assert!(!chan.is_connected());
}

fn ready_message(p: ReceivePoll<Envelope, Notice>) -> Option<Message> {
    match p {
        ReceivePoll::Ready(ActorMessage::ToOneActor(e)) => Some(e.into_parts().0),
        _ => None,
    }
}

#[test]
fn receive_future_can_dispatch_in_one_poll() {
    let (mut chan, _addr, ctx) = xtra::inbox::new::<Envelope, Notice>(None);
    assert_eq!(send(&mut chan, Message::Ordered { ord: 0 }), Ok(Ok(())));

    let mut receive_future = ctx.receive(&mut chan);
    assert_eq!(chan.receiver_count(), 2);

    assert_eq!(ready_message(receive_future.poll(&mut chan)), Some(Message::Ordered { ord: 0 }));
    assert!(receive_future.is_terminated());
    assert_eq!(chan.receiver_count(), 1);
}

#[test]
fn receive_future_can_dispatch_in_one_poll_after_it_has_been_polled() {
    let (mut chan, _addr, ctx) = xtra::inbox::new::<Envelope, Notice>(None);
    let mut receive_future = ctx.receive(&mut chan);

    assert!(matches!(receive_future.poll(&mut chan), ReceivePoll::Pending));
    assert!(matches!(receive_future, ReceiveFuture::Waiting(_, _)));

    assert_eq!(send(&mut chan, Message::Ordered { ord: 0 }), Ok(Ok(())));

    assert_eq!(ready_message(receive_future.poll(&mut chan)), Some(Message::Ordered { ord: 0 }));
    assert_eq!(chan.receiver_count(), 1);
}

#[test]
fn woken_by_a_taken_broadcast_receive_asks_again() {
    let (mut chan, _addr, ctx) = xtra::inbox::new::<Envelope, Notice>(None);
    let mut receive_future = ctx.receive(&mut chan);
    assert!(matches!(receive_future.poll(&mut chan), ReceivePoll::Pending));

    assert_eq!(send(&mut chan, Message::Broadcast { priority: 1 }), Ok(Ok(())));
    // The actor's own receiver takes the broadcast first.
    assert_eq!(recv(&mut chan, ctx.mailbox), Got::Message(Message::Broadcast { priority: 1 }));
    assert_eq!(send(&mut chan, Message::Ordered { ord: 4 }), Ok(Ok(())));

    assert_eq!(ready_message(receive_future.poll(&mut chan)), Some(Message::Ordered { ord: 4 }));
    assert_eq!(chan.receiver_count(), 1);
}

#[test]
fn cancelled_receive_returns_its_message() {
    let (mut chan, _addr, ctx) = xtra::inbox::new::<Envelope, Notice>(None);
    let mut receive_future = ctx.receive(&mut chan);
    assert!(matches!(receive_future.poll(&mut chan), ReceivePoll::Pending));
    assert_eq!(send(&mut chan, Message::Priority { priority: 2 }), Ok(Ok(())));

    let back = receive_future.cancel(&mut chan).map(|e| e.into_parts().0);
    assert_eq!(back, Some(Message::Priority { priority: 2 }));
    assert!(receive_future.is_terminated());
    assert!(matches!(receive_future.poll(&mut chan), ReceivePoll::Pending));
    assert_eq!(chan.len(), 0);
    assert_eq!(chan.receiver_count(), 1);
}

#[test]
fn dropped_receive_puts_its_message_back() {
    let (mut chan, _addr, ctx) = xtra::inbox::new::<Envelope, Notice>(None);
    let mut receive_future = ctx.receive(&mut chan);
    assert!(matches!(receive_future.poll(&mut chan), ReceivePoll::Pending));
    assert_eq!(send(&mut chan, Message::Ordered { ord: 9 }), Ok(Ok(())));
    assert_eq!(chan.len(), 0);

    receive_future.release(&mut chan);

    assert_eq!(chan.len(), 1);
    assert_eq!(chan.receiver_count(), 1);
    assert_eq!(recv(&mut chan, ctx.mailbox), Got::Message(Message::Ordered { ord: 9 }));
}

#[test]
fn waiting_receivers_shut_down_with_the_last_sender() {
    let (mut chan, addr, ctx) = xtra::inbox::new::<Envelope, Notice>(None);
    let mut receive_future = ctx.receive(&mut chan);
    assert!(matches!(receive_future.poll(&mut chan), ReceivePoll::Pending));
    assert!(addr.release(&mut chan));
    assert!(matches!(receive_future.poll(&mut chan), ReceivePoll::Ready(ActorMessage::Shutdown)));
}

#[test]
fn ordered_messages_keep_their_order_behind_a_parked_sender() {
    let (mut chan, _tx, rx) = xtra::inbox::new::<Envelope, Notice>(Some(2));
    assert_eq!(send(&mut chan, Message::Ordered { ord: 0 }), Ok(Ok(())));
    assert_eq!(send(&mut chan, Message::Ordered { ord: 1 }), Ok(Ok(())));
    let third = parked(send(&mut chan, Message::Ordered { ord: 2 }));
    assert_eq!(chan.len(), 2);
    assert_eq!(recv(&mut chan, rx.mailbox), Got::Message(Message::Ordered { ord: 0 }));
    assert!(is_sent(chan.poll_waiting_sender(third)));
    assert_eq!(recv(&mut chan, rx.mailbox), Got::Message(Message::Ordered { ord: 1 }));
    assert_eq!(recv(&mut chan, rx.mailbox), Got::Message(Message::Ordered { ord: 2 }));
    assert_eq!(recv(&mut chan, rx.mailbox), Got::Waiting);
}

#[test]
fn ordered_mailbox_waits_for_the_other_two() {
    let (mut chan, _tx, rx) = xtra::inbox::new::<Envelope, Notice>(None);
    assert_eq!(send(&mut chan, Message::Ordered { ord: 0 }), Ok(Ok(())));
    assert_eq!(send(&mut chan, Message::Broadcast { priority: 0 }), Ok(Ok(())));
    assert_eq!(send(&mut chan, Message::Priority { priority: 1 }), Ok(Ok(())));
    assert_eq!(recv(&mut chan, rx.mailbox), Got::Message(Message::Priority { priority: 1 }));
    assert_eq!(recv(&mut chan, rx.mailbox), Got::Message(Message::Broadcast { priority: 0 }));
    assert_eq!(recv(&mut chan, rx.mailbox), Got::Message(Message::Ordered { ord: 0 }));
}

#[test]
fn handle_left_messages() {
    let (mut chan, addr, ctx) = xtra::inbox::new::<Envelope, Notice>(None);
    for ord in 0..10 {
        assert_eq!(send(&mut chan, Message::Ordered { ord }), Ok(Ok(())));
    }
    assert!(addr.release(&mut chan));
    for ord in 0..10 {
        assert_eq!(recv(&mut chan, ctx.mailbox), Got::Message(Message::Ordered { ord }));
    }
    assert_eq!(recv(&mut chan, ctx.mailbox), Got::Stop);
}

#[test]
fn admitted_sender_reports_sent_on_every_poll() {
    let (mut chan, _tx, rx) = xtra::inbox::new::<Envelope, Notice>(Some(1));
    assert_eq!(send(&mut chan, Message::Ordered { ord: 0 }), Ok(Ok(())));
    let waiting = parked(send(&mut chan, Message::Ordered { ord: 1 }));
    assert_eq!(recv(&mut chan, rx.mailbox), Got::Message(Message::Ordered { ord: 0 }));
    assert!(is_sent(chan.poll_waiting_sender(waiting)));
    assert!(is_sent(chan.poll_waiting_sender(waiting)));
    chan.cancel_waiting_sender(waiting);
    assert!(matches!(chan.poll_waiting_sender(waiting), SenderPoll::Ready(Err(Error::Disconnected))));
}
