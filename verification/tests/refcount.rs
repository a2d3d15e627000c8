use xtra::envelope::{BroadcastMessage, ReturningEnvelope};
use xtra::inbox::tx::Sender;
use xtra::inbox::Chan;

type Envelope = ReturningEnvelope<(), u32, ()>;
type Broadcast = BroadcastMessage<(), u32>;

fn chan() -> Chan<Envelope, Broadcast> {
    Chan::new(None)
}

#[test]
fn starts_with_rc_count_one() {
    let mut inner = chan();

    let _ptr1 = Sender::new(&mut inner);

    assert_eq!(inner.sender_count(), 1)
}

#[test]
fn clone_increments_count() {
    let mut inner = chan();

    let ptr1 = Sender::new(&mut inner);
    let _ptr2 = ptr1.clone_sender(&mut inner);

    assert_eq!(inner.sender_count(), 2)
}

#[test]
fn dropping_last_reference_calls_on_last_drop() {
    let mut inner = chan();

    let ptr1 = Sender::new(&mut inner);
    let last = ptr1.release(&mut inner);

    assert!(last);
    assert_eq!(inner.sender_count(), 0);
}

#[test]
fn can_convert_tx_strong_into_weak() {
    let mut inner = chan();

    let strong_ptr = Sender::new(&mut inner);
    let weak_ptr = strong_ptr.downgrade();

    assert!(!weak_ptr.is_strong());
    assert_eq!(inner.sender_count(), 1);
}

#[test]
fn can_clone_either() {
    let mut inner = chan();

    let strong_ptr = Sender::new(&mut inner);
    let either_ptr_1 = strong_ptr.to_either(&mut inner);
    let _either_ptr_2 = either_ptr_1.clone_sender(&mut inner);

    assert_eq!(inner.sender_count(), 3);
}

#[test]
fn either_is_strong() {
    let mut inner = chan();

    let strong_ptr = Sender::new(&mut inner);
    let either_ptr = strong_ptr.to_either(&mut inner);

    assert!(either_ptr.is_strong());
}

#[test]
fn weak_either_does_not_count() {
    let mut inner = chan();

    let strong_ptr = Sender::new(&mut inner);
    let weak = strong_ptr.downgrade();
    let either = weak.to_either(&mut inner);
    let clone = either.clone_sender(&mut inner);

    assert!(!either.is_strong());
    assert_eq!(inner.sender_count(), 1);
    assert!(!clone.release(&mut inner));
    assert!(!either.release(&mut inner));
    assert_eq!(inner.sender_count(), 1);
}

#[test]
fn releasing_one_of_two_strong_senders_is_not_last() {
    let mut inner = chan();

    let a = Sender::new(&mut inner);
    let b = a.clone_sender(&mut inner);

    assert!(!a.release(&mut inner));
    assert!(inner.sender_count() == 1);
    assert!(b.release(&mut inner));
    assert_eq!(inner.sender_count(), 0);
    assert!(Sender::try_new_strong(&mut inner).is_none());
}

#[test]
fn into_either_keeps_the_count() {
    let mut inner = chan();

    let strong = Sender::new(&mut inner);
    let either = strong.into_either_rc(&mut inner);

    assert!(either.is_strong());
    assert_eq!(inner.sender_count(), 1);
    assert!(either.release(&mut inner));
}
