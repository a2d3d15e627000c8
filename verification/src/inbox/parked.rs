//! Senders parked by a full mailbox: their ids stay distinct through every operation, so the
//! outcome recorded for a sender is the one its poll reports.

use std::sync::Arc;

use vstd::prelude::*;

use super::order::{first_default, has_default, last_max, lemma_first_default, lemma_last_max};
use super::state::{
    index_of_id, index_of_waiting, lemma_index_of_id, lemma_index_of_id_valid, lemma_index_of_waiting_none,
    lemma_index_of_waiting_valid, ChanView, SenderPoll, WaitingSender,
};
use super::HasPriority;

verus! {

impl<M: HasPriority, B: HasPriority> ChanView<M, B> {
    /// Every parked sender and every recorded outcome has an id below the next unused one, and
    /// no id occurs twice among them.
    pub open spec fn senders_distinct(self) -> bool {
        &&& forall|i: int| 0 <= i < self.waiting_one.len() ==> (#[trigger] self.waiting_one[i]).id < self.next_id
        &&& forall|i: int| 0 <= i < self.waiting_all.len() ==> (#[trigger] self.waiting_all[i]).id < self.next_id
        &&& forall|i: int| 0 <= i < self.finished.len() ==> (#[trigger] self.finished[i]).0 < self.next_id
        &&& forall|i: int, j: int|
            0 <= i < j < self.waiting_one.len() ==> (#[trigger] self.waiting_one[i]).id != (#[trigger] self.waiting_one[j]).id
        &&& forall|i: int, j: int|
            0 <= i < j < self.waiting_all.len() ==> (#[trigger] self.waiting_all[i]).id != (#[trigger] self.waiting_all[j]).id
        &&& forall|i: int, j: int|
            0 <= i < j < self.finished.len() ==> (#[trigger] self.finished[i]).0 != (#[trigger] self.finished[j]).0
        &&& forall|i: int, j: int|
            0 <= i < self.waiting_one.len() && 0 <= j < self.waiting_all.len() ==> (#[trigger] self.waiting_one[i]).id
                != (#[trigger] self.waiting_all[j]).id
        &&& forall|i: int, j: int|
            0 <= i < self.waiting_one.len() && 0 <= j < self.finished.len() ==> (#[trigger] self.waiting_one[i]).id
                != (#[trigger] self.finished[j]).0
        &&& forall|i: int, j: int|
            0 <= i < self.waiting_all.len() && 0 <= j < self.finished.len() ==> (#[trigger] self.waiting_all[i]).id
                != (#[trigger] self.finished[j]).0
    }
}

/// A state whose parked senders and recorded outcomes are those of `v`, with no fewer ids used.
pub(crate) proof fn lemma_same_senders<M: HasPriority, B: HasPriority>(v: ChanView<M, B>, w: ChanView<M, B>)
    requires
        v.senders_distinct(),
        w.waiting_one == v.waiting_one,
        w.waiting_all == v.waiting_all,
        w.finished == v.finished,
        v.next_id <= w.next_id,
    ensures
        w.senders_distinct(),
{
}

/// Parking a sender for one actor under the next unused id.
pub(crate) proof fn lemma_park_one<M: HasPriority, B: HasPriority>(v: ChanView<M, B>, m: M)
    requires
        v.senders_distinct(),
        v.next_id < u64::MAX,
    ensures
        (ChanView {
            waiting_one: v.waiting_one.push(WaitingSender { id: v.next_id, message: m }),
            next_id: (v.next_id + 1) as u64,
            ..v
        }).senders_distinct(),
{
}

/// Parking a broadcaster under the next unused id.
pub(crate) proof fn lemma_park_all<M: HasPriority, B: HasPriority>(v: ChanView<M, B>, m: Arc<B>)
    requires
        v.senders_distinct(),
        v.next_id < u64::MAX,
    ensures
        (ChanView {
            waiting_all: v.waiting_all.push(WaitingSender { id: v.next_id, message: m }),
            next_id: (v.next_id + 1) as u64,
            ..v
        }).senders_distinct(),
{
}

/// Admitting the parked sender for one actor at `i`, recording the outcome `ok`.
pub(crate) proof fn lemma_admit_one<M: HasPriority, B: HasPriority>(v: ChanView<M, B>, i: int, ok: bool)
    requires
        v.senders_distinct(),
        0 <= i < v.waiting_one.len(),
    ensures
        (ChanView {
            waiting_one: v.waiting_one.remove(i),
            finished: v.finished.push((v.waiting_one[i].id, ok)),
            ..v
        }).senders_distinct(),
{
    let w = ChanView {
        waiting_one: v.waiting_one.remove(i),
        finished: v.finished.push((v.waiting_one[i].id, ok)),
        ..v
    };
    let n = v.finished.len() as int;
    assert forall|a: int| 0 <= a < w.waiting_one.len() implies (#[trigger] w.waiting_one[a]).id != v.waiting_one[i].id by {
        if a < i {
            assert(w.waiting_one[a] == v.waiting_one[a]);
        } else {
            assert(w.waiting_one[a] == v.waiting_one[a + 1]);
        }
    }
    assert forall|a: int, b: int| 0 <= a < b < w.waiting_one.len() implies (#[trigger] w.waiting_one[a]).id
        != (#[trigger] w.waiting_one[b]).id by {
        let a1 = if a < i { a } else { a + 1 };
        let b1 = if b < i { b } else { b + 1 };
        assert(w.waiting_one[a] == v.waiting_one[a1]);
        assert(w.waiting_one[b] == v.waiting_one[b1]);
    }
    assert forall|a: int, b: int| 0 <= a < w.waiting_one.len() && 0 <= b < w.waiting_all.len() implies (
    #[trigger] w.waiting_one[a]).id != (#[trigger] w.waiting_all[b]).id by {
        let a1 = if a < i { a } else { a + 1 };
        assert(w.waiting_one[a] == v.waiting_one[a1]);
    }
    assert forall|a: int, b: int| 0 <= a < w.waiting_one.len() && 0 <= b < w.finished.len() implies (
    #[trigger] w.waiting_one[a]).id != (#[trigger] w.finished[b]).0 by {
        let a1 = if a < i { a } else { a + 1 };
        assert(w.waiting_one[a] == v.waiting_one[a1]);
        if b < n {
            assert(w.finished[b] == v.finished[b]);
        }
    }
    assert forall|a: int, b: int| 0 <= a < b < w.finished.len() implies (#[trigger] w.finished[a]).0
        != (#[trigger] w.finished[b]).0 by {
        assert(w.finished[a] == v.finished[a]);
        if b < n {
            assert(w.finished[b] == v.finished[b]);
        }
    }
    assert forall|a: int, b: int| 0 <= a < w.waiting_all.len() && 0 <= b < w.finished.len() implies (
    #[trigger] w.waiting_all[a]).id != (#[trigger] w.finished[b]).0 by {
        if b < n {
            assert(w.finished[b] == v.finished[b]);
        }
    }
    assert forall|a: int| 0 <= a < w.waiting_one.len() implies (#[trigger] w.waiting_one[a]).id < w.next_id by {
        let a1 = if a < i { a } else { a + 1 };
        assert(w.waiting_one[a] == v.waiting_one[a1]);
    }
    assert forall|a: int| 0 <= a < w.finished.len() implies (#[trigger] w.finished[a]).0 < w.next_id by {
        if a < n {
            assert(w.finished[a] == v.finished[a]);
        }
    }
}

/// Admitting the parked broadcaster at `i`, recording the outcome `ok`.
pub(crate) proof fn lemma_admit_all<M: HasPriority, B: HasPriority>(v: ChanView<M, B>, i: int, ok: bool)
    requires
        v.senders_distinct(),
        0 <= i < v.waiting_all.len(),
    ensures
        (ChanView {
            waiting_all: v.waiting_all.remove(i),
            finished: v.finished.push((v.waiting_all[i].id, ok)),
            ..v
        }).senders_distinct(),
{
    let w = ChanView {
        waiting_all: v.waiting_all.remove(i),
        finished: v.finished.push((v.waiting_all[i].id, ok)),
        ..v
    };
    let n = v.finished.len() as int;
    assert forall|a: int| 0 <= a < w.waiting_all.len() implies (#[trigger] w.waiting_all[a]).id != v.waiting_all[i].id by {
        if a < i {
            assert(w.waiting_all[a] == v.waiting_all[a]);
        } else {
            assert(w.waiting_all[a] == v.waiting_all[a + 1]);
        }
    }
    assert forall|a: int, b: int| 0 <= a < b < w.waiting_all.len() implies (#[trigger] w.waiting_all[a]).id
        != (#[trigger] w.waiting_all[b]).id by {
        let a1 = if a < i { a } else { a + 1 };
        let b1 = if b < i { b } else { b + 1 };
        assert(w.waiting_all[a] == v.waiting_all[a1]);
        assert(w.waiting_all[b] == v.waiting_all[b1]);
    }
    assert forall|a: int, b: int| 0 <= a < w.waiting_one.len() && 0 <= b < w.waiting_all.len() implies (
    #[trigger] w.waiting_one[a]).id != (#[trigger] w.waiting_all[b]).id by {
        let b1 = if b < i { b } else { b + 1 };
        assert(w.waiting_all[b] == v.waiting_all[b1]);
    }
    assert forall|a: int, b: int| 0 <= a < w.waiting_all.len() && 0 <= b < w.finished.len() implies (
    #[trigger] w.waiting_all[a]).id != (#[trigger] w.finished[b]).0 by {
        let a1 = if a < i { a } else { a + 1 };
        assert(w.waiting_all[a] == v.waiting_all[a1]);
        if b < n {
            assert(w.finished[b] == v.finished[b]);
        }
    }
    assert forall|a: int, b: int| 0 <= a < b < w.finished.len() implies (#[trigger] w.finished[a]).0
        != (#[trigger] w.finished[b]).0 by {
        assert(w.finished[a] == v.finished[a]);
        if b < n {
            assert(w.finished[b] == v.finished[b]);
        }
    }
    assert forall|a: int, b: int| 0 <= a < w.waiting_one.len() && 0 <= b < w.finished.len() implies (
    #[trigger] w.waiting_one[a]).id != (#[trigger] w.finished[b]).0 by {
        if b < n {
            assert(w.finished[b] == v.finished[b]);
        }
    }
    assert forall|a: int| 0 <= a < w.waiting_all.len() implies (#[trigger] w.waiting_all[a]).id < w.next_id by {
        let a1 = if a < i { a } else { a + 1 };
        assert(w.waiting_all[a] == v.waiting_all[a1]);
    }
    assert forall|a: int| 0 <= a < w.finished.len() implies (#[trigger] w.finished[a]).0 < w.next_id by {
        if a < n {
            assert(w.finished[a] == v.finished[a]);
        }
    }
}

/// Forgetting the recorded outcome at `i`.
pub(crate) proof fn lemma_forget<M: HasPriority, B: HasPriority>(v: ChanView<M, B>, i: int)
    requires
        v.senders_distinct(),
        0 <= i < v.finished.len(),
    ensures
        (ChanView { finished: v.finished.remove(i), ..v }).senders_distinct(),
{
    let w = ChanView { finished: v.finished.remove(i), ..v };
    assert forall|a: int| 0 <= a < w.finished.len() implies #[trigger] w.finished[a] == v.finished[if a < i { a } else { a + 1 }] by {
    }
    assert forall|a: int, b: int| 0 <= a < b < w.finished.len() implies (#[trigger] w.finished[a]).0
        != (#[trigger] w.finished[b]).0 by {
        let a1 = if a < i { a } else { a + 1 };
        let b1 = if b < i { b } else { b + 1 };
        assert(w.finished[a] == v.finished[a1]);
        assert(w.finished[b] == v.finished[b1]);
    }
}

/// Withdrawing the parked sender for one actor at `i`.
pub(crate) proof fn lemma_withdraw_one<M: HasPriority, B: HasPriority>(v: ChanView<M, B>, i: int)
    requires
        v.senders_distinct(),
        0 <= i < v.waiting_one.len(),
    ensures
        (ChanView { waiting_one: v.waiting_one.remove(i), ..v }).senders_distinct(),
{
    let w = ChanView { waiting_one: v.waiting_one.remove(i), ..v };
    assert forall|a: int| 0 <= a < w.waiting_one.len() implies #[trigger] w.waiting_one[a] == v.waiting_one[if a < i { a } else { a + 1 }] by {
    }
    assert forall|a: int, b: int| 0 <= a < b < w.waiting_one.len() implies (#[trigger] w.waiting_one[a]).id
        != (#[trigger] w.waiting_one[b]).id by {
        let a1 = if a < i { a } else { a + 1 };
        let b1 = if b < i { b } else { b + 1 };
        assert(w.waiting_one[a] == v.waiting_one[a1]);
        assert(w.waiting_one[b] == v.waiting_one[b1]);
    }
}

/// Withdrawing the parked broadcaster at `i`.
pub(crate) proof fn lemma_withdraw_all<M: HasPriority, B: HasPriority>(v: ChanView<M, B>, i: int)
    requires
        v.senders_distinct(),
        0 <= i < v.waiting_all.len(),
    ensures
        (ChanView { waiting_all: v.waiting_all.remove(i), ..v }).senders_distinct(),
{
    let w = ChanView { waiting_all: v.waiting_all.remove(i), ..v };
    assert forall|a: int| 0 <= a < w.waiting_all.len() implies #[trigger] w.waiting_all[a] == v.waiting_all[if a < i { a } else { a + 1 }] by {
    }
    assert forall|a: int, b: int| 0 <= a < b < w.waiting_all.len() implies (#[trigger] w.waiting_all[a]).id
        != (#[trigger] w.waiting_all[b]).id by {
        let a1 = if a < i { a } else { a + 1 };
        let b1 = if b < i { b } else { b + 1 };
        assert(w.waiting_all[a] == v.waiting_all[a1]);
        assert(w.waiting_all[b] == v.waiting_all[b1]);
    }
}

/// Closing every parked sender: each one's outcome is recorded as not delivered.
pub(crate) proof fn lemma_close_all<M: HasPriority, B: HasPriority>(v: ChanView<M, B>)
    requires
        v.senders_distinct(),
    ensures
        v.shutdown_waiting_senders().senders_distinct(),
{
    reveal(ChanView::shutdown_waiting_senders);
    let w = v.shutdown_waiting_senders();
    let n1 = v.finished.len() as int;
    let n2 = v.waiting_one.len() as int;
    let one = v.waiting_one.map_values(|x: WaitingSender<M>| (x.id, false));
    let all = v.waiting_all.map_values(|x: WaitingSender<Arc<B>>| (x.id, false));
    assert(w.finished == v.finished + one + all);
    assert forall|a: int| 0 <= a < w.finished.len() implies ((#[trigger] w.finished[a]).0 < w.next_id && (
        a < n1 ==> w.finished[a] == v.finished[a]) && (n1 <= a < n1 + n2 ==> w.finished[a].0 == v.waiting_one[a
        - n1].id) && (n1 + n2 <= a ==> w.finished[a].0 == v.waiting_all[a - n1 - n2].id)) by {
        if a < n1 {
            assert(w.finished[a] == v.finished[a]);
        } else if a < n1 + n2 {
            assert(w.finished[a] == one[a - n1]);
        } else {
            assert(w.finished[a] == all[a - n1 - n2]);
        }
    }
    assert forall|a: int, b: int| 0 <= a < b < w.finished.len() implies (#[trigger] w.finished[a]).0
        != (#[trigger] w.finished[b]).0 by {
        if a < n1 && b < n1 {
        } else if a < n1 && b < n1 + n2 {
            assert(v.waiting_one[b - n1].id != v.finished[a].0);
        } else if a < n1 {
            assert(v.waiting_all[b - n1 - n2].id != v.finished[a].0);
        } else if a < n1 + n2 && b < n1 + n2 {
            assert(v.waiting_one[a - n1].id != v.waiting_one[b - n1].id);
        } else if a < n1 + n2 {
            assert(v.waiting_one[a - n1].id != v.waiting_all[b - n1 - n2].id);
        } else {
            assert(v.waiting_all[a - n1 - n2].id != v.waiting_all[b - n1 - n2].id);
        }
    }
}

/// Admitting a parked sender of default priority keeps the ids distinct.
pub(crate) proof fn lemma_take_ordered<M: HasPriority, B: HasPriority>(v: ChanView<M, B>)
    requires
        v.senders_distinct(),
    ensures
        v.take_waiting_ordered().0.senders_distinct(),
{
    if has_default(v.waiting_one) {
        lemma_first_default(v.waiting_one);
        lemma_admit_one(v, first_default(v.waiting_one), true);
    }
}

/// Admitting the parked sender of highest priority keeps the ids distinct.
pub(crate) proof fn lemma_take_priority<M: HasPriority, B: HasPriority>(v: ChanView<M, B>)
    requires
        v.senders_distinct(),
    ensures
        v.take_waiting_priority().0.senders_distinct(),
{
    if v.waiting_one.len() > 0 {
        lemma_last_max(v.waiting_one);
        lemma_admit_one(v, last_max(v.waiting_one), true);
    }
}

/// Admitting the parked broadcaster of highest priority keeps the ids distinct.
pub(crate) proof fn lemma_take_broadcast<M: HasPriority, B: HasPriority>(v: ChanView<M, B>)
    requires
        v.senders_distinct(),
    ensures
        v.take_waiting_broadcast().0.senders_distinct(),
{
    if v.waiting_all.len() > 0 {
        lemma_last_max(v.waiting_all);
        lemma_admit_all(v, last_max(v.waiting_all), true);
    }
}

pub(crate) proof fn lemma_pop_ordered<M: HasPriority, B: HasPriority>(v: ChanView<M, B>)
    requires
        v.senders_distinct(),
    ensures
        v.pop_ordered().0.senders_distinct(),
{
    if v.ordered.len() > 0 {
        let s1 = ChanView { ordered: v.ordered.drop_first(), ..v };
        lemma_same_senders(v, s1);
        lemma_take_ordered(s1);
    }
}

pub(crate) proof fn lemma_pop_priority<M: HasPriority, B: HasPriority>(v: ChanView<M, B>)
    requires
        v.senders_distinct(),
    ensures
        v.pop_priority().0.senders_distinct(),
{
    if v.prioritised.len() > 0 {
        let s1 = ChanView { prioritised: v.prioritised.remove(super::order::first_max(v.prioritised)), ..v };
        lemma_same_senders(v, s1);
        lemma_take_priority(s1);
    }
}

pub(crate) proof fn lemma_pop_broadcast<M: HasPriority, B: HasPriority>(v: ChanView<M, B>, k: int)
    requires
        v.senders_distinct(),
    ensures
        v.pop_broadcast(k).0.senders_distinct(),
{
    let q = v.mailboxes[k].1;
    if q.len() > 0 {
        let i = super::order::first_max(q);
        let boxes = v.mailboxes.update(k, (v.mailboxes[k].0, q.remove(i)));
        let s1 = ChanView { mailboxes: boxes, tail: super::state::longest(boxes) as usize, ..v };
        lemma_same_senders(v, s1);
        lemma_take_broadcast(s1);
    }
}

pub(crate) proof fn lemma_send_to_one<M: HasPriority, B: HasPriority>(v: ChanView<M, B>, m: M)
    requires
        v.senders_distinct(),
        v.next_id < u64::MAX,
    ensures
        v.try_send_to_one(m).0.senders_distinct(),
{
    let (s1, r) = v.fulfil_receiver(m);
    lemma_same_senders(v, s1);
    if let Some(m1) = r {
        lemma_park_one(s1, m1);
        lemma_same_senders(s1, ChanView { ordered: s1.ordered.push(m1), ..s1 });
        lemma_same_senders(s1, ChanView { prioritised: s1.prioritised.push(m1), ..s1 });
    }
}

pub(crate) proof fn lemma_send_to_all<M: HasPriority, B: HasPriority>(v: ChanView<M, B>, b: Arc<B>)
    requires
        v.senders_distinct(),
        v.next_id < u64::MAX,
    ensures
        v.try_send_to_all(b).0.senders_distinct(),
        v.send_broadcast(b).senders_distinct(),
{
    lemma_same_senders(v, v.send_broadcast(b));
    lemma_park_all(v, b);
}

pub(crate) proof fn lemma_recv<M: HasPriority, B: HasPriority>(v: ChanView<M, B>, k: int)
    requires
        v.senders_distinct(),
        v.next_id < u64::MAX,
    ensures
        v.try_recv(k).0.senders_distinct(),
{
    lemma_pop_ordered(v);
    lemma_pop_priority(v);
    lemma_pop_broadcast(v, k);
}

pub(crate) proof fn lemma_poll_receiver<M: HasPriority, B: HasPriority>(v: ChanView<M, B>, id: u64, k: int)
    requires
        v.senders_distinct(),
    ensures
        v.poll_receiver(id, k).0.senders_distinct(),
        v.cancel_receiver(id).0.senders_distinct(),
{
    let i = index_of_id(v.rx_mail, id);
    if i >= 0 {
        let s2 = ChanView { rx_mail: v.rx_mail.remove(i), ..v };
        lemma_same_senders(v, s2);
        lemma_pop_broadcast(s2, k);
    }
}

pub(crate) proof fn lemma_cancel_sender<M: HasPriority, B: HasPriority>(v: ChanView<M, B>, id: u64)
    requires
        v.senders_distinct(),
    ensures
        v.cancel_sender(id).senders_distinct(),
{
    let i1 = index_of_waiting(v.waiting_one, id);
    let c1 = if i1 >= 0 {
        ChanView { waiting_one: v.waiting_one.remove(i1), ..v }
    } else {
        v
    };
    if i1 >= 0 {
        lemma_index_of_waiting_valid(v.waiting_one, id);
        lemma_withdraw_one(v, i1);
    }
    let i2 = index_of_waiting(c1.waiting_all, id);
    let c2 = if i2 >= 0 {
        ChanView { waiting_all: c1.waiting_all.remove(i2), ..c1 }
    } else {
        c1
    };
    if i2 >= 0 {
        lemma_index_of_waiting_valid(c1.waiting_all, id);
        lemma_withdraw_all(c1, i2);
    }
    let i3 = index_of_id(c2.finished, id);
    if i3 >= 0 {
        lemma_index_of_id_valid(c2.finished, id);
        lemma_forget(c2, i3);
    }
}

pub(crate) proof fn lemma_receivers<M: HasPriority, B: HasPriority>(v: ChanView<M, B>, m: M, id: u64)
    requires
        v.senders_distinct(),
        v.next_id < u64::MAX,
    ensures
        v.requeue(m).senders_distinct(),
        v.shutdown_waiting_receivers().senders_distinct(),
        v.add_receiver().senders_distinct(),
        v.uncount_receiver().senders_distinct(),
        v.release_mailbox(id).senders_distinct(),
{
    let (s1, r) = v.fulfil_receiver(m);
    lemma_same_senders(v, s1);
    lemma_same_senders(v, v.requeue(m));
    lemma_same_senders(v, v.shutdown_waiting_receivers());
    lemma_same_senders(v, v.add_receiver());
    lemma_same_senders(v, v.release_mailbox(id));
    let z = ChanView { receiver_count: 0, ..v };
    lemma_same_senders(v, z);
    lemma_close_all(z);
    lemma_same_senders(v, ChanView { receiver_count: (v.receiver_count - 1) as usize, ..v });
}

/// Every operation on the channel keeps the ids of parked senders and recorded outcomes
/// distinct, as a fresh channel has them.
pub proof fn law_sender_ids_stay_distinct<M: HasPriority, B: HasPriority>(
    v: ChanView<M, B>,
    m: M,
    b: Arc<B>,
    k: int,
    id: u64,
    capacity: Option<usize>,
)
    requires
        v.senders_distinct(),
        v.next_id < u64::MAX,
    ensures
        ChanView::<M, B>::initial(capacity).senders_distinct(),
        v.try_send_to_one(m).0.senders_distinct(),
        v.try_send_to_all(b).0.senders_distinct(),
        v.try_recv(k).0.senders_distinct(),
        v.pop_broadcast(k).0.senders_distinct(),
        v.poll_receiver(id, k).0.senders_distinct(),
        v.cancel_receiver(id).0.senders_distinct(),
        v.poll_sender(id).0.senders_distinct(),
        v.cancel_sender(id).senders_distinct(),
        v.requeue(m).senders_distinct(),
        v.send_broadcast(b).senders_distinct(),
        v.shutdown_waiting_receivers().senders_distinct(),
        v.add_receiver().senders_distinct(),
        v.uncount_receiver().senders_distinct(),
        v.release_mailbox(id).senders_distinct(),
{
    lemma_send_to_one(v, m);
    lemma_send_to_all(v, b);
    lemma_recv(v, k);
    lemma_pop_broadcast(v, k);
    lemma_poll_receiver(v, id, k);
    lemma_cancel_sender(v, id);
    lemma_receivers(v, m, id);
}

/// Once the parked sender for one actor at `i` is admitted, polling it reports the message
/// delivered.
pub(crate) proof fn lemma_admitted_one_reports_sent<M: HasPriority, B: HasPriority>(v: ChanView<M, B>, i: int)
    requires
        v.senders_distinct(),
        0 <= i < v.waiting_one.len(),
    ensures
        (ChanView {
            waiting_one: v.waiting_one.remove(i),
            finished: v.finished.push((v.waiting_one[i].id, true)),
            ..v
        }).poll_sender(v.waiting_one[i].id).1 == SenderPoll::Ready(Ok(())),
{
    let id = v.waiting_one[i].id;
    let w = ChanView {
        waiting_one: v.waiting_one.remove(i),
        finished: v.finished.push((id, true)),
        ..v
    };
    assert forall|j: int| 0 <= j < w.waiting_one.len() implies (#[trigger] w.waiting_one[j]).id != id by {
        if j < i {
            assert(w.waiting_one[j] == v.waiting_one[j]);
        } else {
            assert(w.waiting_one[j] == v.waiting_one[j + 1]);
        }
    }
    lemma_index_of_waiting_none(w.waiting_one, id);
    assert forall|j: int| 0 <= j < w.waiting_all.len() implies (#[trigger] w.waiting_all[j]).id != id by {
        assert(v.waiting_one[i].id != v.waiting_all[j].id);
    }
    lemma_index_of_waiting_none(w.waiting_all, id);
    let n = v.finished.len() as int;
    assert forall|j: int| 0 <= j < n implies (#[trigger] w.finished[j]).0 != id by {
        assert(w.finished[j] == v.finished[j]);
        assert(v.waiting_one[i].id != v.finished[j].0);
    }
    lemma_index_of_id(w.finished, id, n);
}

/// Once the parked broadcaster at `i` is admitted, polling it reports the broadcast queued.
pub(crate) proof fn lemma_admitted_all_reports_sent<M: HasPriority, B: HasPriority>(v: ChanView<M, B>, i: int)
    requires
        v.senders_distinct(),
        0 <= i < v.waiting_all.len(),
    ensures
        (ChanView {
            waiting_all: v.waiting_all.remove(i),
            finished: v.finished.push((v.waiting_all[i].id, true)),
            ..v
        }).poll_sender(v.waiting_all[i].id).1 == SenderPoll::Ready(Ok(())),
{
    let id = v.waiting_all[i].id;
    let w = ChanView {
        waiting_all: v.waiting_all.remove(i),
        finished: v.finished.push((id, true)),
        ..v
    };
    assert forall|j: int| 0 <= j < w.waiting_all.len() implies (#[trigger] w.waiting_all[j]).id != id by {
        if j < i {
            assert(w.waiting_all[j] == v.waiting_all[j]);
        } else {
            assert(w.waiting_all[j] == v.waiting_all[j + 1]);
        }
    }
    lemma_index_of_waiting_none(w.waiting_all, id);
    assert forall|j: int| 0 <= j < w.waiting_one.len() implies (#[trigger] w.waiting_one[j]).id != id by {
        assert(v.waiting_one[j].id != v.waiting_all[i].id);
    }
    lemma_index_of_waiting_none(w.waiting_one, id);
    let n = v.finished.len() as int;
    assert forall|j: int| 0 <= j < n implies (#[trigger] w.finished[j]).0 != id by {
        assert(w.finished[j] == v.finished[j]);
        assert(v.waiting_all[i].id != v.finished[j].0);
    }
    lemma_index_of_id(w.finished, id, n);
}

/// When a receiver takes an ordered message and so frees a slot, the first parked sender of
/// default priority is admitted: its message joins the ordered mailbox, and polling that
/// sender reports the message delivered.
pub proof fn law_admitted_ordered_sender_reports_sent<M: HasPriority, B: HasPriority>(v: ChanView<M, B>)
    requires
        v.senders_distinct(),
        v.ordered.len() > 0,
        !v.is_full(v.ordered.len() - 1),
        has_default(v.waiting_one),
    ensures
        ({
            let w = v.waiting_one[first_default(v.waiting_one)];
            let s = v.pop_ordered().0;
            &&& s.ordered.last() == w.message
            &&& s.poll_sender(w.id).1 == SenderPoll::Ready(Ok(()))
        }),
{
    let s1 = ChanView { ordered: v.ordered.drop_first(), ..v };
    lemma_first_default(v.waiting_one);
    lemma_admitted_one_reports_sent(s1, first_default(v.waiting_one));
}

/// When a receiver takes a priority message and so frees a slot, the parked sender of highest
/// priority is admitted: its message joins the priority mailbox, and polling that sender
/// reports the message delivered.
pub proof fn law_admitted_priority_sender_reports_sent<M: HasPriority, B: HasPriority>(v: ChanView<M, B>)
    requires
        v.senders_distinct(),
        v.prioritised.len() > 0,
        !v.is_full(v.prioritised.len() - 1),
        v.waiting_one.len() > 0,
    ensures
        ({
            let w = v.waiting_one[last_max(v.waiting_one)];
            let s = v.pop_priority().0;
            &&& s.prioritised.last() == w.message
            &&& s.poll_sender(w.id).1 == SenderPoll::Ready(Ok(()))
        }),
{
    super::order::lemma_first_max(v.prioritised);
    let s1 = ChanView { prioritised: v.prioritised.remove(super::order::first_max(v.prioritised)), ..v };
    lemma_last_max(v.waiting_one);
    lemma_admitted_one_reports_sent(s1, last_max(v.waiting_one));
}

/// When a receiver takes a broadcast and so shortens the longest mailbox below the capacity,
/// the parked broadcaster of highest priority is admitted: its broadcast is queued in every
/// mailbox, and polling it reports the broadcast queued.
pub proof fn law_admitted_broadcaster_reports_sent<M: HasPriority, B: HasPriority>(v: ChanView<M, B>, k: int)
    requires
        v.senders_distinct(),
        0 <= k < v.mailboxes.len(),
        v.mailboxes[k].1.len() > 0,
        v.waiting_all.len() > 0,
        ({
            let q = v.mailboxes[k].1;
            let boxes = v.mailboxes.update(k, (v.mailboxes[k].0, q.remove(super::order::first_max(q))));
            !v.is_full(super::state::longest(boxes) as int)
        }),
    ensures
        ({
            let w = v.waiting_all[last_max(v.waiting_all)];
            let s = v.pop_broadcast(k).0;
            &&& s.mailboxes[k].1.last() == w.message
            &&& s.poll_sender(w.id).1 == SenderPoll::Ready(Ok(()))
        }),
{
    let q = v.mailboxes[k].1;
    let boxes = v.mailboxes.update(k, (v.mailboxes[k].0, q.remove(super::order::first_max(q))));
    let s1 = ChanView { mailboxes: boxes, tail: super::state::longest(boxes) as usize, ..v };
    lemma_last_max(v.waiting_all);
    lemma_admitted_all_reports_sent(s1, last_max(v.waiting_all));
}

/// When the last receiver goes away, every parked sender is told that the actor disconnected.
pub proof fn law_parked_senders_told_disconnected<M: HasPriority, B: HasPriority>(v: ChanView<M, B>, i: int)
    requires
        v.senders_distinct(),
        v.receiver_count == 1,
        0 <= i < v.waiting_one.len(),
    ensures
        v.uncount_receiver().poll_sender(v.waiting_one[i].id).1 == SenderPoll::Ready(
            Err(crate::error::Error::Disconnected),
        ),
{
    reveal(ChanView::shutdown_waiting_senders);
    let z = ChanView { receiver_count: 0, ..v };
    let w = v.uncount_receiver();
    assert(w == z.shutdown_waiting_senders());
    let id = v.waiting_one[i].id;
    let n1 = v.finished.len() as int;
    let one = v.waiting_one.map_values(|x: WaitingSender<M>| (x.id, false));
    let all = v.waiting_all.map_values(|x: WaitingSender<Arc<B>>| (x.id, false));
    assert(w.finished == v.finished + one + all);
    lemma_index_of_waiting_none(w.waiting_one, id);
    lemma_index_of_waiting_none(w.waiting_all, id);
    assert(w.finished[n1 + i] == one[i]);
    assert forall|j: int| 0 <= j < n1 + i implies (#[trigger] w.finished[j]).0 != id by {
        if j < n1 {
            assert(w.finished[j] == v.finished[j]);
            assert(v.waiting_one[i].id != v.finished[j].0);
        } else {
            assert(w.finished[j] == one[j - n1]);
            assert(v.waiting_one[j - n1].id != v.waiting_one[i].id);
        }
    }
    lemma_index_of_id(w.finished, id, n1 + i);
}

/// When the last receiver goes away, every parked broadcaster is told that the actor
/// disconnected: its broadcast was never queued.
pub proof fn law_parked_broadcasters_told_disconnected<M: HasPriority, B: HasPriority>(v: ChanView<M, B>, i: int)
    requires
        v.senders_distinct(),
        v.receiver_count == 1,
        0 <= i < v.waiting_all.len(),
    ensures
        v.uncount_receiver().poll_sender(v.waiting_all[i].id).1 == SenderPoll::Ready(
            Err(crate::error::Error::Disconnected),
        ),
{
    reveal(ChanView::shutdown_waiting_senders);
    let z = ChanView { receiver_count: 0, ..v };
    let w = v.uncount_receiver();
    assert(w == z.shutdown_waiting_senders());
    let id = v.waiting_all[i].id;
    let n1 = v.finished.len() as int;
    let n2 = v.waiting_one.len() as int;
    let one = v.waiting_one.map_values(|x: WaitingSender<M>| (x.id, false));
    let all = v.waiting_all.map_values(|x: WaitingSender<Arc<B>>| (x.id, false));
    assert(w.finished == v.finished + one + all);
    lemma_index_of_waiting_none(w.waiting_one, id);
    lemma_index_of_waiting_none(w.waiting_all, id);
    assert(w.finished[n1 + n2 + i] == all[i]);
    assert forall|j: int| 0 <= j < n1 + n2 + i implies (#[trigger] w.finished[j]).0 != id by {
        if j < n1 {
            assert(w.finished[j] == v.finished[j]);
            assert(v.waiting_all[i].id != v.finished[j].0);
        } else if j < n1 + n2 {
            assert(w.finished[j] == one[j - n1]);
            assert(v.waiting_one[j - n1].id != v.waiting_all[i].id);
        } else {
            assert(w.finished[j] == all[j - n1 - n2]);
            assert(v.waiting_all[j - n1 - n2].id != v.waiting_all[i].id);
        }
    }
    lemma_index_of_id(w.finished, id, n1 + n2 + i);
}

/// A parked sender's whole life, as its polls report it: a message sent into a full mailbox is
/// parked under the next unused id; from then on, while it is parked its sender is pending;
/// once it has been admitted (see [`law_admitted_ordered_sender_reports_sent`] and the like)
/// its sender is told the message was delivered; once its last receiver has gone (see
/// [`law_parked_senders_told_disconnected`]) it is told the actor disconnected. Polling never
/// changes the channel, so each of these answers stays until the sender is withdrawn.
pub proof fn law_parked_sender_lifecycle<M: HasPriority, B: HasPriority>(
    v: ChanView<M, B>,
    m: M,
    w: ChanView<M, B>,
    id: u64,
    j: int,
)
    requires
        w.senders_distinct(),
    ensures
        v.try_send_to_one(m).1 matches Ok(Err(super::state::MailboxFull(p))) ==> p == v.next_id
            && v.try_send_to_one(m).0.waiting_one.last() == (WaitingSender { id: p, message: m })
            && v.try_send_to_one(m).0.poll_sender(p).1 == SenderPoll::Pending,
        w.poll_sender(id).0 == w,
        0 <= j < w.waiting_one.len() && w.waiting_one[j].id == id ==> w.poll_sender(id).1
            == SenderPoll::Pending,
        0 <= j < w.waiting_all.len() && w.waiting_all[j].id == id ==> w.poll_sender(id).1
            == SenderPoll::Pending,
        0 <= j < w.finished.len() && w.finished[j] == (id, true) ==> w.poll_sender(id).1
            == SenderPoll::Ready(Ok(())),
        0 <= j < w.finished.len() && w.finished[j] == (id, false) ==> w.poll_sender(id).1
            == SenderPoll::Ready(Err(crate::error::Error::Disconnected)),
{
    let (v1, r) = v.try_send_to_one(m);
    if let Ok(Err(super::state::MailboxFull(p))) = r {
        let n = v1.waiting_one.len() - 1;
        assert(v1.waiting_one[n].id == p);
        super::state::lemma_index_of_waiting_exists(v1.waiting_one, p, n);
    }
    if 0 <= j < w.waiting_one.len() && w.waiting_one[j].id == id {
        super::state::lemma_index_of_waiting_exists(w.waiting_one, id, j);
    }
    if 0 <= j < w.waiting_all.len() && w.waiting_all[j].id == id {
        super::state::lemma_index_of_waiting_exists(w.waiting_all, id, j);
    }
    if 0 <= j < w.finished.len() && w.finished[j].0 == id {
        assert forall|a: int| 0 <= a < w.waiting_one.len() implies (#[trigger] w.waiting_one[a]).id != id by {
            assert(w.waiting_one[a].id != w.finished[j].0);
        }
        assert forall|a: int| 0 <= a < w.waiting_all.len() implies (#[trigger] w.waiting_all[a]).id != id by {
            assert(w.waiting_all[a].id != w.finished[j].0);
        }
        lemma_index_of_waiting_none(w.waiting_one, id);
        lemma_index_of_waiting_none(w.waiting_all, id);
        assert forall|a: int| 0 <= a < j implies (#[trigger] w.finished[a]).0 != id by {
            assert(w.finished[a].0 != w.finished[j].0);
        }
        lemma_index_of_id(w.finished, id, j);
    }
}

} // verus!
