//! The reference counts of the sending side of a channel. Strong senders keep the channel
//! connected; weak senders do not.

use vstd::prelude::*;

use super::{Chan, ChanView, HasPriority};

verus! {

/// The reference count of a strong address. Strong addresses keep the actor from being
/// dropped for as long as they live.
#[derive(Debug)]
pub struct TxStrong(());

/// The reference count of a weak address. Weak addresses do not keep the actor from being
/// dropped.
#[derive(Debug)]
pub struct TxWeak(());

/// A reference counter that can be dynamically either strong or weak.
#[derive(Debug)]
pub enum TxEither {
    /// A strong reference counter.
    Strong(TxStrong),
    /// A weak reference counter.
    Weak(TxWeak),
}

/// The strength of an address's reference count: whether it counts among the channel's strong
/// senders.
pub trait TxRefCounter: Sized {
    /// Whether this reference count is strong.
    spec fn spec_is_strong(&self) -> bool;

    /// Increments the reference count, returning a new reference count of the same strength.
    fn increment<M: HasPriority, B: HasPriority>(&self, chan: &mut Chan<M, B>) -> (r: Self)
        requires
            self.spec_is_strong() ==> old(chan)@.sender_count < usize::MAX,
        ensures
            r.spec_is_strong() == self.spec_is_strong(),
            self.spec_is_strong() ==> final(chan)@ == (ChanView {
                sender_count: (old(chan)@.sender_count + 1) as usize,
                ..old(chan)@
            }),
            !self.spec_is_strong() ==> final(chan)@ == old(chan)@,
    ;

    /// Decrements the reference count, returning whether the last strong sender went away.
    fn decrement<M: HasPriority, B: HasPriority>(&self, chan: &mut Chan<M, B>) -> (last: bool)
        requires
            self.spec_is_strong() ==> old(chan)@.sender_count > 0,
        ensures
            self.spec_is_strong() ==> last == (old(chan)@.sender_count == 1) && final(chan)@ == (
            ChanView { sender_count: (old(chan)@.sender_count - 1) as usize, ..old(chan)@ }),
            !self.spec_is_strong() ==> !last && final(chan)@ == old(chan)@,
    ;

    /// Converts this reference count into a dynamic one of the same strength.
    fn into_either(self) -> (r: TxEither)
        ensures
            (r is Strong) == self.spec_is_strong(),
    ;

    /// Returns whether this reference count is strong.
    fn is_strong(&self) -> (r: bool)
        ensures
            r == self.spec_is_strong(),
    ;
}

impl TxStrong {
    /// A new strong reference count, provided a strong sender still exists; `None` once the
    /// last one has gone away.
    pub fn try_new<M: HasPriority, B: HasPriority>(chan: &mut Chan<M, B>) -> (r: Option<TxStrong>)
        requires
            old(chan)@.sender_count < usize::MAX,
        ensures
            r.is_some() == (old(chan)@.sender_count > 0),
            r.is_some() ==> final(chan)@ == (ChanView {
                sender_count: (old(chan)@.sender_count + 1) as usize,
                ..old(chan)@
            }),
            r.is_none() ==> final(chan)@ == old(chan)@,
    {
        if chan.try_increment_sender_count() {
            Some(TxStrong(()))
        } else {
            None
        }
    }

    /// The strong reference count of a sender created with a fresh channel.
    pub fn new<M: HasPriority, B: HasPriority>(chan: &mut Chan<M, B>) -> (r: TxStrong)
        requires
            old(chan)@.sender_count < usize::MAX,
        ensures
            final(chan)@ == (ChanView {
                sender_count: (old(chan)@.sender_count + 1) as usize,
                ..old(chan)@
            }),
    {
        chan.increment_sender_count();
        TxStrong(())
    }
}

impl TxWeak {
    /// A new weak reference count; the channel's counts are unchanged.
    pub fn new<M: HasPriority, B: HasPriority>(chan: &Chan<M, B>) -> (r: TxWeak) {
        TxWeak(())
    }
}

impl TxRefCounter for TxStrong {
    open spec fn spec_is_strong(&self) -> bool {
        true
    }

    fn increment<M: HasPriority, B: HasPriority>(&self, chan: &mut Chan<M, B>) -> (r: Self) {
        chan.increment_sender_count();
        TxStrong(())
    }

    fn decrement<M: HasPriority, B: HasPriority>(&self, chan: &mut Chan<M, B>) -> (last: bool) {
        chan.decrement_sender_count()
    }

    fn into_either(self) -> (r: TxEither) {
        TxEither::Strong(self)
    }

    fn is_strong(&self) -> (r: bool) {
        true
    }
}

impl TxRefCounter for TxWeak {
    open spec fn spec_is_strong(&self) -> bool {
        false
    }

    fn increment<M: HasPriority, B: HasPriority>(&self, chan: &mut Chan<M, B>) -> (r: Self) {
        // A weak being cloned does not affect the strong count
        TxWeak(())
    }

    fn decrement<M: HasPriority, B: HasPriority>(&self, chan: &mut Chan<M, B>) -> (last: bool) {
        // A weak being dropped never disconnects the channel: that depends on strongs alone
        false
    }

    fn into_either(self) -> (r: TxEither) {
        TxEither::Weak(self)
    }

    fn is_strong(&self) -> (r: bool) {
        false
    }
}

impl TxRefCounter for TxEither {
    open spec fn spec_is_strong(&self) -> bool {
        self is Strong
    }

    fn increment<M: HasPriority, B: HasPriority>(&self, chan: &mut Chan<M, B>) -> (r: Self) {
        match self {
            TxEither::Strong(strong) => TxEither::Strong(strong.increment(chan)),
            TxEither::Weak(weak) => TxEither::Weak(weak.increment(chan)),
        }
    }

    fn decrement<M: HasPriority, B: HasPriority>(&self, chan: &mut Chan<M, B>) -> (last: bool) {
        match self {
            TxEither::Strong(strong) => strong.decrement(chan),
            TxEither::Weak(weak) => weak.decrement(chan),
        }
    }

    fn into_either(self) -> (r: TxEither) {
        self
    }

    fn is_strong(&self) -> (r: bool) {
        match self {
            TxEither::Strong(_) => true,
            TxEither::Weak(_) => false,
        }
    }
}

/// A sender into a channel, whose reference count is strong, weak or either.
pub struct Sender<Rc> {
    rc: Rc,
}

impl<Rc: TxRefCounter> Sender<Rc> {
    /// Whether this sender counts among the strong senders.
    pub open spec fn spec_is_strong(&self) -> bool {
        self.spec_rc().spec_is_strong()
    }

    /// The reference count of this sender.
    pub closed spec fn spec_rc(&self) -> Rc {
        self.rc
    }

    /// The reference count of this sender.
    pub fn rc(&self) -> (r: &Rc)
        ensures
            *r == self.spec_rc(),
    {
        &self.rc
    }

    /// Whether this sender is strong.
    pub fn is_strong(&self) -> (r: bool)
        ensures
            r == self.spec_is_strong(),
    {
        self.rc.is_strong()
    }

    /// A weak sender to the same channel.
    pub fn downgrade(&self) -> (r: Sender<TxWeak>)
        ensures
            !r.spec_is_strong(),
    {
        Sender { rc: TxWeak(()) }
    }

    /// A clone of this sender, counted as this one is.
    pub fn clone_sender<M: HasPriority, B: HasPriority>(&self, chan: &mut Chan<M, B>) -> (r: Self)
        requires
            self.spec_is_strong() ==> old(chan)@.sender_count < usize::MAX,
        ensures
            r.spec_is_strong() == self.spec_is_strong(),
            self.spec_is_strong() ==> final(chan)@ == (ChanView {
                sender_count: (old(chan)@.sender_count + 1) as usize,
                ..old(chan)@
            }),
            !self.spec_is_strong() ==> final(chan)@ == old(chan)@,
    {
        Sender { rc: self.rc.increment(chan) }
    }

    /// Drops this sender. When it was the last strong sender, every waiting receiver is told
    /// that the channel shut down; this is what is returned.
    pub fn release<M: HasPriority, B: HasPriority>(self, chan: &mut Chan<M, B>) -> (last: bool)
        requires
            self.spec_is_strong() ==> old(chan)@.sender_count > 0,
            old(chan)@.wf(),
        ensures
            self.spec_is_strong() ==> last == (old(chan)@.sender_count == 1),
            !self.spec_is_strong() ==> !last && final(chan)@ == old(chan)@,
            self.spec_is_strong() && last ==> final(chan)@ == (ChanView {
                sender_count: 0,
                ..old(chan)@
            }).shutdown_waiting_receivers(),
            self.spec_is_strong() && !last ==> final(chan)@ == (ChanView {
                sender_count: (old(chan)@.sender_count - 1) as usize,
                ..old(chan)@
            }),
            final(chan)@.wf(),
    {
        let last = self.rc.decrement(chan);
        if last {
            chan.shutdown_waiting_receivers();
        }
        last
    }

    /// Converts this sender into one whose reference count is either strong or weak, of the
    /// same strength; the channel's counts end as they were.
    pub fn into_either_rc<M: HasPriority, B: HasPriority>(self, chan: &mut Chan<M, B>) -> (r: Sender<TxEither>)
        requires
            self.spec_is_strong() ==> 0 < old(chan)@.sender_count < usize::MAX,
            old(chan)@.wf(),
        ensures
            r.spec_is_strong() == self.spec_is_strong(),
            final(chan)@ == old(chan)@,
    {
        let rc = self.rc.increment(chan).into_either();
        let _ = self.release(chan);
        Sender { rc }
    }

    /// A new sender to the same channel whose reference count is either strong or weak, of the
    /// same strength as this one, and counted as a clone is.
    pub fn to_either<M: HasPriority, B: HasPriority>(&self, chan: &mut Chan<M, B>) -> (r: Sender<TxEither>)
        requires
            self.spec_is_strong() ==> old(chan)@.sender_count < usize::MAX,
        ensures
            r.spec_is_strong() == self.spec_is_strong(),
            self.spec_is_strong() ==> final(chan)@ == (ChanView {
                sender_count: (old(chan)@.sender_count + 1) as usize,
                ..old(chan)@
            }),
            !self.spec_is_strong() ==> final(chan)@ == old(chan)@,
    {
        Sender { rc: self.rc.increment(chan).into_either() }
    }
}

impl Sender<TxStrong> {
    /// A strong sender to a channel; counted among its strong senders.
    pub fn new<M: HasPriority, B: HasPriority>(chan: &mut Chan<M, B>) -> (r: Self)
        requires
            old(chan)@.sender_count < usize::MAX,
        ensures
            r.spec_is_strong(),
            final(chan)@ == (ChanView {
                sender_count: (old(chan)@.sender_count + 1) as usize,
                ..old(chan)@
            }),
    {
        Sender { rc: TxStrong::new(chan) }
    }

    /// A strong sender, provided a strong sender still exists.
    pub fn try_new_strong<M: HasPriority, B: HasPriority>(chan: &mut Chan<M, B>) -> (r: Option<Self>)
        requires
            old(chan)@.sender_count < usize::MAX,
        ensures
            r.is_some() == (old(chan)@.sender_count > 0),
            r matches Some(s) ==> s.spec_is_strong(),
            r.is_some() ==> final(chan)@ == (ChanView {
                sender_count: (old(chan)@.sender_count + 1) as usize,
                ..old(chan)@
            }),
            r.is_none() ==> final(chan)@ == old(chan)@,
    {
        match TxStrong::try_new(chan) {
            Some(rc) => Some(Sender { rc }),
            None => None,
        }
    }
}

impl Sender<TxWeak> {
    /// A weak sender to a channel; the channel's counts are unchanged.
    pub fn new_weak<M: HasPriority, B: HasPriority>(chan: &Chan<M, B>) -> (r: Self)
        ensures
            !r.spec_is_strong(),
    {
        Sender { rc: TxWeak::new(chan) }
    }
}

} // verus!
