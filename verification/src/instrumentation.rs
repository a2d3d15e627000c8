//! Instrumenting a message with the span it was sent from.

use vstd::prelude::*;

use crate::envelope::Span;

verus! {

/// A message together with the span its handler is attached to: as a child of `parent` when
/// `IS_CHILD`, else as following from it.
pub struct Instrumented<M, const IS_CHILD: bool> {
    /// The underlying message whose handler will be instrumented.
    pub msg: M,
    /// The parent span.
    pub parent: Span,
}

/// Instrumenting a message as a child of, or following from, the current span.
pub trait InstrumentedExt: Sized {
    /// Instruments this message as a child of the current span.
    fn instrumented_child(self) -> (r: Instrumented<Self, true>)
        ensures
            r.msg == self,
    ;

    /// Instruments this message as following from the current span.
    fn instrumented_follows_from(self) -> (r: Instrumented<Self, false>)
        ensures
            r.msg == self,
    ;
}

impl<M> InstrumentedExt for M {
    fn instrumented_child(self) -> (r: Instrumented<Self, true>) {
        Instrumented { msg: self, parent: Span::none() }
    }

    fn instrumented_follows_from(self) -> (r: Instrumented<Self, false>) {
        Instrumented { msg: self, parent: Span::none() }
    }
}

} // verus!
