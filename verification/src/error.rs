use vstd::prelude::*;

verus! {

/// An error related to the actor system.
#[derive(Clone, Copy, PartialEq, Eq, Structural, Debug)]
pub enum Error {
    /// The actor is no longer running and disconnected from the sending address.
    Disconnected,
    /// The message request operation was interrupted. This happens when the message result
    /// sender is dropped.
    Interrupted,
}

impl Error {
    /// The human-readable description of this error.
    pub fn description(&self) -> (s: &'static str)
        ensures
            *self == Error::Disconnected ==> s@ == "Actor address disconnected"@,
            *self == Error::Interrupted ==> s@ == "Message request interrupted"@,
    {
        match self {
            Error::Disconnected => "Actor address disconnected",
            Error::Interrupted => "Message request interrupted",
        }
    }
}

} // verus!
