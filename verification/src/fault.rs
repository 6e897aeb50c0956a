//! The write-once latch that names a capture's first fault.

use vstd::prelude::*;

use crate::error::TranscriptPumpError;
use crate::text::{fits, text_of};

verus! {

/// A write-once latch that publishes a capture's immutable first infrastructure fault
/// to coder supervision. The capture path and the status worker both publish to it
/// BEFORE attempting terminal status settlement, so a delayed or blocked status write
/// can never hide the first fault from the supervisor.
#[derive(Debug)]
pub struct FirstFault {
    fault: Option<String>,
}

impl View for FirstFault {
    type V = Option<Seq<char>>;

    closed spec fn view(&self) -> Option<Seq<char>> {
        text_of(self.fault)
    }
}

/// What a latch names after `message` is published to it: the first message wins.
pub open spec fn latched(fault: Option<Seq<char>>, message: Seq<char>) -> Option<Seq<char>> {
    match fault {
        Some(first) => Some(first),
        None => Some(message),
    }
}

impl Default for FirstFault {
    fn default() -> (latch: Self)
        ensures
            latch@ is None,
    {
        FirstFault { fault: None }
    }
}

impl FirstFault {
    /// The message that the latch names is within the total cap.
    #[verifier::type_invariant]
    spec fn message_fits(self) -> bool {
        fits(self@)
    }

    /// Publish the first fault. Only the first caller wins; later faults never
    /// overwrite it, so the latch names the immutable first cause.
    pub fn publish(&mut self, err: &TranscriptPumpError)
        ensures
            final(self)@ == latched(old(self)@, err@.message),
    {
        if self.fault.is_none() {
            self.fault = Some(err.message().to_string());
        }
    }

    /// Whether a first fault has been published. Supervision polls this so it can
    /// terminate and reap the coder before waiting for terminal status settlement.
    pub fn observed(&self) -> (observed: bool)
        ensures
            observed == (self@ is Some),
    {
        self.fault.is_some()
    }

    /// The first fault's message.
    pub fn message(&self) -> (message: Option<String>)
        ensures
            text_of(message) == self@,
            fits(text_of(message)),
    {
        proof {
            use_type_invariant(self);
        }
        self.fault.clone()
    }
}

/// Once a latch names a fault, no later publication changes it, and after any
/// publication it names one.
pub proof fn law_first_fault_is_immutable(
    fault: Option<Seq<char>>,
    first: Seq<char>,
    second: Seq<char>,
)
    ensures
        latched(fault, first) is Some,
        latched(latched(fault, first), second) == latched(fault, first),
{
}

/// An empty latch names the first message published to it, unchanged; a latch that names a
/// fault goes on naming that fault, whatever is published.
pub proof fn law_first_publication_is_named(first: Seq<char>, second: Seq<char>)
    ensures
        latched(None, first) == Some(first),
        latched(Some(first), second) == Some(first),
        latched(latched(None, first), second) == Some(first),
{
}
} // verus!
