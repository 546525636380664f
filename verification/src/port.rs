//! The wiring between components: the stop pin, and the rule by which a
//! forwarder between two ports goes on or ends.

use vstd::prelude::*;

verus! {

/// A one-shot signal for shutting down: once raised it stays raised. A pin
/// is made lowered, and nothing but `raise` changes it.
#[derive(Debug, PartialEq, Eq, Structural)]
pub struct ControlPin {
    raised: bool,
}

impl View for ControlPin {
    /// Whether the pin was raised.
    type V = bool;

    closed spec fn view(&self) -> bool {
        self.raised
    }
}

impl ControlPin {
    /// Raises the pin; raising it again changes nothing.
    pub fn raise(&mut self)
        ensures
            final(self)@,
    {
        self.raised = true;
    }

    /// Whether the pin was raised.
    pub fn is_raised(&self) -> (r: bool)
        ensures
            r == self@,
    {
        self.raised
    }
}

impl Default for ControlPin {
    /// A pin that was not raised.
    fn default() -> (p: Self)
        ensures
            !p@,
    {
        ControlPin { raised: false }
    }
}

/// What came of handing a message to a port's bounded queue without waiting.
#[derive(Clone, Copy, Debug, PartialEq, Eq, Structural)]
pub enum Delivery {
    /// The queue took the message.
    Sent,
    /// The queue was full, and the message was dropped.
    Full,
    /// Nobody listens at the other end any more.
    Disconnected,
}

/// Whether a forwarder between two ports goes on after a delivery: it ends
/// only when the target is gone, and a dropped message does not end it.
pub fn forwarding_continues(delivery: Delivery) -> (goes_on: bool)
    ensures
        goes_on == (delivery != Delivery::Disconnected),
{
    match delivery {
        Delivery::Disconnected => false,
        _ => true,
    }
}

} // verus!
