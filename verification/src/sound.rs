//! What the beeper is told.

use crate::timer::TimerMessage;
use vstd::prelude::*;

verus! {

/// A command to the beeper.
#[derive(Clone, Copy, Debug, PartialEq, Eq, Structural)]
pub enum Message {
    Play,
    Pause,
    Stop,
}

impl From<TimerMessage> for Message {
    fn from(m: TimerMessage) -> (r: Self) {
        match m {
            TimerMessage::Started => Message::Play,
            TimerMessage::Stopped => Message::Pause,
        }
    }
}

impl vstd::std_specs::convert::FromSpecImpl<TimerMessage> for Message {
    open spec fn obeys_from_spec() -> bool {
        true
    }

    /// The beeper plays while the sound timer runs.
    open spec fn from_spec(m: TimerMessage) -> Message {
        match m {
            TimerMessage::Started => Message::Play,
            TimerMessage::Stopped => Message::Pause,
        }
    }
}

} // verus!
