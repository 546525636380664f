//! The 60 Hz countdown timers.

use vstd::prelude::*;

verus! {

/// What a timer tells its listeners.
#[derive(Clone, Copy, Debug, PartialEq, Eq, Structural)]
pub enum TimerMessage {
    Started,
    Stopped,
}

/// The value of a timer that held `value` after `ticks` ticks: it goes down
/// by one with each tick and stays at zero.
pub open spec fn counted_down(value: u8, ticks: nat) -> u8 {
    if ticks >= value {
        0
    } else {
        (value - ticks) as u8
    }
}

/// What a timer reports when it is set to `value` while it holds `was`: that
/// it started, where that takes it from zero to a value that is not zero.
pub open spec fn report_of_update(was: u8, value: u8) -> Option<TimerMessage> {
    if was == 0 && value != 0 {
        Some(TimerMessage::Started)
    } else {
        None
    }
}

/// What a timer reports on a tick when it holds `was`: that it stopped,
/// where it is found at zero.
pub open spec fn report_of_tick(was: u8) -> Option<TimerMessage> {
    if was == 0 {
        Some(TimerMessage::Stopped)
    } else {
        None
    }
}

/// An 8-bit counter that goes down by one with each tick while it is not
/// zero. Whoever drives it ticks it sixty times a second.
pub struct CountDownTimer {
    value: u8,
}

impl View for CountDownTimer {
    type V = u8;

    closed spec fn view(&self) -> u8 {
        self.value
    }
}

impl CountDownTimer {
    /// A timer at zero.
    pub fn new() -> (t: CountDownTimer)
        ensures
            t@ == 0,
    {
        CountDownTimer { value: 0 }
    }

    /// Sets the timer to `val`. The timer reports that it started where that
    /// takes it from zero to a value that is not zero.
    pub fn update(&mut self, val: u8) -> (m: Option<TimerMessage>)
        ensures
            final(self)@ == val,
            m == report_of_update(old(self)@, val),
    {
        let was = self.value;
        self.value = val;
        if was == 0 && val != 0 {
            Some(TimerMessage::Started)
        } else {
            None
        }
    }

    /// The timer's value.
    pub fn value(&self) -> (v: u8)
        ensures
            v == self@,
    {
        self.value
    }

    /// One tick. A timer that is not at zero goes down by one. A timer found
    /// at zero stays there and reports that it stopped; its driver then rests
    /// until the timer reports a start.
    pub fn tick(&mut self) -> (m: Option<TimerMessage>)
        ensures
            final(self)@ == counted_down(old(self)@, 1),
            m == report_of_tick(old(self)@),
    {
        if self.value == 0 {
            Some(TimerMessage::Stopped)
        } else {
            self.value = self.value - 1;
            None
        }
    }
}

/// Ticking one more time counts down one further.
pub proof fn lemma_counted_down_step(value: u8, ticks: nat)
    ensures
        counted_down(counted_down(value, ticks), 1) == counted_down(value, ticks + 1),
{
}

/// A timer set to `value` is at zero after `value` ticks, and not before.
pub proof fn lemma_counted_down_reaches_zero(value: u8, ticks: nat)
    ensures
        counted_down(value, ticks) == 0 <==> ticks >= value,
{
}

impl Default for CountDownTimer {
    fn default() -> (t: CountDownTimer)
        ensures
            t@ == 0,
    {
        CountDownTimer::new()
    }
}

} // verus!
