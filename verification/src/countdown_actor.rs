//! Heartbeat timer state: initially disarmed, armed by an interval-set
//! event, re-armed by a reset; each tick of an armed timer emits exactly one
//! alarm. The surrounding task owns the clock and drives these transitions.

use vstd::prelude::*;

verus! {

/// The liveness alarm the timer emits to its consumer.
pub enum AlarmMessage {
    Alarm,
}

/// The request to restart the current period without changing the interval.
pub enum ResetMessage {
    Reset,
}

/// The timer's decision state: whether it is armed, and with what period.
pub struct CountdownState {
    armed: bool,
    interval_ms: u64,
}

impl CountdownState {
    /// Whether an interval has been learned yet.
    pub closed spec fn spec_armed(&self) -> bool {
        self.armed
    }

    /// The period, in milliseconds; meaningful once armed.
    pub closed spec fn spec_interval_ms(&self) -> u64 {
        self.interval_ms
    }

    /// A fresh timer knows no interval and emits nothing.
    pub fn new() -> (s: CountdownState)
        ensures
            !s.spec_armed(),
            s.spec_interval_ms() == 0u64,
    {
        CountdownState { armed: false, interval_ms: 0 }
    }

    /// Learning an interval arms (or re-arms) the periodic tick.
    pub fn on_interval(&mut self, ms: u64)
        ensures
            final(self).spec_armed(),
            final(self).spec_interval_ms() == ms,
    {
        self.armed = true;
        self.interval_ms = ms;
    }

    /// A reset restarts the current period and changes nothing else.
    pub fn on_reset(&mut self)
        ensures
            final(self).spec_armed() == old(self).spec_armed(),
            final(self).spec_interval_ms() == old(self).spec_interval_ms(),
    {
    }

    /// A tick of an armed timer emits exactly one alarm; a disarmed timer
    /// emits nothing.
    pub fn on_tick(&self) -> (r: Option<AlarmMessage>)
        ensures
            self.spec_armed() ==> (r matches Some(a) && a is Alarm),
            !self.spec_armed() ==> r is None,
    {
        if self.armed {
            Some(AlarmMessage::Alarm)
        } else {
            None
        }
    }
}

} // verus!
