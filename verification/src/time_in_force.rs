//! How long an order stays in force, as a closed set of one-character wire
//! codes.

use vstd::prelude::*;

verus! {

/// A time-in-force qualifier with its canonical wire code.
pub struct TimeInForce {
    val: char,
}

impl TimeInForce {
    /// The wire code of this qualifier.
    pub closed spec fn spec_value(&self) -> char {
        self.val
    }

    pub fn value(&self) -> (c: char)
        ensures
            c == self.spec_value(),
    {
        self.val
    }

    pub fn day() -> (s: TimeInForce)
        ensures
            s.spec_value() == '0',
    {
        TimeInForce { val: '0' }
    }

    pub fn good_till_cancel() -> (s: TimeInForce)
        ensures
            s.spec_value() == '1',
    {
        TimeInForce { val: '1' }
    }

    pub fn at_the_opening() -> (s: TimeInForce)
        ensures
            s.spec_value() == '2',
    {
        TimeInForce { val: '2' }
    }

    pub fn immediate_or_cancel() -> (s: TimeInForce)
        ensures
            s.spec_value() == '3',
    {
        TimeInForce { val: '3' }
    }

    pub fn fill_or_kill() -> (s: TimeInForce)
        ensures
            s.spec_value() == '4',
    {
        TimeInForce { val: '4' }
    }

    pub fn good_till_crossing() -> (s: TimeInForce)
        ensures
            s.spec_value() == '5',
    {
        TimeInForce { val: '5' }
    }

    pub fn good_till_date() -> (s: TimeInForce)
        ensures
            s.spec_value() == '6',
    {
        TimeInForce { val: '6' }
    }
}

} // verus!
