//! The lifecycle state of an order, as a closed set of one-character wire
//! codes.

use vstd::prelude::*;

verus! {

/// An order status with its canonical wire code.
pub struct OrdStatus {
    val: char,
}

impl OrdStatus {
    /// The wire code of this status.
    pub closed spec fn spec_value(&self) -> char {
        self.val
    }

    pub fn value(&self) -> (c: char)
        ensures
            c == self.spec_value(),
    {
        self.val
    }

    pub fn new() -> (s: OrdStatus)
        ensures
            s.spec_value() == '0',
    {
        OrdStatus { val: '0' }
    }

    pub fn partially_filled() -> (s: OrdStatus)
        ensures
            s.spec_value() == '1',
    {
        OrdStatus { val: '1' }
    }

    pub fn filled() -> (s: OrdStatus)
        ensures
            s.spec_value() == '2',
    {
        OrdStatus { val: '2' }
    }

    pub fn done_for_day() -> (s: OrdStatus)
        ensures
            s.spec_value() == '3',
    {
        OrdStatus { val: '3' }
    }

    pub fn canceled() -> (s: OrdStatus)
        ensures
            s.spec_value() == '4',
    {
        OrdStatus { val: '4' }
    }

    pub fn replaced() -> (s: OrdStatus)
        ensures
            s.spec_value() == '5',
    {
        OrdStatus { val: '5' }
    }

    pub fn pending_cancel() -> (s: OrdStatus)
        ensures
            s.spec_value() == '6',
    {
        OrdStatus { val: '6' }
    }

    pub fn stopped() -> (s: OrdStatus)
        ensures
            s.spec_value() == '7',
    {
        OrdStatus { val: '7' }
    }

    pub fn rejected() -> (s: OrdStatus)
        ensures
            s.spec_value() == '8',
    {
        OrdStatus { val: '8' }
    }

    pub fn suspended() -> (s: OrdStatus)
        ensures
            s.spec_value() == '9',
    {
        OrdStatus { val: '9' }
    }

    pub fn pending_new() -> (s: OrdStatus)
        ensures
            s.spec_value() == 'A',
    {
        OrdStatus { val: 'A' }
    }

    pub fn calculated() -> (s: OrdStatus)
        ensures
            s.spec_value() == 'B',
    {
        OrdStatus { val: 'B' }
    }

    pub fn expired() -> (s: OrdStatus)
        ensures
            s.spec_value() == 'C',
    {
        OrdStatus { val: 'C' }
    }

    pub fn accepted_for_bidding() -> (s: OrdStatus)
        ensures
            s.spec_value() == 'D',
    {
        OrdStatus { val: 'D' }
    }
}

} // verus!
