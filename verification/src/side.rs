//! The side of an order, as a closed set of one-character wire codes.

use vstd::prelude::*;

verus! {

/// An order side with its canonical wire code.
pub struct Side {
    val: char,
}

impl Side {
    /// The wire code of this side.
    pub closed spec fn spec_value(&self) -> char {
        self.val
    }

    pub fn value(&self) -> (c: char)
        ensures
            c == self.spec_value(),
    {
        self.val
    }

    pub fn buy() -> (s: Side)
        ensures
            s.spec_value() == '1',
    {
        Side { val: '1' }
    }

    pub fn sell() -> (s: Side)
        ensures
            s.spec_value() == '2',
    {
        Side { val: '2' }
    }

    pub fn buy_minus() -> (s: Side)
        ensures
            s.spec_value() == '3',
    {
        Side { val: '3' }
    }

    pub fn sell_plus() -> (s: Side)
        ensures
            s.spec_value() == '4',
    {
        Side { val: '4' }
    }

    pub fn sell_short() -> (s: Side)
        ensures
            s.spec_value() == '5',
    {
        Side { val: '5' }
    }

    pub fn sell_short_exempt() -> (s: Side)
        ensures
            s.spec_value() == '6',
    {
        Side { val: '6' }
    }

    pub fn undisclosed() -> (s: Side)
        ensures
            s.spec_value() == '7',
    {
        Side { val: '7' }
    }

    pub fn cross() -> (s: Side)
        ensures
            s.spec_value() == '8',
    {
        Side { val: '8' }
    }

    pub fn cross_short() -> (s: Side)
        ensures
            s.spec_value() == '9',
    {
        Side { val: '9' }
    }
}

} // verus!
