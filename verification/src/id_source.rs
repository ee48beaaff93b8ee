//! The authority a security identifier comes from, as a closed set of
//! one-character wire codes.

use vstd::prelude::*;

verus! {

/// A security-identifier source with its canonical wire code.
pub struct IdSource {
    val: char,
}

impl IdSource {
    /// The wire code of this source.
    pub closed spec fn spec_value(&self) -> char {
        self.val
    }

    pub fn value(&self) -> (c: char)
        ensures
            c == self.spec_value(),
    {
        self.val
    }

    pub fn cusip() -> (s: IdSource)
        ensures
            s.spec_value() == '1',
    {
        IdSource { val: '1' }
    }

    pub fn sedol() -> (s: IdSource)
        ensures
            s.spec_value() == '2',
    {
        IdSource { val: '2' }
    }

    pub fn quik() -> (s: IdSource)
        ensures
            s.spec_value() == '3',
    {
        IdSource { val: '3' }
    }

    pub fn isin() -> (s: IdSource)
        ensures
            s.spec_value() == '4',
    {
        IdSource { val: '4' }
    }

    pub fn ric() -> (s: IdSource)
        ensures
            s.spec_value() == '5',
    {
        IdSource { val: '5' }
    }

    pub fn iso_currency_code() -> (s: IdSource)
        ensures
            s.spec_value() == '6',
    {
        IdSource { val: '6' }
    }

    pub fn iso_country_code() -> (s: IdSource)
        ensures
            s.spec_value() == '7',
    {
        IdSource { val: '7' }
    }

    pub fn exchange_symbol() -> (s: IdSource)
        ensures
            s.spec_value() == '8',
    {
        IdSource { val: '8' }
    }

    pub fn cta() -> (s: IdSource)
        ensures
            s.spec_value() == '9',
    {
        IdSource { val: '9' }
    }
}

} // verus!
