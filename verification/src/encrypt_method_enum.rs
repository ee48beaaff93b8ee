//! The encryption method of a session, as a closed set of one-character
//! wire codes.

use vstd::prelude::*;

verus! {

/// An encryption method with its canonical wire code.
pub struct EncryptMethod {
    val: char,
}

impl EncryptMethod {
    /// The wire code of this method.
    pub closed spec fn spec_value(&self) -> char {
        self.val
    }

    pub fn value(&self) -> (c: char)
        ensures
            c == self.spec_value(),
    {
        self.val
    }

    pub fn none() -> (s: EncryptMethod)
        ensures
            s.spec_value() == '0',
    {
        EncryptMethod { val: '0' }
    }

    pub fn pkcs() -> (s: EncryptMethod)
        ensures
            s.spec_value() == '1',
    {
        EncryptMethod { val: '1' }
    }

    pub fn des() -> (s: EncryptMethod)
        ensures
            s.spec_value() == '2',
    {
        EncryptMethod { val: '2' }
    }

    pub fn pkcs_des() -> (s: EncryptMethod)
        ensures
            s.spec_value() == '3',
    {
        EncryptMethod { val: '3' }
    }

    pub fn pgp_des() -> (s: EncryptMethod)
        ensures
            s.spec_value() == '4',
    {
        EncryptMethod { val: '4' }
    }

    pub fn pgp_des_md5() -> (s: EncryptMethod)
        ensures
            s.spec_value() == '5',
    {
        EncryptMethod { val: '5' }
    }

    pub fn pem_des_md5() -> (s: EncryptMethod)
        ensures
            s.spec_value() == '6',
    {
        EncryptMethod { val: '6' }
    }
}

} // verus!
