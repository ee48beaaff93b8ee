//! The message envelope handed between the session engine and the
//! transport: an encoded wire message owned by whichever side holds it.

use vstd::prelude::*;

verus! {

/// An encoded message in transit between components.
pub struct ApplicationMessage {
    message: String,
    bmsg: Vec<u8>,
}

impl ApplicationMessage {
    /// The encoded wire text this envelope carries.
    pub closed spec fn spec_message(&self) -> Seq<char> {
        self.message@
    }

    /// The byte payload this envelope carries.
    pub closed spec fn spec_bytes(&self) -> Seq<u8> {
        self.bmsg@
    }

    pub fn new(message: String) -> (m: ApplicationMessage)
        ensures
            m.spec_message() == message@,
            m.spec_bytes() == Seq::<u8>::empty(),
    {
        let m = ApplicationMessage { message, bmsg: Vec::new() };
        proof {
            assert(m.spec_bytes() =~= Seq::<u8>::empty());
        }
        m
    }

    pub fn get_message(&self) -> (r: &String)
        ensures
            r@ == self.spec_message(),
    {
        &self.message
    }
}

impl Clone for ApplicationMessage {
    fn clone(&self) -> (r: Self)
        ensures
            r.spec_message() == self.spec_message(),
            r.spec_bytes() == self.spec_bytes(),
    {
        ApplicationMessage { message: self.message.clone(), bmsg: self.bmsg.clone() }
    }
}

} // verus!
