//! The Discord end point that messages are posted to.
use vstd::prelude::*;

verus! {

/// A Discord webhook, known by its address.
pub struct Webhook {
    addr: String,
}

impl View for Webhook {
    type V = Seq<char>;

    /// The webhook's address.
    closed spec fn view(&self) -> Seq<char> {
        self.addr@
    }
}

impl Clone for Webhook {
    fn clone(&self) -> (r: Self)
        ensures
            r@ == self@,
    {
        Webhook { addr: self.addr.clone() }
    }
}

impl Webhook {
    /// A webhook at the address `url`.
    pub fn new(url: String) -> (w: Webhook)
        ensures
            w@ == url@,
    {
        Webhook { addr: url }
    }

    /// The webhook's address.
    pub fn get_addr(self) -> (r: String)
        ensures
            r@ == self@,
    {
        self.addr
    }
}

} // verus!
