//! The public address of a peer: an IP text and a UDP port.
use vstd::prelude::*;
use vstd::std_specs::cmp::PartialEqSpecImpl;

verus! {

/// A peer's public network address.
#[derive(Debug, Hash)]
pub struct NetIP {
    pub ip: String,
    pub port: u16,
}

impl View for NetIP {
    type V = (Seq<char>, u16);

    open spec fn view(&self) -> (Seq<char>, u16) {
        (self.ip@, self.port)
    }
}

impl Clone for NetIP {
    fn clone(&self) -> (r: Self)
        ensures
            r == *self,
    {
        NetIP { ip: self.ip.clone(), port: self.port }
    }
}

impl PartialEq for NetIP {
    fn eq(&self, other: &Self) -> (r: bool) {
        self.ip == other.ip && self.port == other.port
    }
}

impl Eq for NetIP {}

impl PartialEqSpecImpl for NetIP {
    open spec fn obeys_eq_spec() -> bool {
        true
    }

    open spec fn eq_spec(&self, other: &Self) -> bool {
        self@ == other@
    }
}

impl NetIP {
    /// Builds an address from its IP text and port.
    pub fn new(ip: String, port: u16) -> (r: Self)
        ensures
            r.ip == ip,
            r.port == port,
    {
        Self { ip, port }
    }
}

} // verus!
