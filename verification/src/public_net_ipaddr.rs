//! This host's public address, as the rendezvous server reports it.
use vstd::prelude::*;
use crate::conf::{remote_host, server_port, URL};
use crate::queue::{type_key, Msg};
use crate::text::{addr_string, addr_text};

verus! {

/// A public address.
#[derive(Debug)]
pub struct PublicNetIP {
    pub ip: String,
    pub port: u16,
}

impl Clone for PublicNetIP {
    fn clone(&self) -> (r: Self)
        ensures
            r == *self,
    {
        PublicNetIP { ip: self.ip.clone(), port: self.port }
    }
}

impl PublicNetIP {
    /// The request that asks the rendezvous server for this host's public address: an
    /// `IP-ASK` to the server.
    pub fn public_net_ip() -> (r: Msg)
        ensures
            r.ip@ == remote_host(),
            r.port == server_port(),
            r.fields() == seq![(type_key(), "IP-ASK"@)],
    {
        let server = URL::remote_addr();
        Msg::new(server.ip, server.port, String::from_str("IP-ASK"))
    }

    /// The address held in `slot`, if any.
    pub fn read(slot: &Option<PublicNetIP>) -> (r: Option<PublicNetIP>)
        ensures
            r == *slot,
    {
        match slot {
            Some(rst) => Some(Self { ip: rst.ip.clone(), port: rst.port }),
            None => None,
        }
    }

    /// The address as the text `ip:port`.
    pub fn to_string(&self) -> (r: String)
        ensures
            r@ == addr_text(self.ip@, self.port),
    {
        addr_string(self.ip.as_str(), self.port)
    }

    /// Holds the address that the server reported in `slot`.
    pub fn write(slot: &mut Option<PublicNetIP>, ip: PublicNetIP)
        ensures
            *final(slot) == Some(ip),
    {
        *slot = Some(ip);
    }
}

} // verus!
