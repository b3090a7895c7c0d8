//! The addresses of the rendezvous server and of the local socket.
use vstd::prelude::*;
use crate::net_ip::NetIP;
use crate::text::{addr_string, addr_text};

verus! {

/// Where the rendezvous server listens and where the local socket binds.
pub struct URL;

/// The IP text of the rendezvous server.
pub open spec fn remote_host() -> Seq<char> {
    seq!['1', '1', '8', '.', '1', '9', '3', '.', '4', '6', '.', '1', '2', '4']
}

/// The IP text that the local socket binds to: every interface.
pub open spec fn local_host() -> Seq<char> {
    seq!['0', '.', '0', '.', '0', '.', '0']
}

/// The UDP port of the rendezvous server, which the local socket uses too.
pub open spec fn server_port() -> u16 {
    5016
}

impl URL {
    /// The address of the rendezvous server, `118.193.46.124:5016`.
    pub fn remote_server() -> (s: String)
        ensures
            s@ == addr_text(remote_host(), server_port()),
    {
        proof {
            reveal_strlit("118.193.46.124");
        }
        addr_string("118.193.46.124", 5016)
    }

    /// The address the local socket binds to, `0.0.0.0:5016`.
    pub fn local_server() -> (s: String)
        ensures
            s@ == addr_text(local_host(), server_port()),
    {
        proof {
            reveal_strlit("0.0.0.0");
        }
        addr_string("0.0.0.0", 5016)
    }

    /// The rendezvous server as an address value: the host and port that
    /// `remote_server` joins with a colon.
    pub fn remote_addr() -> (r: NetIP)
        ensures
            r@ == (remote_host(), server_port()),
            addr_text(r.ip@, r.port) == URL::remote_server_text(),
    {
        proof {
            reveal_strlit("118.193.46.124");
        }
        NetIP::new(String::from_str("118.193.46.124"), 5016)
    }

    /// The text that `remote_server` returns.
    pub open spec fn remote_server_text() -> Seq<char> {
        addr_text(remote_host(), server_port())
    }
}

} // verus!
