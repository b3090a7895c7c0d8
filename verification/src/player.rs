//! The players of the room this host joined, as a plain list of addresses.
use vstd::prelude::*;
use crate::conf::{remote_host, server_port, URL};
use crate::digest::md5_digest;
use crate::json::json_object_text;
use crate::net_ip::NetIP;
use crate::queue::{buf_view, keyed_msg, type_key, Buf, Msg};
use crate::text::{addr_string, addr_text, hex_lower};
use vstd::utf8::encode_utf8;

verus! {

/// The bytes of a message of kind `t` whose second field is `k` set to `v`.
pub open spec fn keyed_bytes(t: Seq<char>, k: Seq<char>, v: Seq<char>) -> Seq<u8> {
    encode_utf8(json_object_text(seq![(type_key(), t), (k, v)]))
}

/// The addresses of a list of players.
pub open spec fn addrs(l: Seq<NetIP>) -> Seq<(Seq<char>, u16)> {
    l.map_values(|n: NetIP| n@)
}

/// A copy of a list of addresses.
pub fn copy_addrs(l: &Vec<NetIP>) -> (r: Vec<NetIP>)
    ensures
        r@ == l@,
{
    let mut r: Vec<NetIP> = Vec::new();
    let mut j: usize = 0;
    while j < l.len()
        invariant
            j <= l@.len(),
            r@ == l@.subrange(0, j as int),
        decreases l@.len() - j,
    {
        r.push(l[j].clone());
        assert(r@ =~= l@.subrange(0, j + 1));
        j = j + 1;
    }
    assert(l@.subrange(0, l@.len() as int) =~= l@);
    r
}

/// The players of the room, which stands for the list that the process keeps.
#[derive(Debug)]
pub struct RoomIP {
    pub ip_list: Vec<NetIP>,
}

impl RoomIP {
    /// A room with no players.
    pub fn new() -> (r: Self)
        ensures
            r.ip_list@ == Seq::<NetIP>::empty(),
    {
        Self { ip_list: Vec::new() }
    }

    /// The players.
    pub fn get_player(&self) -> (r: Vec<NetIP>)
        ensures
            r@ == self.ip_list@,
    {
        copy_addrs(&self.ip_list)
    }

    /// The players as texts `ip:port`, in order.
    pub fn get_player_to_string(&self) -> (r: Vec<String>)
        ensures
            r@.len() == self.ip_list@.len(),
            forall|i: int|
                0 <= i < r@.len() ==> (#[trigger] r@[i])@ == addr_text(
                    self.ip_list@[i].ip@,
                    self.ip_list@[i].port,
                ),
    {
        let mut listr: Vec<String> = Vec::new();
        let mut j: usize = 0;
        while j < self.ip_list.len()
            invariant
                j <= self.ip_list@.len(),
                listr@.len() == j,
                forall|i: int|
                    0 <= i < j ==> (#[trigger] listr@[i])@ == addr_text(
                        self.ip_list@[i].ip@,
                        self.ip_list@[i].port,
                    ),
            decreases self.ip_list@.len() - j,
        {
            let i = &self.ip_list[j];
            listr.push(addr_string(i.ip.as_str(), i.port));
            j = j + 1;
        }
        listr
    }

    /// Stores these players in place of `stored`.
    pub fn put_player(&self, stored: &mut RoomIP)
        ensures
            final(stored).ip_list@ == self.ip_list@,
    {
        stored.ip_list = copy_addrs(&self.ip_list);
    }

    /// The request to join the room `key`: a `ROOM-ASK` to the rendezvous server naming the
    /// room in its `ROOM` field.
    pub fn ask(key: String) -> (r: Buf)
        ensures
            buf_view(r) == (remote_host(), server_port(), keyed_bytes("ROOM-ASK"@, "ROOM"@, key@)),
    {
        proof {
            reveal_strlit("ROOM");
            assert("ROOM"@[0] != type_key()[0]);
        }
        let server = URL::remote_addr();
        let msg = keyed_msg(
            server.ip,
            server.port,
            String::from_str("ROOM-ASK"),
            String::from_str("ROOM"),
            key,
        );
        msg.to_buf()
    }

    /// Takes the room's players, `ip_list`, which came in `msg`: they are stored in place of
    /// `stored`, and the acknowledgement to send back is returned, carrying the MD5 digest
    /// of the message as this host encodes it.
    pub fn rsp(stored: &mut RoomIP, msg: &Msg, ip_list: Vec<NetIP>) -> (r: Buf)
        ensures
            final(stored).ip_list@ == ip_list@,
            buf_view(r) == (msg.ip@, msg.port, keyed_bytes(
                "ROOM-CHK"@,
                "MD5"@,
                hex_lower(md5_digest(encode_utf8(json_object_text(msg.fields())))),
            )),
    {
        let room = Self { ip_list };
        room.put_player(stored);
        let buf = msg.to_buf();
        Self::check(&msg.ip, msg.port, buf.get_md5())
    }

    /// The acknowledgement of the room's answer: a `ROOM-CHK` to `ip:port` carrying `md5`
    /// in its `MD5` field.
    pub fn check(ip: &String, port: u16, md5: String) -> (r: Buf)
        ensures
            buf_view(r) == (ip@, port, keyed_bytes("ROOM-CHK"@, "MD5"@, md5@)),
    {
        proof {
            reveal_strlit("MD5");
            assert("MD5"@[0] != type_key()[0]);
        }
        let msg = keyed_msg(
            ip.clone(),
            port,
            String::from_str("ROOM-CHK"),
            String::from_str("MD5"),
            md5,
        );
        msg.to_buf()
    }
}

} // verus!
