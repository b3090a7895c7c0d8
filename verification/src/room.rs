//! The room this host joined: its own address as the room sees it, the other players, and
//! the key of the room.
use vstd::prelude::*;
use crate::conf::{remote_host, server_port, URL};
use crate::digest::md5_digest;
use crate::net_ip::NetIP;
use crate::p2p_ip_map::Sign;
use crate::p2p_link::{Cursor, Data};
use crate::player::{copy_addrs, keyed_bytes};
use crate::queue::{buf_view, keyed_msg, type_key, Buf};
use crate::text::hex_lower;

verus! {

/// The table after every listed player is recorded as not probed yet, in order.
pub open spec fn readied(m: Map<(Seq<char>, u16), Sign>, l: Seq<NetIP>) -> Map<
    (Seq<char>, u16),
    Sign,
>
    decreases l.len(),
{
    if l.len() == 0 {
        m
    } else {
        readied(m, l.drop_last()).insert(l.last()@, Sign::Ready)
    }
}

/// The room, which stands for the one that the process keeps.
#[derive(Debug)]
pub struct RoomIP {
    pub myself: Option<NetIP>,
    pub ip_list: Vec<NetIP>,
}

impl RoomIP {
    /// A room with no players, this host's address unknown.
    pub fn new() -> (r: Self)
        ensures
            r.myself is None,
            r.ip_list@ == Seq::<NetIP>::empty(),
    {
        Self { myself: None, ip_list: Vec::new() }
    }

    /// This host's address as the room sees it.
    pub fn get_myself(&self) -> (r: Option<NetIP>)
        ensures
            r == self.myself,
    {
        match &self.myself {
            Some(m) => Some(m.clone()),
            None => None,
        }
    }

    /// A copy of the room.
    pub fn get_player(&self) -> (r: RoomIP)
        ensures
            r.myself == self.myself,
            r.ip_list@ == self.ip_list@,
    {
        RoomIP { myself: self.get_myself(), ip_list: copy_addrs(&self.ip_list) }
    }

    /// Stores this room in place of `stored`.
    pub fn save(&self, stored: &mut RoomIP)
        ensures
            final(stored).myself == self.myself,
            final(stored).ip_list@ == self.ip_list@,
    {
        *stored = self.get_player();
    }

    /// Holds the key of the room in `slot`.
    pub fn key_set(slot: &mut Option<String>, key: String)
        ensures
            *final(slot) == Some(key),
    {
        *slot = Some(key);
    }

    /// The key of the room held in `slot`, if any.
    pub fn key_get(slot: &Option<String>) -> (r: Option<String>)
        ensures
            r == *slot,
    {
        match slot {
            Some(k) => Some(k.clone()),
            None => None,
        }
    }

    /// The request to join the room `key`: a `ROOM-ASK` to the rendezvous server naming the
    /// room in its `ROOM` field.
    pub fn ask(key: String) -> (r: Buf)
        ensures
            buf_view(r) == (remote_host(), server_port(), keyed_bytes("ROOM-ASK"@, "ROOM"@, key@)),
    {
        proof {
            reveal_strlit("ROOM");
            assert("ROOM"@[0] != type_key()[0]);
        }
        let server = URL::remote_addr();
        let msg = keyed_msg(
            server.ip,
            server.port,
            String::from_str("ROOM-ASK"),
            String::from_str("ROOM"),
            key,
        );
        msg.to_buf()
    }

    /// Takes the room that the server sent in the datagram `buf`, and answers it: each of its
    /// players is recorded in the table as not probed yet, the room is stored in place of
    /// `stored`, and the acknowledgement of `buf` is returned, to be sent.
    pub fn rsp(stored: &mut RoomIP, cursor: &mut Cursor, buf: &Buf, room: RoomIP) -> (r: Buf)
        ensures
            final(cursor)@ == readied(old(cursor)@, room.ip_list@),
            final(stored).myself == room.myself,
            final(stored).ip_list@ == room.ip_list@,
            buf_view(r) == (buf.ip@, buf.port, keyed_bytes(
                "ROOM-CHK"@,
                "MD5"@,
                hex_lower(md5_digest(buf.bytes@)),
            )),
    {
        let ghost m0 = cursor@;
        let mut j: usize = 0;
        while j < room.ip_list.len()
            invariant
                j <= room.ip_list@.len(),
                cursor@ == readied(m0, room.ip_list@.subrange(0, j as int)),
            decreases room.ip_list@.len() - j,
        {
            let data = Data::ready(room.ip_list[j].clone());
            cursor.replace_one(data);
            proof {
                let p = room.ip_list@.subrange(0, j + 1);
                assert(p.drop_last() =~= room.ip_list@.subrange(0, j as int));
            }
            j = j + 1;
        }
        proof {
            assert(room.ip_list@.subrange(0, room.ip_list@.len() as int) =~= room.ip_list@);
        }
        room.save(stored);
        Self::check(buf)
    }

    /// The acknowledgement of a received datagram: a `ROOM-CHK` back to its sender carrying
    /// the MD5 digest of its bytes in the `MD5` field.
    pub fn check(buf: &Buf) -> (r: Buf)
        ensures
            buf_view(r) == (buf.ip@, buf.port, keyed_bytes(
                "ROOM-CHK"@,
                "MD5"@,
                hex_lower(md5_digest(buf.bytes@)),
            )),
    {
        proof {
            reveal_strlit("MD5");
            assert("MD5"@[0] != type_key()[0]);
        }
        let md5 = buf.get_md5();
        let msg = keyed_msg(
            buf.ip.clone(),
            buf.port,
            String::from_str("ROOM-CHK"),
            String::from_str("MD5"),
            md5,
        );
        msg.to_buf()
    }
}

/// After taking a room, each of its players is in the table as not probed yet.
pub proof fn lemma_room_players_ready(m: Map<(Seq<char>, u16), Sign>, l: Seq<NetIP>, i: int)
    requires
        0 <= i < l.len(),
    ensures
        readied(m, l).contains_key(l[i]@),
        readied(m, l)[l[i]@] == Sign::Ready,
    decreases l.len(),
{
    if i < l.len() - 1 {
        lemma_room_players_ready(m, l.drop_last(), i);
        assert(l.drop_last()[i] == l[i]);
    }
}

} // verus!
