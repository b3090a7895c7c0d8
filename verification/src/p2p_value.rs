//! A player's action, passed on to every other player of the room.
use vstd::prelude::*;
use crate::net_ip::NetIP;
use crate::queue::{buf_view, object_msg, typed_object_bytes, Buf};

verus! {

/// An action, held as the JSON text of its value.
#[derive(Debug)]
pub struct P2PValue {
    pub data: String,
}

/// `{"data":…}`, the action as the object of a message.
pub open spec fn value_json(data: Seq<char>) -> Seq<char> {
    "{\"data\":"@ + data + "}"@
}

impl P2PValue {
    /// An action whose value has the JSON text `data`.
    pub fn new(data: String) -> (r: Self)
        ensures
            r.data == data,
    {
        Self { data }
    }

    /// The JSON text of the action's value.
    pub fn to_string(&self) -> (r: Option<String>)
        ensures
            r == Some(self.data),
    {
        Some(self.data.clone())
    }

    /// The datagrams that pass the action on: an `ACTION-NEW` to each player, in order,
    /// carrying the action.
    pub fn send(&self, players: &Vec<NetIP>) -> (r: Vec<Buf>)
        ensures
            r@.len() == players@.len(),
            forall|i: int|
                0 <= i < r@.len() ==> buf_view(#[trigger] r@[i]) == (
                    players@[i].ip@,
                    players@[i].port,
                    typed_object_bytes("ACTION-NEW"@, value_json(self.data@)),
                ),
    {
        let mut r: Vec<Buf> = Vec::new();
        let mut j: usize = 0;
        while j < players.len()
            invariant
                j <= players@.len(),
                r@.len() == j,
                forall|i: int|
                    0 <= i < j ==> buf_view(#[trigger] r@[i]) == (
                        players@[i].ip@,
                        players@[i].port,
                        typed_object_bytes("ACTION-NEW"@, value_json(self.data@)),
                    ),
            decreases players@.len() - j,
        {
            let mut object = String::from_str("{\"data\":");
            object.append(self.data.as_str());
            object.append("}");
            assert(object@ =~= value_json(self.data@));
            let i = &players[j];
            let msg = object_msg(i.ip.clone(), i.port, String::from_str("ACTION-NEW"), object);
            r.push(msg.to_buf());
            j = j + 1;
        }
        r
    }
}

} // verus!
