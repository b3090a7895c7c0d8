//! What is done with a received message, by its kind.
use vstd::prelude::*;
use crate::queue::{field_value, type_key, Msg};

verus! {

/// The handling that a received message calls for.
#[derive(Clone, Copy, Debug, PartialEq, Eq, Structural)]
pub enum Route {
    /// `ROOM-RSP`: the room's players; take them and acknowledge.
    RoomRsp,
    /// `P2P-ASK`: a peer's probe; answer it.
    P2pAsk,
    /// `P2P-RSP`: a peer's answer; record it.
    P2pRsp,
    /// `ACTION-NEW`: a player's action; queue it.
    ActionNew,
    /// Anything else, or no kind at all: nothing to do.
    Ignore,
}

/// The handling of a message whose kind is `t`.
pub open spec fn route_of(t: Option<Seq<char>>) -> Route {
    match t {
        Some(t) => if t == "ROOM-RSP"@ {
            Route::RoomRsp
        } else if t == "P2P-ASK"@ {
            Route::P2pAsk
        } else if t == "P2P-RSP"@ {
            Route::P2pRsp
        } else if t == "ACTION-NEW"@ {
            Route::ActionNew
        } else {
            Route::Ignore
        },
        None => Route::Ignore,
    }
}

/// The receiving task.
pub struct Task;

impl Task {
    /// The handling that a received message calls for, by its `type` field.
    pub fn route(msg: &Msg) -> (r: Route)
        ensures
            r == route_of(field_value(msg.fields(), type_key())),
    {
        match msg.get_type() {
            Some(tp) => {
                if tp == String::from_str("ROOM-RSP") {
                    Route::RoomRsp
                } else if tp == String::from_str("P2P-ASK") {
                    Route::P2pAsk
                } else if tp == String::from_str("P2P-RSP") {
                    Route::P2pRsp
                } else if tp == String::from_str("ACTION-NEW") {
                    Route::ActionNew
                } else {
                    Route::Ignore
                }
            },
            None => Route::Ignore,
        }
    }
}

} // verus!
