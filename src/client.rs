//! A participant connected to the engine.
use vstd::prelude::*;

verus! {

/// A client is a participant that may be in at most one room.
///
/// `room_id` is present exactly when the client is a member of that room;
/// `label` and `token` are opaque to the engine and echoed unchanged.
pub struct Client {
    pub id: u64,
    pub room_id: Option<u64>,
    pub label: String,
    pub token: String,
}

impl Client {
    /// Creates a client with the given id, room, label and token.
    pub fn new(id: u64, room_id: Option<u64>, label: String, token: String) -> (r: Client)
        ensures
            r.id == id,
            r.room_id == room_id,
            r.label@ == label@,
            r.token@ == token@,
    {
        Client { id, room_id, label, token }
    }
}

} // verus!
