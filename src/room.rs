//! Rooms: a set of members sharing one reducer.
use vstd::prelude::*;
use std::collections::HashSet;

verus! {

/// Whether a room is open to everyone. The engine records it and does not
/// gate joins on it.
#[derive(Debug, Clone)]
pub enum RoomStatus {
    /// Open to all clients.
    Public,
    /// Meant for the owner and invited clients, with a secret.
    Private(String),
}

/// A room: its id, its owner, its members and the reducer that owns its state.
///
/// `applied` records, in order, the JSON text of every action result that the
/// room's reducer produced and the room was told of.
pub struct Room<R> {
    pub id: u64,
    pub owner_id: u64,
    pub status: RoomStatus,
    pub client_ids: HashSet<u64>,
    pub reducer: R,
    pub applied: Ghost<Seq<Seq<char>>>,
}

impl<R> Room<R> {
    /// Creates a room with the given id, owner, members, status and reducer,
    /// with no action applied yet.
    pub fn new(
        id: u64,
        owner_id: u64,
        client_ids: HashSet<u64>,
        status: RoomStatus,
        reducer: R,
    ) -> (r: Room<R>)
        ensures
            r.id == id,
            r.owner_id == owner_id,
            r.status == status,
            r.client_ids@ == client_ids@,
            r.reducer == reducer,
            r.applied@ == Seq::<Seq<char>>::empty(),
    {
        Room { id, owner_id, status, client_ids, reducer, applied: Ghost(Seq::empty()) }
    }
}

} // verus!
