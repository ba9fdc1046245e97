//! The façade over the engine for one kind of transport: it gives each new
//! connection a client id, hands its messages to the engine, and tears it
//! down when the connection ends.
use vstd::prelude::*;
use crate::broadcaster::{
    announced_actions, audience, consistent, delivers, empty_view, handled, new_rooms_cloned,
    with_applied, with_client, with_reducer, without_client, Broadcaster, BroadcasterView,
    Delivery,
};
use crate::response::ResponseView;
use crate::client::Client;
use crate::dispatcher::{action_text, ActionResponse, Dispatchable};
use crate::message::JointMessage;

verus! {

/// How many ids a connection may draw before it is refused. Two live clients
/// share an id with negligible probability, so one draw nearly always does.
pub const ID_DRAWS: u32 = 16;

/// Relies on `rand::random::<u64>`: a random 64-bit integer. Nothing is
/// promised of its value.
#[verifier::external_body]
fn random_client_id() -> u64 {
    rand::random::<u64>()
}

/// The engine behind one kind of transport. `S` is the connection a client is
/// reached through; `R` is the reducer.
pub struct AbstractJoint<R, S> {
    broadcaster: Broadcaster<S, R>,
}

impl<R: Dispatchable, S> AbstractJoint<R, S> {
    /// The engine inside.
    pub closed spec fn engine(&self) -> BroadcasterView<R> {
        self.broadcaster@
    }

    /// The connection of each client that has one.
    pub closed spec fn sinks(&self) -> Map<u64, S> {
        self.broadcaster.sinks()
    }

    /// The template reducer that new rooms are cloned from.
    pub closed spec fn template(&self) -> R {
        self.broadcaster.template()
    }

    /// The registries of a well-formed joint keep the invariants of
    /// [`consistent`].
    pub proof fn lemma_wf_consistent(&self)
        requires
            self.wf(),
        ensures
            consistent(self.engine()),
    {
        self.broadcaster.lemma_wf_consistent();
    }

    /// The engine's registries agree with each other.
    pub closed spec fn wf(&self) -> bool {
        self.broadcaster.wf()
    }

    /// A joint with no client and no room, whose rooms start from clones of
    /// `default_reducer`.
    pub fn new(default_reducer: R) -> (r: Self)
        ensures
            r.wf(),
            r.engine() == empty_view::<R>(),
            r.template() == default_reducer,
    {
        AbstractJoint { broadcaster: Broadcaster::new(default_reducer) }
    }

    /// Registers a new connection reached through `sink`, under a random id
    /// that no registered client has, and returns that id. Where every draw
    /// hits a registered id, the connection is refused and nothing changes.
    pub fn connect(&mut self, sink: S) -> (r: Option<u64>)
        requires
            old(self).wf(),
        ensures
            r matches Some(id) ==> final(self).sinks() == old(self).sinks().insert(id, sink),
            r is None ==> final(self).sinks() == old(self).sinks(),
            final(self).wf(),
            final(self).template() == old(self).template(),
            match r {
                Some(id) => !old(self).engine().clients.contains_key(id) && final(self).engine()
                    == with_client(old(self).engine(), id),
                None => final(self).engine() == old(self).engine(),
            },
    {
        let mut draws: u32 = 0;
        while draws < ID_DRAWS
            invariant
                self.wf(),
                self.engine() == old(self).engine(),
                self.template() == old(self).template(),
                self.sinks() == old(self).sinks(),
            decreases ID_DRAWS - draws,
        {
            let id = random_client_id();
            if !self.broadcaster.has_client(id) {
                let client = Client::new(id, None, String::new(), String::new());
                self.broadcaster.add_client_connection(client, sink);
                return Some(id);
            }
            draws = draws + 1;
        }
        None
    }

    /// Handles message `event` from client `client_id` and says who receives
    /// what (see [`Broadcaster::handle_message`]).
    pub fn handle(&mut self, client_id: u64, event: JointMessage) -> (ds: Vec<Delivery>)
        requires
            old(self).wf(),
        ensures
            final(self).sinks() == old(self).sinks(),
            final(self).wf(),
            final(self).template() == old(self).template(),
            handled(old(self).engine(), final(self).engine(), client_id, event.message@, ds@),
            consistent(final(self).engine()),
            new_rooms_cloned(old(self).template(), old(self).engine(), final(self).engine()),
            forall|r: u64|
                r < old(self).engine().rooms.len() ==> #[trigger] final(self).engine().rooms[r as int].applied
                    == old(self).engine().rooms[r as int].applied + announced_actions(ds@, r),
    {
        self.broadcaster.handle_message(client_id, event)
    }

    /// Tears down the connection of client `client_id` (see
    /// [`Broadcaster::disconnect`]).
    pub fn disconnect(&mut self, client_id: u64) -> (ds: Vec<Delivery>)
        requires
            old(self).wf(),
        ensures
            old(self).engine().clients.contains_key(client_id) ==> final(self).sinks() == old(self).sinks().remove(client_id),
            !old(self).engine().clients.contains_key(client_id) ==> final(self).sinks() == old(self).sinks(),
            final(self).wf(),
            final(self).template() == old(self).template(),
            old(self).engine().clients.contains_key(client_id) ==> final(self).engine()
                == without_client(old(self).engine(), client_id),
            !old(self).engine().clients.contains_key(client_id) ==> final(self).engine() == old(
                self,
            ).engine(),
            old(self).engine().clients.contains_key(client_id) && old(self).engine().clients[client_id] is Some
                ==> {
                let r = old(self).engine().clients[client_id]->0;
                &&& ds@.len() == 1
                &&& delivers(
                    ds@[0],
                    Some(r),
                    audience(final(self).engine(), r),
                    ResponseView::RoomLeft(client_id),
                )
            },
            !(old(self).engine().clients.contains_key(client_id) && old(self).engine().clients[client_id] is Some)
                ==> ds@.len() == 0,
    {
        self.broadcaster.disconnect(client_id)
    }

    /// The connection of client `client_id`, if it has one.
    pub fn connection(&self, client_id: u64) -> (r: Option<&S>)
        requires
            self.wf(),
        ensures
            r is Some <==> self.engine().connected.contains(client_id),
            r matches Some(s) ==> *s == self.sinks()[client_id],
    {
        self.broadcaster.connection(client_id)
    }

    /// Applies `action`, the JSON text of an action, on behalf of client
    /// `client_id` outside any inbound message (see
    /// [`Broadcaster::extern_dispatch`]).
    pub fn dispatch(&mut self, client_id: u64, action: &str) -> (r: Result<
        ActionResponse<R::State>,
        String,
    >)
        requires
            old(self).wf(),
        ensures
            final(self).sinks() == old(self).sinks(),
            final(self).wf(),
            final(self).template() == old(self).template(),
            !old(self).engine().clients.contains_key(client_id) ==> r is Err && final(self).engine()
                == old(self).engine(),
            old(self).engine().clients.contains_key(client_id) && old(self).engine().clients[client_id] is None
                ==> r is Err && final(self).engine() == old(self).engine(),
            old(self).engine().clients.contains_key(client_id) && old(self).engine().clients[client_id] is Some
                ==> {
                let room = old(self).engine().clients[client_id]->0 as int;
                let reducer = final(self).engine().rooms[room].reducer;
                match r {
                    Ok(a) => exists|state: Seq<char>|
                        final(self).engine() == with_applied(
                            old(self).engine(),
                            room,
                            reducer,
                            action_text(a.status@, state, a.author, a.data@),
                        ),
                    Err(_) => final(self).engine() == old(self).engine() || final(self).engine()
                        == with_reducer(old(self).engine(), room, reducer),
                }
            },
    {
        self.broadcaster.extern_dispatch(client_id, action)
    }

    /// The engine inside, for reading.
    pub fn get_broadcaster(&self) -> (r: &Broadcaster<S, R>)
        ensures
            r@ == self.engine(),
    {
        &self.broadcaster
    }
}

} // verus!
