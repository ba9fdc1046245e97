//! The engine: registries of clients, connections and rooms, the message
//! state machine, and who receives each response.
use vstd::prelude::*;
use std::collections::{HashMap, HashSet};
use crate::client::Client;
use vstd::pervasive::cloned;
use crate::json::{decimal, decimal_string};
use crate::response::{ClientResponse, Response, ResponseView, RoomResponse};
use crate::room::{Room, RoomStatus};
use crate::dispatcher::{action_text, ActionResponse, Dispatchable};
use crate::message::{JointMessage, JointMessageMethod, MethodView};
use crate::utils::types::{Broadcastable, Receivable};

verus! {

broadcast use vstd::std_specs::hash::group_hash_axioms;

/// The mathematical value of a room.
pub struct RoomView<R> {
    pub owner: u64,
    pub status: RoomStatus,
    pub members: Set<u64>,
    pub reducer: R,
    /// The JSON text of every action result the room's reducer produced, in order.
    pub applied: Seq<Seq<char>>,
}

/// The mathematical value of the engine.
pub struct BroadcasterView<R> {
    /// Each registered client, with the room it is in.
    pub clients: Map<u64, Option<u64>>,
    /// The clients that have a connection to send to.
    pub connected: Set<u64>,
    /// The rooms; a room's id is its position.
    pub rooms: Seq<RoomView<R>>,
}

/// The invariants of the registries.
///
/// A client's room is `r` exactly when the client is a member of room `r`;
/// so no client is in two rooms. Every connection belongs to a registered
/// client. Every room id fits in a `u64`.
pub open spec fn consistent<R>(v: BroadcasterView<R>) -> bool {
    &&& forall|c: u64|
        #![trigger v.clients[c]]
        v.clients.contains_key(c) && v.clients[c] is Some ==> {
            let r = v.clients[c]->0;
            &&& r < v.rooms.len()
            &&& v.rooms[r as int].members.contains(c)
        }
    &&& forall|r: int, c: u64|
        #![trigger v.rooms[r].members.contains(c)]
        0 <= r < v.rooms.len() && v.rooms[r].members.contains(c) ==> v.clients.contains_key(c)
            && v.clients[c] == Some(r as u64)
    &&& v.connected.subset_of(v.clients.dom())
    &&& v.rooms.len() <= u64::MAX
}

/// Under the invariants, client `c` is in room `r` exactly when it is a
/// member of room `r`.
pub proof fn lemma_room_membership<R>(v: BroadcasterView<R>, c: u64, r: u64)
    requires
        consistent(v),
        v.clients.contains_key(c),
    ensures
        v.clients[c] == Some(r) <==> (r < v.rooms.len() && v.rooms[r as int].members.contains(c)),
{
    if r < v.rooms.len() && v.rooms[r as int].members.contains(c) {
        assert(v.clients[c] == Some(r));
    }
}

/// Under the invariants, a client is a member of at most one room.
pub proof fn lemma_one_room<R>(v: BroadcasterView<R>, c: u64, r1: int, r2: int)
    requires
        consistent(v),
        0 <= r1 < v.rooms.len(),
        0 <= r2 < v.rooms.len(),
        v.rooms[r1].members.contains(c),
        v.rooms[r2].members.contains(c),
    ensures
        r1 == r2,
{
}

/// Under the invariants, every client with a connection is registered.
pub proof fn lemma_connections_registered<R>(v: BroadcasterView<R>, c: u64)
    requires
        consistent(v),
        v.connected.contains(c),
    ensures
        v.clients.contains_key(c),
{
}

/// The engine with no client and no room.
pub open spec fn empty_view<R>() -> BroadcasterView<R> {
    BroadcasterView { clients: Map::empty(), connected: Set::empty(), rooms: Seq::empty() }
}

/// `v` with client `c` registered, connected and in no room.
pub open spec fn with_client<R>(v: BroadcasterView<R>, c: u64) -> BroadcasterView<R> {
    BroadcasterView { clients: v.clients.insert(c, None), connected: v.connected.insert(c), rooms: v.rooms }
}

/// `v` with the members of room `r` replaced.
pub open spec fn with_members<R>(v: BroadcasterView<R>, r: int, members: Set<u64>) -> BroadcasterView<R> {
    BroadcasterView {
        clients: v.clients,
        connected: v.connected,
        rooms: v.rooms.update(
            r,
            RoomView {
                owner: v.rooms[r].owner,
                status: v.rooms[r].status,
                members,
                reducer: v.rooms[r].reducer,
                applied: v.rooms[r].applied,
            },
        ),
    }
}

/// `v` with client `c` out of its room (if any) and out of both registries.
pub open spec fn without_client<R>(v: BroadcasterView<R>, c: u64) -> BroadcasterView<R> {
    let w = match v.clients[c] {
        Some(r) => with_members(v, r as int, v.rooms[r as int].members.remove(c)),
        None => v,
    };
    BroadcasterView { clients: w.clients.remove(c), connected: w.connected.remove(c), rooms: w.rooms }
}

/// `v` with client `c` the owner and only member of a new public room, whose
/// id is the number of rooms before, and whose reducer is `reducer`.
pub open spec fn with_new_room<R>(v: BroadcasterView<R>, c: u64, reducer: R) -> BroadcasterView<R> {
    BroadcasterView {
        clients: v.clients.insert(c, Some(v.rooms.len() as u64)),
        connected: v.connected,
        rooms: v.rooms.push(
            RoomView {
                owner: c,
                status: RoomStatus::Public,
                members: set![c],
                reducer,
                applied: Seq::empty(),
            },
        ),
    }
}

/// Every room of `post` that `pre` did not have starts from a clone of
/// `template`.
pub open spec fn new_rooms_cloned<R: Clone>(
    template: R,
    pre: BroadcasterView<R>,
    post: BroadcasterView<R>,
) -> bool {
    forall|i: int|
        pre.rooms.len() <= i < post.rooms.len() ==> #[trigger] cloned(template, post.rooms[i].reducer)
}

/// `v` with client `c` a member of room `r`.
pub open spec fn with_joined<R>(v: BroadcasterView<R>, c: u64, r: u64) -> BroadcasterView<R> {
    let w = with_members(v, r as int, v.rooms[r as int].members.insert(c));
    BroadcasterView { clients: w.clients.insert(c, Some(r)), connected: w.connected, rooms: w.rooms }
}

/// `v` with client `c` out of room `r` and in no room.
pub open spec fn with_left<R>(v: BroadcasterView<R>, c: u64, r: u64) -> BroadcasterView<R> {
    let w = with_members(v, r as int, v.rooms[r as int].members.remove(c));
    BroadcasterView { clients: w.clients.insert(c, None), connected: w.connected, rooms: w.rooms }
}

/// `res` is the reply `response` to client `c` alone.
pub open spec fn replies_to_client(
    res: Result<RoomResponse, ClientResponse>,
    c: u64,
    response: ResponseView,
) -> bool {
    res matches Err(e) && e.client == c && e.response@ == response
}

/// `res` is the announcement `response` to room `r`.
pub open spec fn announces_to_room(
    res: Result<RoomResponse, ClientResponse>,
    r: u64,
    response: ResponseView,
) -> bool {
    res matches Ok(a) && a.room == r && a.response@ == response
}

/// The outcome of `Create` from client `c`: refused with `NotFound` for an
/// unregistered client, with `ClientError` for a client in a room, with
/// `ServerError` when no room id is left; otherwise a new room with `c` as
/// owner and only member, announced as `RoomCreated` to that room.
pub open spec fn create_outcome<R>(
    pre: BroadcasterView<R>,
    post: BroadcasterView<R>,
    c: u64,
    res: Result<RoomResponse, ClientResponse>,
) -> bool {
    if !pre.clients.contains_key(c) {
        post == pre && replies_to_client(res, c, ResponseView::NotFound("Client not found"@))
    } else if pre.clients[c] is Some {
        post == pre && replies_to_client(
            res,
            c,
            ResponseView::ClientError("Leave current room before creating new"@),
        )
    } else if pre.rooms.len() == u64::MAX {
        post == pre && replies_to_client(res, c, ResponseView::ServerError("No room id left"@))
    } else {
        let r = pre.rooms.len() as u64;
        &&& post == with_new_room(pre, c, post.rooms[r as int].reducer)
        &&& announces_to_room(res, r, ResponseView::RoomCreated(r))
    }
}

/// The outcome of `Join(r)` from client `c`: refused with `NotFound` for an
/// unregistered client or an unknown room and with `ClientError` for a client
/// in a room; otherwise `c` becomes a member of `r`, announced as `RoomJoined`.
pub open spec fn join_outcome<R>(
    pre: BroadcasterView<R>,
    post: BroadcasterView<R>,
    c: u64,
    r: u64,
    res: Result<RoomResponse, ClientResponse>,
) -> bool {
    if !pre.clients.contains_key(c) {
        post == pre && replies_to_client(res, c, ResponseView::NotFound("Client not found"@))
    } else if pre.clients[c] is Some {
        post == pre && replies_to_client(
            res,
            c,
            ResponseView::ClientError("Leave current room before joining new"@),
        )
    } else if r >= pre.rooms.len() {
        post == pre && replies_to_client(res, c, ResponseView::NotFound("Room not found"@))
    } else {
        post == with_joined(pre, c, r) && announces_to_room(res, r, ResponseView::RoomJoined(c))
    }
}

/// The outcome of `Leave` from client `c`: refused with `NotFound` for an
/// unregistered client or a client in no room; otherwise `c` leaves its room,
/// announced as `RoomLeft` to that room.
pub open spec fn leave_outcome<R>(
    pre: BroadcasterView<R>,
    post: BroadcasterView<R>,
    c: u64,
    res: Result<RoomResponse, ClientResponse>,
) -> bool {
    if !pre.clients.contains_key(c) {
        post == pre && replies_to_client(res, c, ResponseView::NotFound("Client not found"@))
    } else if pre.clients[c] is None {
        post == pre && replies_to_client(res, c, ResponseView::NotFound("Client not in room"@))
    } else {
        let r = pre.clients[c]->0;
        post == with_left(pre, c, r) && announces_to_room(res, r, ResponseView::RoomLeft(c))
    }
}

/// `v` with the reducer of room `r` replaced.
pub open spec fn with_reducer<R>(v: BroadcasterView<R>, r: int, reducer: R) -> BroadcasterView<R> {
    BroadcasterView {
        clients: v.clients,
        connected: v.connected,
        rooms: v.rooms.update(
            r,
            RoomView {
                owner: v.rooms[r].owner,
                status: v.rooms[r].status,
                members: v.rooms[r].members,
                reducer,
                applied: v.rooms[r].applied,
            },
        ),
    }
}

/// `v` with the reducer of room `r` replaced and the action result `p`
/// appended to the room's applied results.
pub open spec fn with_applied<R>(
    v: BroadcasterView<R>,
    r: int,
    reducer: R,
    p: Seq<char>,
) -> BroadcasterView<R> {
    BroadcasterView {
        clients: v.clients,
        connected: v.connected,
        rooms: v.rooms.update(
            r,
            RoomView {
                owner: v.rooms[r].owner,
                status: v.rooms[r].status,
                members: v.rooms[r].members,
                reducer,
                applied: v.rooms[r].applied.push(p),
            },
        ),
    }
}

/// The outcome of handing an action of client `c` to the reducer of room
/// `r`: either the reducer applied it, its result `p` is appended to the
/// room's applied results and announced as `Action(p)` to the room; or the
/// reducer rejected it and `c` alone gets a `ClientError`. Either way only the
/// room's reducer may have changed besides.
pub open spec fn dispatch_outcome<R>(
    pre: BroadcasterView<R>,
    post: BroadcasterView<R>,
    c: u64,
    r: u64,
    res: Result<RoomResponse, ClientResponse>,
) -> bool {
    match res {
        Ok(a) => a.room == r && (a.response@ matches ResponseView::Action(p) && post == with_applied(
            pre,
            r as int,
            post.rooms[r as int].reducer,
            p,
        )),
        Err(e) => e.client == c && e.response@ is ClientError && post == with_reducer(
            pre,
            r as int,
            post.rooms[r as int].reducer,
        ),
    }
}

/// The outcome of a parsed action from client `c`: refused with `NotFound`
/// for an unregistered client or a client in no room; otherwise handed to the
/// reducer of the client's room (see [`dispatch_outcome`]).
pub open spec fn action_outcome<R>(
    pre: BroadcasterView<R>,
    post: BroadcasterView<R>,
    c: u64,
    res: Result<RoomResponse, ClientResponse>,
) -> bool {
    if !pre.clients.contains_key(c) {
        post == pre && replies_to_client(res, c, ResponseView::NotFound("Client not found"@))
    } else if pre.clients[c] is None {
        post == pre && replies_to_client(res, c, ResponseView::NotFound("Client not in room"@))
    } else {
        dispatch_outcome(pre, post, c, pre.clients[c]->0, res)
    }
}

/// The outcome of an action of client `c` whose text the reducer's action
/// type could read (`readable`) or not: refused with `NotFound` for an
/// unregistered client or a client in no room; a `ServerError` with nothing
/// changed for unreadable text; otherwise handed to the reducer of the
/// client's room (see [`dispatch_outcome`]).
pub open spec fn parsed_action_outcome<R>(
    pre: BroadcasterView<R>,
    post: BroadcasterView<R>,
    c: u64,
    readable: bool,
    res: Result<RoomResponse, ClientResponse>,
) -> bool {
    if !pre.clients.contains_key(c) || pre.clients[c] is None {
        action_outcome(pre, post, c, res)
    } else if !readable {
        post == pre && replies_to_client(res, c, ResponseView::ServerError("Invalid action"@))
    } else {
        dispatch_outcome(pre, post, c, pre.clients[c]->0, res)
    }
}

/// The outcome of message `m` from client `c`. For an action, a client in a
/// room whose action text the reducer's action type cannot read gets a
/// `ServerError` and nothing changes; a readable action is handed to the
/// room's reducer.
pub open spec fn message_outcome<R>(
    pre: BroadcasterView<R>,
    post: BroadcasterView<R>,
    c: u64,
    m: MethodView,
    res: Result<RoomResponse, ClientResponse>,
) -> bool {
    match m {
        MethodView::Create => create_outcome(pre, post, c, res),
        MethodView::Join(r) => join_outcome(pre, post, c, r, res),
        MethodView::Leave => leave_outcome(pre, post, c, res),
        MethodView::Action(_) => if !pre.clients.contains_key(c) || pre.clients[c] is None {
            action_outcome(pre, post, c, res)
        } else {
            (post == pre && replies_to_client(res, c, ResponseView::ServerError("Invalid action"@)))
                || dispatch_outcome(pre, post, c, pre.clients[c]->0, res)
        },
    }
}

proof fn lemma_applied_consistent<R>(v: BroadcasterView<R>, r: int, reducer: R, p: Seq<char>)
    requires
        consistent(v),
        0 <= r < v.rooms.len(),
    ensures
        consistent(with_applied(v, r, reducer, p)),
        consistent(with_reducer(v, r, reducer)),
{
    let w = with_applied(v, r, reducer, p);
    let x = with_reducer(v, r, reducer);
    assert forall|i: int, d: u64|
        0 <= i < w.rooms.len() && #[trigger] w.rooms[i].members.contains(d) implies
            w.clients.contains_key(d) && w.clients[d] == Some(i as u64) by {
        assert(v.rooms[i].members.contains(d));
    }
    assert forall|i: int, d: u64|
        0 <= i < x.rooms.len() && #[trigger] x.rooms[i].members.contains(d) implies
            x.clients.contains_key(d) && x.clients[d] == Some(i as u64) by {
        assert(v.rooms[i].members.contains(d));
    }
}

/// What a room and its client are told once the room's reducer has handled an
/// action of client `client_id`: the JSON text of the result, as an `Action`
/// announcement to room `room`; or the reducer's reason for rejecting it, as a
/// `ClientError` to the client alone.
pub fn conclude_dispatch<St: Broadcastable>(
    room: u64,
    client_id: u64,
    outcome: Result<ActionResponse<St>, String>,
) -> (res: Result<RoomResponse, ClientResponse>)
    ensures
        match outcome {
            Ok(a) => res matches Ok(x) && x.room == room && (x.response@ matches ResponseView::Action(
                p,
            ) && exists|state: Seq<char>| p == action_text(a.status@, state, a.author, a.data@)),
            Err(reason) => replies_to_client(res, client_id, ResponseView::ClientError(reason@)),
        },
{
    match outcome {
        Ok(a) => {
            let text = a.to_json();
            Ok(RoomResponse::action(room, text))
        },
        Err(reason) => Err(ClientResponse::client_error(client_id, reason)),
    }
}

/// The clients that an announcement to room `r` reaches: its members that
/// have a connection; nobody for an unknown room.
pub open spec fn audience<R>(v: BroadcasterView<R>, r: u64) -> Set<u64> {
    if r < v.rooms.len() {
        v.rooms[r as int].members.intersect(v.connected)
    } else {
        Set::empty()
    }
}

/// The recipients of a reply to client `c` alone: `c`, if it has a connection.
pub open spec fn reply_audience<R>(v: BroadcasterView<R>, c: u64) -> Set<u64> {
    if v.connected.contains(c) {
        set![c]
    } else {
        Set::empty()
    }
}

/// One response and the clients it goes to.
///
/// `room` names the room a room announcement is for; it is `None` for a
/// response to one client alone.
pub struct Delivery {
    pub room: Option<u64>,
    pub recipients: Vec<u64>,
    pub response: Response,
}

/// Delivery `d` is `response`, for `room`, sent once to each client of `to`.
pub open spec fn delivers(d: Delivery, room: Option<u64>, to: Set<u64>, response: ResponseView) -> bool {
    &&& d.room == room
    &&& d.recipients@.no_duplicates()
    &&& d.recipients@.to_set() == to
    &&& d.response@ == response
}

/// The deliveries of a handled message, in order, given its outcome `res`
/// and the engine `post` after it. A reply goes to its client alone. An
/// announcement goes to the room's audience; after `Create` or `Join` it is
/// preceded by the room's state, sent to the entering client alone; after
/// `Leave` it also reaches the client that left.
pub open spec fn routed<R>(
    post: BroadcasterView<R>,
    c: u64,
    m: MethodView,
    res: Result<RoomResponse, ClientResponse>,
    ds: Seq<Delivery>,
) -> bool {
    match res {
        Err(e) => ds.len() == 1 && delivers(ds[0], None, reply_audience(post, e.client), e.response@),
        Ok(a) => match m {
            MethodView::Create | MethodView::Join(_) => {
                &&& ds.len() == 2
                &&& ds[0].room is None
                &&& ds[0].recipients@.no_duplicates()
                &&& ds[0].recipients@.to_set() == reply_audience(post, c)
                &&& ds[0].response@ is StateSent
                &&& delivers(ds[1], Some(a.room), audience(post, a.room), a.response@)
            },
            MethodView::Leave => ds.len() == 1 && delivers(
                ds[0],
                Some(a.room),
                audience(post, a.room).union(reply_audience(post, c)),
                a.response@,
            ),
            MethodView::Action(_) => ds.len() == 1 && delivers(
                ds[0],
                Some(a.room),
                audience(post, a.room),
                a.response@,
            ),
        },
    }
}

/// The action results announced to room `r` by deliveries `ds`, in order.
pub open spec fn announced_actions(ds: Seq<Delivery>, r: u64) -> Seq<Seq<char>>
    decreases ds.len(),
{
    if ds.len() == 0 {
        Seq::empty()
    } else {
        let rest = announced_actions(ds.drop_last(), r);
        let d = ds.last();
        match d.response@ {
            ResponseView::Action(p) => if d.room == Some(r) {
                rest.push(p)
            } else {
                rest
            },
            _ => rest,
        }
    }
}

/// The action results announced to room `r` over rounds of deliveries, in
/// order.
pub open spec fn announced_over(rounds: Seq<Seq<Delivery>>, r: u64) -> Seq<Seq<char>>
    decreases rounds.len(),
{
    if rounds.len() == 0 {
        Seq::empty()
    } else {
        announced_over(rounds.drop_last(), r) + announced_actions(rounds.last(), r)
    }
}

/// Handling message `m` of client `c` took the engine from `pre` to `post`
/// and delivered `ds`.
pub open spec fn handled<R>(
    pre: BroadcasterView<R>,
    post: BroadcasterView<R>,
    c: u64,
    m: MethodView,
    ds: Seq<Delivery>,
) -> bool {
    exists|res: Result<RoomResponse, ClientResponse>|
        message_outcome(pre, post, c, m, res) && routed(post, c, m, res, ds)
}

proof fn lemma_handled_log<R>(
    pre: BroadcasterView<R>,
    post: BroadcasterView<R>,
    c: u64,
    m: MethodView,
    ds: Seq<Delivery>,
    r: u64,
)
    requires
        consistent(pre),
        handled(pre, post, c, m, ds),
        r < pre.rooms.len(),
    ensures
        r < post.rooms.len(),
        post.rooms[r as int].applied == pre.rooms[r as int].applied + announced_actions(ds, r),
{
    let res = choose|res: Result<RoomResponse, ClientResponse>|
        message_outcome(pre, post, c, m, res) && routed(post, c, m, res, ds);
    reveal_with_fuel(announced_actions, 3);
    assert(ds.drop_last().len() < 2);
    if ds.len() == 2 {
        assert(ds.drop_last().drop_last().len() == 0);
        assert(ds.drop_last().last() == ds[0]);
    }
    assert(announced_actions(ds, r) == Seq::<Seq<char>>::empty() || (res matches Ok(a) && a.room == r
        && a.response@ is Action));
    if res is Ok && (m is Action) {
        let a = res->Ok_0;
        if a.room == r {
            let p = a.response@->Action_0;
            assert(announced_actions(ds, r) == seq![p]);
        }
    }
    assert(pre.rooms[r as int].applied + Seq::<Seq<char>>::empty() == pre.rooms[r as int].applied);
}

/// Over any run of handled messages, the action results announced to a room,
/// in order, are exactly the results that its reducer produced and the room
/// recorded, in the order they were applied: round `i` of `rounds` is what
/// handling message `msgs[i]` of client `senders[i]` delivered, taking the
/// engine from `views[i]` to `views[i + 1]`.
pub proof fn lemma_announcements_follow_dispatches<R>(
    views: Seq<BroadcasterView<R>>,
    senders: Seq<u64>,
    msgs: Seq<MethodView>,
    rounds: Seq<Seq<Delivery>>,
    r: u64,
)
    requires
        views.len() == rounds.len() + 1,
        senders.len() == rounds.len(),
        msgs.len() == rounds.len(),
        consistent(views[0]),
        r < views[0].rooms.len(),
        forall|i: int|
            0 <= i < rounds.len() ==> #[trigger] handled(
                views[i],
                views[i + 1],
                senders[i],
                msgs[i],
                rounds[i],
            ) && consistent(views[i + 1]),
    ensures
        r < views.last().rooms.len(),
        views.last().rooms[r as int].applied == views[0].rooms[r as int].applied + announced_over(
            rounds,
            r,
        ),
    decreases rounds.len(),
{
    if rounds.len() == 0 {
        assert(views[0].rooms[r as int].applied + Seq::<Seq<char>>::empty() =~= views[0].rooms[r as int].applied);
    } else {
        let n = rounds.len() - 1;
        let vs = views.drop_last();
        assert forall|i: int| 0 <= i < n implies #[trigger] handled(
            vs[i],
            vs[i + 1],
            senders.drop_last()[i],
            msgs.drop_last()[i],
            rounds.drop_last()[i],
        ) && consistent(vs[i + 1]) by {
            assert(handled(views[i], views[i + 1], senders[i], msgs[i], rounds[i]));
        }
        lemma_announcements_follow_dispatches(
            vs,
            senders.drop_last(),
            msgs.drop_last(),
            rounds.drop_last(),
            r,
        );
        assert(handled(views[n], views[n + 1], senders[n], msgs[n], rounds[n]));
        if n > 0 {
            assert(handled(views[n - 1], views[n - 1 + 1], senders[n - 1], msgs[n - 1], rounds[n - 1]));
            assert(consistent(views[n]));
        }
        lemma_handled_log(views[n], views[n + 1], senders[n], msgs[n], rounds[n], r);
        assert(vs.last() == views[n]);
        assert(views.last() == views[n + 1]);
        assert(rounds.last() == rounds[n]);
        assert(views[n + 1].rooms[r as int].applied =~= views[0].rooms[r as int].applied + announced_over(
            rounds,
            r,
        ));
    }
}

/// Two actions that a room's reducer applied one after the other are both
/// recorded in the room's applied results, in the order they were applied,
/// and each is announced to the room with its own result.
pub proof fn lemma_dispatches_in_order<R>(
    s0: BroadcasterView<R>,
    s1: BroadcasterView<R>,
    s2: BroadcasterView<R>,
    c1: u64,
    c2: u64,
    r: u64,
    res1: Result<RoomResponse, ClientResponse>,
    res2: Result<RoomResponse, ClientResponse>,
)
    requires
        r < s0.rooms.len(),
        dispatch_outcome(s0, s1, c1, r, res1),
        dispatch_outcome(s1, s2, c2, r, res2),
        res1 is Ok,
        res2 is Ok,
    ensures
        res1->Ok_0.response@ is Action,
        res2->Ok_0.response@ is Action,
        s2.rooms[r as int].applied == s0.rooms[r as int].applied.push(
            res1->Ok_0.response@->Action_0,
        ).push(res2->Ok_0.response@->Action_0),
{
}

/// A client in no room that creates a room, then leaves it, is in no room
/// again; creating once more succeeds, with a strictly greater room id.
pub proof fn lemma_create_leave_create<R>(
    s0: BroadcasterView<R>,
    s1: BroadcasterView<R>,
    s2: BroadcasterView<R>,
    s3: BroadcasterView<R>,
    c: u64,
    res1: Result<RoomResponse, ClientResponse>,
    res2: Result<RoomResponse, ClientResponse>,
    res3: Result<RoomResponse, ClientResponse>,
)
    requires
        consistent(s0),
        s0.clients.contains_key(c),
        s0.clients[c] is None,
        s0.rooms.len() + 1 < u64::MAX,
        create_outcome(s0, s1, c, res1),
        leave_outcome(s1, s2, c, res2),
        create_outcome(s2, s3, c, res3),
    ensures
        res1 is Ok,
        res2 is Ok,
        s2.clients[c] is None,
        res3 is Ok,
        res3->Ok_0.room > res1->Ok_0.room,
{
}

/// An action from a registered client in no room gets `NotFound("Client not
/// in room")`, and nothing changes.
pub proof fn lemma_action_outside_room<R>(
    pre: BroadcasterView<R>,
    post: BroadcasterView<R>,
    c: u64,
    text: Seq<char>,
    res: Result<RoomResponse, ClientResponse>,
)
    requires
        pre.clients.contains_key(c),
        pre.clients[c] is None,
        message_outcome(pre, post, c, MethodView::Action(text), res),
    ensures
        post == pre,
        replies_to_client(res, c, ResponseView::NotFound("Client not in room"@)),
{
}

/// `Create` or `Join` from a client already in a room gets a `ClientError`,
/// and nothing changes.
pub proof fn lemma_enter_while_in_room<R>(
    pre: BroadcasterView<R>,
    post: BroadcasterView<R>,
    c: u64,
    m: MethodView,
    res: Result<RoomResponse, ClientResponse>,
)
    requires
        pre.clients.contains_key(c),
        pre.clients[c] is Some,
        m is Create || m is Join,
        message_outcome(pre, post, c, m, res),
    ensures
        post == pre,
        res matches Err(e) && e.client == c && e.response@ is ClientError,
{
}

/// `Join` of a room that does not exist gets `NotFound("Room not found")`
/// from a client in no room, and nothing changes.
pub proof fn lemma_join_unknown_room<R>(
    pre: BroadcasterView<R>,
    post: BroadcasterView<R>,
    c: u64,
    r: u64,
    res: Result<RoomResponse, ClientResponse>,
)
    requires
        pre.clients.contains_key(c),
        pre.clients[c] is None,
        r >= pre.rooms.len(),
        join_outcome(pre, post, c, r, res),
    ensures
        post == pre,
        replies_to_client(res, c, ResponseView::NotFound("Room not found"@)),
{
}

/// An unreadable action from a client in a room gets `ServerError("Invalid
/// action")` and changes nothing, so the client stays in its room; a readable
/// action after it is handed to that room's reducer.
pub proof fn lemma_malformed_then_wellformed<R>(
    s0: BroadcasterView<R>,
    s1: BroadcasterView<R>,
    s2: BroadcasterView<R>,
    c: u64,
    res1: Result<RoomResponse, ClientResponse>,
    res2: Result<RoomResponse, ClientResponse>,
)
    requires
        s0.clients.contains_key(c),
        s0.clients[c] is Some,
        parsed_action_outcome(s0, s1, c, false, res1),
        parsed_action_outcome(s1, s2, c, true, res2),
    ensures
        replies_to_client(res1, c, ResponseView::ServerError("Invalid action"@)),
        s1 == s0,
        s1.clients[c] == s0.clients[c],
        dispatch_outcome(s1, s2, c, s0.clients[c]->0, res2),
{
}

/// Tearing a client down keeps the invariants, and leaves it registered
/// nowhere: not as a client, not as a connection, not as a member of any room.
pub proof fn lemma_disconnect_removes<R>(v: BroadcasterView<R>, c: u64)
    requires
        consistent(v),
        v.clients.contains_key(c),
    ensures
        consistent(without_client(v, c)),
        !without_client(v, c).clients.contains_key(c),
        !without_client(v, c).connected.contains(c),
        forall|r: int|
            0 <= r < without_client(v, c).rooms.len() ==> !(#[trigger] without_client(
                v,
                c,
            ).rooms[r].members.contains(c)),
{
    let w = without_client(v, c);
    assert forall|r: int| 0 <= r < w.rooms.len() implies !(#[trigger] w.rooms[r].members.contains(c)) by {
        if w.rooms[r].members.contains(c) {
            assert(v.rooms[r].members.contains(c));
        }
    }
    assert forall|r: int, d: u64|
        0 <= r < w.rooms.len() && #[trigger] w.rooms[r].members.contains(d) implies
            w.clients.contains_key(d) && w.clients[d] == Some(r as u64) by {
        assert(v.rooms[r].members.contains(d));
    }
}

/// The outcome of putting client `c` into room `room` with `state` the JSON
/// text of the room's state. It fails, changing nothing, where the client,
/// the room or the client's connection is missing, or where the client is in
/// another room; otherwise the client is a member of the room and gets
/// `StateSent(state)`.
pub open spec fn entry_outcome<R>(
    pre: BroadcasterView<R>,
    post: BroadcasterView<R>,
    c: u64,
    room: u64,
    state: Seq<char>,
    r: Result<Response, String>,
) -> bool {
    if !pre.clients.contains_key(c) {
        post == pre && (r matches Err(m) && m@ == "Client "@ + decimal(c as nat) + " not found"@)
    } else if room >= pre.rooms.len() {
        post == pre && (r matches Err(m) && m@ == "Room "@ + decimal(room as nat) + " not found"@)
    } else if !pre.connected.contains(c) {
        post == pre && (r matches Err(m) && m@ == "Connection not found for client "@ + decimal(
            c as nat,
        ))
    } else if pre.clients[c] is Some && pre.clients[c] != Some(room) {
        post == pre && (r matches Err(m) && m@ == "Leave current room before joining new"@)
    } else {
        post == with_joined(pre, c, room) && (r matches Ok(x) && x@ == ResponseView::StateSent(state))
    }
}

proof fn lemma_new_room_consistent<R>(v: BroadcasterView<R>, c: u64, reducer: R)
    requires
        consistent(v),
        v.clients.contains_key(c),
        v.clients[c] is None,
        v.rooms.len() < u64::MAX,
    ensures
        consistent(with_new_room(v, c, reducer)),
{
    let w = with_new_room(v, c, reducer);
    assert forall|r: int, d: u64|
        0 <= r < w.rooms.len() && #[trigger] w.rooms[r].members.contains(d) implies
            w.clients.contains_key(d) && w.clients[d] == Some(r as u64) by {
        if r < v.rooms.len() {
            assert(v.rooms[r].members.contains(d));
        }
    }
}

proof fn lemma_join_consistent<R>(v: BroadcasterView<R>, c: u64, r: u64)
    requires
        consistent(v),
        v.clients.contains_key(c),
        v.clients[c] is None,
        r < v.rooms.len(),
    ensures
        consistent(with_joined(v, c, r)),
{
    let w = with_joined(v, c, r);
    assert forall|i: int, d: u64|
        0 <= i < w.rooms.len() && #[trigger] w.rooms[i].members.contains(d) implies
            w.clients.contains_key(d) && w.clients[d] == Some(i as u64) by {
        if d != c {
            assert(v.rooms[i].members.contains(d));
        } else if i != r {
            assert(v.rooms[i].members.contains(c));
        }
    }
}

proof fn lemma_leave_consistent<R>(v: BroadcasterView<R>, c: u64, r: u64)
    requires
        consistent(v),
        v.clients.contains_key(c),
        v.clients[c] == Some(r),
    ensures
        consistent(with_left(v, c, r)),
{
    let w = with_left(v, c, r);
    assert forall|i: int, d: u64|
        0 <= i < w.rooms.len() && #[trigger] w.rooms[i].members.contains(d) implies
            w.clients.contains_key(d) && w.clients[d] == Some(i as u64) by {
        assert(v.rooms[i].members.contains(d));
    }
}

/// The engine: clients, their connections, the rooms, and the template
/// reducer that each new room starts from.
///
/// `S` is the connection a client is reached through; `R` is the reducer.
pub struct Broadcaster<S, R> {
    clients: HashMap<u64, Client>,
    connections: HashMap<u64, S>,
    rooms: Vec<Room<R>>,
    default_reducer: R,
}

impl<S, R> View for Broadcaster<S, R> {
    type V = BroadcasterView<R>;

    closed spec fn view(&self) -> BroadcasterView<R> {
        BroadcasterView {
            clients: self.clients@.map_values(|c: Client| c.room_id),
            connected: self.connections@.dom(),
            rooms: self.rooms@.map_values(
                |r: Room<R>|
                    RoomView {
                        owner: r.owner_id,
                        status: r.status,
                        members: r.client_ids@,
                        reducer: r.reducer,
                        applied: r.applied@,
                    },
            ),
        }
    }
}

impl<S, R> Broadcaster<S, R> {
    /// The registries agree with each other (see [`consistent`]).
    pub closed spec fn wf(&self) -> bool {
        &&& consistent(self@)
        &&& forall|c: u64| #[trigger]
            self.clients@.contains_key(c) ==> self.clients@[c].id == c
        &&& forall|i: int| 0 <= i < self.rooms@.len() ==> #[trigger] self.rooms@[i].id == i
    }

    /// The connection of each client that has one.
    pub closed spec fn sinks(&self) -> Map<u64, S> {
        self.connections@
    }

    /// The registries of a well-formed engine keep the invariants of
    /// [`consistent`].
    pub proof fn lemma_wf_consistent(&self)
        requires
            self.wf(),
        ensures
            consistent(self@),
    {
    }

    /// The template reducer that new rooms are cloned from.
    pub closed spec fn template(&self) -> R {
        self.default_reducer
    }

    /// Creates an engine with no client and no room, whose rooms start from
    /// clones of `default_reducer`.
    pub fn new(default_reducer: R) -> (r: Self)
        ensures
            r.wf(),
            r@ == empty_view::<R>(),
            r.template() == default_reducer,
    {
        let r = Broadcaster {
            clients: HashMap::new(),
            connections: HashMap::new(),
            rooms: Vec::new(),
            default_reducer,
        };
        assert(r@.clients =~= Map::empty());
        assert(r@.connected =~= Set::empty());
        assert(r@.rooms =~= Seq::empty());
        r
    }

    /// Registers `client` with its connection `sender`, in no room. A client
    /// whose id is already registered is refused and nothing changes: ids are
    /// unique among registered clients.
    pub fn add_client_connection(&mut self, client: Client, sender: S) -> (added: bool)
        requires
            old(self).wf(),
        ensures
            added ==> final(self).sinks() == old(self).sinks().insert(client.id, sender),
            !added ==> final(self).sinks() == old(self).sinks(),
            consistent(final(self)@),
            final(self).wf(),
            final(self).template() == old(self).template(),
            added == !old(self)@.clients.contains_key(client.id),
            added ==> final(self)@ == with_client(old(self)@, client.id),
            !added ==> final(self)@ == old(self)@,
    {
        let id = client.id;
        if self.clients.contains_key(&id) {
            return false;
        }
        let fresh = Client { id, room_id: None, label: client.label, token: client.token };
        self.clients.insert(id, fresh);
        self.connections.insert(id, sender);
        let ghost pre = old(self)@;
        assert(self@.clients =~= pre.clients.insert(id, None));
        assert(self@.connected =~= pre.connected.insert(id));
        assert(self@.rooms =~= pre.rooms);
        assert forall|r: int, c: u64|
            0 <= r < self@.rooms.len() && #[trigger] self@.rooms[r].members.contains(c) implies
                self@.clients.contains_key(c) && self@.clients[c] == Some(r as u64) by {
            assert(pre.rooms[r].members.contains(c));
        }
        true
    }

    /// Removes client `client_id`: out of its room, if it is in one, and out
    /// of both registries. Returns the `RoomLeft` announcement for that room,
    /// which the remaining members are to receive; `None` where the client was
    /// in no room or is not registered.
    pub fn remove_client_connection(&mut self, client_id: u64) -> (left: Option<RoomResponse>)
        requires
            old(self).wf(),
        ensures
            old(self)@.clients.contains_key(client_id) ==> final(self).sinks() == old(self).sinks().remove(client_id),
            !old(self)@.clients.contains_key(client_id) ==> final(self).sinks() == old(self).sinks(),
            consistent(final(self)@),
            final(self).wf(),
            final(self).template() == old(self).template(),
            old(self)@.clients.contains_key(client_id) ==> final(self)@ == without_client(
                old(self)@,
                client_id,
            ),
            !old(self)@.clients.contains_key(client_id) ==> final(self)@ == old(self)@,
            match left {
                Some(l) => old(self)@.clients.contains_key(client_id) && old(self)@.clients[client_id]
                    == Some(l.room) && l.response@ == ResponseView::RoomLeft(client_id),
                None => !old(self)@.clients.contains_key(client_id)
                    || old(self)@.clients[client_id] is None,
            },
    {
        let ghost pre = old(self)@;
        let room = match self.clients.get(&client_id) {
            None => {
                return None;
            },
            Some(c) => c.room_id,
        };
        let left = match room {
            Some(r) => {
                assert(pre.clients[client_id] == Some(r));
                assert(pre.rooms[r as int].members.contains(client_id));
                let n = self.rooms.len();
                assert(r < n);
                let ri = r as usize;
                self.rooms[ri].client_ids.remove(&client_id);
                assert(self@.rooms =~= with_members(pre, r as int, pre.rooms[r as int].members.remove(client_id)).rooms);
                Some(RoomResponse::leave_room(r, client_id))
            },
            None => None,
        };
        self.clients.remove(&client_id);
        self.connections.remove(&client_id);
        let ghost post = without_client(pre, client_id);
        assert(self@.clients =~= post.clients);
        assert(self@.connected =~= post.connected);
        assert(self@.rooms =~= post.rooms);
        assert forall|r: int, c: u64|
            0 <= r < self@.rooms.len() && #[trigger] self@.rooms[r].members.contains(c) implies
                self@.clients.contains_key(c) && self@.clients[c] == Some(r as u64) by {
            assert(pre.rooms[r].members.contains(c));
        }
        left
    }

    /// Whether client `client_id` is registered.
    pub fn has_client(&self, client_id: u64) -> (r: bool)
        requires
            self.wf(),
        ensures
            r == self@.clients.contains_key(client_id),
    {
        self.clients.contains_key(&client_id)
    }

    /// The number of rooms; the next room created gets this number as its id.
    pub fn room_count(&self) -> (r: usize)
        requires
            self.wf(),
        ensures
            r == self@.rooms.len(),
    {
        self.rooms.len()
    }
    /// The number of registered clients.
    pub fn client_count(&self) -> (r: usize)
        requires
            self.wf(),
        ensures
            r == self@.clients.len(),
    {
        proof {
            assert(self@.clients.dom() =~= self.clients@.dom());
        }
        self.clients.len()
    }

    /// The number of clients with a connection.
    pub fn connection_count(&self) -> (r: usize)
        requires
            self.wf(),
        ensures
            r == self@.connected.len(),
    {
        self.connections.len()
    }

    /// The room of client `client_id`: `None` for an unregistered client,
    /// `Some(None)` for a client in no room.
    pub fn client_room(&self, client_id: u64) -> (r: Option<Option<u64>>)
        requires
            self.wf(),
        ensures
            match r {
                Some(room) => self@.clients.contains_key(client_id) && self@.clients[client_id] == room,
                None => !self@.clients.contains_key(client_id),
            },
    {
        match self.clients.get(&client_id) {
            Some(c) => Some(c.room_id),
            None => None,
        }
    }

    /// Whether client `client_id` is a member of room `room_id`.
    pub fn is_member(&self, room_id: u64, client_id: u64) -> (r: bool)
        requires
            self.wf(),
        ensures
            r == (room_id < self@.rooms.len() && self@.rooms[room_id as int].members.contains(
                client_id,
            )),
    {
        let n = self.rooms.len();
        if room_id >= n as u64 {
            return false;
        }
        self.rooms[room_id as usize].client_ids.contains(&client_id)
    }

    /// The number of members of room `room_id`; `None` for an unknown room.
    pub fn member_count(&self, room_id: u64) -> (r: Option<usize>)
        requires
            self.wf(),
        ensures
            match r {
                Some(k) => room_id < self@.rooms.len() && k == self@.rooms[room_id as int].members.len(),
                None => room_id >= self@.rooms.len(),
            },
    {
        let n = self.rooms.len();
        if room_id >= n as u64 {
            return None;
        }
        Some(self.rooms[room_id as usize].client_ids.len())
    }

    /// The owner of room `room_id`; `None` for an unknown room.
    pub fn room_owner(&self, room_id: u64) -> (r: Option<u64>)
        requires
            self.wf(),
        ensures
            match r {
                Some(o) => room_id < self@.rooms.len() && o == self@.rooms[room_id as int].owner,
                None => room_id >= self@.rooms.len(),
            },
    {
        let n = self.rooms.len();
        if room_id >= n as u64 {
            return None;
        }
        Some(self.rooms[room_id as usize].owner_id)
    }

    /// The reducer of room `room_id`; `None` for an unknown room.
    pub fn room_reducer(&self, room_id: u64) -> (r: Option<&R>)
        requires
            self.wf(),
        ensures
            match r {
                Some(x) => room_id < self@.rooms.len() && *x == self@.rooms[room_id as int].reducer,
                None => room_id >= self@.rooms.len(),
            },
    {
        let n = self.rooms.len();
        if room_id >= n as u64 {
            return None;
        }
        Some(&self.rooms[room_id as usize].reducer)
    }

    /// Moves client `c` to `room` in the client registry only.
    fn set_client_room(&mut self, c: u64, room: Option<u64>)
        requires
            old(self).clients@.contains_key(c),
            forall|k: u64| #[trigger]
                old(self).clients@.contains_key(k) ==> old(self).clients@[k].id == k,
        ensures
            final(self).sinks() == old(self).sinks(),
            final(self)@ == (BroadcasterView {
                clients: old(self)@.clients.insert(c, room),
                connected: old(self)@.connected,
                rooms: old(self)@.rooms,
            }),
            forall|k: u64| #[trigger]
                final(self).clients@.contains_key(k) ==> final(self).clients@[k].id == k,
            final(self).rooms@ == old(self).rooms@,
            final(self).template() == old(self).template(),
    {
        let ghost pre = old(self)@;
        match self.clients.remove(&c) {
            Some(client) => {
                let moved = Client { id: client.id, room_id: room, label: client.label, token: client.token };
                self.clients.insert(c, moved);
            },
            None => {},
        }
        assert(self@.clients =~= pre.clients.insert(c, room));
    }

    /// Adds or removes client `c` in the members of room `r` only.
    fn set_member(&mut self, r: usize, c: u64, member: bool)
        requires
            r < old(self).rooms@.len(),
        ensures
            final(self).sinks() == old(self).sinks(),
            final(self)@ == with_members(
                old(self)@,
                r as int,
                if member {
                    old(self)@.rooms[r as int].members.insert(c)
                } else {
                    old(self)@.rooms[r as int].members.remove(c)
                },
            ),
            final(self).clients@ == old(self).clients@,
            forall|i: int| 0 <= i < final(self).rooms@.len() ==> #[trigger] final(self).rooms@[i].id == old(self).rooms@[i].id,
            final(self).rooms@.len() == old(self).rooms@.len(),
            final(self).template() == old(self).template(),
    {
        let ghost pre = old(self)@;
        if member {
            self.rooms[r].client_ids.insert(c);
        } else {
            self.rooms[r].client_ids.remove(&c);
        }
        let ghost members = if member { pre.rooms[r as int].members.insert(c) } else { pre.rooms[r as int].members.remove(c) };
        assert(self@.rooms =~= with_members(pre, r as int, members).rooms);
    }
}

impl<S, R: Dispatchable> Broadcaster<S, R> {
    /// Client `client_id` creates a room and enters it as owner and only
    /// member. The new room's id is the number of rooms before, and its
    /// reducer a clone of the template.
    ///
    /// Refused with `NotFound` for an unregistered client and with
    /// `ClientError` for a client already in a room; nothing changes then.
    pub fn handle_create(&mut self, client_id: u64) -> (res: Result<RoomResponse, ClientResponse>)
        requires
            old(self).wf(),
        ensures
            final(self).sinks() == old(self).sinks(),
            consistent(final(self)@),
            new_rooms_cloned(old(self).template(), old(self)@, final(self)@),
            final(self).wf(),
            final(self).template() == old(self).template(),
            create_outcome(old(self)@, final(self)@, client_id, res),
    {
        let ghost pre = old(self)@;
        let current = match self.clients.get(&client_id) {
            None => {
                return Err(ClientResponse::not_found(client_id, String::from_str("Client not found")));
            },
            Some(c) => c.room_id,
        };
        if current.is_some() {
            return Err(
                ClientResponse::client_error(
                    client_id,
                    String::from_str("Leave current room before creating new"),
                ),
            );
        }
        let n = self.rooms.len();
        if n as u64 == u64::MAX {
            return Err(ClientResponse::server_error(client_id, String::from_str("No room id left")));
        }
        let room_id = n as u64;
        let mut members: HashSet<u64> = HashSet::new();
        members.insert(client_id);
        let reducer = self.default_reducer.clone();
        let room = Room::new(room_id, client_id, members, RoomStatus::Public, reducer);
        self.set_client_room(client_id, Some(room_id));
        self.rooms.push(room);
        proof {
            lemma_new_room_consistent(pre, client_id, reducer);
            let post = with_new_room(pre, client_id, reducer);
            assert(self@.clients =~= post.clients);
            assert(self@.rooms[n as int].members =~= set![client_id]);
            assert(self@.rooms =~= post.rooms);
        }
        Ok(RoomResponse::create_room(room_id))
    }

    /// Client `client_id` joins room `room_id`.
    ///
    /// Refused with `NotFound` for an unregistered client or an unknown room,
    /// and with `ClientError` for a client already in a room; nothing changes
    /// then.
    pub fn handle_join(&mut self, client_id: u64, room_id: u64) -> (res: Result<
        RoomResponse,
        ClientResponse,
    >)
        requires
            old(self).wf(),
        ensures
            final(self).sinks() == old(self).sinks(),
            final(self).wf(),
            final(self).template() == old(self).template(),
            join_outcome(old(self)@, final(self)@, client_id, room_id, res),
    {
        let ghost pre = old(self)@;
        let current = match self.clients.get(&client_id) {
            None => {
                return Err(ClientResponse::not_found(client_id, String::from_str("Client not found")));
            },
            Some(c) => c.room_id,
        };
        if current.is_some() {
            return Err(
                ClientResponse::client_error(
                    client_id,
                    String::from_str("Leave current room before joining new"),
                ),
            );
        }
        let n = self.rooms.len();
        if room_id >= n as u64 {
            return Err(ClientResponse::not_found(client_id, String::from_str("Room not found")));
        }
        self.set_member(room_id as usize, client_id, true);
        self.set_client_room(client_id, Some(room_id));
        proof {
            lemma_join_consistent(pre, client_id, room_id);
        }
        Ok(RoomResponse::join_room(room_id, client_id))
    }

    /// Client `client_id` leaves its room.
    ///
    /// Refused with `NotFound` for an unregistered client or a client in no
    /// room; nothing changes then.
    pub fn handle_leave(&mut self, client_id: u64) -> (res: Result<RoomResponse, ClientResponse>)
        requires
            old(self).wf(),
        ensures
            final(self).sinks() == old(self).sinks(),
            final(self).wf(),
            final(self).template() == old(self).template(),
            leave_outcome(old(self)@, final(self)@, client_id, res),
    {
        let ghost pre = old(self)@;
        let current = match self.clients.get(&client_id) {
            None => {
                return Err(ClientResponse::not_found(client_id, String::from_str("Client not found")));
            },
            Some(c) => c.room_id,
        };
        let room_id = match current {
            None => {
                return Err(ClientResponse::not_found(client_id, String::from_str("Client not in room")));
            },
            Some(r) => r,
        };
        let n = self.rooms.len();
        assert(pre.clients[client_id] == Some(room_id));
        assert(room_id < n);
        self.set_member(room_id as usize, client_id, false);
        self.set_client_room(client_id, None);
        proof {
            lemma_leave_consistent(pre, client_id, room_id);
        }
        Ok(RoomResponse::leave_room(room_id, client_id))
    }
    /// Hands the parsed `action` of client `client_id` to the reducer of the
    /// client's room (see [`action_outcome`]).
    pub fn handle_action(&mut self, client_id: u64, action: R::Action) -> (res: Result<
        RoomResponse,
        ClientResponse,
    >)
        requires
            old(self).wf(),
        ensures
            final(self).sinks() == old(self).sinks(),
            final(self).wf(),
            final(self).template() == old(self).template(),
            action_outcome(old(self)@, final(self)@, client_id, res),
    {
        let ghost pre = old(self)@;
        let current = match self.clients.get(&client_id) {
            None => {
                return Err(ClientResponse::not_found(client_id, String::from_str("Client not found")));
            },
            Some(c) => c.room_id,
        };
        let room_id = match current {
            None => {
                return Err(ClientResponse::not_found(client_id, String::from_str("Client not in room")));
            },
            Some(r) => r,
        };
        let n = self.rooms.len();
        assert(pre.clients[client_id] == Some(room_id));
        assert(room_id < n);
        let ri = room_id as usize;
        let outcome = self.rooms[ri].reducer.dispatch(client_id, action);
        let res = conclude_dispatch(room_id, client_id, outcome);
        let ghost reducer = self.rooms@[ri as int].reducer;
        match &res {
            Ok(x) => {
                match &x.response {
                    Response::Action(p) => {
                        let ghost log = self.rooms@[ri as int].applied@.push(p@);
                        self.rooms[ri].applied = Ghost(log);
                        proof {
                            lemma_applied_consistent(pre, ri as int, reducer, p@);
                            assert(self@.rooms =~= with_applied(pre, ri as int, reducer, p@).rooms);
                        }
                    },
                    _ => {},
                }
            },
            Err(_) => {
                proof {
                    lemma_applied_consistent(pre, ri as int, reducer, Seq::empty());
                    assert(self@.rooms =~= with_reducer(pre, ri as int, reducer).rooms);
                }
            },
        }
        res
    }

    /// Handles an action of client `client_id` given as what the reducer's
    /// action type read from its text (see [`parsed_action_outcome`]): where
    /// the text could not be read the client gets `ServerError("Invalid
    /// action")`, stays registered and in its room, and nothing changes.
    pub fn handle_parsed_action(&mut self, client_id: u64, parsed: Result<R::Action, String>) -> (res:
        Result<RoomResponse, ClientResponse>)
        requires
            old(self).wf(),
        ensures
            final(self).sinks() == old(self).sinks(),
            final(self).wf(),
            final(self).template() == old(self).template(),
            parsed_action_outcome(old(self)@, final(self)@, client_id, parsed is Ok, res),
    {
        let current = match self.clients.get(&client_id) {
            None => {
                return Err(ClientResponse::not_found(client_id, String::from_str("Client not found")));
            },
            Some(c) => c.room_id,
        };
        if current.is_none() {
            return Err(ClientResponse::not_found(client_id, String::from_str("Client not in room")));
        }
        match parsed {
            Err(_) => Err(ClientResponse::server_error(client_id, String::from_str("Invalid action"))),
            Ok(action) => self.handle_action(client_id, action),
        }
    }

    /// Handles message `event` from client `client_id` (see
    /// [`message_outcome`]). An unregistered client gets `NotFound`. An
    /// action from a client in no room gets `NotFound` before its text is
    /// read.
    pub fn process_event(&mut self, client_id: u64, event: JointMessage) -> (res: Result<
        RoomResponse,
        ClientResponse,
    >)
        requires
            old(self).wf(),
        ensures
            final(self).sinks() == old(self).sinks(),
            consistent(final(self)@),
            new_rooms_cloned(old(self).template(), old(self)@, final(self)@),
            final(self).wf(),
            final(self).template() == old(self).template(),
            message_outcome(old(self)@, final(self)@, client_id, event.message@, res),
    {
        match event.message {
            JointMessageMethod::Create => self.handle_create(client_id),
            JointMessageMethod::Join(room_id) => self.handle_join(client_id, room_id),
            JointMessageMethod::Leave => self.handle_leave(client_id),
            JointMessageMethod::Action(raw) => {
                let current = match self.clients.get(&client_id) {
                    None => {
                        return Err(
                            ClientResponse::not_found(client_id, String::from_str("Client not found")),
                        );
                    },
                    Some(c) => c.room_id,
                };
                if current.is_none() {
                    return Err(
                        ClientResponse::not_found(client_id, String::from_str("Client not in room")),
                    );
                }
                let parsed = R::Action::from_json(raw.as_str());
                self.handle_parsed_action(client_id, parsed)
            },
        }
    }
    /// The clients that an announcement to room `room_id` reaches, each once:
    /// the room's members that have a connection.
    pub fn react_on_message(&self, room_id: u64) -> (r: Vec<u64>)
        requires
            self.wf(),
        ensures
            r@.no_duplicates(),
            r@.to_set() == audience(self@, room_id),
    {
        let mut out: Vec<u64> = Vec::new();
        let n = self.rooms.len();
        if room_id >= n as u64 {
            assert(out@.to_set() =~= Set::<u64>::empty());
            return out;
        }
        let room = &self.rooms[room_id as usize];
        let ghost full = vstd::std_specs::iter::IteratorSpec::remaining(&vstd::std_specs::hash::spec_hash_keys_iter(&room.client_ids));
        let ghost mut seen: int = 0;
        for c in it: room.client_ids.iter()
            invariant
                it.seq() == full,
                seen == it.index(),
                full.unref().to_set() == room.client_ids@,
                full.no_duplicates(),
                out@.no_duplicates(),
                forall|x: u64|
                    out@.contains(x) <==> (exists|i: int|
                        0 <= i < seen && *full[i] == x && self.connections@.contains_key(x)),
        {
            let ghost before = out@;
            assert(*c == *full[seen]);
            if self.connections.contains_key(c) {
                proof {
                    if out@.contains(*c) {
                        let i = choose|i: int|
                            0 <= i < seen && *full[i] == *c && self.connections@.contains_key(*c);
                        assert(full[i] == full[seen]);
                    }
                }
                out.push(*c);
                assert(out@ == before.push(*c));
                assert(out@[out@.len() - 1] == *c);
            } else {
                assert(!self.connections@.contains_key(*c));
            }
            proof {
                assert(out@ == before || (out@ == before.push(*c) && self.connections@.contains_key(*c)));
                assert(self.connections@.contains_key(*c) ==> out@.contains(*c));
                assert forall|x: u64|
                    out@.contains(x) <==> (exists|i: int|
                        0 <= i < seen + 1 && *full[i] == x && self.connections@.contains_key(x)) by {
                    if out@.contains(x) {
                        if before.contains(x) {
                            let i = choose|i: int|
                                0 <= i < seen && *full[i] == x && self.connections@.contains_key(x);
                            assert(0 <= i < seen + 1 && *full[i] == x && self.connections@.contains_key(x));
                        } else {
                            let k = choose|k: int| 0 <= k < out@.len() && out@[k] == x;
                            assert(k == before.len());
                            assert(0 <= seen < seen + 1 && *full[seen] == x && self.connections@.contains_key(x));
                        }
                    }
                    if exists|i: int|
                        0 <= i < seen + 1 && *full[i] == x && self.connections@.contains_key(x) {
                        let i = choose|i: int|
                            0 <= i < seen + 1 && *full[i] == x && self.connections@.contains_key(x);
                        if i < seen {
                            assert(before.contains(x));
                            if out@ != before {
                                assert(out@[before.index_of(x)] == x);
                            }
                        } else {
                            assert(x == *c);
                        }
                    }
                }
                seen = seen + 1;
            }
        }
        proof {
            assert(seen == full.len());
            assert forall|x: u64| out@.contains(x) <==> audience(self@, room_id).contains(x) by {
                if audience(self@, room_id).contains(x) {
                    assert(full.unref().to_set().contains(x));
                    let i = choose|i: int| 0 <= i < full.unref().len() && full.unref()[i] == x;
                    assert(*full[i] == x);
                }
                if out@.contains(x) {
                    let i = choose|i: int|
                        0 <= i < seen && *full[i] == x && self.connections@.contains_key(x);
                    assert(full.unref()[i] == x);
                    assert(full.unref().to_set().contains(x));
                    assert(self@.rooms[room_id as int].members.contains(x));
                }
            }
            assert(out@.to_set() =~= audience(self@, room_id));
        }
        out
    }

    /// The connection of client `client_id`, if it has one.
    pub fn connection(&self, client_id: u64) -> (r: Option<&S>)
        requires
            self.wf(),
        ensures
            r is Some <==> self@.connected.contains(client_id),
            r matches Some(s) ==> *s == self.sinks()[client_id],
    {
        self.connections.get(&client_id)
    }
    /// The recipients of a reply to client `client_id` alone.
    fn reply_recipients(&self, client_id: u64) -> (r: Vec<u64>)
        ensures
            r@.no_duplicates(),
            r@.to_set() == reply_audience(self@, client_id),
    {
        let mut r: Vec<u64> = Vec::new();
        if self.connections.contains_key(&client_id) {
            r.push(client_id);
            assert(r@ == seq![client_id]);
            assert(r@.to_set() =~= set![client_id]) by {
                assert(r@[0] == client_id);
            }
        } else {
            assert(r@.to_set() =~= Set::<u64>::empty());
        }
        r
    }

    /// The current state of room `room_id`, as a `StateSent` response.
    fn snapshot(&self, room_id: u64) -> (r: Response)
        requires
            self.wf(),
            room_id < self@.rooms.len(),
        ensures
            r@ is StateSent,
    {
        let n = self.rooms.len();
        assert(room_id < n);
        let state = self.rooms[room_id as usize].reducer.get_state();
        Response::StateSent(state.to_json())
    }

    /// The JSON text of the current state of room `room_id`, as the room's
    /// reducer and state encoder give it.
    fn state_text(&self, room_id: u64) -> String
        requires
            self.wf(),
            room_id < self@.rooms.len(),
    {
        let n = self.rooms.len();
        assert(room_id < n);
        let state = self.rooms[room_id as usize].reducer.get_state();
        state.to_json()
    }

    /// Puts client `client_id` into room `room_id` and returns `state_json`,
    /// the JSON text of the room's state, as a `StateSent` response for it
    /// (see [`entry_outcome`]).
    pub fn insert_client_with_state(&mut self, client_id: u64, room_id: u64, state_json: String) -> (r:
        Result<Response, String>)
        requires
            old(self).wf(),
        ensures
            final(self).wf(),
            final(self).template() == old(self).template(),
            final(self).sinks() == old(self).sinks(),
            entry_outcome(old(self)@, final(self)@, client_id, room_id, state_json@, r),
    {
        let ghost pre = old(self)@;
        let current = match self.clients.get(&client_id) {
            None => {
                let mut m = String::from_str("Client ");
                let id = decimal_string(client_id);
                m.append(id.as_str());
                m.append(" not found");
                return Err(m);
            },
            Some(c) => c.room_id,
        };
        let n = self.rooms.len();
        if room_id >= n as u64 {
            let mut m = String::from_str("Room ");
            let id = decimal_string(room_id);
            m.append(id.as_str());
            m.append(" not found");
            return Err(m);
        }
        if !self.connections.contains_key(&client_id) {
            let mut m = String::from_str("Connection not found for client ");
            let id = decimal_string(client_id);
            m.append(id.as_str());
            return Err(m);
        }
        match current {
            Some(r) => {
                if r != room_id {
                    return Err(String::from_str("Leave current room before joining new"));
                }
                proof {
                    assert(pre.rooms[room_id as int].members.contains(client_id));
                    let w = with_joined(pre, client_id, room_id);
                    assert(w.rooms[room_id as int].members =~= pre.rooms[room_id as int].members);
                    assert(w.rooms =~= pre.rooms);
                    assert(w.clients =~= pre.clients);
                }
            },
            None => {
                self.set_member(room_id as usize, client_id, true);
                self.set_client_room(client_id, Some(room_id));
                proof {
                    lemma_join_consistent(pre, client_id, room_id);
                }
            },
        }
        Ok(Response::StateSent(state_json))
    }

    /// Puts client `client_id` into room `room_id` and returns the room's
    /// current state, as its reducer and state encoder write it, as a
    /// `StateSent` response for it (see [`entry_outcome`]).
    ///
    /// Fails, changing nothing, where the client, the room or the client's
    /// connection is missing, or where the client is in another room.
    pub fn insert_client_to_room(&mut self, client_id: u64, room_id: u64) -> (r: Result<
        Response,
        String,
    >)
        requires
            old(self).wf(),
        ensures
            final(self).wf(),
            final(self).template() == old(self).template(),
            final(self).sinks() == old(self).sinks(),
            exists|state: Seq<char>|
                entry_outcome(old(self)@, final(self)@, client_id, room_id, state, r),
    {
        let n = self.rooms.len();
        let state = if room_id < n as u64 {
            self.state_text(room_id)
        } else {
            String::new()
        };
        let r = self.insert_client_with_state(client_id, room_id, state);
        assert(entry_outcome(old(self)@, self@, client_id, room_id, state@, r));
        r
    }

    /// Handles message `event` from client `client_id` and says who receives
    /// what: the outcome is that of [`process_event`](Self::process_event),
    /// routed as [`routed`] says. Each room's applied results grow by exactly
    /// the action results announced to that room.
    pub fn handle_message(&mut self, client_id: u64, event: JointMessage) -> (ds: Vec<Delivery>)
        requires
            old(self).wf(),
        ensures
            final(self).sinks() == old(self).sinks(),
            consistent(final(self)@),
            new_rooms_cloned(old(self).template(), old(self)@, final(self)@),
            final(self).wf(),
            final(self).template() == old(self).template(),
            handled(old(self)@, final(self)@, client_id, event.message@, ds@),
            forall|r: u64|
                r < old(self)@.rooms.len() ==> #[trigger] final(self)@.rooms[r as int].applied == old(
                    self,
                )@.rooms[r as int].applied + announced_actions(ds@, r),
    {
        let ghost m = event.message@;
        let is_entry = match &event.message {
            JointMessageMethod::Create => true,
            JointMessageMethod::Join(_) => true,
            _ => false,
        };
        let is_leave = match &event.message {
            JointMessageMethod::Leave => true,
            _ => false,
        };
        let res = self.process_event(client_id, event);
        let ghost outcome = res;
        let mut ds: Vec<Delivery> = Vec::new();
        match res {
            Err(e) => {
                let to = self.reply_recipients(e.client);
                ds.push(Delivery { room: None, recipients: to, response: e.response });
            },
            Ok(a) => {
                if is_entry {
                    let state = self.snapshot(a.room);
                    let to = self.reply_recipients(client_id);
                    ds.push(Delivery { room: None, recipients: to, response: state });
                }
                let mut to = self.react_on_message(a.room);
                if is_leave && self.connections.contains_key(&client_id) {
                    let ghost before = to@;
                    assert(!self@.rooms[a.room as int].members.contains(client_id));
                    assert(!before.to_set().contains(client_id));
                    to.push(client_id);
                    assert(to@.to_set() =~= before.to_set().insert(client_id)) by {
                        before.lemma_push_to_set_commute(client_id);
                    }
                    assert(to@.to_set() =~= audience(self@, a.room).union(reply_audience(self@, client_id)));
                } else if is_leave {
                    assert(to@.to_set() =~= audience(self@, a.room).union(reply_audience(self@, client_id)));
                }
                ds.push(Delivery { room: Some(a.room), recipients: to, response: a.response });
            },
        }
        assert(routed(self@, client_id, m, outcome, ds@));
        proof {
            assert forall|r: u64| r < old(self)@.rooms.len() implies #[trigger] self@.rooms[r as int].applied
                == old(self)@.rooms[r as int].applied + announced_actions(ds@, r) by {
                lemma_handled_log(old(self)@, self@, client_id, m, ds@, r);
            }
        }
        ds
    }

    /// Tears client `client_id` down when its connection ends: it leaves its
    /// room, if it is in one, and is removed from both registries. The
    /// remaining members of that room are told with `RoomLeft`.
    pub fn disconnect(&mut self, client_id: u64) -> (ds: Vec<Delivery>)
        requires
            old(self).wf(),
        ensures
            old(self)@.clients.contains_key(client_id) ==> final(self).sinks() == old(self).sinks().remove(client_id),
            !old(self)@.clients.contains_key(client_id) ==> final(self).sinks() == old(self).sinks(),
            consistent(final(self)@),
            final(self).wf(),
            final(self).template() == old(self).template(),
            old(self)@.clients.contains_key(client_id) ==> final(self)@ == without_client(
                old(self)@,
                client_id,
            ),
            !old(self)@.clients.contains_key(client_id) ==> final(self)@ == old(self)@,
            old(self)@.clients.contains_key(client_id) && old(self)@.clients[client_id] is Some ==> {
                let r = old(self)@.clients[client_id]->0;
                &&& ds@.len() == 1
                &&& delivers(ds@[0], Some(r), audience(final(self)@, r), ResponseView::RoomLeft(client_id))
            },
            !(old(self)@.clients.contains_key(client_id) && old(self)@.clients[client_id] is Some)
                ==> ds@.len() == 0,
    {
        let mut ds: Vec<Delivery> = Vec::new();
        match self.remove_client_connection(client_id) {
            None => {},
            Some(left) => {
                let to = self.react_on_message(left.room);
                ds.push(Delivery { room: Some(left.room), recipients: to, response: left.response });
            },
        }
        ds
    }

    /// Applies an action on behalf of client `client_id` to the reducer of
    /// the client's room, given as what the reducer's action type read from
    /// its text, outside any inbound message; returns the reducer's result
    /// without announcing it.
    ///
    /// Fails, changing nothing, for an unregistered client, a client in no
    /// room, or unreadable text (with the reason the action type gave). A
    /// readable action goes to the room's reducer: on success its result is
    /// recorded in the room's applied results; on rejection only the reducer
    /// may have changed.
    pub fn dispatch_parsed(&mut self, client_id: u64, parsed: Result<R::Action, String>) -> (r:
        Result<ActionResponse<R::State>, String>)
        requires
            old(self).wf(),
        ensures
            final(self).wf(),
            final(self).template() == old(self).template(),
            final(self).sinks() == old(self).sinks(),
            !old(self)@.clients.contains_key(client_id) ==> final(self)@ == old(self)@ && (r matches Err(
                m,
            ) && m@ == "Client not found: "@ + decimal(client_id as nat)),
            old(self)@.clients.contains_key(client_id) && old(self)@.clients[client_id] is None
                ==> final(self)@ == old(self)@ && (r matches Err(m) && m@ == "Client not in room"@),
            old(self)@.clients.contains_key(client_id) && old(self)@.clients[client_id] is Some
                ==> {
                let room = old(self)@.clients[client_id]->0 as int;
                let reducer = final(self)@.rooms[room].reducer;
                match parsed {
                    Err(e) => final(self)@ == old(self)@ && (r matches Err(m) && m@ == e@),
                    Ok(_) => match r {
                        Ok(a) => exists|state: Seq<char>|
                            final(self)@ == with_applied(
                                old(self)@,
                                room,
                                reducer,
                                action_text(a.status@, state, a.author, a.data@),
                            ),
                        Err(_) => final(self)@ == with_reducer(old(self)@, room, reducer),
                    },
                }
            },
    {
        let ghost pre = old(self)@;
        let current = match self.clients.get(&client_id) {
            None => {
                let mut m = String::from_str("Client not found: ");
                let id = decimal_string(client_id);
                m.append(id.as_str());
                return Err(m);
            },
            Some(c) => c.room_id,
        };
        let room_id = match current {
            None => {
                return Err(String::from_str("Client not in room"));
            },
            Some(r) => r,
        };
        let n = self.rooms.len();
        assert(pre.clients[client_id] == Some(room_id));
        assert(room_id < n);
        let ri = room_id as usize;
        let action = match parsed {
            Err(e) => {
                return Err(e);
            },
            Ok(a) => a,
        };
        let outcome = self.rooms[ri].reducer.dispatch(client_id, action);
        let ghost reducer = self.rooms@[ri as int].reducer;
        match &outcome {
            Ok(a) => {
                let text = a.to_json();
                let ghost log = self.rooms@[ri as int].applied@.push(text@);
                self.rooms[ri].applied = Ghost(log);
                proof {
                    lemma_applied_consistent(pre, ri as int, reducer, text@);
                    assert(self@.rooms =~= with_applied(pre, ri as int, reducer, text@).rooms);
                    let state = choose|state: Seq<char>|
                        text@ == action_text(a.status@, state, a.author, a.data@);
                    assert(self@ == with_applied(
                        pre,
                        ri as int,
                        reducer,
                        action_text(a.status@, state, a.author, a.data@),
                    ));
                }
            },
            Err(_) => {
                proof {
                    lemma_applied_consistent(pre, ri as int, reducer, Seq::empty());
                    assert(self@.rooms =~= with_reducer(pre, ri as int, reducer).rooms);
                }
            },
        }
        outcome
    }

    /// Applies `action`, the JSON text of an action, on behalf of client
    /// `client_id` outside any inbound message: reads it with the reducer's
    /// action type and hands what came back to
    /// [`dispatch_parsed`](Self::dispatch_parsed).
    pub fn extern_dispatch(&mut self, client_id: u64, action: &str) -> (r: Result<
        ActionResponse<R::State>,
        String,
    >)
        requires
            old(self).wf(),
        ensures
            final(self).wf(),
            final(self).template() == old(self).template(),
            final(self).sinks() == old(self).sinks(),
            !old(self)@.clients.contains_key(client_id) ==> final(self)@ == old(self)@ && (r matches Err(
                m,
            ) && m@ == "Client not found: "@ + decimal(client_id as nat)),
            old(self)@.clients.contains_key(client_id) && old(self)@.clients[client_id] is None
                ==> final(self)@ == old(self)@ && (r matches Err(m) && m@ == "Client not in room"@),
            old(self)@.clients.contains_key(client_id) && old(self)@.clients[client_id] is Some
                ==> {
                let room = old(self)@.clients[client_id]->0 as int;
                let reducer = final(self)@.rooms[room].reducer;
                match r {
                    Ok(a) => exists|state: Seq<char>|
                        final(self)@ == with_applied(
                            old(self)@,
                            room,
                            reducer,
                            action_text(a.status@, state, a.author, a.data@),
                        ),
                    Err(_) => final(self)@ == old(self)@ || final(self)@ == with_reducer(
                        old(self)@,
                        room,
                        reducer,
                    ),
                }
            },
    {
        let parsed = R::Action::from_json(action);
        self.dispatch_parsed(client_id, parsed)
    }
}

} // verus!
