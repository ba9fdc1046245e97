//! Outbound responses, their wire form, and the envelopes that say who
//! receives them.
use vstd::prelude::*;
use crate::json::{canonical, decimal, decimal_string, json_canonical, json_quoted, quote};

verus! {

/// The `status` tag of a response on the wire.
#[derive(Debug, Clone, Copy, PartialEq, Eq, Structural)]
pub enum ResponseStatus {
    /// A room was created. Sent to the room.
    RoomCreated,
    /// A client joined a room. Sent to the room.
    RoomJoined,
    /// The current state, sent to a client that has just entered a room.
    StateSent,
    /// An action was applied. Sent to the room.
    Action,
    /// A client left a room. Sent to the room.
    RoomLeft,
    /// A payload could not be parsed. Sent to the sender only.
    ServerError,
    /// The sender broke a precondition. Sent to the sender only.
    ClientError,
    /// A room or client is missing. Sent to the sender only.
    NotFound,
}

/// A response sent to clients.
///
/// `StateSent` and `Action` carry JSON text that is embedded in the frame as
/// a document; the three error variants carry a human-readable message.
#[derive(Debug, Clone)]
pub enum Response {
    RoomCreated(u64),
    RoomJoined(u64),
    StateSent(String),
    Action(String),
    RoomLeft(u64),
    ServerError(String),
    ClientError(String),
    NotFound(String),
}

/// The mathematical value of a [`Response`].
pub enum ResponseView {
    RoomCreated(u64),
    RoomJoined(u64),
    StateSent(Seq<char>),
    Action(Seq<char>),
    RoomLeft(u64),
    ServerError(Seq<char>),
    ClientError(Seq<char>),
    NotFound(Seq<char>),
}

impl View for Response {
    type V = ResponseView;

    open spec fn view(&self) -> ResponseView {
        match self {
            Response::RoomCreated(n) => ResponseView::RoomCreated(*n),
            Response::RoomJoined(n) => ResponseView::RoomJoined(*n),
            Response::StateSent(s) => ResponseView::StateSent(s@),
            Response::Action(s) => ResponseView::Action(s@),
            Response::RoomLeft(n) => ResponseView::RoomLeft(*n),
            Response::ServerError(s) => ResponseView::ServerError(s@),
            Response::ClientError(s) => ResponseView::ClientError(s@),
            Response::NotFound(s) => ResponseView::NotFound(s@),
        }
    }
}

/// The `message` field of a response on the wire, before it is written out.
pub enum MessageValue {
    /// An unsigned integer.
    Unsigned(u64),
    /// A string, written quoted.
    Text(String),
    /// A JSON document in compact form, written as it is.
    Json(String),
}

/// The mathematical value of a [`MessageValue`].
pub enum MessageView {
    Unsigned(u64),
    Text(Seq<char>),
    Json(Seq<char>),
}

impl View for MessageValue {
    type V = MessageView;

    open spec fn view(&self) -> MessageView {
        match self {
            MessageValue::Unsigned(n) => MessageView::Unsigned(*n),
            MessageValue::Text(s) => MessageView::Text(s@),
            MessageValue::Json(s) => MessageView::Json(s@),
        }
    }
}

/// The status tag of a response.
pub open spec fn status_of(r: ResponseView) -> ResponseStatus {
    match r {
        ResponseView::RoomCreated(_) => ResponseStatus::RoomCreated,
        ResponseView::RoomJoined(_) => ResponseStatus::RoomJoined,
        ResponseView::StateSent(_) => ResponseStatus::StateSent,
        ResponseView::Action(_) => ResponseStatus::Action,
        ResponseView::RoomLeft(_) => ResponseStatus::RoomLeft,
        ResponseView::ServerError(_) => ResponseStatus::ServerError,
        ResponseView::ClientError(_) => ResponseStatus::ClientError,
        ResponseView::NotFound(_) => ResponseStatus::NotFound,
    }
}

/// How a JSON payload travels: as the document it holds, in compact form, or
/// quoted as a string where it is not JSON.
pub open spec fn payload_message(p: Seq<char>) -> MessageView {
    match json_canonical(p) {
        Some(c) => MessageView::Json(c),
        None => MessageView::Text(p),
    }
}

/// The `message` field that a response is written with.
pub open spec fn wire_message(r: ResponseView) -> MessageView {
    match r {
        ResponseView::RoomCreated(n) => MessageView::Unsigned(n),
        ResponseView::RoomJoined(n) => MessageView::Unsigned(n),
        ResponseView::StateSent(p) => payload_message(p),
        ResponseView::Action(p) => payload_message(p),
        ResponseView::RoomLeft(n) => MessageView::Unsigned(n),
        ResponseView::ServerError(s) => MessageView::Text(s),
        ResponseView::ClientError(s) => MessageView::Text(s),
        ResponseView::NotFound(s) => MessageView::Text(s),
    }
}

/// The text that a payload-carrying message is read back as: a string as it
/// is, anything else as its JSON text.
pub open spec fn message_as_payload(m: MessageView) -> Seq<char> {
    match m {
        MessageView::Unsigned(n) => decimal(n as nat),
        MessageView::Text(s) => s,
        MessageView::Json(c) => c,
    }
}

/// The response that a status and a message stand for, or `None` where the
/// message does not have the type that the status asks for.
pub open spec fn decode_parts(s: ResponseStatus, m: MessageView) -> Option<ResponseView> {
    match s {
        ResponseStatus::RoomCreated => match m {
            MessageView::Unsigned(n) => Some(ResponseView::RoomCreated(n)),
            _ => None,
        },
        ResponseStatus::RoomJoined => match m {
            MessageView::Unsigned(n) => Some(ResponseView::RoomJoined(n)),
            _ => None,
        },
        ResponseStatus::RoomLeft => match m {
            MessageView::Unsigned(n) => Some(ResponseView::RoomLeft(n)),
            _ => None,
        },
        ResponseStatus::StateSent => Some(ResponseView::StateSent(message_as_payload(m))),
        ResponseStatus::Action => Some(ResponseView::Action(message_as_payload(m))),
        ResponseStatus::ServerError => match m {
            MessageView::Text(t) => Some(ResponseView::ServerError(t)),
            _ => None,
        },
        ResponseStatus::ClientError => match m {
            MessageView::Text(t) => Some(ResponseView::ClientError(t)),
            _ => None,
        },
        ResponseStatus::NotFound => match m {
            MessageView::Text(t) => Some(ResponseView::NotFound(t)),
            _ => None,
        },
    }
}

/// The name of a status as it appears on the wire.
pub open spec fn status_name(s: ResponseStatus) -> Seq<char> {
    match s {
        ResponseStatus::RoomCreated => "RoomCreated"@,
        ResponseStatus::RoomJoined => "RoomJoined"@,
        ResponseStatus::StateSent => "StateSent"@,
        ResponseStatus::Action => "Action"@,
        ResponseStatus::RoomLeft => "RoomLeft"@,
        ResponseStatus::ServerError => "ServerError"@,
        ResponseStatus::ClientError => "ClientError"@,
        ResponseStatus::NotFound => "NotFound"@,
    }
}

/// The JSON text of a message value.
pub open spec fn message_text(m: MessageView) -> Seq<char> {
    match m {
        MessageView::Unsigned(n) => decimal(n as nat),
        MessageView::Text(s) => json_quoted(s),
        MessageView::Json(c) => c,
    }
}

/// The JSON frame `{"status":"<status>","message":<message>}`.
pub open spec fn frame_text(s: ResponseStatus, m: MessageView) -> Seq<char> {
    "{\"status\":\""@ + status_name(s) + "\",\"message\":"@ + message_text(m) + "}"@
}

/// The responses whose payload, if it is JSON, is already in compact form.
pub open spec fn keeps_wire_form(r: ResponseView) -> bool {
    match r {
        ResponseView::StateSent(p) => json_canonical(p) is None || json_canonical(p) == Some(p),
        ResponseView::Action(p) => json_canonical(p) is None || json_canonical(p) == Some(p),
        _ => true,
    }
}

/// Reading back the status and message that a response is written with gives
/// the same response, for every response whose payload is not JSON or is JSON
/// already in compact form. A payload that is JSON with other spacing is read
/// back in compact form instead.
pub proof fn lemma_parts_round_trip(r: ResponseView)
    requires
        keeps_wire_form(r),
    ensures
        decode_parts(status_of(r), wire_message(r)) == Some(r),
{
}

impl ResponseStatus {
    /// The name of the status as it appears on the wire.
    pub fn name(&self) -> (r: &'static str)
        ensures
            r@ == status_name(*self),
    {
        match self {
            ResponseStatus::RoomCreated => "RoomCreated",
            ResponseStatus::RoomJoined => "RoomJoined",
            ResponseStatus::StateSent => "StateSent",
            ResponseStatus::Action => "Action",
            ResponseStatus::RoomLeft => "RoomLeft",
            ResponseStatus::ServerError => "ServerError",
            ResponseStatus::ClientError => "ClientError",
            ResponseStatus::NotFound => "NotFound",
        }
    }
}

impl ResponseStatus {
    /// The status whose wire name is `name`, if any.
    pub fn from_name(name: &str) -> (r: Option<ResponseStatus>)
        ensures
            match r {
                Some(s) => status_name(s) == name@,
                None => forall|s: ResponseStatus| status_name(s) != name@,
            },
    {
        let n = String::from_str(name);
        if n == String::from_str("RoomCreated") {
            Some(ResponseStatus::RoomCreated)
        } else if n == String::from_str("RoomJoined") {
            Some(ResponseStatus::RoomJoined)
        } else if n == String::from_str("StateSent") {
            Some(ResponseStatus::StateSent)
        } else if n == String::from_str("Action") {
            Some(ResponseStatus::Action)
        } else if n == String::from_str("RoomLeft") {
            Some(ResponseStatus::RoomLeft)
        } else if n == String::from_str("ServerError") {
            Some(ResponseStatus::ServerError)
        } else if n == String::from_str("ClientError") {
            Some(ResponseStatus::ClientError)
        } else if n == String::from_str("NotFound") {
            Some(ResponseStatus::NotFound)
        } else {
            None
        }
    }
}

impl MessageValue {
    /// The JSON text of the message value.
    pub fn to_json(&self) -> (r: String)
        ensures
            r@ == message_text(self@),
    {
        match self {
            MessageValue::Unsigned(n) => decimal_string(*n),
            MessageValue::Text(s) => quote(s.as_str()),
            MessageValue::Json(c) => c.clone(),
        }
    }
}

/// The message that a state or action payload is written with.
fn payload_value(p: &String) -> (r: MessageValue)
    ensures
        r@ == payload_message(p@),
{
    match canonical(p.as_str()) {
        Some(c) => MessageValue::Json(c),
        None => MessageValue::Text(p.clone()),
    }
}

impl Response {
    /// The status tag of the response.
    pub fn status(&self) -> (r: ResponseStatus)
        ensures
            r == status_of(self@),
    {
        match self {
            Response::RoomCreated(_) => ResponseStatus::RoomCreated,
            Response::RoomJoined(_) => ResponseStatus::RoomJoined,
            Response::StateSent(_) => ResponseStatus::StateSent,
            Response::Action(_) => ResponseStatus::Action,
            Response::RoomLeft(_) => ResponseStatus::RoomLeft,
            Response::ServerError(_) => ResponseStatus::ServerError,
            Response::ClientError(_) => ResponseStatus::ClientError,
            Response::NotFound(_) => ResponseStatus::NotFound,
        }
    }

    /// The `message` field that the response is written with.
    pub fn message(&self) -> (r: MessageValue)
        ensures
            r@ == wire_message(self@),
    {
        match self {
            Response::RoomCreated(n) => MessageValue::Unsigned(*n),
            Response::RoomJoined(n) => MessageValue::Unsigned(*n),
            Response::StateSent(p) => payload_value(p),
            Response::Action(p) => payload_value(p),
            Response::RoomLeft(n) => MessageValue::Unsigned(*n),
            Response::ServerError(s) => MessageValue::Text(s.clone()),
            Response::ClientError(s) => MessageValue::Text(s.clone()),
            Response::NotFound(s) => MessageValue::Text(s.clone()),
        }
    }

    /// Rebuilds a response from its status and message, or `None` where the
    /// message does not have the type that the status asks for.
    pub fn from_parts(status: ResponseStatus, message: MessageValue) -> (r: Option<Response>)
        ensures
            match r {
                Some(x) => decode_parts(status, message@) == Some(x@),
                None => decode_parts(status, message@) is None,
            },
    {
        match status {
            ResponseStatus::RoomCreated => match message {
                MessageValue::Unsigned(n) => Some(Response::RoomCreated(n)),
                _ => None,
            },
            ResponseStatus::RoomJoined => match message {
                MessageValue::Unsigned(n) => Some(Response::RoomJoined(n)),
                _ => None,
            },
            ResponseStatus::RoomLeft => match message {
                MessageValue::Unsigned(n) => Some(Response::RoomLeft(n)),
                _ => None,
            },
            ResponseStatus::StateSent => Some(Response::StateSent(Self::payload_text(message))),
            ResponseStatus::Action => Some(Response::Action(Self::payload_text(message))),
            ResponseStatus::ServerError => match message {
                MessageValue::Text(t) => Some(Response::ServerError(t)),
                _ => None,
            },
            ResponseStatus::ClientError => match message {
                MessageValue::Text(t) => Some(Response::ClientError(t)),
                _ => None,
            },
            ResponseStatus::NotFound => match message {
                MessageValue::Text(t) => Some(Response::NotFound(t)),
                _ => None,
            },
        }
    }

    fn payload_text(message: MessageValue) -> (r: String)
        ensures
            r@ == message_as_payload(message@),
    {
        match message {
            MessageValue::Unsigned(n) => decimal_string(n),
            MessageValue::Text(s) => s,
            MessageValue::Json(c) => c,
        }
    }

    /// The JSON frame of the response: `{"status":"<status>","message":<message>}`.
    pub fn to_json(&self) -> (r: String)
        ensures
            r@ == frame_text(status_of(self@), wire_message(self@)),
    {
        let mut out = String::from_str("{\"status\":\"");
        out.append(self.status().name());
        out.append("\",\"message\":");
        let m = self.message().to_json();
        out.append(m.as_str());
        out.append("}");
        out
    }
}

/// A response addressed to every member of a room.
#[derive(Debug)]
pub struct RoomResponse {
    pub room: u64,
    pub response: Response,
}

impl RoomResponse {
    /// Announces that room `room` was created.
    pub fn create_room(room: u64) -> (r: RoomResponse)
        ensures
            r.room == room,
            r.response@ == ResponseView::RoomCreated(room),
    {
        RoomResponse { room, response: Response::RoomCreated(room) }
    }

    /// Announces that client `client` joined room `room`.
    pub fn join_room(room: u64, client: u64) -> (r: RoomResponse)
        ensures
            r.room == room,
            r.response@ == ResponseView::RoomJoined(client),
    {
        RoomResponse { room, response: Response::RoomJoined(client) }
    }

    /// Carries the JSON text of an applied action to room `room`.
    pub fn action(room: u64, payload: String) -> (r: RoomResponse)
        ensures
            r.room == room,
            r.response@ == ResponseView::Action(payload@),
    {
        RoomResponse { room, response: Response::Action(payload) }
    }

    /// Announces that client `client` left room `room`.
    pub fn leave_room(room: u64, client: u64) -> (r: RoomResponse)
        ensures
            r.room == room,
            r.response@ == ResponseView::RoomLeft(client),
    {
        RoomResponse { room, response: Response::RoomLeft(client) }
    }

    /// The JSON text `{"room":<room>,"payload":<response>}`.
    pub fn to_json(&self) -> (r: String)
        ensures
            r@ == "{\"room\":"@ + decimal(self.room as nat) + ",\"payload\":"@ + frame_text(
                status_of(self.response@),
                wire_message(self.response@),
            ) + "}"@,
    {
        let mut out = String::from_str("{\"room\":");
        let room = decimal_string(self.room);
        out.append(room.as_str());
        out.append(",\"payload\":");
        let inner = self.response.to_json();
        out.append(inner.as_str());
        out.append("}");
        out
    }
}

/// A response addressed to one client only.
#[derive(Debug)]
pub struct ClientResponse {
    pub client: u64,
    pub response: Response,
}

impl ClientResponse {
    /// A `ServerError` with `message` for client `client`.
    pub fn server_error(client: u64, message: String) -> (r: ClientResponse)
        ensures
            r.client == client,
            r.response@ == ResponseView::ServerError(message@),
    {
        ClientResponse { client, response: Response::ServerError(message) }
    }

    /// A `ClientError` with `message` for client `client`.
    pub fn client_error(client: u64, message: String) -> (r: ClientResponse)
        ensures
            r.client == client,
            r.response@ == ResponseView::ClientError(message@),
    {
        ClientResponse { client, response: Response::ClientError(message) }
    }

    /// A `NotFound` with `message` for client `client`.
    pub fn not_found(client: u64, message: String) -> (r: ClientResponse)
        ensures
            r.client == client,
            r.response@ == ResponseView::NotFound(message@),
    {
        ClientResponse { client, response: Response::NotFound(message) }
    }

    /// The JSON text `{"client":<client>,"error":<response>}`.
    pub fn to_json(&self) -> (r: String)
        ensures
            r@ == "{\"client\":"@ + decimal(self.client as nat) + ",\"error\":"@ + frame_text(
                status_of(self.response@),
                wire_message(self.response@),
            ) + "}"@,
    {
        let mut out = String::from_str("{\"client\":");
        let client = decimal_string(self.client);
        out.append(client.as_str());
        out.append(",\"error\":");
        let inner = self.response.to_json();
        out.append(inner.as_str());
        out.append("}");
        out
    }
}

} // verus!
