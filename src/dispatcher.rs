//! The reducer contract and the result of an applied action.
use vstd::prelude::*;
use crate::json::{decimal, decimal_string, json_quoted, quote};
use crate::utils::types::{Broadcastable, Receivable};

verus! {

/// The result of an action that a reducer applied: the action's name, the
/// full state after it, the client it was applied for, and free-form data.
#[derive(Debug)]
pub struct ActionResponse<S> {
    pub status: String,
    pub state: S,
    pub author: u64,
    pub data: String,
}

/// The JSON text of an action result whose state is written as `state`:
/// `{"status":<status>,"state":<state>,"author":<author>,"data":<data>}`.
pub open spec fn action_text(
    status: Seq<char>,
    state: Seq<char>,
    author: u64,
    data: Seq<char>,
) -> Seq<char> {
    "{\"status\":"@ + json_quoted(status) + ",\"state\":"@ + state + ",\"author\":"@ + decimal(
        author as nat,
    ) + ",\"data\":"@ + json_quoted(data) + "}"@
}

/// The JSON text of an action result whose state has the JSON text
/// `state_json`.
pub fn action_json(status: &str, state_json: &str, author: u64, data: &str) -> (r: String)
    ensures
        r@ == action_text(status@, state_json@, author, data@),
{
    let mut out = String::from_str("{\"status\":");
    let s = quote(status);
    out.append(s.as_str());
    out.append(",\"state\":");
    out.append(state_json);
    out.append(",\"author\":");
    let a = decimal_string(author);
    out.append(a.as_str());
    out.append(",\"data\":");
    let d = quote(data);
    out.append(d.as_str());
    out.append("}");
    out
}

impl<S: Broadcastable> ActionResponse<S> {
    /// The JSON text of the result, with the state written by its own encoder.
    pub fn to_json(&self) -> (r: String)
        ensures
            exists|state: Seq<char>| r@ == action_text(self.status@, state, self.author, self.data@),
    {
        let state = self.state.to_json();
        let r = action_json(self.status.as_str(), state.as_str(), self.author, self.data.as_str());
        assert(r@ == action_text(self.status@, state@, self.author, self.data@));
        r
    }
}

/// A reducer: the owner of one room's state.
///
/// The engine clones a template reducer for each new room, and applies the
/// actions of the room's members to it one at a time.
pub trait Dispatchable: Clone {
    /// The actions the reducer understands, read from the JSON text clients send.
    type Action: Receivable;

    /// The reducer's state, sent to clients as JSON text.
    type State: Broadcastable;

    /// Applies `action` on behalf of `client_id`, or rejects it with a reason.
    fn dispatch(&mut self, client_id: u64, action: Self::Action) -> Result<
        ActionResponse<Self::State>,
        String,
    >;

    /// Reads an action from its JSON text and applies it as `dispatch` does.
    fn extern_dispatch(&mut self, client_id: u64, action: &str) -> Result<
        ActionResponse<Self::State>,
        String,
    >;

    /// A copy of the current state.
    fn get_state(&self) -> Self::State;
}

} // verus!
