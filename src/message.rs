//! Inbound messages from clients.
use vstd::prelude::*;

verus! {

/// What a client asks of the engine.
#[derive(Debug, Clone)]
pub enum JointMessageMethod {
    /// Create a new room and enter it.
    Create,
    /// Join the room with the given id.
    Join(u64),
    /// Leave the current room.
    Leave,
    /// Apply an action, given as the JSON text of the reducer's action, to the
    /// current room.
    Action(String),
}

/// The mathematical value of a [`JointMessageMethod`].
pub enum MethodView {
    Create,
    Join(u64),
    Leave,
    Action(Seq<char>),
}

impl View for JointMessageMethod {
    type V = MethodView;

    open spec fn view(&self) -> MethodView {
        match self {
            JointMessageMethod::Create => MethodView::Create,
            JointMessageMethod::Join(r) => MethodView::Join(*r),
            JointMessageMethod::Leave => MethodView::Leave,
            JointMessageMethod::Action(a) => MethodView::Action(a@),
        }
    }
}

/// A message received from a client: the request and an opaque token that
/// the engine does not interpret.
#[derive(Debug, Clone)]
pub struct JointMessage {
    pub message: JointMessageMethod,
    pub client_token: String,
}

impl JointMessage {
    /// Creates a message from a request and a client token.
    pub fn new(message: JointMessageMethod, client_token: String) -> (r: JointMessage)
        ensures
            r.message@ == message@,
            r.client_token@ == client_token@,
    {
        JointMessage { message, client_token }
    }
}

} // verus!
