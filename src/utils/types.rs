//! The codec traits of a reducer's state and action types.
use vstd::prelude::*;

verus! {

/// A value that can be sent to clients as JSON text.
pub trait Broadcastable {
    /// The JSON text of the value.
    fn to_json(&self) -> String;
}

/// A value that can be read from the JSON text a client sent.
pub trait Receivable: Sized {
    /// Reads a value from JSON text, or says why it could not.
    fn from_json(text: &str) -> Result<Self, String>;
}

} // verus!
