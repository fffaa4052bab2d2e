//! The error of the wire protocol.

use vstd::prelude::*;

verus! {

/// Whether a result is the expected value, or an error with the expected message.
pub open spec fn agrees<T, E: View<V = Seq<char>>>(
    result: Result<T, E>,
    expected: Result<T, Seq<char>>,
) -> bool {
    match (result, expected) {
        (Ok(value), Ok(wanted)) => value == wanted,
        (Err(error), Err(message)) => error@ == message,
        _ => false,
    }
}

/// Whether a result stands for the expected value, or is an error with the expected
/// message.
pub open spec fn agrees_view<T: View, E: View<V = Seq<char>>>(
    result: Result<T, E>,
    expected: Result<T::V, Seq<char>>,
) -> bool {
    match (result, expected) {
        (Ok(value), Ok(wanted)) => value@ == wanted,
        (Err(error), Err(message)) => error@ == message,
        _ => false,
    }
}

/// Protocol parse or validation error.
#[derive(Clone, Debug, PartialEq, Eq)]
pub struct ProtocolError {
    message: String,
}

impl View for ProtocolError {
    type V = Seq<char>;

    /// The message.
    closed spec fn view(&self) -> Seq<char> {
        self.message@
    }
}

impl ProtocolError {
    /// An error with the given message.
    pub fn new(message: String) -> (error: Self)
        ensures
            error@ == message@,
    {
        ProtocolError { message }
    }

    /// An error with a fixed message.
    pub fn of(message: &str) -> (error: Self)
        ensures
            error@ == message@,
    {
        ProtocolError { message: message.to_owned() }
    }

    /// Human-readable error message.
    pub fn message(&self) -> (message: &str)
        ensures
            message@ == self@,
    {
        self.message.as_str()
    }

    /// The message as a text of its own.
    pub fn to_text(&self) -> (text: String)
        ensures
            text@ == self@,
    {
        self.message.clone()
    }
}

} // verus!
