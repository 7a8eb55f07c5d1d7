//! The error that the command-line front end reports: a message for the user.
use vstd::prelude::*;

verus! {

/// An error of a top-level command, carried as its message.
#[derive(Debug)]
pub struct Error {
    pub message: String,
}

impl Error {
    /// An error with the given message.
    pub fn new(message: String) -> (r: Self)
        ensures
            r.message == message,
    {
        Self { message }
    }

    /// The message, as the error is shown to the user.
    pub fn to_string(&self) -> (r: String)
        ensures
            r@ == self.message@,
    {
        self.message.clone()
    }
}

impl From<String> for Error {
    fn from(message: String) -> (r: Self)
        ensures
            r.message == message,
    {
        Self { message }
    }
}

impl vstd::std_specs::convert::FromSpecImpl<String> for Error {
    open spec fn obeys_from_spec() -> bool {
        true
    }

    open spec fn from_spec(message: String) -> Error {
        Error { message }
    }
}

impl From<&str> for Error {
    fn from(message: &str) -> (r: Self)
        ensures
            r.message@ == message@,
    {
        Self { message: message.to_string() }
    }
}

impl vstd::std_specs::convert::FromSpecImpl<&str> for Error {
    open spec fn obeys_from_spec() -> bool {
        false
    }

    open spec fn from_spec(message: &str) -> Error {
        arbitrary()
    }
}

} // verus!
