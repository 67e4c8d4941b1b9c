//! The error of this library.

use vstd::prelude::*;

verus! {

/// A failure with a message for people.
#[derive(Debug)]
pub enum Error {
    Other(String),
}

impl Error {
    /// The characters of the message.
    pub open spec fn text(&self) -> Seq<char> {
        match self {
            Error::Other(s) => s@,
        }
    }

    /// The message.
    pub fn message(&self) -> (r: &str)
        ensures
            r@ == self.text(),
    {
        match self {
            Error::Other(s) => s.as_str(),
        }
    }

    /// An error with this message.
    pub fn other(message: &str) -> (r: Error)
        ensures
            r.text() == message@,
    {
        Error::Other(message.to_owned())
    }
}

/// A failure whose message is `text`.
pub open spec fn fails_with<T>(r: Result<T, Error>, text: Seq<char>) -> bool {
    match r {
        Ok(_) => false,
        Err(e) => e.text() == text,
    }
}

} // verus!
