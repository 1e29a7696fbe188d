//! The two failure kinds a parse can report: a construct that did not match
//! the grammar at the current token, and a token stream exhausted before a
//! construct completed. Both carry a human-readable message.

use vstd::prelude::*;

verus! {

/// Spec-level model of an error: its kind and its message text.
pub enum ErrorV {
    Syntax(Seq<char>),
    Eof(Seq<char>),
}

/// A parse failure. Lexing never fails; these arise only while parsing.
#[derive(Debug, PartialEq)]
pub enum Error {
    /// A construct did not match the expected grammar at the current token.
    Syntax(String),
    /// The token stream was exhausted before a construct completed.
    Eof(String),
}

impl View for Error {
    type V = ErrorV;

    open spec fn view(&self) -> ErrorV {
        match self {
            Error::Syntax(m) => ErrorV::Syntax(m@),
            Error::Eof(m) => ErrorV::Eof(m@),
        }
    }
}

impl Error {
    /// The message carried by either kind of error.
    pub fn message(&self) -> (r: &str)
        ensures
            r@ == match self@ {
                ErrorV::Syntax(m) => m,
                ErrorV::Eof(m) => m,
            },
    {
        match self {
            Error::Syntax(m) => m.as_str(),
            Error::Eof(m) => m.as_str(),
        }
    }
}

} // verus!
