use vstd::prelude::*;
use crate::status::StatusCode;

verus! {

/// A failure of an endpoint or a middleware, with the status that its response will carry.
#[derive(Debug)]
pub struct Error {
    pub status: StatusCode,
    pub message: String,
    /// The name of the kind of failure, where it has one.
    pub kind_name: Option<String>,
}

/// What an [`Error`] holds, as plain values.
pub struct ErrorView {
    pub status: StatusCode,
    pub message: Seq<char>,
    pub kind_name: Option<Seq<char>>,
}

impl View for Error {
    type V = ErrorView;

    open spec fn view(&self) -> ErrorView {
        ErrorView {
            status: self.status,
            message: self.message@,
            kind_name: match self.kind_name {
                Some(name) => Some(name@),
                None => None,
            },
        }
    }
}

impl Error {
    /// An error with the given status and message, of no named kind.
    pub fn from_str(status: StatusCode, message: &str) -> (e: Error)
        ensures
            e@ == (ErrorView { status, message: message@, kind_name: None }),
    {
        Error { status, message: message.to_owned(), kind_name: None }
    }

    /// An error with the given status and message, of the kind of the given name.
    pub fn of_kind(status: StatusCode, message: &str, kind_name: &str) -> (e: Error)
        ensures
            e@ == (ErrorView { status, message: message@, kind_name: Some(kind_name@) }),
    {
        Error {
            status,
            message: message.to_owned(),
            kind_name: Some(kind_name.to_owned()),
        }
    }

    /// The name of the kind of failure, where it has one.
    pub fn kind_name(&self) -> (name: Option<&str>)
        ensures
            name is Some <==> self@.kind_name is Some,
            name matches Some(n) ==> self@.kind_name == Some(n@),
    {
        match &self.kind_name {
            Some(n) => Some(n.as_str()),
            None => None,
        }
    }

    /// The status that a response made from this error carries.
    pub fn status(&self) -> (s: StatusCode)
        ensures
            s == self@.status,
    {
        self.status
    }

    /// The diagnostic text.
    pub fn message(&self) -> (m: &str)
        ensures
            m@ == self@.message,
    {
        self.message.as_str()
    }
}

} // verus!
