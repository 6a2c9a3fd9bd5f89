//! Errors of a generation run.
use vstd::prelude::*;

verus! {

/// `std::io::Error`, carried through as an opaque value.
#[verifier::external_type_specification]
#[verifier::external_body]
pub struct ExIoError(std::io::Error);

/// An error that occurred when generating files.
#[derive(Debug)]
pub struct Error {
    inner: Box<ErrorInner>,
}

/// What went wrong.
#[derive(Debug)]
pub enum ErrorInner {
    Msg(String),
    IoError(std::io::Error),
}

impl Error {
    /// The message of an error made by `with_msg`, if this is one.
    pub closed spec fn message(&self) -> Option<Seq<char>> {
        match *self.inner {
            ErrorInner::Msg(s) => Some(s@),
            ErrorInner::IoError(_) => None,
        }
    }

    /// The input-output error that this error carries, if it is one.
    pub closed spec fn io_error(&self) -> Option<std::io::Error> {
        match *self.inner {
            ErrorInner::Msg(_) => None,
            ErrorInner::IoError(e) => Some(e),
        }
    }

    /// The error that carries the input-output error `e`.
    pub closed spec fn of_io(e: std::io::Error) -> Error {
        Error { inner: Box::new(ErrorInner::IoError(e)) }
    }

    /// Create a new error object with the given message.
    pub fn with_msg(msg: &str) -> (r: Error)
        ensures
            r.message() == Some(msg@),
    {
        Error { inner: Box::new(ErrorInner::Msg(String::from_str(msg))) }
    }

    /// What went wrong.
    pub fn inner(&self) -> (r: &ErrorInner)
        ensures
            r matches ErrorInner::Msg(s) ==> self.message() == Some(s@),
            r matches ErrorInner::IoError(e) ==> self.io_error() == Some(*e),
    {
        &self.inner
    }
}

impl From<std::io::Error> for Error {
    fn from(e: std::io::Error) -> (r: Error)
        ensures
            r.io_error() == Some(e),
    {
        Error { inner: Box::new(ErrorInner::IoError(e)) }
    }
}

impl vstd::std_specs::convert::FromSpecImpl<std::io::Error> for Error {
    open spec fn obeys_from_spec() -> bool {
        true
    }

    open spec fn from_spec(e: std::io::Error) -> Error {
        Error::of_io(e)
    }
}

} // verus!
