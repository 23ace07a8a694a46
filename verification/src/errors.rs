//! The error taxonomy of the library.

use vstd::prelude::*;

use crate::strutil::{concat_str, dec_rep_i64, i64_string};

verus! {

/// Why an operation failed.
#[derive(Debug)]
pub enum Error {
    /// A workspace or container was looked up by name and is absent.
    NotFound(String),
    /// The container engine's daemon is unreachable; fatal, never retried.
    EngineUnavailable,
    /// A spawned command exited with a non-zero status.
    SubprocessFailed { code: i64 },
    /// A malformed record or response; the record is skipped, a listing
    /// continues.
    ParseFailure(String),
    /// Any other failure, carried as a message.
    Msg(String),
    /// An inner failure augmented with the failing unit's own name.
    Context { name: String, inner: Box<Error> },
}

/// The rendered message of an error.
pub open spec fn spec_message(e: Error) -> Seq<char>
    decreases e,
{
    match e {
        Error::NotFound(name) => "not found: "@ + name@,
        Error::EngineUnavailable => "container engine is unavailable"@,
        Error::SubprocessFailed { code } => "command exited with status "@ + dec_rep_i64(
            code as int,
        ),
        Error::ParseFailure(what) => "malformed record: "@ + what@,
        Error::Msg(m) => m@,
        Error::Context { name, inner } => name@ + ": "@ + spec_message(*inner),
    }
}

impl Error {
    /// Human-readable message identifying the failure; a subprocess failure's
    /// message carries the decimal exit code.
    pub fn message(&self) -> (r: String)
        ensures
            r@ == spec_message(*self),
        decreases *self,
    {
        match self {
            Error::NotFound(name) => {
                let r = concat_str(String::from_str("not found: "), name.as_str());
                r
            },
            Error::EngineUnavailable => String::from_str("container engine is unavailable"),
            Error::SubprocessFailed { code } => {
                let digits = i64_string(*code);
                let r = concat_str(
                    String::from_str("command exited with status "),
                    digits.as_str(),
                );
                r
            },
            Error::ParseFailure(what) => {
                let r = concat_str(String::from_str("malformed record: "), what.as_str());
                r
            },
            Error::Msg(m) => m.clone(),
            Error::Context { name, inner } => {
                let head = concat_str(name.clone(), ": ");
                let tail = inner.message();
                let r = concat_str(head, tail.as_str());
                r
            },
        }
    }

    /// Wrap an error with the name of the unit that failed, for traceability.
    pub fn with_context(self, name: String) -> (r: Error)
        ensures
            r == (Error::Context { name, inner: Box::new(self) }),
    {
        Error::Context { name, inner: Box::new(self) }
    }
}

} // verus!
