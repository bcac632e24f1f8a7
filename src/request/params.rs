//! Typed parameters recovered from a recorded request.
use crate::archive::entry::EntryError;
use crate::request::Request;
use vstd::prelude::*;

verus! {

/// Why a recorded request did not match a target's request grammar.
#[derive(Clone, Copy, Debug, PartialEq, Eq)]
pub enum ParseError {
    /// The URL did not have the expected shape.
    InvalidUrl { expected: &'static str },
    /// The body did not have the expected shape.
    InvalidBody { expected: &'static str },
    /// Any other failure.
    Other { message: &'static str },
}

/// The text of an optional body; an absent body reads as empty.
pub open spec fn body_text(body: Option<String>) -> Seq<char> {
    match body {
        Some(b) => b@,
        None => Seq::empty(),
    }
}

impl ParseError {
    /// Whether `e` is the decoding error that reports this failure on
    /// `request`: the offending URL or body text with the expected shape, or
    /// the message as it stands.
    pub open spec fn reported_as(self, e: EntryError, request: Request) -> bool {
        match self {
            ParseError::InvalidUrl { expected } => e matches EntryError::InvalidValue { unexpected, expected: x }
                && unexpected@ == request.url@ && x@ == expected@,
            ParseError::InvalidBody { expected } => e matches EntryError::InvalidValue { unexpected, expected: x }
                && unexpected@ == body_text(request.body) && x@ == expected@,
            ParseError::Other { message } => e matches EntryError::Custom(m) && m@ == message@,
        }
    }

    /// The decoding error that reports this failure on `request`.
    pub fn serde(self, request: &Request) -> (r: EntryError)
        ensures
            self.reported_as(r, *request),
    {
        match self {
            ParseError::InvalidUrl { expected } => EntryError::InvalidValue {
                unexpected: request.url.clone(),
                expected: String::from_str(expected),
            },
            ParseError::InvalidBody { expected } => {
                let unexpected = match &request.body {
                    Some(b) => b.clone(),
                    None => String::new(),
                };
                EntryError::InvalidValue { unexpected, expected: String::from_str(expected) }
            },
            ParseError::Other { message } => EntryError::Custom(String::from_str(message)),
        }
    }
}

/// Parameters of one scraping target, recovered from a recorded request by
/// matching its URL and body against the target's request grammar.
pub trait Params: Sized {
    /// A request that these parameters describe, at the given time (now when
    /// none is given).
    fn build_request(&self, timestamp_ms: Option<i64>) -> Request;

    /// The parameters that `request` carries, or why it does not match the
    /// target's grammar.
    fn parse_request(request: &Request) -> Result<Self, ParseError>;
}

} // verus!
