//! What can go wrong in a query.

use vstd::prelude::*;
use vstd::string::StringExecFns;

verus! {

/// Why a query, or one facet of it, failed.
#[derive(Clone, Debug, PartialEq, Eq)]
pub enum QueryError {
    /// The target is no IPv4 address and resolves to none.
    Resolution,
    /// The socket could not be bound, connected, written or read; the text
    /// says how.
    Socket(String),
    /// No answer came in time.
    Timeout,
    /// The answer is empty, or of no known type.
    NoData,
    /// A field of the answer runs past its end.
    MalformedPacket,
}

/// The text of an error.
pub open spec fn error_text(error: QueryError) -> Seq<char> {
    match error {
        QueryError::Resolution => "Invalid IP address: invalid IPv4 address syntax"@,
        QueryError::Socket(detail) => detail@,
        QueryError::Timeout => "deadline has elapsed"@,
        QueryError::NoData => "no_data"@,
        QueryError::MalformedPacket => "malformed_packet"@,
    }
}

impl QueryError {
    /// The error as text.
    pub fn message(&self) -> (text: String)
        ensures
            text@ == error_text(*self),
    {
        match self {
            QueryError::Resolution => String::from_str(
                "Invalid IP address: invalid IPv4 address syntax",
            ),
            QueryError::Socket(detail) => detail.clone(),
            QueryError::Timeout => String::from_str("deadline has elapsed"),
            QueryError::NoData => String::from_str("no_data"),
            QueryError::MalformedPacket => String::from_str("malformed_packet"),
        }
    }
}

} // verus!
