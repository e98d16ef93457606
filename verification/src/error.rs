use vstd::prelude::*;

verus! {

/// The failure kinds the data access layer can report. Driver and query
/// failures carry the driver's message; a mapping failure carries the key of
/// the document field that could not be read; an identifier failure carries
/// the offending identifier text.
#[derive(Debug, Clone, PartialEq, Eq)]
pub enum Error {
    /// A connection or other driver-level failure.
    MongoError(String),
    /// A failure while executing a query.
    MongoQueryError(String),
    /// A required document field was absent or of the wrong type.
    MongoDataError(String),
    /// A caller-supplied identifier is not well formed.
    InvalidIDError(String),
}

/// What a request can be rejected for, in the order the boundary tells them
/// apart: an unmatched route, a body that would not deserialize, an
/// application error, an unmatched verb on a known route, or anything else.
#[derive(Debug, PartialEq, Eq)]
pub enum RejectionKind {
    NotFound,
    InvalidBody,
    App(Error),
    MethodNotAllowed,
    Other,
}

/// The HTTP status code a rejection maps to. Every application-level error
/// kind collapses to 500; only unmatched routes, malformed bodies and
/// unmatched verbs keep a status of their own.
pub open spec fn status_code_of(kind: RejectionKind) -> u16 {
    match kind {
        RejectionKind::NotFound => 404,
        RejectionKind::InvalidBody => 400,
        RejectionKind::App(_) => 500,
        RejectionKind::MethodNotAllowed => 405,
        RejectionKind::Other => 500,
    }
}

/// The message the response body carries for a rejection.
pub open spec fn message_of(kind: RejectionKind) -> Seq<char> {
    match kind {
        RejectionKind::NotFound => "Not Found"@,
        RejectionKind::InvalidBody => "Invalid Body"@,
        RejectionKind::App(_) => "Internal Server Error"@,
        RejectionKind::MethodNotAllowed => "Method Not Allowed"@,
        RejectionKind::Other => "Internal Server Error"@,
    }
}

/// The status code and message for a rejection, exactly as `status_code_of`
/// and `message_of` give them.
pub fn rejection_status(kind: &RejectionKind) -> (r: (u16, String))
    ensures
        r.0 == status_code_of(*kind),
        r.1@ == message_of(*kind),
{
    match kind {
        RejectionKind::NotFound => (404, String::from_str("Not Found")),
        RejectionKind::InvalidBody => (400, String::from_str("Invalid Body")),
        RejectionKind::App(_) => (500, String::from_str("Internal Server Error")),
        RejectionKind::MethodNotAllowed => (405, String::from_str("Method Not Allowed")),
        RejectionKind::Other => (500, String::from_str("Internal Server Error")),
    }
}

} // verus!
