use vstd::prelude::*;
use vstd::string::*;

verus! {

/// The closed set of failures an operation can report.
#[derive(Clone, Debug, PartialEq, Eq)]
pub enum ErrorKind {
    /// The resource path matches no known operation.
    NotFound,
    /// The request body does not parse into the expected shape.
    BadRequest,
    /// The resource does not support the request's verb.
    MethodNotAllowed,
    /// Domain logic refused the operation with a message for the user.
    BusinessException(String),
    /// Any other failure, storage failures included.
    InternalServerError,
}

/// The HTTP status that belongs to each kind of failure.
pub open spec fn status_of(e: ErrorKind) -> u16 {
    match e {
        ErrorKind::NotFound => 404,
        ErrorKind::BadRequest => 400,
        ErrorKind::MethodNotAllowed => 405,
        ErrorKind::BusinessException(_) => 400,
        ErrorKind::InternalServerError => 500,
    }
}

/// The human-readable text reported with each kind of failure: the caller's
/// message for a business exception, a fixed generic text otherwise.
pub open spec fn detail_of(e: ErrorKind) -> Seq<char> {
    match e {
        ErrorKind::NotFound => "Not found"@,
        ErrorKind::BadRequest => "Bad request"@,
        ErrorKind::MethodNotAllowed => "Method not allowed"@,
        ErrorKind::BusinessException(m) => m@,
        ErrorKind::InternalServerError => "Internal server error"@,
    }
}

impl ErrorKind {
    /// The HTTP status code of this failure.
    pub fn http_status(&self) -> (r: u16)
        ensures
            r == status_of(*self),
    {
        match self {
            ErrorKind::NotFound => 404,
            ErrorKind::BadRequest => 400,
            ErrorKind::MethodNotAllowed => 405,
            ErrorKind::BusinessException(_) => 400,
            ErrorKind::InternalServerError => 500,
        }
    }

    /// The text shown to the caller for this failure.
    pub fn detail(&self) -> (r: String)
        ensures
            r@ == detail_of(*self),
    {
        match self {
            ErrorKind::NotFound => String::from_str("Not found"),
            ErrorKind::BadRequest => String::from_str("Bad request"),
            ErrorKind::MethodNotAllowed => String::from_str("Method not allowed"),
            ErrorKind::BusinessException(m) => m.clone(),
            ErrorKind::InternalServerError => String::from_str("Internal server error"),
        }
    }
}

/// Why the transport layer refused a request before any handler ran.
#[derive(Clone, Debug, PartialEq, Eq)]
pub enum Rejection {
    /// No route matches the request's path.
    UnknownPath,
    /// The body could not be deserialised into the operation's input.
    MalformedBody,
    /// The route exists but not for the request's verb.
    UnsupportedMethod,
    /// Domain logic refused the request with the given message.
    Business(String),
    /// Anything the transport layer does not classify.
    Unrecognized,
}

/// The kind of failure each rejection is reported as.
pub open spec fn rejection_kind(r: Rejection) -> ErrorKind {
    match r {
        Rejection::UnknownPath => ErrorKind::NotFound,
        Rejection::MalformedBody => ErrorKind::BadRequest,
        Rejection::UnsupportedMethod => ErrorKind::MethodNotAllowed,
        Rejection::Business(m) => ErrorKind::BusinessException(m),
        Rejection::Unrecognized => ErrorKind::InternalServerError,
    }
}

/// Translates a transport rejection into the error taxonomy.
pub fn map_transport_rejection(r: Rejection) -> (e: ErrorKind)
    ensures
        e == rejection_kind(r),
{
    match r {
        Rejection::UnknownPath => ErrorKind::NotFound,
        Rejection::MalformedBody => ErrorKind::BadRequest,
        Rejection::UnsupportedMethod => ErrorKind::MethodNotAllowed,
        Rejection::Business(m) => ErrorKind::BusinessException(m),
        Rejection::Unrecognized => ErrorKind::InternalServerError,
    }
}

/// Every failure is reported with a status of at least 400, so that no
/// failure can be mistaken for the success status 0.
pub proof fn lemma_failure_status_is_error(e: ErrorKind)
    ensures
        400 <= status_of(e) <= 500,
{
}

/// A body that does not parse is a bad request (400); an unknown route is not
/// found (404); a refusal by domain logic is a business exception (400).
pub proof fn lemma_rejection_statuses(m: String)
    ensures
        rejection_kind(Rejection::MalformedBody) == ErrorKind::BadRequest,
        status_of(rejection_kind(Rejection::MalformedBody)) == 400,
        rejection_kind(Rejection::UnknownPath) == ErrorKind::NotFound,
        status_of(rejection_kind(Rejection::UnknownPath)) == 404,
        rejection_kind(Rejection::Business(m)) == ErrorKind::BusinessException(m),
        status_of(ErrorKind::BusinessException(m)) == 400,
        status_of(rejection_kind(Rejection::UnsupportedMethod)) == 405,
        status_of(rejection_kind(Rejection::Unrecognized)) == 500,
{
}

} // verus!
