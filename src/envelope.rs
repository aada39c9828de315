use vstd::prelude::*;

use crate::error::{detail_of, map_transport_rejection, rejection_kind, status_of, ErrorKind, Rejection};

verus! {

/// The error part of an envelope.
#[derive(Clone, Debug, PartialEq, Eq)]
pub struct ErrorResponse {
    pub code: ErrorKind,
    pub detail: String,
}

/// The uniform wrapper of every response: `status` is 0 on success and the
/// HTTP status on failure; exactly one of `error` and `data` is present.
#[derive(Clone, Debug, PartialEq, Eq)]
pub struct Envelope<T> {
    pub status: u16,
    pub error: Option<ErrorResponse>,
    pub data: Option<T>,
}

/// The envelope reports the failure `e` under the status `status`.
pub open spec fn reports_error<T>(r: Envelope<T>, status: u16, e: ErrorKind) -> bool {
    &&& r.status == status
    &&& r.data is None
    &&& r.error matches Some(er) && er.code == e && er.detail@ == detail_of(e)
}

/// The envelope a result is answered with: the data under status 0, or the
/// failure under its own HTTP status.
pub open spec fn answers<T>(r: Envelope<T>, result: Result<T, ErrorKind>) -> bool {
    match result {
        Ok(d) => r.status == 0 && r.error is None && r.data == Some(d),
        Err(e) => reports_error(r, status_of(e), e),
    }
}

/// A successful envelope has status 0 and no error; a failed one has a
/// non-zero status, no data and an error.
pub open spec fn well_shaped<T>(r: Envelope<T>) -> bool {
    ||| (r.status == 0 && r.error is None && r.data is Some)
    ||| (r.status != 0 && r.error is Some && r.data is None)
}

/// Wraps the data of a successful operation.
pub fn wrap_json_data<T>(data: T) -> (r: Envelope<T>)
    ensures
        r.status == 0,
        r.error is None,
        r.data == Some(data),
{
    Envelope { status: 0, error: None, data: Some(data) }
}

/// Wraps a failure under the given status.
pub fn wrap_json_err<T>(status: u16, error: ErrorKind) -> (r: Envelope<T>)
    ensures
        reports_error(r, status, error),
{
    let detail = error.detail();
    Envelope { status, error: Some(ErrorResponse { detail, code: error }), data: None }
}

/// Answers the result of an operation.
pub fn response<T>(result: Result<T, ErrorKind>) -> (r: Envelope<T>)
    ensures
        answers(r, result),
        well_shaped(r),
{
    match result {
        Ok(d) => wrap_json_data(d),
        Err(e) => {
            let status = e.http_status();
            wrap_json_err(status, e)
        },
    }
}

/// Answers a request the transport layer refused: the HTTP status and the
/// envelope to send with it.
pub fn handle_rejection(err: Rejection) -> (r: (u16, Envelope<String>))
    ensures
        r.0 == status_of(rejection_kind(err)),
        reports_error(r.1, r.0, rejection_kind(err)),
        well_shaped(r.1),
{
    let error = map_transport_rejection(err);
    let status = error.http_status();
    (status, wrap_json_err(status, error))
}

/// Whatever an operation returned, the envelope that answers it is well
/// shaped, and a failure carries one of the taxonomy's kinds with its status.
pub proof fn lemma_envelope_invariant<T>(r: Envelope<T>, result: Result<T, ErrorKind>)
    requires
        answers(r, result),
    ensures
        well_shaped(r),
        result is Ok ==> r.status == 0 && r.error is None,
        result is Err ==> r.data is None && r.error.unwrap().code == result->Err_0
            && r.status == status_of(result->Err_0),
{
}

} // verus!
