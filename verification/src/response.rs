//! Response shaping: the total mapping from a classified pipeline outcome
//! to a transport status code and the summary payload to send.

use vstd::prelude::*;

use crate::summary::RequestSummary;

verus! {

/// Status code of a successful request.
pub const STATUS_OK: u16 = 200;

/// Status code of a request rejected for a client-caused error.
pub const STATUS_BAD_REQUEST: u16 = 400;

/// Status code of a request that failed for a server-side error.
pub const STATUS_INTERNAL_SERVER_ERROR: u16 = 500;

/// The classified outcome of one request: rejected for a client error,
/// failed for a server error, or completed successfully.
#[derive(Debug, PartialEq, Eq)]
pub enum CodedRequestSummary {
    BadRequest { request_summary: RequestSummary },
    InternalError { request_summary: RequestSummary },
    SuccessfulRequest { request_summary: RequestSummary },
}

impl CodedRequestSummary {
    /// The summary carried, whatever the classification.
    pub open spec fn spec_summary(self) -> RequestSummary {
        match self {
            CodedRequestSummary::BadRequest { request_summary } => request_summary,
            CodedRequestSummary::InternalError { request_summary } => request_summary,
            CodedRequestSummary::SuccessfulRequest { request_summary } => request_summary,
        }
    }

    /// The status code each classification maps to.
    pub open spec fn spec_status(self) -> u16 {
        match self {
            CodedRequestSummary::BadRequest { .. } => STATUS_BAD_REQUEST,
            CodedRequestSummary::InternalError { .. } => STATUS_INTERNAL_SERVER_ERROR,
            CodedRequestSummary::SuccessfulRequest { .. } => STATUS_OK,
        }
    }
}

/// A status code together with the summary to send: the one shape every
/// response takes.
#[derive(Debug, PartialEq, Eq)]
pub struct CodedSummary {
    pub status_code: u16,
    pub request_summary: RequestSummary,
}

/// Map a classified outcome to its coded response. The mapping is total:
/// every classification produces exactly one status code and keeps the
/// summary as built.
pub fn respond(c: CodedRequestSummary) -> (r: CodedSummary)
    ensures
        r.status_code == c.spec_status(),
        r.request_summary == c.spec_summary(),
{
    match c {
        CodedRequestSummary::BadRequest { request_summary } => CodedSummary {
            status_code: STATUS_BAD_REQUEST,
            request_summary,
        },
        CodedRequestSummary::InternalError { request_summary } => CodedSummary {
            status_code: STATUS_INTERNAL_SERVER_ERROR,
            request_summary,
        },
        CodedRequestSummary::SuccessfulRequest { request_summary } => CodedSummary {
            status_code: STATUS_OK,
            request_summary,
        },
    }
}

/// The handler result: `Ok` exactly for a successful request, `Err` for
/// either error classification, both carrying the coded response.
pub fn to_request_result(c: CodedRequestSummary) -> (r: Result<CodedSummary, CodedSummary>)
    ensures
        r is Ok <==> c is SuccessfulRequest,
        r is Ok ==> r->Ok_0.status_code == c.spec_status() && r->Ok_0.request_summary
            == c.spec_summary(),
        r is Err ==> r->Err_0.status_code == c.spec_status() && r->Err_0.request_summary
            == c.spec_summary(),
{
    match c {
        CodedRequestSummary::SuccessfulRequest { .. } => Ok(respond(c)),
        CodedRequestSummary::BadRequest { .. } => Err(respond(c)),
        CodedRequestSummary::InternalError { .. } => Err(respond(c)),
    }
}

} // verus!
