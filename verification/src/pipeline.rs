//! The per-request pipeline: validate the submitted address, then step
//! through connection acquisition and the requested set operation, turning
//! every outcome into a classified summary.
//!
//! The stages are driven from outside: the caller performs the two I/O
//! steps (acquiring a pooled store connection and the set round-trip) and
//! hands their results to the functions here, which make every decision.

use vstd::prelude::*;

use crate::address::{spec_hex_literal, spec_parse_address, AccountAddress};
use crate::response::CodedRequestSummary;
use crate::summary::{spec_message_text, RequestSummary, SummaryMessage};

verus! {

/// The name of the store set that holds the allowlist.
pub const SET_NAME: &'static str = "allowlist";

/// The two request verbs: a membership check and an insertion.
#[derive(Clone, Copy, Debug, PartialEq, Eq, Structural)]
pub enum Verb {
    IsAllowed,
    AddToAllowlist,
}

/// A request whose address passed validation, with the summary as built so
/// far and the canonical address to use as the set member key.
#[derive(Debug)]
pub struct ValidatedRequest {
    pub verb: Verb,
    pub request_summary: RequestSummary,
    pub parsed_address: String,
}

/// A validated request once a store connection is in hand.
#[derive(Debug)]
pub struct ConnectedRequest {
    pub verb: Verb,
    pub request_summary: RequestSummary,
    pub parsed_address: String,
}

/// Run the address through the codec. A string that denotes an address
/// yields a validated request carrying its canonical form; everything else
/// is rejected as a client error with the raw address echoed, no parsed
/// address, no membership state, and the fixed rejection message.
pub fn validate_request(verb: Verb, raw_address: &str) -> (r: Result<
    ValidatedRequest,
    CodedRequestSummary,
>)
    ensures
        r is Ok <==> spec_parse_address(raw_address@) is Some,
        r is Ok ==> ({
            let v = r->Ok_0;
            &&& v.verb == verb
            &&& v.parsed_address@ == spec_hex_literal(spec_parse_address(raw_address@)->Some_0)
            &&& v.request_summary.request_address@ == raw_address@
            &&& v.request_summary.parsed_address is Some
            &&& v.request_summary.parsed_address->Some_0@ == v.parsed_address@
            &&& v.request_summary.is_allowed is None
            &&& v.request_summary.message@ == Seq::<char>::empty()
        }),
        r is Err ==> ({
            let c = r->Err_0;
            &&& c is BadRequest
            &&& c.spec_summary().request_address@ == raw_address@
            &&& c.spec_summary().parsed_address is None
            &&& c.spec_summary().is_allowed is None
            &&& c.spec_summary().message@ == "Could not parse address"@
        }),
{
    match AccountAddress::parse(raw_address) {
        Ok(address) => {
            let parsed = address.to_hex_literal();
            Ok(
                ValidatedRequest {
                    verb,
                    request_summary: RequestSummary {
                        request_address: String::from_str(raw_address),
                        parsed_address: Some(parsed.clone()),
                        is_allowed: None,
                        message: String::new(),
                    },
                    parsed_address: parsed,
                },
            )
        },
        Err(_) => Err(
            CodedRequestSummary::BadRequest {
                request_summary: RequestSummary {
                    request_address: String::from_str(raw_address),
                    parsed_address: None,
                    is_allowed: None,
                    message: String::from_str("Could not parse address"),
                },
            },
        ),
    }
}

/// Step a validated request to the connected stage, once the caller has a
/// store connection for it. Nothing in the summary changes.
pub fn connection_ready(v: ValidatedRequest) -> (c: ConnectedRequest)
    ensures
        c.verb == v.verb,
        c.request_summary == v.request_summary,
        c.parsed_address == v.parsed_address,
{
    ConnectedRequest { verb: v.verb, request_summary: v.request_summary, parsed_address: v.parsed_address }
}

/// Classify a failure to acquire a store connection: a server error whose
/// message names the connection layer and appends the underlying error's
/// description; the parsed address stays, the membership state stays unknown.
pub fn connection_failed(v: ValidatedRequest, detail: &str) -> (r: CodedRequestSummary)
    ensures
        r is InternalError,
        r.spec_summary().request_address == v.request_summary.request_address,
        r.spec_summary().parsed_address == v.request_summary.parsed_address,
        r.spec_summary().is_allowed is None,
        r.spec_summary().message@ == "Redis connection error: "@ + detail@,
{
    let mut message = String::from_str("Redis connection error: ");
    message.append(detail);
    CodedRequestSummary::InternalError {
        request_summary: RequestSummary {
            request_address: v.request_summary.request_address,
            parsed_address: v.request_summary.parsed_address,
            is_allowed: None,
            message,
        },
    }
}

/// Classify a failed set round-trip: a server error whose message tells a
/// lookup failure from an insertion failure and appends the underlying
/// error's description; the membership state stays unknown.
pub fn operation_failed(c: ConnectedRequest, detail: &str) -> (r: CodedRequestSummary)
    ensures
        r is InternalError,
        r.spec_summary().request_address == c.request_summary.request_address,
        r.spec_summary().parsed_address == c.request_summary.parsed_address,
        r.spec_summary().is_allowed is None,
        c.verb == Verb::IsAllowed ==> r.spec_summary().message@ == "Is member lookup error: "@
            + detail@,
        c.verb == Verb::AddToAllowlist ==> r.spec_summary().message@ == "Add member error: "@
            + detail@,
{
    let mut message = match c.verb {
        Verb::IsAllowed => String::from_str("Is member lookup error: "),
        Verb::AddToAllowlist => String::from_str("Add member error: "),
    };
    message.append(detail);
    CodedRequestSummary::InternalError {
        request_summary: RequestSummary {
            request_address: c.request_summary.request_address,
            parsed_address: c.request_summary.parsed_address,
            is_allowed: None,
            message,
        },
    }
}

/// Interpret the store's numeric reply for the requested verb and build the
/// success summary. A membership check reports whether the key was found; an
/// insertion always reports the key allowed, telling a fresh insertion from
/// an already-present key only in the message.
pub fn operation_complete(c: ConnectedRequest, outcome: i64) -> (r: CodedRequestSummary)
    ensures
        r is SuccessfulRequest,
        r.spec_summary().request_address == c.request_summary.request_address,
        r.spec_summary().parsed_address == c.request_summary.parsed_address,
        c.verb == Verb::IsAllowed && outcome != 0 ==> r.spec_summary().is_allowed == Some(true)
            && r.spec_summary().message@ == spec_message_text(SummaryMessage::FoundInAllowlist),
        c.verb == Verb::IsAllowed && outcome == 0 ==> r.spec_summary().is_allowed == Some(false)
            && r.spec_summary().message@ == spec_message_text(SummaryMessage::NotFoundInAllowlist),
        c.verb == Verb::AddToAllowlist ==> r.spec_summary().is_allowed == Some(true),
        c.verb == Verb::AddToAllowlist && outcome != 0 ==> r.spec_summary().message@
            == spec_message_text(SummaryMessage::AddedToAllowlist),
        c.verb == Verb::AddToAllowlist && outcome == 0 ==> r.spec_summary().message@
            == spec_message_text(SummaryMessage::AlreadyAllowed),
{
    let allowed: bool;
    let msg: SummaryMessage;
    match c.verb {
        Verb::IsAllowed => {
            if outcome != 0 {
                allowed = true;
                msg = SummaryMessage::FoundInAllowlist;
            } else {
                allowed = false;
                msg = SummaryMessage::NotFoundInAllowlist;
            }
        },
        Verb::AddToAllowlist => {
            allowed = true;
            if outcome != 0 {
                msg = SummaryMessage::AddedToAllowlist;
            } else {
                msg = SummaryMessage::AlreadyAllowed;
            }
        },
    }
    CodedRequestSummary::SuccessfulRequest {
        request_summary: RequestSummary {
            request_address: c.request_summary.request_address,
            parsed_address: c.request_summary.parsed_address,
            is_allowed: Some(allowed),
            message: String::from_str(msg.text()),
        },
    }
}

} // verus!
