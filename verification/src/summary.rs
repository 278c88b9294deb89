//! The per-request response payload and the fixed outcome messages.

use vstd::prelude::*;

verus! {

/// The structured summary returned for every request. `parsed_address` is
/// present exactly when validation succeeded; `is_allowed` is present
/// exactly when the request got far enough to learn a membership state;
/// `message` carries the human-readable outcome or error detail.
#[derive(Debug, PartialEq, Eq)]
pub struct RequestSummary {
    pub request_address: String,
    pub parsed_address: Option<String>,
    pub is_allowed: Option<bool>,
    pub message: String,
}

/// The message reported for each way a set operation can complete.
#[derive(Clone, Copy, Debug, PartialEq, Eq, Structural)]
pub enum SummaryMessage {
    AddedToAllowlist,
    AlreadyAllowed,
    FoundInAllowlist,
    NotFoundInAllowlist,
}

/// The text of each summary message.
pub open spec fn spec_message_text(m: SummaryMessage) -> Seq<char> {
    match m {
        SummaryMessage::AddedToAllowlist => "Added to allowlist"@,
        SummaryMessage::AlreadyAllowed => "Already allowed"@,
        SummaryMessage::FoundInAllowlist => "Found in allowlist"@,
        SummaryMessage::NotFoundInAllowlist => "Not found in allowlist"@,
    }
}

impl SummaryMessage {
    /// The message as text.
    pub fn text(&self) -> (r: &'static str)
        ensures
            r@ == spec_message_text(*self),
    {
        match self {
            SummaryMessage::AddedToAllowlist => "Added to allowlist",
            SummaryMessage::AlreadyAllowed => "Already allowed",
            SummaryMessage::FoundInAllowlist => "Found in allowlist",
            SummaryMessage::NotFoundInAllowlist => "Not found in allowlist",
        }
    }
}

} // verus!
