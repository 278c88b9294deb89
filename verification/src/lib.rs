//! A verified allowlist service core: address parsing and canonicalisation,
//! the per-request pipeline state machine, and response shaping.

mod address;
mod json;
mod pipeline;
mod response;
mod store;
mod summary;

pub use json::{
    render_summary, spec_escaped, spec_escaped_char, spec_json_opt_bool, spec_json_opt_string,
    spec_json_string, spec_json_summary,
};
pub use pipeline::{
    connection_failed, connection_ready, operation_complete, operation_failed, validate_request,
    ConnectedRequest, ValidatedRequest, Verb, SET_NAME,
};
pub use response::{
    respond, to_request_result, CodedRequestSummary, CodedSummary, STATUS_BAD_REQUEST,
    STATUS_INTERNAL_SERVER_ERROR, STATUS_OK,
};
pub use store::{
    lemma_add_twice, lemma_read_after_write, lemma_read_before_write, spec_add_members,
    spec_add_outcome, spec_member_outcome,
};
pub use summary::{spec_message_text, RequestSummary, SummaryMessage};

pub use address::{
    AccountAddress, ValidationError, ADDRESS_HEX_LENGTH, ADDRESS_LENGTH, all_hex_digits,
    bytes_of_hex_digits, has_hex_prefix, hex_char_of, hex_char_str, hex_digit_value,
    hex_digits_of_bytes, hex_value, is_hex_digit, lemma_canonical_round_trip, spec_hex_literal,
    spec_parse_address, trim_leading_zeros, zero_padded,
};
