//! The request pipeline driven end to end against a small in-memory model
//! of the backing set, plus the failure classifications.

use allowlist::{
    connection_failed, connection_ready, operation_complete, operation_failed, render_summary,
    respond, to_request_result, validate_request, CodedSummary, Verb,
};

/// An in-memory stand-in for the backing store's set, with the store
/// client's reply conventions: 1 for member / newly added, 0 otherwise.
struct ModelStore {
    members: Vec<String>,
}

impl ModelStore {
    fn new() -> Self {
        ModelStore { members: Vec::new() }
    }

    fn sismember(&self, key: &str) -> i64 {
        if self.members.iter().any(|m| m == key) {
            1
        } else {
            0
        }
    }

    fn sadd(&mut self, key: &str) -> i64 {
        if self.members.iter().any(|m| m == key) {
            0
        } else {
            self.members.push(key.to_string());
            1
        }
    }
}

/// Run one request against the model store, as the service would.
fn run(verb: Verb, raw_address: &str, store: &mut ModelStore) -> CodedSummary {
    let validated = match validate_request(verb, raw_address) {
        Ok(v) => v,
        Err(rejected) => return respond(rejected),
    };
    let connected = connection_ready(validated);
    let outcome = match verb {
        Verb::IsAllowed => store.sismember(&connected.parsed_address),
        Verb::AddToAllowlist => store.sadd(&connected.parsed_address),
    };
    respond(operation_complete(connected, outcome))
}

#[test]
fn get_unknown_address() {
    let mut store = ModelStore::new();
    let r = run(Verb::IsAllowed, "0x1", &mut store);
    assert_eq!(r.status_code, 200);
    assert_eq!(r.request_summary.request_address, "0x1");
    assert_eq!(r.request_summary.parsed_address, Some("0x1".to_string()));
    assert_eq!(r.request_summary.is_allowed, Some(false));
    assert_eq!(r.request_summary.message, "Not found in allowlist");
    assert_eq!(
        render_summary(&r.request_summary),
        "{\"request_address\":\"0x1\",\"parsed_address\":\"0x1\",\"is_allowed\":false,\"message\":\"Not found in allowlist\"}"
    );
}

#[test]
fn post_twice_same_address() {
    let mut store = ModelStore::new();
    let first = run(Verb::AddToAllowlist, "0x1", &mut store);
    assert_eq!(first.status_code, 200);
    assert_eq!(first.request_summary.is_allowed, Some(true));
    assert_eq!(first.request_summary.message, "Added to allowlist");
    let second = run(Verb::AddToAllowlist, "0x1", &mut store);
    assert_eq!(second.status_code, 200);
    assert_eq!(second.request_summary.is_allowed, Some(true));
    assert_eq!(second.request_summary.message, "Already allowed");
}

#[test]
fn read_after_write() {
    let mut store = ModelStore::new();
    let added = run(Verb::AddToAllowlist, "0xabc", &mut store);
    assert_eq!(added.status_code, 200);
    let read = run(Verb::IsAllowed, "0xabc", &mut store);
    assert_eq!(read.status_code, 200);
    assert_eq!(read.request_summary.is_allowed, Some(true));
    assert_eq!(read.request_summary.message, "Found in allowlist");
}

#[test]
fn read_after_write_spelled_differently() {
    // The canonical form is the member key, so another spelling of the same
    // address reads back as allowed.
    let mut store = ModelStore::new();
    run(Verb::AddToAllowlist, "0x00ABC", &mut store);
    let read = run(Verb::IsAllowed, "0xabc", &mut store);
    assert_eq!(read.request_summary.is_allowed, Some(true));
}

#[test]
fn read_before_write() {
    let mut store = ModelStore::new();
    let r = run(Verb::IsAllowed, "0xfeed", &mut store);
    assert_eq!(r.status_code, 200);
    assert_eq!(r.request_summary.is_allowed, Some(false));
    assert_eq!(r.request_summary.message, "Not found in allowlist");
}

#[test]
fn invalid_address_is_rejected() {
    let mut store = ModelStore::new();
    let r = run(Verb::IsAllowed, "not-an-address", &mut store);
    assert_eq!(r.status_code, 400);
    assert_eq!(r.request_summary.request_address, "not-an-address");
    assert_eq!(r.request_summary.parsed_address, None);
    assert_eq!(r.request_summary.is_allowed, None);
    assert_eq!(r.request_summary.message, "Could not parse address");
    assert_eq!(
        render_summary(&r.request_summary),
        "{\"request_address\":\"not-an-address\",\"parsed_address\":null,\"is_allowed\":null,\"message\":\"Could not parse address\"}"
    );
    let w = run(Verb::AddToAllowlist, "not-an-address", &mut store);
    assert_eq!(w.status_code, 400);
    assert!(store.members.is_empty());
}

#[test]
fn connection_failure_both_verbs() {
    for verb in [Verb::IsAllowed, Verb::AddToAllowlist] {
        let validated = validate_request(verb, "0x1").unwrap();
        let r = respond(connection_failed(validated, "pool timed out"));
        assert_eq!(r.status_code, 500);
        assert_eq!(r.request_summary.parsed_address, Some("0x1".to_string()));
        assert_eq!(r.request_summary.is_allowed, None);
        assert_eq!(r.request_summary.message, "Redis connection error: pool timed out");
    }
}

#[test]
fn lookup_failure() {
    let validated = validate_request(Verb::IsAllowed, "0x1").unwrap();
    let connected = connection_ready(validated);
    let r = respond(operation_failed(connected, "connection reset"));
    assert_eq!(r.status_code, 500);
    assert_eq!(r.request_summary.is_allowed, None);
    assert_eq!(r.request_summary.message, "Is member lookup error: connection reset");
}

#[test]
fn insertion_failure() {
    let validated = validate_request(Verb::AddToAllowlist, "0x1").unwrap();
    let connected = connection_ready(validated);
    let r = respond(operation_failed(connected, "connection reset"));
    assert_eq!(r.status_code, 500);
    assert_eq!(r.request_summary.is_allowed, None);
    assert_eq!(r.request_summary.message, "Add member error: connection reset");
}

#[test]
fn request_result_splits_on_success() {
    let validated = validate_request(Verb::IsAllowed, "0x1").unwrap();
    let connected = connection_ready(validated);
    let ok = to_request_result(operation_complete(connected, 1));
    assert!(matches!(ok, Ok(ref s) if s.status_code == 200));

    let rejected = validate_request(Verb::IsAllowed, "nope").unwrap_err();
    let err = to_request_result(rejected);
    assert!(matches!(err, Err(ref s) if s.status_code == 400));
}
