//! The address codec: accepted shapes, rejections, canonical forms, and
//! agreement with the store client library's own address type.

use allowlist::{AccountAddress, ValidationError};
use move_core_types::account_address::AccountAddress as MoveAddress;

#[test]
fn parse_short_literal() {
    let a = AccountAddress::parse("0x1").unwrap();
    assert_eq!(a.to_hex_literal(), "0x1");
    let mut expected = vec![0u8; 16];
    expected[15] = 1;
    assert_eq!(a.into_bytes(), expected);
}

#[test]
fn parse_zero_literal() {
    let a = AccountAddress::parse("0x0").unwrap();
    assert_eq!(a.to_hex_literal(), "0x0");
    assert_eq!(a.into_bytes(), vec![0u8; 16]);
}

#[test]
fn parse_bare_prefix_is_zero() {
    let a = AccountAddress::parse("0x").unwrap();
    assert_eq!(a.to_hex_literal(), "0x0");
}

#[test]
fn parse_full_width_literal() {
    let a = AccountAddress::parse("0x00c0f1f95c5b1c5f0eda533eff269000").unwrap();
    assert_eq!(a.to_hex_literal(), "0xc0f1f95c5b1c5f0eda533eff269000");
}

#[test]
fn parse_unprefixed_full_width() {
    let a = AccountAddress::parse("00c0f1f95c5b1c5f0eda533eff269000").unwrap();
    assert_eq!(a.to_hex_literal(), "0xc0f1f95c5b1c5f0eda533eff269000");
}

#[test]
fn parse_upper_case_digits() {
    let a = AccountAddress::parse("0xDEADBEEF").unwrap();
    assert_eq!(a.to_hex_literal(), "0xdeadbeef");
}

#[test]
fn parse_rejects_bad_strings() {
    for s in [
        "not-an-address",
        "",
        "0",
        "x0",
        "0X1",
        "0xg1",
        "0x 1",
        "00c0f1f95c5b1c5f0eda533eff26900",   // 31 digits, unprefixed
        "00c0f1f95c5b1c5f0eda533eff2690000", // 33 digits, unprefixed
        "0x00c0f1f95c5b1c5f0eda533eff2690001", // 33 digits, prefixed
        "0x00c0f1f95c5b1c5f0eda533eff26900\u{00a7}",
    ] {
        assert_eq!(
            AccountAddress::parse(s),
            Err(ValidationError::CouldNotParseAddress),
            "accepted: {s}"
        );
    }
}

#[test]
fn canonical_form_reparses_to_same_canonical_form() {
    for s in ["0x1", "0xabc", "0x00ff00", "0xffffffffffffffffffffffffffffffff", "0x0"] {
        let first = AccountAddress::parse(s).unwrap().to_hex_literal();
        let second = AccountAddress::parse(&first).unwrap().to_hex_literal();
        assert_eq!(first, second);
    }
}

#[test]
fn agrees_with_store_client_literal_parsing() {
    for s in [
        "0x1",
        "0x0",
        "0x",
        "0xDEADBEEF",
        "0x00c0f1f95c5b1c5f0eda533eff269000",
        "0x00c0f1f95c5b1c5f0eda533eff2690001",
        "0xg1",
        "0x 1",
    ] {
        let ours = AccountAddress::parse(s);
        let theirs = MoveAddress::from_hex_literal(s);
        assert_eq!(ours.is_ok(), theirs.is_ok(), "disagree on {s}");
        if let (Ok(a), Ok(b)) = (ours, theirs) {
            assert_eq!(a.into_bytes(), b.to_vec(), "bytes differ on {s}");
        }
    }
}

#[test]
fn agrees_with_store_client_unprefixed_parsing() {
    for s in [
        "00c0f1f95c5b1c5f0eda533eff269000",
        "00C0F1F95C5B1C5F0EDA533EFF269000",
        "00c0f1f95c5b1c5f0eda533eff26900",
        "00c0f1f95c5b1c5f0eda533eff2690000",
        "not-an-address",
    ] {
        let ours = AccountAddress::parse(s);
        let theirs = MoveAddress::from_hex(s);
        assert_eq!(ours.is_ok(), theirs.is_ok(), "disagree on {s}");
        if let (Ok(a), Ok(b)) = (ours, theirs) {
            assert_eq!(a.into_bytes(), b.to_vec(), "bytes differ on {s}");
        }
    }
}

#[test]
fn agrees_with_store_client_canonical_form() {
    for s in ["0x1", "0x0", "0xDEADBEEF", "0x00c0f1f95c5b1c5f0eda533eff269000"] {
        let ours = AccountAddress::parse(s).unwrap().to_hex_literal();
        let theirs = MoveAddress::from_hex_literal(s).unwrap().to_hex_literal();
        assert_eq!(ours, theirs, "canonical form differs on {s}");
    }
}
