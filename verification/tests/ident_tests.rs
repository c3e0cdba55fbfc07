use miniblog::ident::{format_id, parse_id};

#[test]
fn parse_nil_identifier() {
    assert_eq!(parse_id("00000000-0000-0000-0000-000000000000"), Some(0));
}

#[test]
fn parse_one() {
    assert_eq!(parse_id("00000000-0000-0000-0000-000000000001"), Some(1));
}

#[test]
fn parse_largest() {
    assert_eq!(parse_id("ffffffff-ffff-ffff-ffff-ffffffffffff"), Some(u128::MAX));
}

#[test]
fn parse_mixed_case() {
    assert_eq!(
        parse_id("67E55044-10b1-426F-9247-bb680e5fe0c8"),
        parse_id("67e55044-10b1-426f-9247-bb680e5fe0c8")
    );
}

#[test]
fn parse_exact_value() {
    assert_eq!(
        parse_id("00000000-0000-0000-0000-0000000000ff"),
        Some(255)
    );
    assert_eq!(
        parse_id("10000000-0000-0000-0000-000000000000"),
        Some(1u128 << 124)
    );
}

#[test]
fn parse_empty_is_invalid() {
    assert_eq!(parse_id(""), None);
}

#[test]
fn parse_wrong_length_is_invalid() {
    assert_eq!(parse_id("abc"), None);
    assert_eq!(parse_id("00000000-0000-0000-0000-00000000000"), None);
    assert_eq!(parse_id("00000000-0000-0000-0000-0000000000000"), None);
}

#[test]
fn parse_unhyphenated_is_invalid() {
    assert_eq!(parse_id("67e5504410b1426f9247bb680e5fe0c8"), None);
}

#[test]
fn parse_misplaced_hyphen_is_invalid() {
    assert_eq!(parse_id("0000000-00000-0000-0000-000000000000"), None);
}

#[test]
fn parse_bad_digit_is_invalid() {
    assert_eq!(parse_id("g0000000-0000-0000-0000-000000000000"), None);
}

#[test]
fn format_nil() {
    assert_eq!(format_id(0), "00000000-0000-0000-0000-000000000000");
}

#[test]
fn format_exact_value() {
    assert_eq!(format_id(0x67e5504410b1426f9247bb680e5fe0c8), "67e55044-10b1-426f-9247-bb680e5fe0c8");
    assert_eq!(format_id(255), "00000000-0000-0000-0000-0000000000ff");
}

#[test]
fn format_then_parse_round_trip() {
    for v in [0u128, 1, 15, 16, 255, 1 << 64, u128::MAX, 0x67e5504410b1426f9247bb680e5fe0c8] {
        assert_eq!(parse_id(&format_id(v)), Some(v));
    }
}
