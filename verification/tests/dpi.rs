use mx4::features::dpi::{format_status, parse, parse_status_reply, payload};

#[test]
fn parses_dpi_value() {
    assert_eq!(parse("2500").unwrap(), 2500);
}

#[test]
fn accepts_min_dpi() {
    assert_eq!(parse("200").unwrap(), 200);
}

#[test]
fn accepts_max_dpi() {
    assert_eq!(parse("8000").unwrap(), 8000);
}

#[test]
fn rejects_low_dpi() {
    assert!(parse("199").is_err());
}

#[test]
fn rejects_high_dpi() {
    assert!(parse("8001").is_err());
}

#[test]
fn parses_dpi_status() {
    assert_eq!(parse_status_reply(&[0, 0, 0, 0, 0x00, 0x0A, 0x28]).unwrap(), 2600);
}

#[test]
fn builds_dpi_payload() {
    assert_eq!(payload(2600), [0x00, 0x0A, 0x28]);
}

#[test]
fn formats_dpi_json() {
    assert_eq!(format_status(2600, true), r#"{"value":2600}"#);
}

#[test]
fn dpi_arguments_are_trimmed_and_checked() {
    assert_eq!(parse(" 1600\n").unwrap(), 1600);
    assert_eq!(parse("").unwrap_err().message(), "cannot parse integer from empty string");
    assert_eq!(parse("12x").unwrap_err().message(), "invalid digit found in string");
    assert_eq!(parse("99999999999").unwrap_err().message(), "number too large to fit in target type");
}

#[test]
fn payload_reads_back_as_its_value() {
    let p = payload(4321);
    assert_eq!(parse_status_reply(&[0, 0, 0, 0, p[0], p[1], p[2]]).unwrap(), 4321);
}
