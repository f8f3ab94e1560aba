use mx4::error::Error;
use mx4::features::force_button::{format_status, parse, parse_current_reply, parse_info_reply};

#[test]
fn parses_force_button_info() {
    let info =
        parse_info_reply(&[0, 0, 0, 0, 0x00, 0x01, 0x12, 0x34, 0x27, 0x10, 0x00, 0xc8]).unwrap();
    assert!(info.changeable);
    assert_eq!(info.min_value, 200);
    assert_eq!(info.max_value, 10000);
}

#[test]
fn parses_force_button_value() {
    assert_eq!(parse("6309", 200, 10000).unwrap(), 6309);
}

#[test]
fn rejects_force_button_value_out_of_range() {
    assert!(parse("199", 200, 10000).is_err());
}

#[test]
fn formats_force_button_status() {
    let info =
        parse_info_reply(&[0, 0, 0, 0, 0x00, 0x01, 0x12, 0x34, 0x27, 0x10, 0x00, 0xc8]).unwrap();
    assert_eq!(format_status(4310, &info, false), "Force Button: 4310 (range 200..=10000)");
}

#[test]
fn formats_force_button_json() {
    let info =
        parse_info_reply(&[0, 0, 0, 0, 0x00, 0x01, 0x12, 0x34, 0x27, 0x10, 0x00, 0xc8]).unwrap();
    assert_eq!(
        format_status(4310, &info, true),
        r#"{"value":4310,"changeable":true,"min":200,"max":10000}"#
    );
}

#[test]
fn range_error_names_the_range() {
    let err = parse("10001", 200, 10000).unwrap_err();
    assert!(matches!(err, Error::ForceButtonRange { min: 200, max: 10000 }));
    assert_eq!(err.message(), "pick a force-button value from 200 to 10000");
}

#[test]
fn reads_current_threshold() {
    assert_eq!(parse_current_reply(&[0, 0, 0, 0, 0x10, 0xd6]).unwrap(), 4310);
    assert!(parse_current_reply(&[0, 0, 0, 0, 0x10]).is_err());
}

#[test]
fn written_threshold_reads_back() {
    let value: u16 = 4310;
    let reply = [0, 0, 0, 0, (value >> 8) as u8, (value & 0xff) as u8];
    assert_eq!(parse_current_reply(&reply).unwrap(), value);
}
