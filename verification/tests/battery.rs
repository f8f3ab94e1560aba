use mx4::features::battery::{format_status, json_value, parse_status_reply, BatteryStatus};

#[test]
fn charging_uses_status_instead_of_reserved_byte() {
    assert!(parse_status_reply(&[0x11, 0, 1, 0x11, 50, 4, 1, 0], true).unwrap().charging);
    assert!(!parse_status_reply(&[0x11, 0, 1, 0x11, 50, 4, 0, 1], true).unwrap().charging);
    assert!(parse_status_reply(&[0x10, 1, 1, 1, 50, 20, 1], false).unwrap().charging);
    assert!(parse_status_reply(&[0x10, 1, 1, 1, 50, 20], false).is_err());
}

#[test]
fn formats_battery_json() {
    let status = BatteryStatus { pct: 87, charging: true };
    assert_eq!(format_status(&status, true), r#"{"level":87,"charging":true}"#);
}

#[test]
fn reads_level_from_either_reply_shape() {
    assert_eq!(parse_status_reply(&[0x11, 0, 1, 0x11, 50, 4, 1, 0], true).unwrap().pct, 50);
    assert_eq!(parse_status_reply(&[0x10, 1, 1, 1, 73, 20, 0], false).unwrap().pct, 73);
}

#[test]
fn formats_battery_text_and_value() {
    let status = BatteryStatus { pct: 5, charging: false };
    assert_eq!(json_value(&status), r#"{"level":5,"charging":false}"#);
    assert!(format_status(&status, false).contains("5%"));
}
