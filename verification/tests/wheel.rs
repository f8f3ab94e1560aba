use mx4::features::wheel::{
    apply_mask_bytes, apply_mask_u8, format_status, format_thumb_status, parse_force,
    parse_hires_reply, parse_ratchet, parse_ratchet_speed, parse_smart_shift_reply,
    parse_thumb_reply, parse_toggle, SmartShiftState,
};

#[test]
fn parses_ratchet_modes() {
    assert_eq!(parse_ratchet("free").unwrap(), 1);
    assert_eq!(parse_ratchet("ratchet").unwrap(), 2);
}

#[test]
fn parses_ratchet_speed_value() {
    assert_eq!(parse_ratchet_speed("10").unwrap(), 10);
}

#[test]
fn rejects_ratchet_speed_value_out_of_range() {
    assert!(parse_ratchet_speed("51").is_err());
}

#[test]
fn parses_force_value() {
    assert_eq!(parse_force("75").unwrap(), 75);
}

#[test]
fn rejects_force_value_out_of_range() {
    assert!(parse_force("101").is_err());
}

#[test]
fn parses_toggle_values() {
    assert!(parse_toggle("on").unwrap());
    assert!(!parse_toggle("off").unwrap());
}

#[test]
fn parses_smart_shift_reply() {
    let state = parse_smart_shift_reply(&[0, 0, 0, 0, 1, 10, 75]).unwrap();
    assert_eq!((state.ratchet, state.ratchet_speed, state.force), (1, 10, 75));
}

#[test]
fn parses_hires_reply() {
    let status = parse_hires_reply(&[0, 0, 0, 0, 0x07]).unwrap();
    assert!(status.invert);
    assert!(status.resolution);
    assert!(status.divert);
}

#[test]
fn parses_thumb_reply() {
    let status = parse_thumb_reply(&[0, 0, 0, 0, 0x01, 0x01]).unwrap();
    assert!(status.invert);
    assert!(status.divert);
}

#[test]
fn applies_single_byte_mask() {
    assert_eq!(apply_mask_u8(0x00, 0x04, true), 0x04);
    assert_eq!(apply_mask_u8(0x07, 0x04, false), 0x03);
}

#[test]
fn applies_multi_byte_mask() {
    assert_eq!(apply_mask_bytes([0, 0], [0, 1], true), [0, 1]);
    assert_eq!(apply_mask_bytes([1, 1], [1, 0], false), [0, 1]);
}

#[test]
fn smart_shift_state_shape_is_stable() {
    let state = SmartShiftState { ratchet: 1, ratchet_speed: 10, force: 75 };
    assert_eq!((state.ratchet, state.ratchet_speed, state.force), (1, 10, 75));
}

#[test]
fn formats_wheel_status() {
    let smart_shift = SmartShiftState { ratchet: 1, ratchet_speed: 10, force: 75 };
    let hires = parse_hires_reply(&[0, 0, 0, 0, 0x04]).unwrap();
    assert_eq!(
        format_status(&smart_shift, &hires, false),
        "Wheel: ratchet=free, ratchet-speed=10, force=75, invert=on, resolution=off, divert=off"
    );
}

#[test]
fn formats_thumb_status() {
    let thumb = parse_thumb_reply(&[0, 0, 0, 0, 0x00, 0x01]).unwrap();
    assert_eq!(format_thumb_status(&thumb, false), "Thumb Wheel: invert=on, divert=off");
}

#[test]
fn formats_wheel_json() {
    let smart_shift = SmartShiftState { ratchet: 2, ratchet_speed: 10, force: 75 };
    let hires = parse_hires_reply(&[0, 0, 0, 0, 0x03]).unwrap();
    assert_eq!(
        format_status(&smart_shift, &hires, true),
        r#"{"ratchet":"ratchet","ratchet_speed":10,"force":75,"invert":false,"resolution":true,"divert":true}"#
    );
}

#[test]
fn formats_thumb_json() {
    let thumb = parse_thumb_reply(&[0, 0, 0, 0, 0x01, 0x00]).unwrap();
    assert_eq!(format_thumb_status(&thumb, true), r#"{"invert":false,"divert":true}"#);
}

#[test]
fn masks_set_and_clear_only_their_bits() {
    for value in [0x00u8, 0x5a, 0xff] {
        assert_eq!(apply_mask_u8(value, 0x10, true), value | 0x10);
        assert_eq!(apply_mask_u8(value, 0x10, false), value & !0x10);
    }
}

#[test]
fn rejects_unknown_toggle_and_ratchet_words() {
    assert_eq!(parse_toggle("yes").unwrap_err().message(), "pick `on` or `off`");
    assert_eq!(parse_ratchet("spin").unwrap_err().message(), "pick `free` or `ratchet`");
    assert!(parse_force("0").is_err());
    assert_eq!(parse_ratchet_speed("50").unwrap(), 50);
}

#[test]
fn rejects_short_wheel_replies() {
    assert!(parse_smart_shift_reply(&[0, 0, 0, 0, 1, 10]).is_err());
    assert!(parse_hires_reply(&[0, 0, 0, 0]).is_err());
    assert!(parse_thumb_reply(&[0, 0, 0, 0, 1]).is_err());
}

#[test]
fn written_smart_shift_state_reads_back() {
    let state = SmartShiftState { ratchet: 2, ratchet_speed: 30, force: 90 };
    let reply = [0, 0, 0, 0, state.ratchet, state.ratchet_speed, state.force];
    assert_eq!(parse_smart_shift_reply(&reply).unwrap(), state);
}

#[test]
fn thumb_flags_change_one_at_a_time() {
    let before = parse_thumb_reply(&[0, 0, 0, 0, 0x01, 0x00]).unwrap();
    let written = apply_mask_bytes([0x01, 0x00], [0x00, 0x01], true);
    let after = parse_thumb_reply(&[0, 0, 0, 0, written[0], written[1]]).unwrap();
    assert!(after.invert);
    assert_eq!(after.divert, before.divert);
}
