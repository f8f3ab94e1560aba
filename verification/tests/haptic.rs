use mx4::features::haptic::{
    format_status, packet, parse_effect_arg, parse_effects, parse_status_reply, parse_strength,
    HAPTIC_EFFECT_METHOD, HAPTIC_STRENGTH_METHOD,
};

#[test]
fn parses_single_effect() {
    assert_eq!(parse_effect_arg("14").unwrap(), vec![14]);
}

#[test]
fn parses_zero_effect() {
    assert_eq!(parse_effect_arg("0").unwrap(), vec![0]);
}

#[test]
fn parses_plain_range() {
    assert_eq!(parse_effect_arg("1..3").unwrap(), vec![1, 2, 3]);
}

#[test]
fn parses_braced_range() {
    assert_eq!(parse_effect_arg("{1..3}").unwrap(), vec![1, 2, 3]);
}

#[test]
fn parses_descending_range() {
    assert_eq!(parse_effect_arg("{3..1}").unwrap(), vec![3, 2, 1]);
}

#[test]
fn combines_multiple_args() {
    let args = vec!["0".to_string(), "{3..4}".to_string(), "2".to_string()];
    assert_eq!(parse_effects(&args).unwrap(), vec![0, 3, 4, 2]);
}

#[test]
fn parses_named_strengths() {
    assert_eq!(parse_strength("off").unwrap(), 0);
    assert_eq!(parse_strength("subtle").unwrap(), 15);
    assert_eq!(parse_strength("low").unwrap(), 45);
    assert_eq!(parse_strength("medium").unwrap(), 60);
    assert_eq!(parse_strength("high").unwrap(), 100);
}

#[test]
fn parses_numeric_strength() {
    assert_eq!(parse_strength("37").unwrap(), 37);
}

#[test]
fn rejects_out_of_range_strength() {
    assert!(parse_strength("101").is_err());
}

#[test]
fn builds_effect_packet() {
    assert_eq!(packet(7, 0x0b, HAPTIC_EFFECT_METHOD, &[3]), [0x10, 7, 0x0b, 0x4e, 3, 0, 0]);
}

#[test]
fn builds_strength_packet() {
    assert_eq!(
        packet(7, 0x0b, HAPTIC_STRENGTH_METHOD, &[0x01, 60]),
        [0x10, 7, 0x0b, 0x2e, 0x01, 60, 0]
    );
}

#[test]
fn parses_enabled_haptic_status() {
    let status = parse_status_reply(&[0, 0, 0, 0, 0x01, 60, 0x00]).unwrap();
    assert!(status.enabled);
    assert_eq!(status.level, 60);
    assert!(!status.discrete_levels);
}

#[test]
fn parses_disabled_haptic_status() {
    let status = parse_status_reply(&[0, 0, 0, 0, 0x00, 99, 0x01]).unwrap();
    assert!(!status.enabled);
    assert_eq!(status.level, 0);
    assert!(status.discrete_levels);
}

#[test]
fn formats_disabled_haptic_status() {
    let status = parse_status_reply(&[0, 0, 0, 0, 0x00, 99, 0x01]).unwrap();
    assert_eq!(format_status(&status, false), "Haptic: off");
}

#[test]
fn formats_enabled_haptic_json() {
    let status = parse_status_reply(&[0, 0, 0, 0, 0x01, 60, 0x01]).unwrap();
    assert_eq!(
        format_status(&status, true),
        r#"{"enabled":true,"level":60,"discrete_levels":true}"#
    );
}

#[test]
fn rejects_effects_out_of_range() {
    assert!(parse_effect_arg("15").is_err());
    assert!(parse_effect_arg("0..15").is_err());
    assert!(parse_effect_arg("x").is_err());
}

#[test]
fn empty_effect_list_is_empty() {
    let args: Vec<String> = Vec::new();
    assert_eq!(parse_effects(&args).unwrap(), Vec::<u8>::new());
}

#[test]
fn strength_presets_are_trimmed() {
    assert_eq!(parse_strength("  high ").unwrap(), 100);
    assert!(parse_strength("loud").is_err());
}

#[test]
fn written_strength_reads_back() {
    let on = packet(7, 0x0b, HAPTIC_STRENGTH_METHOD, &[0x01, 45]);
    let status = parse_status_reply(&[0, 0, 0, 0, on[4], on[5], 0]).unwrap();
    assert!(status.enabled);
    assert_eq!(status.level, 45);
    let off = parse_status_reply(&[0, 0, 0, 0, 0x00, 0x32, 1]).unwrap();
    assert!(!off.enabled);
    assert_eq!(off.level, 0);
}
