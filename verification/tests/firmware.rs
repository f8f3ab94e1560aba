use mx4::features::firmware::{
    format_status, format_version, parse_mouse_entity, parse_receiver_entity, FirmwareEntity,
    FirmwareKind, FirmwareStatus,
};

#[test]
fn parses_mouse_firmware_entity() {
    let reply = [0x11, 0, 2, 0x11, 0, b'R', b'B', b'M', 0x27, 0x03, 0x00, 0x19];
    assert_eq!(
        parse_mouse_entity(&reply).unwrap(),
        FirmwareEntity {
            kind: FirmwareKind::Firmware,
            name: Some("RBM".to_string()),
            version: "27.03.B0019".to_string(),
        }
    );
}

#[test]
fn parses_mouse_hardware_entity() {
    let reply = [0x11, 0, 2, 0x11, 2, 72, 0];
    assert_eq!(
        parse_mouse_entity(&reply).unwrap(),
        FirmwareEntity { kind: FirmwareKind::Hardware, name: None, version: "72".to_string() }
    );
}

#[test]
fn parses_bolt_receiver_entity() {
    let reply = [0x11, 0xff, 0x83, 0xf4, 1, 0x30, 0x01, 0x00, 0x10];
    assert_eq!(
        parse_receiver_entity(&reply).unwrap(),
        Some(FirmwareEntity {
            kind: FirmwareKind::Bootloader,
            name: Some("BOT".to_string()),
            version: "30.01.B0010".to_string(),
        })
    );
}

#[test]
fn formats_text_and_json() {
    let status = FirmwareStatus {
        mouse: Some(vec![FirmwareEntity {
            kind: FirmwareKind::Firmware,
            name: Some("RBM".to_string()),
            version: "27.03.B0019".to_string(),
        }]),
        receiver: None,
    };
    assert_eq!(
        format_status(&status, false),
        "Mouse:\n  Firmware RBM: 27.03.B0019\nBolt receiver:\n  unavailable"
    );
    assert_eq!(
        format_status(&status, true),
        r#"{"mouse":[{"type":"firmware","name":"RBM","version":"27.03.B0019"}],"receiver":null}"#
    );
}

#[test]
fn formats_versions_with_hex_fields() {
    assert_eq!(format_version(0x27, 0x03, 0x0019), "27.03.B0019");
    assert_eq!(format_version(0x0a, 0xff, 0xbeef), "0A.FF.BBEEF");
    assert_eq!(format_version(1, 2, 0), "01.02");
}
