use mx4::device::{
    classify_reply, find_bolt_mouse, is_absent_slot, is_mx4_model, request_packet, wire_packet,
    ProtocolError, ReplyMatch, HIDPP20_ERROR, HIDPP_ERROR, LONG, SHORT,
};
use mx4::error::{Error, IoKind};
use mx4::exchange::{Reply, Step};

fn model_reply(pid: u16) -> Vec<u8> {
    let mut reply = vec![0; 20];
    reply[0] = LONG;
    reply[10] = 0x06; // Bluetooth LE and receiver transport IDs.
    reply[11..13].copy_from_slice(&pid.to_be_bytes());
    reply
}

/// Runs the receiver-slot scan against a responder that answers each request.
fn scan<F: FnMut(u8, u8, u8, &[u8]) -> Reply>(mut respond: F) -> Result<u8, Error> {
    let mut history: Vec<Reply> = Vec::new();
    loop {
        match find_bolt_mouse(&history) {
            Step::Exchange(r) => history.push(respond(r.idx, r.feature, r.function, &r.params)),
            Step::Done(result) => return result,
            _ => panic!("the scan only exchanges requests"),
        }
    }
}

#[test]
fn discovers_mouse_in_pairing_slot_instead_of_usb_interface() {
    for mouse_slot in [1, 3, 7] {
        let found = scan(|idx, feature, function, params| {
            assert_eq!(function, 0);
            if idx == 2 {
                return Err(Error::Setting("slot is offline".to_string()));
            }
            if feature == 0 {
                assert_eq!(params, &[0, 3]);
                Ok(vec![SHORT, idx, 0, 1, 5, 0, 0])
            } else {
                assert_eq!(feature, 5);
                assert!(params.is_empty());
                Ok(model_reply(if idx == mouse_slot { 0xb042 } else { 0xb034 }))
            }
        })
        .unwrap();
        assert_eq!(found, mouse_slot);
    }
}

#[test]
fn rejects_receivers_without_an_identifiable_mx4() {
    assert!(scan(|_, _, _, _| Ok(vec![0; 7])).is_err());
    assert!(scan(|_, _, _, _| Err(Error::Setting("offline".to_string()))).is_err());
    assert!(is_mx4_model(&[0; 7]).is_err());
    let mut reply = model_reply(0xb042);
    reply[10] = 0x04; // Matching bytes in a WPID are not a matching Bluetooth model.
    assert!(!is_mx4_model(&reply).unwrap());
    reply[10] = 0x07;
    reply[11..15].copy_from_slice(&[0, 0, 0xb0, 0x42]);
    assert!(is_mx4_model(&reply).unwrap());
}

#[test]
fn discovery_propagates_lock_errors_immediately() {
    let mut calls = 0;
    let err = scan(|_, _, _, _| {
        calls += 1;
        Err(Error::Io(IoKind::PermissionDenied, "cannot open transport.lock".to_string()))
    })
    .unwrap_err();
    assert_eq!(calls, 1);
    assert!(matches!(err, Error::Io(IoKind::PermissionDenied, _)));
    assert!(err.message().contains("transport.lock"));
}

#[test]
fn discovery_keeps_real_error_after_skipping_absent_slots() {
    let err = scan(|idx, _, _, _| match idx {
        1 => Err(Error::Timeout),
        2 => Err(Error::Setting("malformed device model ID table".to_string())),
        _ => Err(Error::Protocol(ProtocolError { report: HIDPP_ERROR, code: 0x09 })),
    })
    .unwrap_err();
    assert_eq!(err.message(), "malformed device model ID table");
    assert!(!is_absent_slot(&Error::Protocol(ProtocolError {
        report: HIDPP20_ERROR,
        code: 0x09
    })));
}

#[test]
fn builds_host_switch_for_both_transports() {
    let packet = request_packet(3, 5, 1, &[1]).unwrap();
    assert_eq!(packet, [SHORT, 3, 5, 0x12, 1, 0, 0]);
    assert_eq!(&wire_packet(LONG, &packet)[..7], &[LONG, 3, 5, 0x12, 1, 0, 0]);
    assert!(request_packet(3, 5, 16, &[]).is_err());
    assert!(request_packet(3, 5, 1, &[0; 4]).is_err());
}

#[test]
fn matches_expected_reply() {
    let reply = [0x10, 0x07, 0x0b, 0x22, 0, 0, 0];
    assert!(matches!(classify_reply(&reply, 0x07, 0x0b, 0x02).unwrap(), ReplyMatch::Matched));
}

#[test]
fn ignores_legacy_client_lookup_and_error_replies() {
    // Concurrent DPI/haptic lookups share feature/function zero. Another client's reply must never
    // supply this client's runtime feature index, even if it arrives first.
    for reply in [[LONG, 2, 0, 0x01, 0x0b, 0, 0], [SHORT, 2, 0xff, 0, 0x01, 2, 0]] {
        assert!(matches!(classify_reply(&reply, 2, 0, 0).unwrap(), ReplyMatch::Ignore));
    }
    let reply = [LONG, 2, 0, 0x02, 0x14, 0, 2];
    assert!(matches!(classify_reply(&reply, 2, 0, 0).unwrap(), ReplyMatch::Matched));
}

#[test]
fn surfaces_hidpp20_error_reply() {
    let reply = [0x10, 0x07, 0xff, 0x0b, 0x22, 0x09, 0];
    let ReplyMatch::Rejected(error) = classify_reply(&reply, 0x07, 0x0b, 0x02).unwrap() else {
        panic!("expected protocol error");
    };
    let message = Error::Protocol(error).message();
    assert!(message.contains("protocol error 0x09"));
    assert!(message.contains("unsupported"));
}

#[test]
fn ignores_error_reply_for_another_request() {
    let reply = [0x10, 0x07, 0xff, 0x0c, 0x32, 0x09, 0];
    assert!(matches!(classify_reply(&reply, 0x07, 0x0b, 0x02).unwrap(), ReplyMatch::Ignore));
}

#[test]
fn surfaces_unexpected_reply_shape() {
    let reply = [0x10, 0x07, 0x0c, 0x32, 0, 0, 0];
    let ReplyMatch::Unexpected(unexpected) = classify_reply(&reply, 0x07, 0x0b, 0x02).unwrap()
    else {
        panic!("expected unexpected reply");
    };
    let message = Error::Unexpected(unexpected).message();
    assert!(message.contains("unexpected reply"));
    assert!(message.contains("feature 0x0c"));
    assert!(message.contains("function 0x03"));
}

#[test]
fn keeps_short_packets_for_short_report_devices() {
    let pkt = [SHORT, 0, 1, 2, 3, 4, 5];
    assert_eq!(wire_packet(SHORT, &pkt), pkt);
}

#[test]
fn expands_short_packets_for_long_report_devices() {
    let pkt = [SHORT, 0, 1, 2, 3, 4, 5];
    let wire = wire_packet(LONG, &pkt);
    assert_eq!(wire.len(), 20);
    assert_eq!(wire[0], LONG);
    assert_eq!(&wire[1..7], &pkt[1..7]);
    assert!(wire[7..].iter().all(|b| *b == 0));
}

#[test]
fn classifies_short_and_unrelated_traffic() {
    assert!(matches!(classify_reply(&[0x10, 0x07, 0x0b], 0x07, 0x0b, 0x02).unwrap(), ReplyMatch::Ignore));
    let other_device = [0x10, 0x05, 0x0b, 0x22, 0, 0, 0];
    assert!(matches!(classify_reply(&other_device, 0x07, 0x0b, 0x02).unwrap(), ReplyMatch::Ignore));
}

#[test]
fn scan_stops_at_the_last_slot() {
    let mut asked = Vec::new();
    let err = scan(|idx, _, _, _| {
        asked.push(idx);
        Err(Error::Timeout)
    })
    .unwrap_err();
    assert_eq!(asked, vec![1, 2, 3, 4, 5, 6, 7]);
    assert!(err.message().contains("couldn't find"));
}

#[test]
fn absent_slot_errors() {
    assert!(is_absent_slot(&Error::Timeout));
    assert!(is_absent_slot(&Error::Protocol(ProtocolError { report: HIDPP_ERROR, code: 0x09 })));
    assert!(!is_absent_slot(&Error::Io(IoKind::PermissionDenied, "denied".to_string())));
}
