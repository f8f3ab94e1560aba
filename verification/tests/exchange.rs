use mx4::device::{LONG, REPLY_READS, SHORT};
use mx4::error::Error;
use mx4::exchange::{Reply, ReplyWait, Step};
use mx4::features::{dpi, firmware, haptic};

#[test]
fn wait_times_out_after_its_reads() {
    let mut wait = ReplyWait::new(2, 0x0b, 0x02);
    for _ in 1..REPLY_READS {
        assert!(wait.on_read(&[]).is_none());
    }
    assert!(matches!(wait.on_read(&[]), Some(Err(Error::Timeout))));
}

#[test]
fn wait_reports_the_first_unexpected_reply_on_timeout() {
    let mut wait = ReplyWait::new(2, 0x0b, 0x02);
    assert!(wait.on_read(&[SHORT, 2, 0x0c, 0x32, 0, 0, 0]).is_none());
    assert!(wait.on_read(&[SHORT, 2, 0x0d, 0x42, 0, 0, 0]).is_none());
    let mut outcome = None;
    for _ in 2..REPLY_READS {
        outcome = wait.on_read(&[]);
    }
    let Some(Err(Error::Unexpected(u))) = outcome else {
        panic!("the first unexpected reply is reported");
    };
    assert_eq!((u.got_feature, u.got_function), (0x0c, 0x03));
}

#[test]
fn wait_returns_the_matching_reply() {
    let mut wait = ReplyWait::new(2, 0x0b, 0x02);
    let reply = [LONG, 2, 0x0b, 0x22, 7, 8, 9, 0, 0, 0, 0, 0, 0, 0, 0, 0, 0, 0, 0, 0];
    assert_eq!(wait.on_read(&reply).unwrap().unwrap(), reply.to_vec());
}

#[test]
fn dpi_read_resolves_the_feature_then_asks() {
    let mut history: Vec<Reply> = Vec::new();
    let Step::Exchange(lookup) = dpi::read_status(1, &history) else { panic!("a lookup first") };
    assert_eq!((lookup.idx, lookup.feature, lookup.function), (1, 0, 0));
    assert_eq!(lookup.params, vec![0x22, 0x01]);
    history.push(Ok(vec![SHORT, 1, 0, 0x02, 0x07, 0, 0]));
    let Step::Exchange(read) = dpi::read_status(1, &history) else { panic!("then the read") };
    assert_eq!((read.idx, read.feature, read.function), (1, 0x07, 0x02));
    history.push(Ok(vec![SHORT, 1, 0x07, 0x22, 0x00, 0x0a, 0x28]));
    assert!(matches!(dpi::read_status(1, &history), Step::Done(Ok(2600))));
}

#[test]
fn missing_feature_ends_the_operation() {
    let history: Vec<Reply> = vec![Ok(vec![SHORT, 1, 0, 0x02, 0x00, 0, 0])];
    let Step::Done(Err(err)) = dpi::read_status(1, &history) else { panic!("no such feature") };
    assert_eq!(err.message(), "that feature isn't available on this device");
    let history: Vec<Reply> = vec![Err(Error::Timeout)];
    assert!(matches!(dpi::read_status(1, &history), Step::Done(Err(Error::Timeout))));
}

#[test]
fn haptic_playback_pauses_between_effects() {
    let effects = [3u8, 5];
    let lookup = || -> Reply { Ok(vec![SHORT, 1, 0, 0x02, 0x0b, 0, 0]) };
    let mut history: Vec<Reply> = Vec::new();
    assert!(matches!(haptic::play(1, &effects, &history), Step::Exchange(_)));
    history.push(lookup());
    let Step::Write(first) = haptic::play(1, &effects, &history) else { panic!("write effect") };
    assert_eq!(first, vec![0x10, 1, 0x0b, 0x4e, 3, 0, 0]);
    history.push(Ok(Vec::new()));
    assert!(matches!(haptic::play(1, &effects, &history), Step::Pause));
    history.push(Ok(Vec::new()));
    assert!(matches!(haptic::play(1, &effects, &history), Step::Exchange(_)));
    history.push(lookup());
    let Step::Write(second) = haptic::play(1, &effects, &history) else { panic!("write effect") };
    assert_eq!(second[4], 5);
    history.push(Ok(Vec::new()));
    assert!(matches!(haptic::play(1, &effects, &history), Step::Done(Ok(()))));
}

#[test]
fn receiver_firmware_reads_three_entities() {
    let mut history: Vec<Reply> = Vec::new();
    for entity in 0..3u8 {
        let firmware::ReceiverStep::Read(k) = firmware::read_receiver(&history) else {
            panic!("reads each entity")
        };
        assert_eq!(k, entity);
        history.push(Ok(vec![0x11, 0xff, 0x83, 0xf4, if entity == 0 { 0 } else { 9 }, 0x30, 0x01, 0x00, 0x10]));
    }
    let firmware::ReceiverStep::Done(Ok(entities)) = firmware::read_receiver(&history) else {
        panic!("done")
    };
    assert_eq!(entities.len(), 1);
    assert_eq!(entities[0].version, "30.01.B0010");
}

#[test]
fn receiver_register_wait() {
    let mut wait = firmware::RegisterWait::new();
    assert!(wait.on_read(&[0x10, 0x01, 0x83, 0xf4, 0, 0, 0]).is_none());
    assert!(matches!(
        wait.on_read(&[0x10, 0xff, 0x8f, 0x83, 0xf4, 0x02, 0]),
        Some(Err(Error::ReceiverError(0x02)))
    ));
    let mut wait = firmware::RegisterWait::new();
    let reply = [0x11, 0xff, 0x83, 0xf4, 1, 0x30, 0x01, 0x00, 0x10];
    assert_eq!(wait.on_read(&reply).unwrap().unwrap(), reply.to_vec());
}

#[test]
fn firmware_status_keeps_whichever_half_answered() {
    assert!(firmware::read_status(Err(Error::Timeout), Ok(None)).is_err());
    let status = firmware::read_status(Err(Error::Timeout), Ok(Some(Vec::new()))).unwrap();
    assert!(status.mouse.is_none());
    assert_eq!(status.receiver, Some(Vec::new()));
}
