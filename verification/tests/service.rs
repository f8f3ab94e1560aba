use mx4::error::{Error, IoKind, Msg};
use mx4::service::{
    check_user_context, install_step, linux_unit, macos_plist, parse_uid, service_gone,
    systemd_quote, uninstall_step, xml_escape, ServiceOutcome, ServiceStep,
};

#[test]
fn service_systemd_unit_runs_daemon_mode() {
    let unit = linux_unit("/tmp/mx4");
    assert!(unit.contains("ExecStart=\"/tmp/mx4\" daemon"));
    assert!(!unit.contains("MX4_SKIP_AUTOSTART"));
}

#[test]
fn service_launch_agent_runs_daemon_mode() {
    let plist = macos_plist("/tmp/mx4");
    assert!(plist.contains("<string>/tmp/mx4</string>"));
    assert!(plist.contains("<string>daemon</string>"));
    assert!(!plist.contains("MX4_SKIP_AUTOSTART"));
}

#[test]
fn quotes_paths_for_systemd() {
    assert_eq!(systemd_quote("/opt/my app/mx4"), "\"/opt/my app/mx4\"");
    assert_eq!(systemd_quote("a\\b\"c"), "\"a\\\\b\\\"c\"");
}

#[test]
fn escapes_paths_for_xml() {
    assert_eq!(xml_escape("/a&b/<c>/\"d\""), "/a&amp;b/&lt;c&gt;/&quot;d&quot;");
    assert_eq!(xml_escape("/usr/bin/mx4"), "/usr/bin/mx4");
}

#[test]
fn unit_has_its_sections() {
    let unit = linux_unit("/x");
    assert!(unit.starts_with("[Unit]\nDescription=mx4 reconnect daemon\n"));
    assert!(unit.ends_with("[Install]\nWantedBy=default.target\n"));
    assert!(macos_plist("/x").contains("<string>io.github.eriksremess.mx4</string>"));
}

#[test]
fn refuses_to_run_under_sudo() {
    assert!(check_user_context(None, None).is_ok());
    assert!(matches!(
        check_user_context(Some("eriks".to_string()), None),
        Err(Error::Message(Msg::ServiceUnderSudo))
    ));
    assert!(check_user_context(None, Some("1000".to_string())).is_err());
}

#[test]
fn reads_uid_output() {
    assert_eq!(parse_uid("501\n").unwrap(), "501");
    assert!(matches!(parse_uid(" \n"), Err(Error::Message(Msg::EmptyUid))));
}

#[test]
fn recognizes_a_missing_stopped_service() {
    assert!(service_gone("LoadState=not-found\nActiveState=inactive"));
    assert!(service_gone("ActiveState=inactive\nLoadState=not-found\n"));
    assert!(!service_gone("LoadState=loaded\nActiveState=active"));
    assert!(!service_gone("LoadState=not-found\nActiveState=active"));
    assert!(!service_gone(""));
}

fn args_of(step: ServiceStep) -> Vec<&'static str> {
    match step {
        ServiceStep::Systemctl(args) => args,
        other => panic!("expected a systemctl call, got {other:?}"),
    }
}

#[test]
fn install_reloads_enables_and_restarts_every_time() {
    let mut h: Vec<ServiceOutcome> = Vec::new();
    assert!(matches!(install_step(&h), ServiceStep::WriteUnit));
    h.push(ServiceOutcome::File(Ok(false)));
    assert_eq!(args_of(install_step(&h)), vec!["--user", "daemon-reload"]);
    h.push(ServiceOutcome::Command(Ok(String::new())));
    assert_eq!(args_of(install_step(&h)), vec!["--user", "enable", "mx4.service"]);
    h.push(ServiceOutcome::Command(Ok(String::new())));
    assert_eq!(args_of(install_step(&h)), vec!["--user", "restart", "mx4.service"]);
    h.push(ServiceOutcome::Command(Err(Error::Io(IoKind::Other, "restart failed".to_string()))));
    assert!(matches!(install_step(&h), ServiceStep::Done(Err(_))));
}

#[test]
fn uninstall_keeps_the_unit_when_the_service_is_still_there() {
    let disable_failed = || ServiceOutcome::Command(Err(Error::Io(IoKind::Other, "disable".to_string())));
    let mut h = vec![disable_failed()];
    assert_eq!(args_of(uninstall_step(&h)), vec!["--user", "show", "mx4.service", "--property=LoadState,ActiveState"]);
    h.push(ServiceOutcome::Command(Ok("LoadState=loaded\nActiveState=active".to_string())));
    assert!(matches!(uninstall_step(&h), ServiceStep::Done(Err(_))));
    let mut h = vec![disable_failed()];
    h.push(ServiceOutcome::Command(Ok("LoadState=not-found\nActiveState=inactive".to_string())));
    assert!(matches!(uninstall_step(&h), ServiceStep::RemoveUnit));
    h.push(ServiceOutcome::File(Ok(false)));
    assert!(matches!(uninstall_step(&h), ServiceStep::Done(Ok(()))));
}

#[test]
fn uninstall_reloads_after_removing_the_unit() {
    let mut h: Vec<ServiceOutcome> = Vec::new();
    assert_eq!(args_of(uninstall_step(&h)), vec!["--user", "disable", "--now", "mx4.service"]);
    h.push(ServiceOutcome::Command(Ok(String::new())));
    assert!(matches!(uninstall_step(&h), ServiceStep::RemoveUnit));
    h.push(ServiceOutcome::File(Ok(true)));
    assert_eq!(args_of(uninstall_step(&h)), vec!["--user", "daemon-reload"]);
    h.push(ServiceOutcome::Command(Ok(String::new())));
    assert!(matches!(uninstall_step(&h), ServiceStep::Done(Ok(()))));
}
