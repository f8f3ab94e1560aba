use mx4::autostart::{linux_unit, macos_plist, should_skip_autostart};

#[test]
fn autostart_systemd_unit_runs_daemon_mode() {
    let unit = linux_unit("/tmp/mx4");
    assert!(unit.contains("ExecStart=\"/tmp/mx4\" daemon"));
    assert!(unit.contains("MX4_SKIP_AUTOSTART=1"));
}

#[test]
fn autostart_launch_agent_runs_daemon_mode() {
    let plist = macos_plist("/tmp/mx4");
    assert!(plist.contains("<string>/tmp/mx4</string>"));
    assert!(plist.contains("<string>daemon</string>"));
    assert!(plist.contains("MX4_SKIP_AUTOSTART"));
}

#[test]
fn skips_autostart_under_sudo() {
    assert!(should_skip_autostart(None, Some("eriks".into()), None));
    assert!(should_skip_autostart(None, None, Some("1000".into())));
}

#[test]
fn skips_autostart_when_explicitly_disabled() {
    assert!(should_skip_autostart(Some("1".into()), None, None));
}

#[test]
fn autostarts_otherwise() {
    assert!(!should_skip_autostart(None, None, None));
}
