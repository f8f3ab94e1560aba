use mx4::daemon::{run, DaemonMode, DaemonState, MISSING_POLLS_BEFORE_DISCONNECT};

fn args(list: &[&str]) -> Vec<String> {
    list.iter().map(|s| s.to_string()).collect()
}

#[test]
fn reads_daemon_modes() {
    assert_eq!(run(&args(&[])).unwrap(), DaemonMode::Loop);
    assert_eq!(run(&args(&["--once"])).unwrap(), DaemonMode::Once);
    assert_eq!(run(&args(&["--install"])).unwrap(), DaemonMode::Install);
    assert_eq!(run(&args(&["--uninstall"])).unwrap(), DaemonMode::Uninstall);
    assert!(run(&args(&["--twice"])).is_err());
    assert!(run(&args(&["--once", "--once"])).is_err());
}

#[test]
fn applies_when_the_mouse_first_appears() {
    let state = DaemonState::new();
    let idle = state.poll(false, false);
    assert!(!idle.apply);
    assert_eq!(idle.state, state);
    let found = state.poll(true, false);
    assert!(found.apply);
    assert!(found.state.connected);
}

#[test]
fn single_missed_poll_is_not_a_disconnect() {
    let connected = DaemonState::new().poll(true, false).state;
    let missed = connected.poll(false, false);
    assert!(missed.state.connected);
    assert!(!missed.apply);
    assert!(!missed.state.poll(true, false).apply);
}

#[test]
fn two_missed_polls_disconnect_and_reconnect_applies() {
    assert_eq!(MISSING_POLLS_BEFORE_DISCONNECT, 2);
    let connected = DaemonState::new().poll(true, false).state;
    let gone = connected.poll(false, false).state.poll(false, false);
    assert!(!gone.state.connected);
    assert!(gone.state.poll(true, false).apply);
}

#[test]
fn reconciles_only_when_due() {
    let connected = DaemonState::new().poll(true, false).state;
    assert!(!connected.poll(true, false).apply);
    assert!(connected.poll(true, true).apply);
}

#[test]
fn unknown_daemon_arguments_get_the_usage_hint() {
    for list in [&["--loop"][..], &["--once", "x"][..]] {
        assert_eq!(run(&args(list)).unwrap_err().message(), "try `mx4 daemon` or `mx4 daemon --once`");
    }
}
