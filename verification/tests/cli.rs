use mx4::cli::{
    best_effort_json, help_commands, help_options, help_set_targets, help_status_targets,
    help_text, parse_command, saved_change, status_json, version_output, Command, SetCommand,
    StatusTarget,
};
use mx4::config::{SavedConfig, WheelRatchet};
use mx4::daemon::DaemonMode;
use mx4::error::{Error, Msg};

fn args(list: &[&str]) -> Vec<String> {
    list.iter().map(|s| s.to_string()).collect()
}

#[test]
fn help_explains_commands_targets_and_options() {
    assert!(help_commands().iter().any(|(syntax, _)| syntax.starts_with("firmware ")));
    assert!(!help_set_targets().is_empty());
    assert!(!help_status_targets().is_empty());
    assert!(help_options().iter().any(|(syntax, _)| *syntax == "-h | --help"));
}

#[test]
fn version_output_includes_package_and_hidapi_versions() {
    let output = version_output("0.1.0", "2.6.7");
    assert!(output.contains("0.1.0"));
    assert!(output.contains("hidapi "));
}

#[test]
fn help_aligns_descriptions() {
    let help = help_text();
    assert!(help.starts_with("mx4 - MX Master 4 status and settings\n\nUsage:\n"));
    assert!(help.contains(
        "  battery [--json]                    Show battery level and charging state\n"
    ));
    assert!(help.contains(
        "  -h | --help                         Show this help\n"
    ));
    assert!(help.ends_with("Haptic ranges: 0..14 or {0..14}\n"));
}

#[test]
fn combined_status_uses_null_for_unreadable_features() {
    let ok = |s: &str| -> Result<String, Error> { Ok(s.to_string()) };
    let json = status_json(
        &ok("{\"level\":87,\"charging\":true}"),
        &Err(Error::Timeout),
        &ok("{}"),
        &Err(Error::Timeout),
        &ok("1"),
        &ok("2"),
    );
    assert_eq!(
        json,
        "{\"battery\":{\"level\":87,\"charging\":true},\"dpi\":null,\"wheel\":{},\"thumb_wheel\":null,\"force_button\":1,\"haptic\":2}"
    );
    assert_eq!(best_effort_json(&Err(Error::Timeout)), "null");
}

#[test]
fn reads_commands() {
    assert!(matches!(parse_command(&args(&[])), Ok(Command::Help)));
    assert!(matches!(parse_command(&args(&["--help"])), Ok(Command::Help)));
    assert!(matches!(parse_command(&args(&["-v"])), Ok(Command::Version)));
    assert!(matches!(parse_command(&args(&["status"])), Ok(Command::StatusAll)));
    assert!(matches!(parse_command(&args(&["status", "--json"])), Ok(Command::StatusJson)));
    assert!(matches!(
        parse_command(&args(&["status", "thumb-wheel", "--json"])),
        Ok(Command::Status(StatusTarget::ThumbWheel, true))
    ));
    assert!(matches!(
        parse_command(&args(&["status", "dpi", "--yaml"])),
        Err(Error::Message(Msg::DpiJsonHint))
    ));
    assert!(matches!(
        parse_command(&args(&["status", "mouse"])),
        Err(Error::Message(Msg::StatusUsage))
    ));
    assert!(matches!(
        parse_command(&args(&["battery", "--json"])),
        Ok(Command::Status(StatusTarget::Battery, true))
    ));
    assert!(matches!(parse_command(&args(&["firmware"])), Ok(Command::Firmware(false))));
    assert!(matches!(
        parse_command(&args(&["daemon", "--once"])),
        Ok(Command::Daemon(DaemonMode::Once))
    ));
    assert!(matches!(
        parse_command(&args(&["haptic", "strength", "60"])),
        Err(Error::Message(Msg::HapticStrengthMisuse))
    ));
    let Ok(Command::Haptic(effects)) = parse_command(&args(&["haptic", "0..3", "14"])) else {
        panic!("haptic effects");
    };
    assert_eq!(effects, args(&["0..3", "14"]));
    assert!(matches!(
        parse_command(&args(&["fly"])),
        Err(Error::Message(Msg::UnknownCommand))
    ));
}

#[test]
fn reads_set_commands() {
    let Ok(Command::Setting(SetCommand::Wheel(setting, value))) =
        parse_command(&args(&["set", "wheel", "ratchet", "free"]))
    else {
        panic!("wheel setting");
    };
    assert_eq!((setting.as_str(), value.as_str()), ("ratchet", "free"));
    assert!(matches!(
        parse_command(&args(&["set", "dpi"])),
        Err(Error::Message(Msg::SetUsage))
    ));
}

#[test]
fn set_commands_save_their_values() {
    let change = saved_change(&SetCommand::Dpi("2500".to_string())).unwrap();
    assert_eq!(change, SavedConfig { dpi: Some(2500), ..SavedConfig::default() });
    let change = saved_change(&SetCommand::Strength("medium".to_string())).unwrap();
    assert_eq!(change.haptic_strength, Some(60));
    let change =
        saved_change(&SetCommand::Wheel("ratchet".to_string(), " ratchet".to_string())).unwrap();
    assert_eq!(change.wheel_ratchet, Some(WheelRatchet::Ratchet));
    let change =
        saved_change(&SetCommand::Wheel("smart-shift".to_string(), "12".to_string())).unwrap();
    assert_eq!(change.wheel_ratchet_speed, Some(12));
    let change =
        saved_change(&SetCommand::ThumbWheel("divert".to_string(), "on".to_string())).unwrap();
    assert_eq!(change.thumb_wheel_divert, Some(true));
    assert!(saved_change(&SetCommand::ThumbWheel("spin".to_string(), "maybe".to_string())).is_err());
    assert!(saved_change(&SetCommand::Host("2".to_string())).unwrap().is_empty());
    let change = saved_change(&SetCommand::ForceButton("4310".to_string())).unwrap();
    assert_eq!(change.force_button, Some(4310));
    assert!(saved_change(&SetCommand::Dpi("100".to_string())).is_err());
}

