use mx4::config::{
    apply_best_effort, first_error, parse, resolve_step, saved_settings_of, ApplyStep, LinkAction,
    LinkKind, SavedConfig, SettingTarget, WheelRatchet, MAX_LINK_HOPS,
};
use mx4::error::{Error, Msg};
use mx4::text::NumberError;

#[test]
fn parses_saved_config() {
    let config = parse(
        r#"
            dpi = 2500
            wheel_ratchet = "free"
            wheel_ratchet_speed = 10
            wheel_force = 75
            wheel_invert = true
            wheel_resolution = false
            wheel_divert = false
            thumb_wheel_invert = false
            thumb_wheel_divert = true
            force_button = 4310
            haptic_strength = 60
            "#,
    )
    .unwrap();

    assert_eq!(
        config,
        SavedConfig {
            dpi: Some(2500),
            wheel_ratchet: Some(WheelRatchet::Free),
            wheel_ratchet_speed: Some(10),
            wheel_force: Some(75),
            wheel_invert: Some(true),
            wheel_resolution: Some(false),
            wheel_divert: Some(false),
            thumb_wheel_invert: Some(false),
            thumb_wheel_divert: Some(true),
            force_button: Some(4310),
            haptic_strength: Some(60),
        }
    );
}

#[test]
fn ignores_unknown_keys() {
    let config = parse("unknown = 1\nwheel_invert = true\n").unwrap();
    assert_eq!(config.wheel_invert, Some(true));
    assert_eq!(config.dpi, None);
}

#[test]
fn renders_valid_config() {
    let text = SavedConfig {
        dpi: Some(2500),
        wheel_ratchet: Some(WheelRatchet::Ratchet),
        wheel_ratchet_speed: None,
        wheel_force: None,
        wheel_invert: Some(true),
        wheel_resolution: Some(false),
        wheel_divert: Some(true),
        thumb_wheel_invert: None,
        thumb_wheel_divert: None,
        force_button: Some(4310),
        haptic_strength: Some(60),
    }
    .to_toml();

    assert!(text.contains("dpi = 2500"));
    assert!(text.contains(r#"wheel_ratchet = "ratchet""#));
    assert!(text.contains("wheel_invert = true"));
    assert!(text.contains("wheel_divert = true"));
    assert!(text.contains("force_button = 4310"));
    assert!(text.contains("haptic_strength = 60"));
}

fn full_config() -> SavedConfig {
    SavedConfig {
        dpi: Some(1600),
        wheel_ratchet: Some(WheelRatchet::Free),
        wheel_ratchet_speed: Some(255),
        wheel_force: Some(0),
        wheel_invert: Some(false),
        wheel_resolution: Some(true),
        wheel_divert: Some(false),
        thumb_wheel_invert: Some(true),
        thumb_wheel_divert: Some(false),
        force_button: Some(65535),
        haptic_strength: Some(100),
    }
}

#[test]
fn saved_text_reads_back() {
    for config in [SavedConfig::default(), full_config()] {
        assert_eq!(parse(&config.to_toml()).unwrap(), config);
    }
}

#[test]
fn empty_config_renders_only_the_header() {
    assert_eq!(
        SavedConfig::default().to_toml(),
        "# Saved by mx4. Adjusting this file by hand is supported.\n# Unsupported keys are ignored.\n\n"
    );
    assert!(SavedConfig::default().is_empty());
    assert!(!full_config().is_empty());
}

#[test]
fn reports_malformed_lines_and_values() {
    assert!(matches!(parse("dpi 2500\n"), Err(Error::Message(Msg::ConfigLine))));
    assert!(matches!(parse("dpi = invalid\n"), Err(Error::Number(NumberError::InvalidDigit))));
    assert!(matches!(parse("dpi = \n"), Err(Error::Number(NumberError::Empty))));
    assert!(matches!(parse("wheel_force = 256\n"), Err(Error::Number(NumberError::PosOverflow))));
    assert!(matches!(parse("wheel_invert = yes\n"), Err(Error::Message(Msg::ConfigBool))));
    assert!(matches!(parse("wheel_ratchet = free\n"), Err(Error::Message(Msg::ConfigString))));
    assert!(matches!(parse("wheel_ratchet = \"spin\"\n"), Err(Error::Message(Msg::ConfigRatchet))));
}

#[test]
fn first_malformed_line_decides_the_error() {
    assert!(matches!(parse("dpi = x\nwheel_invert = maybe\n"), Err(Error::Number(_))));
    assert!(matches!(parse("wheel_invert = maybe\ndpi = x\n"), Err(Error::Message(Msg::ConfigBool))));
}

#[test]
fn comments_blank_lines_and_whitespace_are_accepted() {
    let config = parse("# comment\r\n\n   \t\n  dpi   =  800  \r\nwheel_ratchet = \" ratchet \"\n").unwrap();
    assert_eq!(config.dpi, Some(800));
    assert_eq!(config.wheel_ratchet, Some(WheelRatchet::Ratchet));
}

#[test]
fn later_lines_override_earlier_ones() {
    assert_eq!(parse("dpi = 800\ndpi = 900").unwrap().dpi, Some(900));
    assert_eq!(parse("haptic_strength = +7\n").unwrap().haptic_strength, Some(7));
}

#[test]
fn splits_at_the_first_equals_sign() {
    assert!(matches!(parse("dpi = 1=2\n"), Err(Error::Number(NumberError::InvalidDigit))));
    assert_eq!(parse("a=b=c\n").unwrap(), SavedConfig::default());
}

#[test]
fn string_values_are_unescaped() {
    assert!(matches!(
        parse("wheel_ratchet = \"fr\\\"ee\"\n"),
        Err(Error::Message(Msg::ConfigRatchet))
    ));
    assert_eq!(parse("wheel_ratchet = \"free\"").unwrap().wheel_ratchet, Some(WheelRatchet::Free));
}

#[test]
fn ratchet_names_and_parse() {
    assert_eq!(WheelRatchet::Free.as_str(), "free");
    assert_eq!(WheelRatchet::Ratchet.as_str(), "ratchet");
    assert_eq!(WheelRatchet::parse(&[' ', 'f', 'r', 'e', 'e']).unwrap(), WheelRatchet::Free);
    assert!(WheelRatchet::parse(&['x']).is_err());
}

#[test]
fn settings_follow_the_saved_values_in_order() {
    let settings = saved_settings_of(&full_config());
    let labels: Vec<&str> = settings.iter().map(|s| s.label.as_str()).collect();
    assert_eq!(
        labels,
        vec![
            "dpi",
            "wheel ratchet",
            "wheel ratchet-speed",
            "wheel force",
            "wheel invert",
            "wheel resolution",
            "wheel divert",
            "thumb-wheel invert",
            "thumb-wheel divert",
            "force-button",
            "haptic strength",
        ]
    );
    assert_eq!(settings[0].target, SettingTarget::Dpi);
    assert_eq!(settings[0].value, "1600");
    assert_eq!(settings[1].name, "ratchet");
    assert_eq!(settings[1].value, "free");
    assert_eq!(settings[4].value, "off");
    assert_eq!(settings[5].value, "on");
    assert_eq!(settings[7].target, SettingTarget::ThumbWheel);
    assert_eq!(settings[9].target, SettingTarget::ForceButton);
    assert_eq!(settings[10].target, SettingTarget::HapticStrength);
    assert!(saved_settings_of(&SavedConfig::default()).is_empty());
}

#[test]
fn best_effort_continues_after_a_failure() {
    let config = SavedConfig { dpi: Some(2500), wheel_invert: Some(true), ..SavedConfig::default() };
    let mut results: Vec<Result<(), Error>> = Vec::new();
    let ApplyStep::Run(first) = apply_best_effort(&config, &results) else {
        panic!("the DPI comes first");
    };
    assert_eq!(first.label, "dpi");
    results.push(Err(Error::Message(Msg::DpiRange)));
    let ApplyStep::Run(second) = apply_best_effort(&config, &results) else {
        panic!("a failure does not stop the next setting");
    };
    assert_eq!(second.label, "wheel invert");
    assert_eq!(second.value, "on");
    results.push(Ok(()));
    let ApplyStep::Finished(errors) = apply_best_effort(&config, &results) else {
        panic!("every setting was tried");
    };
    assert_eq!(errors, vec!["dpi: pick a DPI value from 200 to 8000".to_string()]);
    let outcome = first_error(&errors).unwrap_err();
    assert_eq!(outcome.message(), "dpi: pick a DPI value from 200 to 8000");
}

#[test]
fn nothing_to_apply_finishes_at_once() {
    let results: Vec<Result<(), Error>> = Vec::new();
    let ApplyStep::Finished(errors) = apply_best_effort(&SavedConfig::default(), &results) else {
        panic!("nothing is saved");
    };
    assert!(errors.is_empty());
    assert!(first_error(&errors).is_ok());
}

#[test]
fn merged_keeps_unchanged_values() {
    let base = full_config();
    let change = SavedConfig { dpi: Some(3200), ..SavedConfig::default() };
    let merged = base.merged(&change);
    assert_eq!(merged.dpi, Some(3200));
    assert_eq!(merged.haptic_strength, Some(100));
    assert_eq!(base.merged(&SavedConfig::default()), base);
}

#[test]
fn config_path_resolution_follows_links_until_the_limit() {
    assert_eq!(resolve_step(0, LinkKind::Symlink).unwrap(), LinkAction::Follow);
    assert_eq!(resolve_step(3, LinkKind::Present).unwrap(), LinkAction::Resolved);
    assert_eq!(resolve_step(0, LinkKind::Missing).unwrap(), LinkAction::CreateParent);
    assert_eq!(resolve_step(0, LinkKind::Failed).unwrap(), LinkAction::Fail);
    let err = resolve_step(MAX_LINK_HOPS, LinkKind::Symlink).unwrap_err();
    assert_eq!(err.message(), "too many symlinks in the config path");
}

#[test]
fn saved_arguments_read_back_through_the_command_parsers() {
    let config = SavedConfig {
        dpi: Some(3200),
        wheel_ratchet: Some(WheelRatchet::Ratchet),
        wheel_ratchet_speed: Some(12),
        wheel_force: Some(40),
        wheel_invert: Some(true),
        haptic_strength: Some(45),
        ..SavedConfig::default()
    };
    let settings = saved_settings_of(&config);
    assert_eq!(mx4::features::dpi::parse(&settings[0].value).unwrap(), 3200);
    assert_eq!(mx4::features::wheel::parse_ratchet(&settings[1].value).unwrap(), 2);
    assert_eq!(mx4::features::wheel::parse_ratchet_speed(&settings[2].value).unwrap(), 12);
    assert_eq!(mx4::features::wheel::parse_force(&settings[3].value).unwrap(), 40);
    assert!(mx4::features::wheel::parse_toggle(&settings[4].value).unwrap());
    assert_eq!(mx4::features::haptic::parse_strength(&settings[5].value).unwrap(), 45);
}
