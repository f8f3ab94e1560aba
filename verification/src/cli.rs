//! The command line's texts: help, version, and the combined JSON status.

use vstd::prelude::*;

use crate::config::{empty_config, texts, SavedConfig, WheelRatchet};
use crate::exchange::{Plan, Reply};
use crate::features::dpi::{
    dpi_arg, parse as dpi_parse, set_plan as dpi_set_plan, set_value_plan as dpi_set_value_plan,
};
use crate::features::haptic::{parse_strength, set_strength_arg_plan, set_strength_plan, strength_arg};
use crate::features::wheel::{parse_toggle, toggle_arg};
use crate::daemon::{daemon_mode, run, DaemonMode};
use crate::error::{Error, Msg};
use crate::text::{chars_eq, chars_of, parse_trimmed, parse_unsigned, push_char, push_str, trim, trim_chars};

verus! {

/// The width that every help entry's syntax is padded to, so that the descriptions of all
/// sections line up.
pub const HELP_SYNTAX_WIDTH: usize = 34;

/// The views of help rows.
pub open spec fn row_views(v: Seq<(&str, &str)>) -> Seq<(Seq<char>, Seq<char>)> {
    v.map_values(|p: (&str, &str)| (p.0@, p.1@))
}

fn push_row(v: &mut Vec<(&'static str, &'static str)>, syntax: &'static str, description: &'static str)
    ensures
        row_views(final(v)@) == row_views(old(v)@).push((syntax@, description@)),
{
    v.push((syntax, description));
    assert(row_views(final(v)@) =~= row_views(old(v)@).push((syntax@, description@)));
}

/// The commands, each with its syntax and what it does.
pub open spec fn help_commands_rows() -> Seq<(Seq<char>, Seq<char>)> {
    seq![
        ("battery [--json]"@, "Show battery level and charging state"@),
        ("daemon [--once]"@, "Reapply saved settings continuously or once"@),
        ("firmware [--json]"@, "Show mouse and Bolt receiver firmware"@),
        ("haptic [<effect|range>...]"@, "Play haptic effects from 0 to 14"@),
        ("set <target> ..."@, "Change a setting; most settings are saved"@),
        ("status [<target>] [--json]"@, "Show all status values or one target"@),
    ]
}

/// The commands, each with its syntax and what it does.
pub fn help_commands() -> (v: Vec<(&'static str, &'static str)>)
    ensures
        row_views(v@) == help_commands_rows(),
{
    let mut v: Vec<(&'static str, &'static str)> = Vec::new();
    push_row(&mut v, "battery [--json]", "Show battery level and charging state");
    push_row(&mut v, "daemon [--once]", "Reapply saved settings continuously or once");
    push_row(&mut v, "firmware [--json]", "Show mouse and Bolt receiver firmware");
    push_row(&mut v, "haptic [<effect|range>...]", "Play haptic effects from 0 to 14");
    push_row(&mut v, "set <target> ...", "Change a setting; most settings are saved");
    push_row(&mut v, "status [<target>] [--json]", "Show all status values or one target");
    assert(row_views(v@) =~= help_commands_rows());
    v
}

/// The targets of `mx4 set`, each with its syntax and what it sets.
pub open spec fn help_set_targets_rows() -> Seq<(Seq<char>, Seq<char>)> {
    seq![
        ("dpi <200-8000>"@, "Set sensor resolution in DPI"@),
        ("force-button <value>"@, "Set the force-sensing button threshold"@),
        ("host <1|2|3>"@, "Switch the active Easy-Switch host"@),
        ("strength <0-100|preset>"@, "Set haptic strength or turn it off"@),
        ("thumb-wheel divert <on|off>"@, "Route thumb-wheel events through HID++"@),
        ("thumb-wheel invert <on|off>"@, "Reverse the thumb-wheel direction"@),
        ("wheel divert <on|off>"@, "Route scroll-wheel events through HID++"@),
        ("wheel force <1-100>"@, "Set ratchet resistance"@),
        ("wheel invert <on|off>"@, "Reverse the scroll-wheel direction"@),
        ("wheel ratchet <free|ratchet>"@, "Select free-spin or ratchet mode"@),
        ("wheel ratchet-speed <0-50>"@, "Set the SmartShift transition speed"@),
        ("wheel resolution <on|off>"@, "Toggle high-resolution scrolling"@),
    ]
}

/// The targets of `mx4 set`, each with its syntax and what it sets.
pub fn help_set_targets() -> (v: Vec<(&'static str, &'static str)>)
    ensures
        row_views(v@) == help_set_targets_rows(),
{
    let mut v: Vec<(&'static str, &'static str)> = Vec::new();
    push_row(&mut v, "dpi <200-8000>", "Set sensor resolution in DPI");
    push_row(&mut v, "force-button <value>", "Set the force-sensing button threshold");
    push_row(&mut v, "host <1|2|3>", "Switch the active Easy-Switch host");
    push_row(&mut v, "strength <0-100|preset>", "Set haptic strength or turn it off");
    push_row(&mut v, "thumb-wheel divert <on|off>", "Route thumb-wheel events through HID++");
    push_row(&mut v, "thumb-wheel invert <on|off>", "Reverse the thumb-wheel direction");
    push_row(&mut v, "wheel divert <on|off>", "Route scroll-wheel events through HID++");
    push_row(&mut v, "wheel force <1-100>", "Set ratchet resistance");
    push_row(&mut v, "wheel invert <on|off>", "Reverse the scroll-wheel direction");
    push_row(&mut v, "wheel ratchet <free|ratchet>", "Select free-spin or ratchet mode");
    push_row(&mut v, "wheel ratchet-speed <0-50>", "Set the SmartShift transition speed");
    push_row(&mut v, "wheel resolution <on|off>", "Toggle high-resolution scrolling");
    assert(row_views(v@) =~= help_set_targets_rows());
    v
}

/// The targets of `mx4 status`, each with what it shows.
pub open spec fn help_status_targets_rows() -> Seq<(Seq<char>, Seq<char>)> {
    seq![
        ("battery"@, "Battery level and charging state"@),
        ("dpi"@, "Current sensor resolution"@),
        ("force-button"@, "Current threshold and supported range"@),
        ("haptic"@, "Haptic state and strength"@),
        ("thumb-wheel"@, "Thumb-wheel direction and diversion state"@),
        ("wheel"@, "Ratchet, SmartShift, and scroll-wheel state"@),
    ]
}

/// The targets of `mx4 status`, each with what it shows.
pub fn help_status_targets() -> (v: Vec<(&'static str, &'static str)>)
    ensures
        row_views(v@) == help_status_targets_rows(),
{
    let mut v: Vec<(&'static str, &'static str)> = Vec::new();
    push_row(&mut v, "battery", "Battery level and charging state");
    push_row(&mut v, "dpi", "Current sensor resolution");
    push_row(&mut v, "force-button", "Current threshold and supported range");
    push_row(&mut v, "haptic", "Haptic state and strength");
    push_row(&mut v, "thumb-wheel", "Thumb-wheel direction and diversion state");
    push_row(&mut v, "wheel", "Ratchet, SmartShift, and scroll-wheel state");
    assert(row_views(v@) =~= help_status_targets_rows());
    v
}

/// The options, each with what it does.
pub open spec fn help_options_rows() -> Seq<(Seq<char>, Seq<char>)> {
    seq![
        ("-h | --help"@, "Show this help"@),
        ("--json"@, "Print machine-readable JSON where supported"@),
        ("-v | --version"@, "Show mx4 and hidapi versions"@),
    ]
}

/// The options, each with what it does.
pub fn help_options() -> (v: Vec<(&'static str, &'static str)>)
    ensures
        row_views(v@) == help_options_rows(),
{
    let mut v: Vec<(&'static str, &'static str)> = Vec::new();
    push_row(&mut v, "-h | --help", "Show this help");
    push_row(&mut v, "--json", "Print machine-readable JSON where supported");
    push_row(&mut v, "-v | --version", "Show mx4 and hidapi versions");
    assert(row_views(v@) =~= help_options_rows());
    v
}

/// A text padded with spaces on the right to `width` characters, as `{:<width$}` pads it.
pub open spec fn padded(s: Seq<char>, width: nat) -> Seq<char> {
    if s.len() >= width {
        s
    } else {
        s + Seq::new((width - s.len()) as nat, |i: int| ' ')
    }
}

/// One help row: indented syntax, padded, then the description.
pub open spec fn row_line(row: (Seq<char>, Seq<char>)) -> Seq<char> {
    "  "@ + padded(row.0, HELP_SYNTAX_WIDTH as nat) + "  "@ + row.1 + "\n"@
}

pub open spec fn rows_text(rows: Seq<(Seq<char>, Seq<char>)>) -> Seq<char>
    decreases rows.len(),
{
    if rows.len() == 0 {
        Seq::empty()
    } else {
        rows_text(rows.drop_last()) + row_line(rows.last())
    }
}

/// A help section: its title, its rows, and a blank line.
pub open spec fn section_text(title: Seq<char>, rows: Seq<(Seq<char>, Seq<char>)>) -> Seq<char> {
    title + "\n"@ + rows_text(rows) + "\n"@
}

/// The text before the help sections.
pub const HELP_HEAD: &'static str = "mx4 - MX Master 4 status and settings\n\nUsage:\n  mx4 <command> [arguments]\n\n";
/// The text after the help sections.
pub const HELP_FOOT: &'static str = "Haptic strength presets: off, subtle, low, medium, high\nHaptic ranges: 0..14 or {0..14}\n";

/// The full help text.
pub open spec fn help_spec() -> Seq<char> {
    HELP_HEAD@ + section_text("Commands:"@, help_commands_rows()) + section_text(
        "Set targets:"@,
        help_set_targets_rows(),
    ) + section_text("Status targets (all accept --json):"@, help_status_targets_rows())
        + section_text("Options:"@, help_options_rows()) + HELP_FOOT@
}

fn push_padded(s: &mut String, text: &str, width: usize)
    ensures
        final(s)@ == old(s)@ + padded(text@, width as nat),
{
    let n = chars_of(text).len();
    push_str(s, text);
    let ghost mid = s@;
    if n < width {
        let mut k: usize = n;
        while k < width
            invariant
                n <= k <= width,
                n == text@.len(),
                s@ == mid + Seq::new((k - n) as nat, |i: int| ' '),
            decreases width - k,
        {
            push_char(s, ' ');
            k = k + 1;
            assert(s@ =~= mid + Seq::new((k - n) as nat, |i: int| ' '));
        }
    }
    assert(final(s)@ =~= old(s)@ + padded(text@, width as nat));
}

fn push_section(s: &mut String, title: &str, rows: &Vec<(&'static str, &'static str)>)
    ensures
        final(s)@ == old(s)@ + section_text(title@, row_views(rows@)),
{
    push_str(s, title);
    push_str(s, "\n");
    let ghost start = s@;
    let mut i: usize = 0;
    assert(row_views(rows@).take(0) =~= Seq::<(Seq<char>, Seq<char>)>::empty());
    while i < rows.len()
        invariant
            i <= rows.len(),
            s@ == start + rows_text(row_views(rows@).take(i as int)),
        decreases rows.len() - i,
    {
        let (syntax, description) = rows[i];
        push_str(s, "  ");
        push_padded(s, syntax, HELP_SYNTAX_WIDTH);
        push_str(s, "  ");
        push_str(s, description);
        push_str(s, "\n");
        proof {
            let rv = row_views(rows@);
            assert(rv[i as int] == (syntax@, description@));
            assert(rv.take(i + 1).drop_last() =~= rv.take(i as int));
            assert(s@ =~= start + rows_text(rv.take(i + 1)));
        }
        i = i + 1;
    }
    assert(row_views(rows@).take(rows.len() as int) =~= row_views(rows@));
    push_str(s, "\n");
    assert(final(s)@ =~= old(s)@ + section_text(title@, row_views(rows@)));
}

/// The help text that `mx4 --help` prints.
pub fn help_text() -> (s: String)
    ensures
        s@ == help_spec(),
{
    let mut s = String::new();
    push_str(&mut s, HELP_HEAD);
    push_section(&mut s, "Commands:", &help_commands());
    push_section(&mut s, "Set targets:", &help_set_targets());
    push_section(&mut s, "Status targets (all accept --json):", &help_status_targets());
    push_section(&mut s, "Options:", &help_options());
    push_str(&mut s, HELP_FOOT);
    assert(s@ =~= help_spec());
    s
}

/// The text that `mx4 --version` prints: this package's version and the HID library's.
pub open spec fn version_spec(package: Seq<char>, hidapi: Seq<char>) -> Seq<char> {
    "mx4 "@ + package + "\nhidapi "@ + hidapi
}

pub fn version_output(package: &str, hidapi: &str) -> (s: String)
    ensures
        s@ == version_spec(package@, hidapi@),
{
    let mut s = String::new();
    push_str(&mut s, "mx4 ");
    push_str(&mut s, package);
    push_str(&mut s, "\nhidapi ");
    push_str(&mut s, hidapi);
    assert(s@ =~= version_spec(package@, hidapi@));
    s
}

/// A feature's JSON in the combined status: its value, or `null` when it could not be read.
pub open spec fn json_or_null(r: Result<Seq<char>, Error>) -> Seq<char> {
    match r {
        Ok(s) => s,
        Err(_) => "null"@,
    }
}

pub open spec fn result_view(r: Result<String, Error>) -> Result<Seq<char>, Error> {
    match r {
        Ok(s) => Ok(s@),
        Err(e) => Err(e),
    }
}

pub fn best_effort_json(result: &Result<String, Error>) -> (s: String)
    ensures
        s@ == json_or_null(result_view(*result)),
{
    let mut s = String::new();
    match result {
        Ok(t) => push_str(&mut s, t.as_str()),
        Err(_) => push_str(&mut s, "null"),
    }
    s
}

/// The combined JSON status. It is best effort: a feature that cannot be read is `null` instead
/// of failing the whole snapshot.
pub open spec fn status_json_spec(
    battery: Result<Seq<char>, Error>,
    dpi: Result<Seq<char>, Error>,
    wheel: Result<Seq<char>, Error>,
    thumb_wheel: Result<Seq<char>, Error>,
    force_button: Result<Seq<char>, Error>,
    haptic: Result<Seq<char>, Error>,
) -> Seq<char> {
    "{\"battery\":"@ + json_or_null(battery) + ",\"dpi\":"@ + json_or_null(dpi) + ",\"wheel\":"@
        + json_or_null(wheel) + ",\"thumb_wheel\":"@ + json_or_null(thumb_wheel)
        + ",\"force_button\":"@ + json_or_null(force_button) + ",\"haptic\":"@ + json_or_null(
        haptic,
    ) + "}"@
}

pub fn status_json(
    battery: &Result<String, Error>,
    dpi: &Result<String, Error>,
    wheel: &Result<String, Error>,
    thumb_wheel: &Result<String, Error>,
    force_button: &Result<String, Error>,
    haptic: &Result<String, Error>,
) -> (s: String)
    ensures
        s@ == status_json_spec(
            result_view(*battery),
            result_view(*dpi),
            result_view(*wheel),
            result_view(*thumb_wheel),
            result_view(*force_button),
            result_view(*haptic),
        ),
{
    let mut s = String::new();
    push_str(&mut s, "{\"battery\":");
    push_str(&mut s, best_effort_json(battery).as_str());
    push_str(&mut s, ",\"dpi\":");
    push_str(&mut s, best_effort_json(dpi).as_str());
    push_str(&mut s, ",\"wheel\":");
    push_str(&mut s, best_effort_json(wheel).as_str());
    push_str(&mut s, ",\"thumb_wheel\":");
    push_str(&mut s, best_effort_json(thumb_wheel).as_str());
    push_str(&mut s, ",\"force_button\":");
    push_str(&mut s, best_effort_json(force_button).as_str());
    push_str(&mut s, ",\"haptic\":");
    push_str(&mut s, best_effort_json(haptic).as_str());
    push_str(&mut s, "}");
    proof {
        assert(s@ =~= status_json_spec(
            result_view(*battery),
            result_view(*dpi),
            result_view(*wheel),
            result_view(*thumb_wheel),
            result_view(*force_button),
            result_view(*haptic),
        ));
    }
    s
}

} // verus!

verus! {

/// A feature that `mx4 status` can show on its own.
#[derive(Clone, Copy, Debug, PartialEq, Eq, Structural)]
pub enum StatusTarget {
    Battery,
    Dpi,
    Haptic,
    Wheel,
    ThumbWheel,
    ForceButton,
}

/// The status target a name stands for.
pub open spec fn status_target(name: Seq<char>) -> Option<StatusTarget> {
    if name == "battery"@ {
        Some(StatusTarget::Battery)
    } else if name == "dpi"@ {
        Some(StatusTarget::Dpi)
    } else if name == "haptic"@ {
        Some(StatusTarget::Haptic)
    } else if name == "wheel"@ {
        Some(StatusTarget::Wheel)
    } else if name == "thumb-wheel"@ {
        Some(StatusTarget::ThumbWheel)
    } else if name == "force-button"@ {
        Some(StatusTarget::ForceButton)
    } else {
        None
    }
}

/// The hint given when a status target is followed by something other than `--json`.
pub open spec fn json_hint(t: StatusTarget) -> Msg {
    match t {
        StatusTarget::Battery => Msg::BatteryJsonHint,
        StatusTarget::Dpi => Msg::DpiJsonHint,
        StatusTarget::Haptic => Msg::HapticJsonHint,
        StatusTarget::Wheel => Msg::WheelJsonHint,
        StatusTarget::ThumbWheel => Msg::ThumbWheelJsonHint,
        StatusTarget::ForceButton => Msg::ForceButtonJsonHint,
    }
}

/// Whether an optional argument asks for JSON: nothing means text, `--json` means JSON, and
/// anything else is refused with the hint.
pub open spec fn json_flag(arg: Option<Seq<char>>, hint: Msg) -> Result<bool, Error> {
    match arg {
        None => Ok(false),
        Some(a) => if a == "--json"@ {
            Ok(true)
        } else {
            Err(Error::Message(hint))
        },
    }
}

/// A setting change that `mx4 set` asks for, with its arguments as given.
#[derive(Debug)]
pub enum SetCommand {
    Strength(String),
    Host(String),
    Dpi(String),
    Wheel(String, String),
    ThumbWheel(String, String),
    ForceButton(String),
}

pub ghost enum SetView {
    Strength(Seq<char>),
    Host(Seq<char>),
    Dpi(Seq<char>),
    Wheel(Seq<char>, Seq<char>),
    ThumbWheel(Seq<char>, Seq<char>),
    ForceButton(Seq<char>),
}

impl View for SetCommand {
    type V = SetView;

    open spec fn view(&self) -> SetView {
        match self {
            SetCommand::Strength(v) => SetView::Strength(v@),
            SetCommand::Host(v) => SetView::Host(v@),
            SetCommand::Dpi(v) => SetView::Dpi(v@),
            SetCommand::Wheel(s, v) => SetView::Wheel(s@, v@),
            SetCommand::ThumbWheel(s, v) => SetView::ThumbWheel(s@, v@),
            SetCommand::ForceButton(v) => SetView::ForceButton(v@),
        }
    }
}

/// What the command line asks for.
#[derive(Debug)]
pub enum Command {
    Help,
    Version,
    /// Every status value, as text.
    StatusAll,
    /// Every status value, as one JSON object.
    StatusJson,
    /// One feature's status, as JSON when the flag is set.
    Status(StatusTarget, bool),
    Setting(SetCommand),
    Daemon(DaemonMode),
    /// Play haptic effects; the arguments are the effects.
    Haptic(Vec<String>),
    /// The firmware of the mouse and the receiver, as JSON when the flag is set.
    Firmware(bool),
}

pub ghost enum CommandView {
    Help,
    Version,
    StatusAll,
    StatusJson,
    Status(StatusTarget, bool),
    Setting(SetView),
    Daemon(DaemonMode),
    Haptic(Seq<Seq<char>>),
    Firmware(bool),
}

impl View for Command {
    type V = CommandView;

    open spec fn view(&self) -> CommandView {
        match self {
            Command::Help => CommandView::Help,
            Command::Version => CommandView::Version,
            Command::StatusAll => CommandView::StatusAll,
            Command::StatusJson => CommandView::StatusJson,
            Command::Status(t, j) => CommandView::Status(*t, *j),
            Command::Setting(s) => CommandView::Setting(s@),
            Command::Daemon(m) => CommandView::Daemon(*m),
            Command::Haptic(v) => CommandView::Haptic(texts(v@)),
            Command::Firmware(j) => CommandView::Firmware(*j),
        }
    }
}

/// What `mx4 status <rest>` asks for.
pub open spec fn status_command(rest: Seq<Seq<char>>) -> Result<CommandView, Error> {
    if rest.len() == 0 {
        Ok(CommandView::StatusAll)
    } else if rest.len() == 1 && rest[0] == "--json"@ {
        Ok(CommandView::StatusJson)
    } else if rest.len() == 1 && status_target(rest[0]) is Some {
        Ok(CommandView::Status(status_target(rest[0])->0, false))
    } else if rest.len() == 2 && status_target(rest[0]) is Some {
        let t = status_target(rest[0])->0;
        match json_flag(Some(rest[1]), json_hint(t)) {
            Ok(j) => Ok(CommandView::Status(t, j)),
            Err(e) => Err(e),
        }
    } else {
        Err(Error::Message(Msg::StatusUsage))
    }
}

/// What `mx4 set <rest>` asks for.
pub open spec fn set_command(rest: Seq<Seq<char>>) -> Result<SetView, Error> {
    if rest.len() == 2 && rest[0] == "strength"@ {
        Ok(SetView::Strength(rest[1]))
    } else if rest.len() == 2 && rest[0] == "host"@ {
        Ok(SetView::Host(rest[1]))
    } else if rest.len() == 2 && rest[0] == "dpi"@ {
        Ok(SetView::Dpi(rest[1]))
    } else if rest.len() == 3 && rest[0] == "wheel"@ {
        Ok(SetView::Wheel(rest[1], rest[2]))
    } else if rest.len() == 3 && rest[0] == "thumb-wheel"@ {
        Ok(SetView::ThumbWheel(rest[1], rest[2]))
    } else if rest.len() == 2 && rest[0] == "force-button"@ {
        Ok(SetView::ForceButton(rest[1]))
    } else {
        Err(Error::Message(Msg::SetUsage))
    }
}

/// The first element of a list, if any.
pub open spec fn first_of(rest: Seq<Seq<char>>) -> Option<Seq<char>> {
    if rest.len() == 0 {
        None
    } else {
        Some(rest[0])
    }
}

/// What the command line `mx4 <args>` asks for.
pub open spec fn command_spec(args: Seq<Seq<char>>) -> Result<CommandView, Error> {
    let rest = args.skip(1);
    if args.len() == 0 || args[0] == "-h"@ || args[0] == "--help"@ {
        Ok(CommandView::Help)
    } else if args[0] == "-v"@ || args[0] == "--version"@ {
        Ok(CommandView::Version)
    } else if args[0] == "status"@ {
        status_command(rest)
    } else if args[0] == "set"@ {
        match set_command(rest) {
            Ok(s) => Ok(CommandView::Setting(s)),
            Err(e) => Err(e),
        }
    } else if args[0] == "daemon"@ {
        match daemon_mode(rest) {
            Ok(m) => Ok(CommandView::Daemon(m)),
            Err(e) => Err(e),
        }
    } else if args[0] == "haptic"@ {
        if rest.len() == 2 && rest[0] == "strength"@ {
            Err(Error::Message(Msg::HapticStrengthMisuse))
        } else {
            Ok(CommandView::Haptic(rest))
        }
    } else if args[0] == "battery"@ {
        match json_flag(first_of(rest), Msg::BatteryJsonHint) {
            Ok(j) => Ok(CommandView::Status(StatusTarget::Battery, j)),
            Err(e) => Err(e),
        }
    } else if args[0] == "firmware"@ {
        match json_flag(first_of(rest), Msg::FirmwareJsonHint) {
            Ok(j) => Ok(CommandView::Firmware(j)),
            Err(e) => Err(e),
        }
    } else {
        Err(Error::Message(Msg::UnknownCommand))
    }
}

pub open spec fn command_result(r: Result<Command, Error>) -> Result<CommandView, Error> {
    match r {
        Ok(c) => Ok(c@),
        Err(e) => Err(e),
    }
}

fn arg_is(a: &String, lit: &str) -> (r: bool)
    ensures
        r == (a@ == lit@),
{
    let c = chars_of(a.as_str());
    chars_eq(c.as_slice(), lit)
}

fn status_target_of(a: &String) -> (r: Option<StatusTarget>)
    ensures
        r == status_target(a@),
{
    if arg_is(a, "battery") {
        Some(StatusTarget::Battery)
    } else if arg_is(a, "dpi") {
        Some(StatusTarget::Dpi)
    } else if arg_is(a, "haptic") {
        Some(StatusTarget::Haptic)
    } else if arg_is(a, "wheel") {
        Some(StatusTarget::Wheel)
    } else if arg_is(a, "thumb-wheel") {
        Some(StatusTarget::ThumbWheel)
    } else if arg_is(a, "force-button") {
        Some(StatusTarget::ForceButton)
    } else {
        None
    }
}

fn hint_of(t: StatusTarget) -> (m: Msg)
    ensures
        m == json_hint(t),
{
    match t {
        StatusTarget::Battery => Msg::BatteryJsonHint,
        StatusTarget::Dpi => Msg::DpiJsonHint,
        StatusTarget::Haptic => Msg::HapticJsonHint,
        StatusTarget::Wheel => Msg::WheelJsonHint,
        StatusTarget::ThumbWheel => Msg::ThumbWheelJsonHint,
        StatusTarget::ForceButton => Msg::ForceButtonJsonHint,
    }
}

/// Whether the argument at `i`, if there is one, asks for JSON.
fn flag_at(args: &[String], i: usize, hint: Msg) -> (r: Result<bool, Error>)
    ensures
        r == json_flag(
            if i < args.len() {
                Some(args@[i as int]@)
            } else {
                None
            },
            hint,
        ),
{
    if i < args.len() {
        if arg_is(&args[i], "--json") {
            Ok(true)
        } else {
            Err(Error::Message(hint))
        }
    } else {
        Ok(false)
    }
}

/// Reads the command line (without the program name).
pub fn parse_command(args: &[String]) -> (r: Result<Command, Error>)
    ensures
        command_result(r) == command_spec(texts(args@)),
{
    let ghost a = texts(args@);
    let ghost rest = a.skip(1);
    let n = args.len();
    if n == 0 || arg_is(&args[0], "-h") || arg_is(&args[0], "--help") {
        return Ok(Command::Help);
    }
    assert(a[0] == args@[0]@);
    assert(rest.len() == n - 1);
    assert(forall|k: int| 0 <= k < rest.len() ==> #[trigger] rest[k] == args@[k + 1]@);
    if arg_is(&args[0], "-v") || arg_is(&args[0], "--version") {
        return Ok(Command::Version);
    }
    if arg_is(&args[0], "status") {
        if n == 1 {
            return Ok(Command::StatusAll);
        }
        if n == 2 && arg_is(&args[1], "--json") {
            return Ok(Command::StatusJson);
        }
        let t = status_target_of(&args[1]);
        assert(rest[0] == args@[1]@);
        match t {
            Some(target) => {
                if n == 2 {
                    return Ok(Command::Status(target, false));
                }
                if n == 3 {
                    assert(rest[1] == args@[2]@);
                    let j = flag_at(args, 2, hint_of(target))?;
                    return Ok(Command::Status(target, j));
                }
            },
            None => {},
        }
        return Err(Error::Message(Msg::StatusUsage));
    }
    if arg_is(&args[0], "set") {
        if n >= 2 {
            assert(rest[0] == args@[1]@);
        }
        if n >= 3 {
            assert(rest[1] == args@[2]@);
        }
        if n >= 4 {
            assert(rest[2] == args@[3]@);
        }
        if n == 3 && arg_is(&args[1], "strength") {
            return Ok(Command::Setting(SetCommand::Strength(args[2].clone())));
        }
        if n == 3 && arg_is(&args[1], "host") {
            return Ok(Command::Setting(SetCommand::Host(args[2].clone())));
        }
        if n == 3 && arg_is(&args[1], "dpi") {
            return Ok(Command::Setting(SetCommand::Dpi(args[2].clone())));
        }
        if n == 4 && arg_is(&args[1], "wheel") {
            return Ok(Command::Setting(SetCommand::Wheel(args[2].clone(), args[3].clone())));
        }
        if n == 4 && arg_is(&args[1], "thumb-wheel") {
            return Ok(Command::Setting(SetCommand::ThumbWheel(args[2].clone(), args[3].clone())));
        }
        if n == 3 && arg_is(&args[1], "force-button") {
            return Ok(Command::Setting(SetCommand::ForceButton(args[2].clone())));
        }
        return Err(Error::Message(Msg::SetUsage));
    }
    if arg_is(&args[0], "daemon") {
        let mut tail: Vec<String> = Vec::new();
        let mut k: usize = 1;
        while k < n
            invariant
                1 <= k <= n,
                n == args.len(),
                texts(tail@) == texts(args@).subrange(1, k as int),
            decreases n - k,
        {
            let c = args[k].clone();
            let ghost before = tail@;
            tail.push(c);
            assert(texts(tail@) =~= texts(before).push(args@[k as int]@));
            assert(texts(args@).subrange(1, k + 1) =~= texts(args@).subrange(1, k as int).push(
                args@[k as int]@,
            ));
            k = k + 1;
        }
        assert(texts(args@).subrange(1, n as int) =~= rest);
        let m = run(tail.as_slice())?;
        return Ok(Command::Daemon(m));
    }
    if arg_is(&args[0], "haptic") {
        if n == 3 && arg_is(&args[1], "strength") {
            assert(rest[0] == args@[1]@);
            return Err(Error::Message(Msg::HapticStrengthMisuse));
        }
        let mut tail: Vec<String> = Vec::new();
        let mut k: usize = 1;
        while k < n
            invariant
                1 <= k <= n,
                n == args.len(),
                texts(tail@) == texts(args@).subrange(1, k as int),
            decreases n - k,
        {
            let c = args[k].clone();
            let ghost before = tail@;
            tail.push(c);
            assert(texts(tail@) =~= texts(before).push(args@[k as int]@));
            assert(texts(args@).subrange(1, k + 1) =~= texts(args@).subrange(1, k as int).push(
                args@[k as int]@,
            ));
            k = k + 1;
        }
        assert(texts(args@).subrange(1, n as int) =~= rest);
        if n == 3 {
            assert(rest[0] == args@[1]@);
        }
        return Ok(Command::Haptic(tail));
    }
    if arg_is(&args[0], "battery") {
        if n > 1 {
            assert(rest[0] == args@[1]@);
        }
        let j = flag_at(args, 1, Msg::BatteryJsonHint)?;
        return Ok(Command::Status(StatusTarget::Battery, j));
    }
    if arg_is(&args[0], "firmware") {
        if n > 1 {
            assert(rest[0] == args@[1]@);
        }
        let j = flag_at(args, 1, Msg::FirmwareJsonHint)?;
        return Ok(Command::Firmware(j));
    }
    Err(Error::Message(Msg::UnknownCommand))
}

} // verus!

verus! {

/// The wheel mode a `mx4 set wheel ratchet` value names.
pub open spec fn ratchet_choice(value: Seq<char>) -> Result<WheelRatchet, Error> {
    if trim(value) == "free"@ {
        Ok(WheelRatchet::Free)
    } else if trim(value) == "ratchet"@ {
        Ok(WheelRatchet::Ratchet)
    } else {
        Err(Error::Message(Msg::RatchetChoice))
    }
}

/// A saved number as `value.trim().parse()` reads it.
pub open spec fn saved_number(value: Seq<char>, max: nat) -> Result<nat, Error> {
    match parse_unsigned(trim(value), max) {
        Ok(n) => Ok(n),
        Err(k) => Err(Error::Number(k)),
    }
}

/// What a successful `mx4 set wheel <setting> <value>` saves, as a configuration holding only
/// that value; nothing for a setting that is not saved.
pub open spec fn wheel_change(setting: Seq<char>, value: Seq<char>) -> Result<SavedConfig, Error> {
    let e = empty_config();
    if setting == "ratchet"@ {
        match ratchet_choice(value) {
            Ok(r) => Ok(SavedConfig { wheel_ratchet: Some(r), ..e }),
            Err(x) => Err(x),
        }
    } else if setting == "ratchet-speed"@ || setting == "smart-shift"@ {
        match saved_number(value, u8::MAX as nat) {
            Ok(n) => Ok(SavedConfig { wheel_ratchet_speed: Some(n as u8), ..e }),
            Err(x) => Err(x),
        }
    } else if setting == "force"@ {
        match saved_number(value, u8::MAX as nat) {
            Ok(n) => Ok(SavedConfig { wheel_force: Some(n as u8), ..e }),
            Err(x) => Err(x),
        }
    } else if setting == "invert"@ {
        match toggle_arg(value) {
            Ok(b) => Ok(SavedConfig { wheel_invert: Some(b), ..e }),
            Err(x) => Err(x),
        }
    } else if setting == "resolution"@ {
        match toggle_arg(value) {
            Ok(b) => Ok(SavedConfig { wheel_resolution: Some(b), ..e }),
            Err(x) => Err(x),
        }
    } else if setting == "divert"@ {
        match toggle_arg(value) {
            Ok(b) => Ok(SavedConfig { wheel_divert: Some(b), ..e }),
            Err(x) => Err(x),
        }
    } else {
        Ok(e)
    }
}

/// What a successful `mx4 set thumb-wheel <setting> <value>` saves; the value must be `on` or
/// `off` whatever the setting.
pub open spec fn thumb_wheel_change(setting: Seq<char>, value: Seq<char>) -> Result<
    SavedConfig,
    Error,
> {
    let e = empty_config();
    match toggle_arg(value) {
        Err(x) => Err(x),
        Ok(b) => if setting == "invert"@ {
            Ok(SavedConfig { thumb_wheel_invert: Some(b), ..e })
        } else if setting == "divert"@ {
            Ok(SavedConfig { thumb_wheel_divert: Some(b), ..e })
        } else {
            Ok(e)
        },
    }
}

/// What a successful `mx4 set` saves, as a configuration holding only the changed value. Host
/// switches are not saved.
pub open spec fn set_change(cmd: SetView) -> Result<SavedConfig, Error> {
    let e = empty_config();
    match cmd {
        SetView::Strength(v) => match strength_arg(v) {
            Ok(s) => Ok(SavedConfig { haptic_strength: Some(s), ..e }),
            Err(x) => Err(x),
        },
        SetView::Host(_) => Ok(e),
        SetView::Dpi(v) => match dpi_arg(v) {
            Ok(d) => Ok(SavedConfig { dpi: Some(d), ..e }),
            Err(x) => Err(x),
        },
        SetView::Wheel(s, v) => wheel_change(s, v),
        SetView::ThumbWheel(s, v) => thumb_wheel_change(s, v),
        SetView::ForceButton(v) => match saved_number(v, u16::MAX as nat) {
            Ok(n) => Ok(SavedConfig { force_button: Some(n as u16), ..e }),
            Err(x) => Err(x),
        },
    }
}

fn ratchet_choice_of(value: &str) -> (r: Result<WheelRatchet, Error>)
    ensures
        r == ratchet_choice(value@),
{
    let c = chars_of(value);
    let t = trim_chars(c.as_slice());
    if chars_eq(t.as_slice(), "free") {
        Ok(WheelRatchet::Free)
    } else if chars_eq(t.as_slice(), "ratchet") {
        Ok(WheelRatchet::Ratchet)
    } else {
        Err(Error::Message(Msg::RatchetChoice))
    }
}

fn saved_number_of(value: &str, max: u64) -> (r: Result<u64, Error>)
    requires
        max <= u32::MAX,
    ensures
        match saved_number(value@, max as nat) {
            Ok(n) => n <= max && r == Ok::<u64, Error>(n as u64),
            Err(x) => r == Err::<u64, Error>(x),
        },
{
    let c = chars_of(value);
    match parse_trimmed(c.as_slice(), max) {
        Ok(n) => Ok(n),
        Err(k) => Err(Error::Number(k)),
    }
}

fn wheel_change_of(setting: &str, value: &str) -> (r: Result<SavedConfig, Error>)
    ensures
        r == wheel_change(setting@, value@),
{
    let name = chars_of(setting);
    let n = name.as_slice();
    let mut c = SavedConfig::default();
    if chars_eq(n, "ratchet") {
        c.wheel_ratchet = Some(ratchet_choice_of(value)?);
    } else if chars_eq(n, "ratchet-speed") || chars_eq(n, "smart-shift") {
        c.wheel_ratchet_speed = Some(saved_number_of(value, 0xff)? as u8);
    } else if chars_eq(n, "force") {
        c.wheel_force = Some(saved_number_of(value, 0xff)? as u8);
    } else if chars_eq(n, "invert") {
        c.wheel_invert = Some(parse_toggle(value)?);
    } else if chars_eq(n, "resolution") {
        c.wheel_resolution = Some(parse_toggle(value)?);
    } else if chars_eq(n, "divert") {
        c.wheel_divert = Some(parse_toggle(value)?);
    }
    Ok(c)
}

fn thumb_wheel_change_of(setting: &str, value: &str) -> (r: Result<SavedConfig, Error>)
    ensures
        r == thumb_wheel_change(setting@, value@),
{
    let enabled = parse_toggle(value)?;
    let name = chars_of(setting);
    let n = name.as_slice();
    let mut c = SavedConfig::default();
    if chars_eq(n, "invert") {
        c.thumb_wheel_invert = Some(enabled);
    } else if chars_eq(n, "divert") {
        c.thumb_wheel_divert = Some(enabled);
    }
    Ok(c)
}

/// What a successful `mx4 set` command saves, as a configuration holding only the changed value.
/// For a strength, a DPI or a force-button threshold this reads the value as the command does
/// before it touches the device; for the wheels it reads it as the command does after.
pub fn saved_change(cmd: &SetCommand) -> (r: Result<SavedConfig, Error>)
    ensures
        r == set_change(cmd@),
{
    let mut c = SavedConfig::default();
    match cmd {
        SetCommand::Strength(v) => {
            c.haptic_strength = Some(parse_strength(v.as_str())?);
            Ok(c)
        },
        SetCommand::Host(_) => Ok(c),
        SetCommand::Dpi(v) => {
            c.dpi = Some(dpi_parse(v.as_str())?);
            Ok(c)
        },
        SetCommand::Wheel(s, v) => wheel_change_of(s.as_str(), v.as_str()),
        SetCommand::ThumbWheel(s, v) => thumb_wheel_change_of(s.as_str(), v.as_str()),
        SetCommand::ForceButton(v) => {
            c.force_button = Some(saved_number_of(v.as_str(), 0xffff)? as u16);
            Ok(c)
        },
    }
}

} // verus!

verus! {

/// The line shown for a feature whose status cannot be read.
pub open spec fn unavailable_spec(t: StatusTarget) -> Seq<char> {
    match t {
        StatusTarget::Battery => "Battery: unavailable"@,
        StatusTarget::Dpi => "DPI: unavailable"@,
        StatusTarget::Haptic => "Haptic: unavailable"@,
        StatusTarget::Wheel => "Wheel: unavailable"@,
        StatusTarget::ThumbWheel => "Thumb Wheel: unavailable"@,
        StatusTarget::ForceButton => "Force Button: unavailable"@,
    }
}

pub fn unavailable_text(t: StatusTarget) -> (s: &'static str)
    ensures
        s@ == unavailable_spec(t),
{
    match t {
        StatusTarget::Battery => "Battery: unavailable",
        StatusTarget::Dpi => "DPI: unavailable",
        StatusTarget::Haptic => "Haptic: unavailable",
        StatusTarget::Wheel => "Wheel: unavailable",
        StatusTarget::ThumbWheel => "Thumb Wheel: unavailable",
        StatusTarget::ForceButton => "Force Button: unavailable",
    }
}

/// What `mx4 status <target>` prints, given the feature's rendered status or the failure to read
/// it: the battery's failure is the command's failure; for the other features a failure prints
/// `null` in JSON and an `unavailable` line otherwise.
pub open spec fn status_report(t: StatusTarget, json: bool, r: Result<Seq<char>, Error>) -> Result<
    Seq<char>,
    Error,
> {
    match r {
        Ok(s) => Ok(s),
        Err(e) => if t is Battery {
            Err(e)
        } else if json {
            Ok("null"@)
        } else {
            Ok(unavailable_spec(t))
        },
    }
}

pub fn status_output(t: StatusTarget, json: bool, rendered: Result<String, Error>) -> (r: Result<
    String,
    Error,
>)
    ensures
        match (r, status_report(t, json, result_view(rendered))) {
            (Ok(a), Ok(b)) => a@ == b,
            (Err(a), Err(b)) => a == b,
            _ => false,
        },
{
    match rendered {
        Ok(s) => Ok(s),
        Err(e) => {
            if let StatusTarget::Battery = t {
                return Err(e);
            }
            let mut s = String::new();
            if json {
                push_str(&mut s, "null");
            } else {
                push_str(&mut s, unavailable_text(t));
            }
            Ok(s)
        },
    }
}

} // verus!

verus! {

/// A DPI or haptic strength that `mx4 set` saves is exactly the value it sends to the device, and
/// a value that the device command refuses is refused for saving with the same error; host
/// switches save nothing.
pub proof fn lemma_saved_value_is_sent(v: Seq<char>, idx: u8, h: Seq<Reply>)
    ensures
        match set_change(SetView::Dpi(v)) {
            Ok(c) => c.dpi matches Some(d) && dpi_set_plan(idx, v, h) == dpi_set_value_plan(
                idx,
                d,
                h,
            ) && c == (SavedConfig { dpi: Some(d), ..empty_config() }),
            Err(e) => dpi_set_plan(idx, v, h) == Plan::<()>::Finish(Err(e)),
        },
        match set_change(SetView::Strength(v)) {
            Ok(c) => c.haptic_strength matches Some(s) && set_strength_arg_plan(idx, v, h)
                == set_strength_plan(idx, s, h) && c == (SavedConfig {
                haptic_strength: Some(s),
                ..empty_config()
            }),
            Err(e) => set_strength_arg_plan(idx, v, h) == Plan::<()>::Finish(Err(e)),
        },
        set_change(SetView::Host(v)) == Ok::<SavedConfig, Error>(empty_config()),
{
}

} // verus!
