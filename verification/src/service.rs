//! Per-user background-service files and the decisions around them.
//!
//! The daemon is opt-in: `mx4 daemon --install` writes a user `systemd` unit on Linux or a user
//! `launchd` agent on macOS, and `mx4 daemon --uninstall` removes it. Generated files are per-user
//! and never require root privileges.

use vstd::prelude::*;

use crate::config::{push_quoted, quoted, split_lines};
use crate::error::{Error, Msg};
use crate::text::{chars_eq, chars_of, push_char, push_str, trim, trim_chars};

verus! {

/// The systemd unit's file name.
pub const SERVICE_NAME: &'static str = "mx4.service";
/// The launchd agent's label.
pub const LAUNCH_AGENT_LABEL: &'static str = "io.github.eriksremess.mx4";

/// The text before the quoted executable in the systemd unit.
pub const UNIT_HEAD: &'static str = "[Unit]\nDescription=mx4 reconnect daemon\nAfter=default.target\n\n[Service]\nType=simple\nExecStart=";
/// The text after the quoted executable in the systemd unit.
pub const UNIT_TAIL: &'static str = " daemon\nRestart=always\nRestartSec=2\n\n[Install]\nWantedBy=default.target\n";
/// The launchd agent's text up to its label.
pub const PLIST_HEAD: &'static str = "<?xml version=\"1.0\" encoding=\"UTF-8\"?>\n<!DOCTYPE plist PUBLIC \"-//Apple//DTD PLIST 1.0//EN\" \"http://www.apple.com/DTDs/PropertyList-1.0.dtd\">\n<plist version=\"1.0\">\n<dict>\n  <key>Label</key>\n  <string>";
/// The launchd agent's text between its label and the executable.
pub const PLIST_MIDDLE: &'static str = "</string>\n  <key>ProgramArguments</key>\n  <array>\n    <string>";
/// The launchd agent's text after the executable.
pub const PLIST_TAIL: &'static str = "</string>\n    <string>daemon</string>\n  </array>\n  <key>KeepAlive</key>\n  <true/>\n  <key>RunAtLoad</key>\n  <true/>\n</dict>\n</plist>\n";

/// A path as a systemd unit quotes it: in double quotes, with backslashes and double quotes
/// escaped by a backslash.
pub open spec fn systemd_quoted(path: Seq<char>) -> Seq<char> {
    quoted(path)
}

/// The XML escape of one character.
pub open spec fn xml_char(c: char) -> Seq<char> {
    if c == '&' {
        "&amp;"@
    } else if c == '<' {
        "&lt;"@
    } else if c == '>' {
        "&gt;"@
    } else if c == '"' {
        "&quot;"@
    } else {
        seq![c]
    }
}

/// A text with `&`, `<`, `>` and `"` written as XML entities.
pub open spec fn xml_escaped(s: Seq<char>) -> Seq<char>
    decreases s.len(),
{
    if s.len() == 0 {
        Seq::empty()
    } else {
        xml_escaped(s.drop_last()) + xml_char(s.last())
    }
}

/// The systemd unit that runs `<executable> daemon`.
pub open spec fn unit_text(executable: Seq<char>) -> Seq<char> {
    UNIT_HEAD@ + systemd_quoted(executable) + UNIT_TAIL@
}

/// The launchd agent that runs `<executable> daemon`.
pub open spec fn plist_text(executable: Seq<char>) -> Seq<char> {
    PLIST_HEAD@ + xml_escaped(LAUNCH_AGENT_LABEL@) + PLIST_MIDDLE@ + xml_escaped(executable)
        + PLIST_TAIL@
}

/// The path in double quotes, with backslashes and double quotes escaped.
pub fn systemd_quote(path: &str) -> (s: String)
    ensures
        s@ == systemd_quoted(path@),
{
    let mut s = String::new();
    push_quoted(&mut s, path);
    assert(s@ =~= systemd_quoted(path@));
    s
}

/// The path with `&`, `<`, `>` and `"` written as XML entities.
pub fn xml_escape(path: &str) -> (s: String)
    ensures
        s@ == xml_escaped(path@),
{
    let chars = chars_of(path);
    let mut s = String::new();
    let mut i: usize = 0;
    while i < chars.len()
        invariant
            i <= chars.len(),
            chars@ == path@,
            s@ == xml_escaped(chars@.take(i as int)),
        decreases chars.len() - i,
    {
        let c = chars[i];
        if c == '&' {
            push_str(&mut s, "&amp;");
        } else if c == '<' {
            push_str(&mut s, "&lt;");
        } else if c == '>' {
            push_str(&mut s, "&gt;");
        } else if c == '"' {
            push_str(&mut s, "&quot;");
        } else {
            push_char(&mut s, c);
        }
        proof {
            assert(chars@.take(i + 1).drop_last() =~= chars@.take(i as int));
            assert(s@ =~= xml_escaped(chars@.take(i + 1)));
        }
        i = i + 1;
    }
    assert(chars@.take(chars.len() as int) =~= chars@);
    s
}

/// The systemd user unit for the daemon.
pub fn linux_unit(executable: &str) -> (s: String)
    ensures
        s@ == unit_text(executable@),
{
    let mut s = String::new();
    push_str(&mut s, UNIT_HEAD);
    push_quoted(&mut s, executable);
    push_str(&mut s, UNIT_TAIL);
    assert(s@ =~= unit_text(executable@));
    s
}

/// The launchd user agent for the daemon.
pub fn macos_plist(executable: &str) -> (s: String)
    ensures
        s@ == plist_text(executable@),
{
    let mut s = String::new();
    push_str(&mut s, PLIST_HEAD);
    let label = xml_escape(LAUNCH_AGENT_LABEL);
    push_str(&mut s, label.as_str());
    push_str(&mut s, PLIST_MIDDLE);
    let path = xml_escape(executable);
    push_str(&mut s, path.as_str());
    push_str(&mut s, PLIST_TAIL);
    assert(s@ =~= plist_text(executable@));
    s
}

/// Service commands refuse to run through sudo, which would install for root.
pub fn check_user_context(sudo_user: Option<String>, sudo_uid: Option<String>) -> (r: Result<
    (),
    Error,
>)
    ensures
        r == (if sudo_user is Some || sudo_uid is Some {
            Err::<(), Error>(Error::Message(Msg::ServiceUnderSudo))
        } else {
            Ok::<(), Error>(())
        }),
{
    if sudo_user.is_some() || sudo_uid.is_some() {
        Err(Error::Message(Msg::ServiceUnderSudo))
    } else {
        Ok(())
    }
}

/// The user ID that `id -u` printed: its output without surrounding whitespace, which must not be
/// empty.
pub fn parse_uid(output: &str) -> (r: Result<String, Error>)
    ensures
        trim(output@).len() == 0 ==> r == Err::<String, Error>(Error::Message(Msg::EmptyUid)),
        trim(output@).len() > 0 ==> (r matches Ok(u) && u@ == trim(output@)),
{
    let chars = chars_of(output);
    let t = trim_chars(chars.as_slice());
    if t.len() == 0 {
        return Err(Error::Message(Msg::EmptyUid));
    }
    Ok(crate::text::string_of(t.as_slice()))
}

/// Whether a line of `systemctl show` output, trimmed, is exactly `entry`.
pub open spec fn shows(output: Seq<char>, entry: Seq<char>) -> bool {
    exists|i: int| 0 <= i < split_lines(output).len() && trim(#[trigger] split_lines(output)[i]) == entry
}

/// Whether `systemctl show` reports the unit as missing and stopped.
pub open spec fn service_gone_spec(output: Seq<char>) -> bool {
    shows(output, "LoadState=not-found"@) && shows(output, "ActiveState=inactive"@)
}

/// Whether `systemctl --user show` output reports the service as missing and stopped, the one case
/// in which a failed `disable` still lets an uninstall succeed.
pub fn service_gone(output: &str) -> (r: bool)
    ensures
        r == service_gone_spec(output@),
{
    let lines = crate::config::lines_of(output);
    let mut load = false;
    let mut active = false;
    let mut i: usize = 0;
    while i < lines.len()
        invariant
            i <= lines.len(),
            lines@.map_values(|l: Vec<char>| l@) == split_lines(output@),
            load == exists|k: int| 0 <= k < i && trim(#[trigger] split_lines(output@)[k]) == "LoadState=not-found"@,
            active == exists|k: int| 0 <= k < i && trim(#[trigger] split_lines(output@)[k]) == "ActiveState=inactive"@,
        decreases lines.len() - i,
    {
        let t = trim_chars(lines[i].as_slice());
        assert(lines@.map_values(|l: Vec<char>| l@)[i as int] == lines@[i as int]@);
        if chars_eq(t.as_slice(), "LoadState=not-found") {
            load = true;
        }
        if chars_eq(t.as_slice(), "ActiveState=inactive") {
            active = true;
        }
        i = i + 1;
    }
    load && active
}

} // verus!

verus! {

/// What a service lifecycle does next.
#[derive(Debug)]
pub enum ServiceStep {
    /// Run `systemctl` with these arguments and report its outcome (its output when it succeeds).
    Systemctl(Vec<&'static str>),
    /// Write the unit file unless it already holds the unit, and report the outcome.
    WriteUnit,
    /// Remove the unit file and report whether it existed.
    RemoveUnit,
    /// The lifecycle is over.
    Done(Result<(), Error>),
}

/// The outcome of a step: a command's output, or a file operation's result.
#[derive(Debug)]
pub enum ServiceOutcome {
    Command(Result<String, Error>),
    File(Result<bool, Error>),
}

pub ghost enum StepView {
    Systemctl(Seq<Seq<char>>),
    WriteUnit,
    RemoveUnit,
    Done(Result<(), Error>),
}

pub open spec fn arg_views(v: Seq<&str>) -> Seq<Seq<char>> {
    v.map_values(|a: &str| a@)
}

impl View for ServiceStep {
    type V = StepView;

    open spec fn view(&self) -> StepView {
        match self {
            ServiceStep::Systemctl(args) => StepView::Systemctl(arg_views(args@)),
            ServiceStep::WriteUnit => StepView::WriteUnit,
            ServiceStep::RemoveUnit => StepView::RemoveUnit,
            ServiceStep::Done(r) => StepView::Done(*r),
        }
    }
}

/// The failure an outcome reports, if any.
pub open spec fn failure(o: ServiceOutcome) -> Option<Error> {
    match o {
        ServiceOutcome::Command(Err(e)) => Some(e),
        ServiceOutcome::File(Err(e)) => Some(e),
        _ => None,
    }
}

/// `systemctl --user <args>`.
pub open spec fn user_call(args: Seq<Seq<char>>) -> StepView {
    StepView::Systemctl(seq!["--user"@] + args)
}

/// Installing the Linux service: write the unit, then reload, enable and restart it, each of
/// which must succeed, so that a changed binary or unit takes effect on every install.
pub open spec fn install_plan(h: Seq<ServiceOutcome>) -> StepView {
    let n = h.len();
    if n == 0 {
        StepView::WriteUnit
    } else if failure(h[0]) is Some {
        StepView::Done(Err(failure(h[0])->0))
    } else if n == 1 {
        user_call(seq!["daemon-reload"@])
    } else if failure(h[1]) is Some {
        StepView::Done(Err(failure(h[1])->0))
    } else if n == 2 {
        user_call(seq!["enable"@, SERVICE_NAME@])
    } else if failure(h[2]) is Some {
        StepView::Done(Err(failure(h[2])->0))
    } else if n == 3 {
        user_call(seq!["restart"@, SERVICE_NAME@])
    } else if failure(h[3]) is Some {
        StepView::Done(Err(failure(h[3])->0))
    } else {
        StepView::Done(Ok(()))
    }
}

/// Removing the unit file, whose outcome is at `r`: a removed unit is followed by a reload.
pub open spec fn removal_plan(h: Seq<ServiceOutcome>, r: int) -> StepView {
    if h.len() <= r {
        StepView::RemoveUnit
    } else if failure(h[r]) is Some {
        StepView::Done(Err(failure(h[r])->0))
    } else if h[r] matches ServiceOutcome::File(Ok(true)) {
        if h.len() == r + 1 {
            user_call(seq!["daemon-reload"@])
        } else if failure(h[r + 1]) is Some {
            StepView::Done(Err(failure(h[r + 1])->0))
        } else {
            StepView::Done(Ok(()))
        }
    } else {
        StepView::Done(Ok(()))
    }
}

/// Uninstalling the Linux service: disable and stop it; when that fails, the uninstall still
/// succeeds only if `systemctl show` reports the unit missing and stopped, and otherwise ends with
/// the failure and keeps the unit. Then the unit file is removed.
pub open spec fn uninstall_plan(h: Seq<ServiceOutcome>) -> StepView {
    if h.len() == 0 {
        user_call(seq!["disable"@, "--now"@, SERVICE_NAME@])
    } else if failure(h[0]) is None {
        removal_plan(h, 1)
    } else if h.len() == 1 {
        user_call(seq!["show"@, SERVICE_NAME@, "--property=LoadState,ActiveState"@])
    } else if h[1] matches ServiceOutcome::Command(Ok(t)) && service_gone_spec(t@) {
        removal_plan(h, 2)
    } else {
        StepView::Done(Err(failure(h[0])->0))
    }
}

fn failure_of(o: &ServiceOutcome) -> (r: Option<Error>)
    ensures
        r == failure(*o),
{
    match o {
        ServiceOutcome::Command(Err(e)) => Some(e.duplicate()),
        ServiceOutcome::File(Err(e)) => Some(e.duplicate()),
        _ => None,
    }
}

fn user_step(a: &'static str, b: &'static str, c: &'static str, count: usize) -> (s: ServiceStep)
    requires
        1 <= count <= 3,
    ensures
        s@ == user_call(
            if count == 1 {
                seq![a@]
            } else if count == 2 {
                seq![a@, b@]
            } else {
                seq![a@, b@, c@]
            },
        ),
{
    let mut v: Vec<&'static str> = Vec::new();
    v.push("--user");
    v.push(a);
    if count >= 2 {
        v.push(b);
    }
    if count >= 3 {
        v.push(c);
    }
    proof {
        reveal_strlit("--user");
    }
    assert(arg_views(v@) =~= seq!["--user"@] + if count == 1 {
        seq![a@]
    } else if count == 2 {
        seq![a@, b@]
    } else {
        seq![a@, b@, c@]
    });
    ServiceStep::Systemctl(v)
}

/// The next step of installing the Linux service, given the outcomes so far.
pub fn install_step(h: &Vec<ServiceOutcome>) -> (s: ServiceStep)
    ensures
        s@ == install_plan(h@),
{
    let n = h.len();
    if n == 0 {
        return ServiceStep::WriteUnit;
    }
    if let Some(e) = failure_of(&h[0]) {
        return ServiceStep::Done(Err(e));
    }
    if n == 1 {
        return user_step("daemon-reload", "", "", 1);
    }
    if let Some(e) = failure_of(&h[1]) {
        return ServiceStep::Done(Err(e));
    }
    if n == 2 {
        return user_step("enable", SERVICE_NAME, "", 2);
    }
    if let Some(e) = failure_of(&h[2]) {
        return ServiceStep::Done(Err(e));
    }
    if n == 3 {
        return user_step("restart", SERVICE_NAME, "", 2);
    }
    if let Some(e) = failure_of(&h[3]) {
        return ServiceStep::Done(Err(e));
    }
    ServiceStep::Done(Ok(()))
}

fn removal_step(h: &Vec<ServiceOutcome>, r: usize) -> (s: ServiceStep)
    ensures
        s@ == removal_plan(h@, r as int),
{
    if h.len() <= r {
        return ServiceStep::RemoveUnit;
    }
    if let Some(e) = failure_of(&h[r]) {
        return ServiceStep::Done(Err(e));
    }
    if let ServiceOutcome::File(Ok(true)) = &h[r] {
        if h.len() == r + 1 {
            return user_step("daemon-reload", "", "", 1);
        }
        if let Some(e) = failure_of(&h[r + 1]) {
            return ServiceStep::Done(Err(e));
        }
        return ServiceStep::Done(Ok(()));
    }
    ServiceStep::Done(Ok(()))
}

/// The next step of uninstalling the Linux service, given the outcomes so far.
pub fn uninstall_step(h: &Vec<ServiceOutcome>) -> (s: ServiceStep)
    ensures
        s@ == uninstall_plan(h@),
{
    if h.len() == 0 {
        return user_step("disable", "--now", SERVICE_NAME, 3);
    }
    let first = failure_of(&h[0]);
    match first {
        None => removal_step(h, 1),
        Some(e) => {
            if h.len() == 1 {
                return user_step("show", SERVICE_NAME, "--property=LoadState,ActiveState", 3);
            }
            if let ServiceOutcome::Command(Ok(t)) = &h[1] {
                if service_gone(t.as_str()) {
                    return removal_step(h, 2);
                }
            }
            ServiceStep::Done(Err(e))
        },
    }
}

/// A failed disable keeps the unit in place unless the service is already missing and stopped:
/// then the uninstall goes on to remove the unit file.
pub proof fn lemma_uninstall_keeps_unit_on_failure(h: Seq<ServiceOutcome>)
    requires
        h.len() >= 2,
        failure(h[0]) is Some,
    ensures
        !(h[1] matches ServiceOutcome::Command(Ok(t)) && service_gone_spec(t@))
            ==> uninstall_plan(h) == StepView::Done(Err(failure(h[0])->0)),
        (h[1] matches ServiceOutcome::Command(Ok(t)) && service_gone_spec(t@)) && h.len() == 2
            ==> uninstall_plan(h) == StepView::RemoveUnit,
{
}

} // verus!
