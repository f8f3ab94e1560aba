//! Automatic per-user background-service files.
//!
//! These variants of the service files set `MX4_SKIP_AUTOSTART`, so that the daemon they start
//! never installs itself again. Installation is skipped under sudo, which would create a
//! root-owned per-user service, and whenever that switch is set.

use vstd::prelude::*;

use crate::config::push_quoted;
use crate::service::{
    systemd_quoted, xml_escape, xml_escaped, LAUNCH_AGENT_LABEL, PLIST_HEAD, PLIST_MIDDLE,
};
use crate::text::push_str;

verus! {

/// The text before the quoted executable in the automatically installed systemd unit.
pub const AUTO_UNIT_HEAD: &'static str = "[Unit]\nDescription=mx4 reconnect daemon\nAfter=default.target\n\n[Service]\nType=simple\nEnvironment=MX4_SKIP_AUTOSTART=1\nExecStart=";
/// The text after the quoted executable in the automatically installed systemd unit.
pub const AUTO_UNIT_TAIL: &'static str = " daemon\nRestart=always\nRestartSec=2\n\n[Install]\nWantedBy=default.target\n";
/// The automatically installed launchd agent's text after the executable.
pub const AUTO_PLIST_TAIL: &'static str = "</string>\n    <string>daemon</string>\n  </array>\n  <key>EnvironmentVariables</key>\n  <dict>\n    <key>MX4_SKIP_AUTOSTART</key>\n    <string>1</string>\n  </dict>\n  <key>KeepAlive</key>\n  <true/>\n  <key>RunAtLoad</key>\n  <true/>\n</dict>\n</plist>\n";

/// The automatically installed systemd unit that runs `<executable> daemon`.
pub open spec fn auto_unit_text(executable: Seq<char>) -> Seq<char> {
    AUTO_UNIT_HEAD@ + systemd_quoted(executable) + AUTO_UNIT_TAIL@
}

/// The automatically installed launchd agent that runs `<executable> daemon`.
pub open spec fn auto_plist_text(executable: Seq<char>) -> Seq<char> {
    PLIST_HEAD@ + xml_escaped(LAUNCH_AGENT_LABEL@) + PLIST_MIDDLE@ + xml_escaped(executable)
        + AUTO_PLIST_TAIL@
}

/// Whether automatic installation is skipped: when it is switched off explicitly, or when mx4 runs
/// through sudo.
pub fn should_skip_autostart(
    explicit_skip: Option<String>,
    sudo_user: Option<String>,
    sudo_uid: Option<String>,
) -> (r: bool)
    ensures
        r == (explicit_skip is Some || sudo_user is Some || sudo_uid is Some),
{
    explicit_skip.is_some() || sudo_user.is_some() || sudo_uid.is_some()
}

/// The systemd user unit for the daemon, with automatic installation switched off inside it.
pub fn linux_unit(executable: &str) -> (s: String)
    ensures
        s@ == auto_unit_text(executable@),
{
    let mut s = String::new();
    push_str(&mut s, AUTO_UNIT_HEAD);
    push_quoted(&mut s, executable);
    push_str(&mut s, AUTO_UNIT_TAIL);
    assert(s@ =~= auto_unit_text(executable@));
    s
}

/// The launchd user agent for the daemon, with automatic installation switched off inside it.
pub fn macos_plist(executable: &str) -> (s: String)
    ensures
        s@ == auto_plist_text(executable@),
{
    let mut s = String::new();
    push_str(&mut s, PLIST_HEAD);
    let label = xml_escape(LAUNCH_AGENT_LABEL);
    push_str(&mut s, label.as_str());
    push_str(&mut s, PLIST_MIDDLE);
    let path = xml_escape(executable);
    push_str(&mut s, path.as_str());
    push_str(&mut s, AUTO_PLIST_TAIL);
    assert(s@ =~= auto_plist_text(executable@));
    s
}

} // verus!
