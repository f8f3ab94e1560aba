//! The reconnect daemon's decisions.
//!
//! The daemon polls for the mouse once a second. When it appears, after a reconnect or when the
//! last application of the saved settings is older than the reconcile interval, the saved settings
//! are applied again (after a short delay that lets the device settle). A single missed poll is
//! not taken as a disconnect.

use vstd::prelude::*;

use crate::error::{Error, Msg};
use crate::text::chars_eq;

verus! {

/// Pause between two polls, in milliseconds.
pub const POLL_INTERVAL_MS: u64 = 1000;
/// Pause between finding the mouse again and applying the saved settings, in milliseconds.
pub const RECONNECT_DELAY_MS: u64 = 750;
/// Age after which the saved settings are applied again while the mouse stays connected, in
/// milliseconds.
pub const RECONCILE_INTERVAL_MS: u64 = 15000;
/// Consecutive polls without the mouse after which it counts as disconnected.
pub const MISSING_POLLS_BEFORE_DISCONNECT: u8 = 2;

/// What `mx4 daemon` was asked to do.
#[derive(Clone, Copy, Debug, PartialEq, Eq, Structural)]
pub enum DaemonMode {
    /// Watch for reconnects in the foreground.
    Loop,
    /// Apply the saved settings once and exit.
    Once,
    /// Install and start the per-user background service.
    Install,
    /// Stop and remove the per-user background service.
    Uninstall,
}

/// The mode that the arguments after `daemon` ask for.
pub open spec fn daemon_mode(args: Seq<Seq<char>>) -> Result<DaemonMode, Error> {
    if args.len() == 0 {
        Ok(DaemonMode::Loop)
    } else if args.len() == 1 && args[0] == "--once"@ {
        Ok(DaemonMode::Once)
    } else if args.len() == 1 && args[0] == "--install"@ {
        Ok(DaemonMode::Install)
    } else if args.len() == 1 && args[0] == "--uninstall"@ {
        Ok(DaemonMode::Uninstall)
    } else {
        Err(Error::Message(Msg::DaemonUsage))
    }
}

/// Reads the arguments after `daemon`.
pub fn run(args: &[String]) -> (r: Result<DaemonMode, Error>)
    ensures
        r == daemon_mode(args@.map_values(|a: String| a@)),
{
    let ghost v = args@.map_values(|a: String| a@);
    if args.len() == 0 {
        return Ok(DaemonMode::Loop);
    }
    if args.len() == 1 {
        let a = crate::text::chars_of(args[0].as_str());
        assert(v[0] == args@[0]@);
        if chars_eq(a.as_slice(), "--once") {
            return Ok(DaemonMode::Once);
        }
        if chars_eq(a.as_slice(), "--install") {
            return Ok(DaemonMode::Install);
        }
        if chars_eq(a.as_slice(), "--uninstall") {
            return Ok(DaemonMode::Uninstall);
        }
    }
    Err(Error::Message(Msg::DaemonUsage))
}

/// What the daemon remembers between polls.
#[derive(Clone, Copy, Debug, PartialEq, Eq, Structural)]
pub struct DaemonState {
    /// Whether the mouse counts as connected.
    pub connected: bool,
    /// Consecutive polls that did not find the mouse while it counted as connected.
    pub missing_polls: u8,
    /// Whether the saved settings were applied since the mouse last connected.
    pub applied: bool,
}

/// What the daemon does after a poll.
#[derive(Clone, Copy, Debug, PartialEq, Eq, Structural)]
pub struct DaemonStep {
    pub state: DaemonState,
    /// Wait the reconnect delay, then apply the saved settings, and note the time.
    pub apply: bool,
}

/// The state before the first poll.
pub open spec fn initial_state() -> DaemonState {
    DaemonState { connected: false, missing_polls: 0, applied: false }
}

/// One poll: `found` says whether the mouse could be opened, `reconcile_due` whether the last
/// application is at least the reconcile interval old.
pub open spec fn poll(s: DaemonState, found: bool, reconcile_due: bool) -> DaemonStep {
    if found {
        let apply = !s.connected || !s.applied || reconcile_due;
        DaemonStep {
            state: DaemonState { connected: true, missing_polls: 0, applied: s.applied || apply },
            apply,
        }
    } else if s.connected {
        let missing = if s.missing_polls == u8::MAX {
            u8::MAX
        } else {
            (s.missing_polls + 1) as u8
        };
        if missing >= MISSING_POLLS_BEFORE_DISCONNECT {
            DaemonStep {
                state: DaemonState { connected: false, missing_polls: missing, applied: false },
                apply: false,
            }
        } else {
            DaemonStep {
                state: DaemonState { connected: true, missing_polls: missing, applied: s.applied },
                apply: false,
            }
        }
    } else {
        DaemonStep { state: s, apply: false }
    }
}

impl DaemonState {
    /// The state before the first poll: not connected, nothing applied.
    pub fn new() -> (s: DaemonState)
        ensures
            s == initial_state(),
    {
        DaemonState { connected: false, missing_polls: 0, applied: false }
    }

    /// Decides one poll.
    pub fn poll(self, found: bool, reconcile_due: bool) -> (r: DaemonStep)
        ensures
            r == poll(self, found, reconcile_due),
    {
        if found {
            let apply = !self.connected || !self.applied || reconcile_due;
            DaemonStep {
                state: DaemonState {
                    connected: true,
                    missing_polls: 0,
                    applied: self.applied || apply,
                },
                apply,
            }
        } else if self.connected {
            let missing = self.missing_polls.saturating_add(1);
            if missing >= MISSING_POLLS_BEFORE_DISCONNECT {
                DaemonStep {
                    state: DaemonState { connected: false, missing_polls: missing, applied: false },
                    apply: false,
                }
            } else {
                DaemonStep {
                    state: DaemonState {
                        connected: true,
                        missing_polls: missing,
                        applied: self.applied,
                    },
                    apply: false,
                }
            }
        } else {
            DaemonStep { state: self, apply: false }
        }
    }
}

/// Finding the mouse when it counted as disconnected applies the saved settings.
pub proof fn lemma_reconnect_applies(s: DaemonState, reconcile_due: bool)
    requires
        !s.connected,
    ensures
        poll(s, true, reconcile_due).apply,
        poll(s, true, reconcile_due).state.connected,
{
}

/// A single missed poll does not count as a disconnect, and the next successful poll then
/// applies nothing unless the reconcile interval has passed.
pub proof fn lemma_single_miss_keeps_connection(s: DaemonState)
    requires
        s.connected,
        s.missing_polls == 0,
        s.applied,
    ensures
        poll(s, false, false).state.connected,
        !poll(s, false, false).apply,
        !poll(poll(s, false, false).state, true, false).apply,
{
}

/// Two consecutive missed polls count as a disconnect, so the mouse's return applies the saved
/// settings again.
pub proof fn lemma_two_misses_disconnect(s: DaemonState, reconcile_due: bool)
    requires
        s.connected,
        s.missing_polls == 0,
    ensures
        !poll(poll(s, false, false).state, false, false).state.connected,
        poll(poll(poll(s, false, false).state, false, false).state, true, reconcile_due).apply,
{
}

/// While the mouse stays connected and the settings were applied, a poll applies them again
/// exactly when the reconcile interval has passed.
pub proof fn lemma_reconcile_only_when_due(s: DaemonState, reconcile_due: bool)
    requires
        s.connected,
        s.applied,
    ensures
        poll(s, true, reconcile_due).apply == reconcile_due,
{
}

/// After a poll that found the mouse, it counts as connected, no poll is missing, and the
/// settings count as applied.
pub proof fn lemma_found_resets(s: DaemonState, reconcile_due: bool)
    ensures
        poll(s, true, reconcile_due).state == (DaemonState {
            connected: true,
            missing_polls: 0,
            applied: true,
        }),
{
}

} // verus!
