//! Decisions of `v2p run`, which runs the daemon and the keyboard listener
//! together: the listener runs in-process when the devices are accessible
//! and as a `sudo` child otherwise; a `sudo` listener is watched for a grace
//! period, and if it exits early the daemon is shut down too rather than
//! running without a listener.
use vstd::prelude::*;

verus! {

/// How long a `sudo` listener is watched for an early exit, in milliseconds.
pub const GRACE_PERIOD_MS: u64 = 10_000;

/// Pause between two looks at the `sudo` listener, in milliseconds.
pub const POLL_INTERVAL_MS: u64 = 200;

/// Where the keyboard listener runs.
#[derive(PartialEq, Eq, Structural, Clone, Copy, Debug)]
pub enum ListenerMode {
    /// On a thread of this process.
    InProcess,
    /// As a child process started through `sudo`.
    Sudo,
}

/// What to do after looking at the `sudo` listener.
#[derive(PartialEq, Eq, Structural, Clone, Copy, Debug)]
pub enum ListenerPoll {
    /// It is still running: pause and look again.
    KeepWatching,
    /// It exited during the grace period: shut the daemon down and stop
    /// watching.
    ShutDown,
}

/// The listener runs in-process exactly when the device access checks
/// pass.
pub fn listener_mode(devices_accessible: bool) -> (m: ListenerMode)
    ensures
        m == if devices_accessible {
            ListenerMode::InProcess
        } else {
            ListenerMode::Sudo
        },
{
    if devices_accessible {
        ListenerMode::InProcess
    } else {
        ListenerMode::Sudo
    }
}

/// Whether to stop watching the `sudo` listener before looking at it: on a
/// shutdown request, when the daemon has finished, or when the grace period
/// is over.
pub fn grace_over(shutdown: bool, daemon_done: bool, elapsed_ms: u64) -> (stop: bool)
    ensures
        stop == (shutdown || daemon_done || elapsed_ms >= GRACE_PERIOD_MS),
{
    shutdown || daemon_done || elapsed_ms >= GRACE_PERIOD_MS
}

/// What to do given whether the `sudo` listener has exited.
pub fn on_listener_poll(exited: bool) -> (next: ListenerPoll)
    ensures
        next == if exited {
            ListenerPoll::ShutDown
        } else {
            ListenerPoll::KeepWatching
        },
{
    if exited {
        ListenerPoll::ShutDown
    } else {
        ListenerPoll::KeepWatching
    }
}

} // verus!
