//! Notifying dependent services of a new certificate: what is to be done
//! for each reload mechanism, and within what time.
//!
//! A notification follows a delivery and never undoes it: whether it
//! succeeds is told to the entry's machine, which keeps the certificate
//! either way.

use vstd::prelude::*;
use crate::config::ReloadType;
use crate::lifecycle::Event;

verus! {

/// What is to be done to notify.
#[derive(Clone, Debug, PartialEq, Eq)]
pub enum Notification {
    /// Run this command and wait for it to end, at most `timeout` seconds.
    Run { command: String, timeout: u64 },
    /// Write the reload signal to the Unix socket at this path and wait for
    /// the acknowledgment, at most `timeout` seconds.
    SignalUnix { path: String, timeout: u64 },
    /// Write the reload signal to this host and port and wait for the
    /// acknowledgment, at most `timeout` seconds.
    SignalNet { host: String, port: u16, timeout: u64 },
}

/// How a notification ended.
#[derive(Clone, Copy, Debug, PartialEq, Eq)]
pub enum NotifyOutcome {
    /// The command ended well, or the signal was acknowledged.
    Done,
    /// The command ended badly, or the signal was refused.
    Refused,
    /// The command or the peer could not be reached.
    Unreachable,
    /// Nothing came back in time.
    TimedOut,
}

impl Notification {
    /// The seconds that the notification may take.
    pub open spec fn timeout(self) -> u64 {
        match self {
            Notification::Run { timeout, .. } => timeout,
            Notification::SignalUnix { timeout, .. } => timeout,
            Notification::SignalNet { timeout, .. } => timeout,
        }
    }
}

/// The time that a notification is given: the time asked for, and a second
/// where none is asked for, so that every notification ends.
pub open spec fn bounded(timeout: u64) -> u64 {
    if timeout == 0 {
        1
    } else {
        timeout
    }
}

/// What is to be done for a reload mechanism.
pub open spec fn notification_of(reload: ReloadType, timeout: u64) -> Notification {
    match reload {
        ReloadType::CLI(command) => Notification::Run {
            command: command,
            timeout: bounded(timeout),
        },
        ReloadType::UnixSocket(path) => Notification::SignalUnix {
            path: path,
            timeout: bounded(timeout),
        },
        ReloadType::NetSocket(port, host) => Notification::SignalNet {
            host: host,
            port: port,
            timeout: bounded(timeout),
        },
    }
}

/// Plans the notification for a reload mechanism. Whatever the mechanism,
/// the notification is given a time of at least a second.
pub fn notify(reload: &ReloadType, timeout: u64) -> (n: Notification)
    ensures
        n == notification_of(*reload, timeout),
        n.timeout() >= 1,
{
    let within = if timeout == 0 {
        1
    } else {
        timeout
    };
    match reload {
        ReloadType::CLI(command) => Notification::Run { command: command.clone(), timeout: within },
        ReloadType::UnixSocket(path) => Notification::SignalUnix {
            path: path.clone(),
            timeout: within,
        },
        ReloadType::NetSocket(port, host) => Notification::SignalNet {
            host: host.clone(),
            port: *port,
            timeout: within,
        },
    }
}

/// What to tell the entry's machine of a notification: nothing where it
/// went well, and that it failed in every other case.
pub open spec fn event_of(outcome: NotifyOutcome) -> Option<Event> {
    match outcome {
        NotifyOutcome::Done => None,
        _ => Some(Event::NotifyFailed),
    }
}

/// Decides what to tell the entry's machine of a notification.
pub fn after_notify(outcome: NotifyOutcome) -> (ev: Option<Event>)
    ensures
        ev == event_of(outcome),
{
    match outcome {
        NotifyOutcome::Done => None,
        _ => Some(Event::NotifyFailed),
    }
}

} // verus!
