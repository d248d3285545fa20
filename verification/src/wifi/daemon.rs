//! Owned child processes: hostapd, dnsmasq, wpa_supplicant.
//!
//! `wifi status` still reports honestly without access to these, because it asks `iw` what the
//! interface is actually doing rather than reading our bookkeeping. See `net`.

use vstd::prelude::*;
use vstd::string::*;

use crate::log;
use crate::text;

verus! {

/// How long a daemon gets to exit after SIGTERM before it is SIGKILLed, in milliseconds.
pub const TERM_GRACE_MS: u64 = 5000;

/// How often it is looked at meanwhile, in milliseconds.
pub const TERM_POLL_MS: u64 = 100;

/// What a look at a child process shows.
#[derive(Debug, Clone, PartialEq, Eq)]
pub enum Poll {
    Running,
    /// It has exited, with a status that is described in words.
    Exited { success: bool, status: String },
    /// It could not be looked at.
    Unknown { err: String },
}

/// What is logged of the daemon `name`, where a look at it shows that it is not running.
pub open spec fn poll_report(name: Seq<char>, poll: Poll) -> Option<Seq<char>> {
    match poll {
        Poll::Running => None,
        Poll::Exited { status, .. } => Some(
            log::warn_line(name + " exited on its own ("@ + status@ + ")"@),
        ),
        Poll::Unknown { err } => Some(
            log::warn_line("could not check on "@ + name + ": "@ + err@),
        ),
    }
}

/// A child process that is meant to run until it is told to stop.
#[derive(Debug, Clone, PartialEq, Eq)]
pub struct Daemon {
    pub name: String,
}

/// What to do with a daemon that is to stop.
#[derive(Debug, Clone, PartialEq, Eq)]
pub enum Shutdown {
    /// It is gone.
    Gone { notice: Option<String> },
    /// Ask it to exit, with SIGTERM, and look again.
    Terminate,
    /// Look again in so many milliseconds.
    Wait { millis: u64 },
    /// Kill it, with SIGKILL, and wait for it.
    Kill { notice: String },
}

impl Daemon {
    /// Whether the daemon is still alive, going by a look at it, and what to log if it is not.
    pub fn is_running(&self, poll: &Poll) -> (r: (bool, Option<String>))
        ensures
            r.0 <==> poll is Running,
            text::opt_view(r.1) == poll_report(self.name@, *poll),
    {
        match poll {
            Poll::Running => (true, None),
            Poll::Exited { status, .. } => {
                let msg: String = text::cat4(
                    self.name.as_str(),
                    " exited on its own (",
                    status.as_str(),
                    ")",
                );
                (false, Some(log::warn(msg.as_str())))
            },
            Poll::Unknown { err } => {
                let msg: String = text::cat4(
                    "could not check on ",
                    self.name.as_str(),
                    ": ",
                    err.as_str(),
                );
                (false, Some(log::warn(msg.as_str())))
            },
        }
    }

    /// What to do first to stop the daemon: SIGTERM, unless it has exited.
    pub fn stop(&self, poll: &Poll) -> (r: Shutdown)
        ensures
            r == (if poll is Exited {
                Shutdown::Gone { notice: None }
            } else {
                Shutdown::Terminate
            }),
    {
        match poll {
            Poll::Exited { .. } => Shutdown::Gone { notice: None },
            _ => Shutdown::Terminate,
        }
    }

    /// What to do so many milliseconds after SIGTERM: SIGKILL once the grace period is over.
    pub fn keep_stopping(&self, elapsed_ms: u64, poll: &Poll) -> (r: Shutdown)
        ensures
            match r {
                Shutdown::Gone { notice } => {
                    &&& elapsed_ms < TERM_GRACE_MS
                    &&& poll is Exited
                    &&& text::opt_view(notice) == Some(log::info_line("stopped "@ + self.name@))
                },
                Shutdown::Terminate => false,
                Shutdown::Wait { millis } => {
                    &&& elapsed_ms < TERM_GRACE_MS
                    &&& !(poll is Exited)
                    &&& millis == TERM_POLL_MS
                },
                Shutdown::Kill { notice } => {
                    &&& elapsed_ms >= TERM_GRACE_MS
                    &&& notice@ == log::warn_line(
                        self.name@ + " did not exit within "@ + text::decimal(5)
                            + "s of SIGTERM; killing it"@,
                    )
                },
            },
    {
        if elapsed_ms >= TERM_GRACE_MS {
            let msg: String = text::cat4(
                self.name.as_str(),
                " did not exit within ",
                text::to_decimal(TERM_GRACE_MS / 1000).as_str(),
                "s of SIGTERM; killing it",
            );
            return Shutdown::Kill { notice: log::warn(msg.as_str()) };
        }
        match poll {
            Poll::Exited { .. } => {
                let msg: String = text::cat2("stopped ", self.name.as_str());
                Shutdown::Gone { notice: Some(log::info(msg.as_str())) }
            },
            _ => Shutdown::Wait { millis: TERM_POLL_MS },
        }
    }
}

/// A daemon that runs is not mentioned; one that is gone, or cannot be looked at, is, by its name.
pub proof fn a_daemon_that_is_gone_is_mentioned(name: Seq<char>, poll: Poll)
    ensures
        poll_report(name, poll) is None <==> poll is Running,
        poll matches Poll::Exited { status, .. } ==> poll_report(name, poll) == Some(
            "[WARN] "@ + (name + " exited on its own ("@ + status@ + ")"@),
        ),
        poll matches Poll::Unknown { err } ==> poll_report(name, poll) == Some(
            "[WARN] "@ + ("could not check on "@ + name + ": "@ + err@),
        ),
{
}

} // verus!
