//! What systemd is asked to do, and what it says of its units.

use vstd::prelude::*;
use vstd::string::*;

use crate::command::{self, Command, CommandView, Exit};
use crate::conf;
use crate::log;
use crate::text;

verus! {

/// The command that prints the state of `unit`.
pub fn is_active_query(unit: &str) -> (r: Command)
    ensures
        r@ == (CommandView { program: "systemctl"@, args: seq!["is-active"@, unit@] }),
{
    let r: Command = command::command("systemctl", &["is-active", unit]);
    assert(r@.args =~= seq!["is-active"@, unit@]);
    r
}

/// The state in the output of `systemctl is-active`, if it could be run.
pub open spec fn state_of(stdout: Option<Seq<char>>) -> Seq<char> {
    match stdout {
        Some(stdout) => if text::trimmed(stdout).len() > 0 {
            text::trimmed(stdout)
        } else {
            "unknown"@
        },
        None => "unknown"@,
    }
}

/// The state of a unit, going by what `is_active_query` printed, if it could be run.
pub fn is_active(stdout: Option<&str>) -> (r: String)
    ensures
        r@ == state_of(conf::opt(stdout)),
{
    match stdout {
        Some(stdout) => {
            let state: String = text::trim(stdout);
            if state.as_str().is_empty() {
                "unknown".to_owned()
            } else {
                state
            }
        },
        None => "unknown".to_owned(),
    }
}

/// The command that has `unit` restarted if it is running, without waiting for it: none where no
/// unit is configured.
pub fn try_restart_async(unit: &str) -> (r: Option<Command>)
    ensures
        r is None <==> unit@.len() == 0,
        r matches Some(command) ==> command@ == (CommandView {
            program: "systemctl"@,
            args: seq!["--no-block"@, "try-restart"@, unit@],
        }),
{
    if unit.is_empty() {
        return None;
    }
    let r: Command = command::command("systemctl", &["--no-block", "try-restart", unit]);
    assert(r@.args =~= seq!["--no-block"@, "try-restart"@, unit@]);
    Some(r)
}

/// What to log of `try_restart_async`.
pub fn restart_notice(unit: &str, exit: &Exit) -> (r: String)
    ensures
        r@ == if exit is Success {
            log::info_line("asked "@ + unit@ + " to restart"@)
        } else {
            log::info_line("could not restart "@ + unit@)
        },
{
    match exit {
        Exit::Success => log::info(text::cat3("asked ", unit, " to restart").as_str()),
        _ => log::info(text::cat2("could not restart ", unit).as_str()),
    }
}

/// The command that stops `unit`.
pub fn stop(unit: &str) -> (r: Command)
    ensures
        r@ == (CommandView { program: "systemctl"@, args: seq!["stop"@, unit@] }),
{
    let r: Command = command::command("systemctl", &["stop", unit]);
    assert(r@.args =~= seq!["stop"@, unit@]);
    r
}

/// Whether `unit` was stopped, and a useful error if not.
pub fn stopped(unit: &str, exit: &Exit) -> (r: Result<(), String>)
    ensures
        r is Ok <==> exit is Success,
        *exit matches Exit::Failure { status } ==> (r matches Err(message) && message@
            == "`systemctl stop "@ + unit@ + "` exited with "@ + status@),
        *exit matches Exit::NotRun { err } ==> (r matches Err(message) && message@
            == "could not run `systemctl` (is this a systemd system?): "@ + err@),
{
    match exit {
        Exit::Success => Ok(()),
        Exit::Failure { status } => Err(
            text::cat4("`systemctl stop ", unit, "` exited with ", status.as_str()),
        ),
        Exit::NotRun { err } => Err(
            text::cat2(
                "could not run `systemctl` (is this a systemd system?): ",
                err.as_str(),
            ),
        ),
    }
}

} // verus!
