//! Hooks for the WiFi stack.

use vstd::prelude::*;
use vstd::string::*;

use crate::command::{self, Command, CommandView};
use crate::log;
use crate::text;
use crate::wifi::daemon::Poll;
use crate::wifi::supervise::State;

verus! {

/// How long a hook may run before it is terminated, and the SIGTERM grace after that, in
/// milliseconds.
///
/// The supervisor is single-threaded, so this bounds what a wedged hook can cost the robot: at
/// worst `RUN_LIMIT_MS + TERM_GRACE_MS` added to one transition, never a stall.
pub const RUN_LIMIT_MS: u64 = 5000;

pub const TERM_GRACE_MS: u64 = 2000;

/// How often a hook is looked at meanwhile, in milliseconds.
pub const POLL_MS: u64 = 10;

/// The state name passed to the hook when the WiFi stack is not running at all.
///
/// The supervisor's own states name themselves; see `supervise::State::hook_name`.
pub const OFF: &'static str = "off";

/// The command that runs the hook with `state` as its only argument, if one is configured.
pub fn notify(hook: &str, state: &str) -> (r: Option<Command>)
    ensures
        r is None <==> hook@.len() == 0,
        r matches Some(command) ==> command@ == (CommandView {
            program: hook@,
            args: seq![state@],
        }),
{
    if hook.is_empty() {
        return None;
    }
    let r: Command = command::command(hook, &[state]);
    assert(r@.args =~= seq![state@]);
    Some(r)
}

/// The command that tells the hook of a state change, if one is configured: none where the state
/// is the same as before.
pub fn on_change(from: State, to: State, hook: &str) -> (r: Option<Command>)
    ensures
        r is Some <==> from != to && hook@.len() > 0,
        r matches Some(command) ==> command@ == (CommandView {
            program: hook@,
            args: seq![to.hook_text()],
        }),
{
    if from == to {
        return None;
    }
    notify(hook, to.hook_name())
}

/// What waiting for a child process came to.
#[derive(Debug, Clone, PartialEq, Eq)]
pub enum Wait {
    /// It has exited, with a status that is described in words.
    Exited { success: bool, status: String },
    /// Still running at the deadline.
    Running,
    Unwaitable { err: String },
}

/// What waiting has come to after so many milliseconds, going by a look at the child: nothing yet
/// if it is running and the limit is not reached.
pub fn wait_until(poll: Poll, elapsed_ms: u64, limit_ms: u64) -> (r: Option<Wait>)
    ensures
        r == (match poll {
            Poll::Exited { success, status } => Some(Wait::Exited { success, status }),
            Poll::Unknown { err } => Some(Wait::Unwaitable { err }),
            Poll::Running => if elapsed_ms >= limit_ms {
                Some(Wait::Running)
            } else {
                None
            },
        }),
{
    match poll {
        Poll::Exited { success, status } => Some(Wait::Exited { success, status }),
        Poll::Unknown { err } => Some(Wait::Unwaitable { err }),
        Poll::Running => if elapsed_ms >= limit_ms {
            Some(Wait::Running)
        } else {
            None
        },
    }
}

/// The decimals of `millis` thousandths, without trailing zeros.
pub open spec fn decimals(millis: nat) -> Seq<char> {
    let tenths = text::digit_char(millis / 100);
    let hundredths = text::digit_char(millis / 10 % 10);
    let thousandths = text::digit_char(millis % 10);
    if millis == 0 {
        Seq::empty()
    } else if millis % 100 == 0 {
        seq!['.', tenths]
    } else if millis % 10 == 0 {
        seq!['.', tenths, hundredths]
    } else {
        seq!['.', tenths, hundredths, thousandths]
    }
}

/// How a number of milliseconds is shown to the user.
pub open spec fn duration_text(millis: nat) -> Seq<char> {
    if millis == 0 {
        "0ns"@
    } else if millis < 1000 {
        text::decimal(millis) + "ms"@
    } else {
        text::decimal(millis / 1000) + decimals(millis % 1000) + "s"@
    }
}

fn describe_duration(millis: u64) -> (r: String)
    ensures
        r@ == duration_text(millis as nat),
{
    if millis == 0 {
        return "0ns".to_owned();
    }
    if millis < 1000 {
        return text::cat2(text::to_decimal(millis).as_str(), "ms");
    }
    let rest: u64 = millis % 1000;
    let mut fraction: String = String::new();
    if rest > 0 {
        fraction.push('.');
        fraction.push((48 + (rest / 100) as u8) as char);
        if rest % 100 > 0 {
            fraction.push((48 + (rest / 10 % 10) as u8) as char);
            if rest % 10 > 0 {
                fraction.push((48 + (rest % 10) as u8) as char);
            }
        }
    }
    assert(fraction@ =~= decimals(rest as nat));
    text::cat3(text::to_decimal(millis / 1000).as_str(), fraction.as_str(), "s")
}

/// How a run of the hook is called in the log.
pub open spec fn hook_label(hook: Seq<char>, state: Seq<char>) -> Seq<char> {
    "state hook `"@ + hook + " "@ + state
}

/// What is logged of a hook, given what waiting for it came to.
pub open spec fn wait_report(
    hook: Seq<char>,
    state: Seq<char>,
    limit_ms: nat,
    wait: Wait,
) -> Option<Seq<char>> {
    match wait {
        Wait::Exited { success, status } => if success {
            None
        } else {
            Some(log::warn_line(hook_label(hook, state) + "` exited with "@ + status@))
        },
        Wait::Running => Some(
            log::warn_line(
                hook_label(hook, state) + "` is still running after "@ + duration_text(limit_ms)
                    + "; terminating it"@,
            ),
        ),
        Wait::Unwaitable { err } => Some(
            log::warn_line("could not wait for "@ + hook_label(hook, state) + "`: "@ + err@),
        ),
    }
}

/// What to log of a hook, given what waiting for it came to, and whether to terminate it.
///
/// A hook that cannot be waited for is left alone: nothing was reaped and nothing can safely be
/// signalled, because the PID may no longer be this child's.
pub fn conclude(hook: &str, state: &str, limit_ms: u64, wait: &Wait) -> (r: (Option<String>, bool))
    ensures
        text::opt_view(r.0) == wait_report(hook@, state@, limit_ms as nat, *wait),
        r.1 <==> wait is Running,
{
    let label: String = text::cat4("state hook `", hook, " ", state);
    match wait {
        Wait::Exited { success, status } => if *success {
            (None, false)
        } else {
            let msg: String = text::cat3(label.as_str(), "` exited with ", status.as_str());
            (Some(log::warn(msg.as_str())), false)
        },
        Wait::Running => {
            let msg: String = text::cat4(
                label.as_str(),
                "` is still running after ",
                describe_duration(limit_ms).as_str(),
                "; terminating it",
            );
            (Some(log::warn(msg.as_str())), true)
        },
        Wait::Unwaitable { err } => {
            let msg: String = text::cat4(
                "could not wait for ",
                label.as_str(),
                "`: ",
                err.as_str(),
            );
            (Some(log::warn(msg.as_str())), false)
        },
    }
}

/// What to log of a hook that could not be run.
pub fn not_run(hook: &str, state: &str, err: &str) -> (r: String)
    ensures
        r@ == log::warn_line("could not run "@ + hook_label(hook@, state@) + "`: "@ + err@),
{
    let label: String = text::cat4("state hook `", hook, " ", state);
    let msg: String = text::cat4("could not run ", label.as_str(), "`: ", err);
    log::warn(msg.as_str())
}

/// Whether a hook that was asked to exit has to be killed, given what waiting for it came to.
pub fn must_kill(wait: &Wait) -> (r: bool)
    ensures
        r <==> wait is Running,
{
    matches!(wait, Wait::Running)
}

/// A time limit is shown to the millisecond: whole seconds before the point, and behind it the
/// digits of what is left, without zeros at the end.
pub proof fn a_limit_is_shown_to_the_millisecond(seconds: nat, millis: nat)
    requires
        millis < 1000,
        seconds > 0 || millis > 0,
    ensures
        ({
            let shown = duration_text((seconds * 1000 + millis) as nat);
            let behind = decimals(millis);
            &&& seconds == 0 ==> shown == text::decimal(millis) + "ms"@
            &&& seconds > 0 ==> shown == text::decimal(seconds) + behind + "s"@
            &&& millis == 0 ==> behind.len() == 0
            &&& millis > 0 ==> {
                &&& 2 <= behind.len() <= 4
                &&& behind[0] == '.'
                &&& behind.last() != '0'
                &&& behind.len() == 2 ==> millis == 100 * text::digit_value(behind[1])
                &&& behind.len() == 3 ==> millis == 100 * text::digit_value(behind[1]) + 10
                    * text::digit_value(behind[2])
                &&& behind.len() == 4 ==> millis == 100 * text::digit_value(behind[1]) + 10
                    * text::digit_value(behind[2]) + text::digit_value(behind[3])
            }
        }),
{
    let total = (seconds * 1000 + millis) as nat;
    assert(total / 1000 == seconds);
    assert(total % 1000 == millis);
}

/// A hook that exits well is not mentioned; any other outcome is, and names the hook and the
/// state that it was run for.
pub proof fn only_a_good_hook_is_passed_over(
    hook: Seq<char>,
    state: Seq<char>,
    limit_ms: nat,
    wait: Wait,
)
    ensures
        wait_report(hook, state, limit_ms, wait) is None <==> (wait matches Wait::Exited {
            success,
            ..
        } && success),
        hook_label(hook, state) == "state hook `"@ + hook + " "@ + state,
        wait is Running ==> (wait_report(hook, state, limit_ms, wait) matches Some(line)
            && line == "[WARN] "@ + ("state hook `"@ + hook + " "@ + state
            + "` is still running after "@ + duration_text(limit_ms) + "; terminating it"@)),
{
}

} // verus!
