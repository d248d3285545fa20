//! `enabled.conf`, the experiments that start at boot, and `experiments.conf`, how they do.

use vstd::prelude::*;
use vstd::string::*;

use crate::conf;
use crate::experiments::target::{self, Target, TargetView};
use crate::log;
use crate::text;

verus! {

pub const ENABLED_CONF_TEMPLATE: &'static str =
    "# One experiment per line = enabled. Lines starting with # and blank\n# lines are ignored. Each name must have a matching directory:\n#   <experiments-dir>/<name>/docker-compose.yml\n#\n# A name may name the docker compose profiles to activate for it, as a\n# comma-separated list after a colon:\n#   my-experiment:gpu,debug\n#   my-experiment:*        every profile the compose file declares\n#\n# Those apply when `robotctl experiments start` runs with no arguments, as\n# it does at boot. Naming an experiment on the command line *replaces* them\n# for that run: `robotctl experiments start my-experiment` activates no\n# profiles at all, and `... my-experiment:gpu` activates only gpu.\n#\n# Example:\n# my-experiment\n";

/// Written when `experiments.conf` doesn't exist
pub const SETTINGS_TEMPLATE: &'static str =
    "# Settings for `robotctl experiments`, in shell-style KEY=value form.\n#\n# IGNORE_PULL_FAILURES: what to do when `docker compose pull` fails for an\n# experiment. The default, false, refuses to start that stack -- `compose up`\n# would otherwise silently run whatever stale image is already on this robot,\n# so results would be attributed to code that never ran here.\n#\n# Set this to true on robots that operate on RF-isolated networks, where the\n# registry is unreachable by design and images are side-loaded over ssh. There\n# the local image is the correct one and a failed pull means nothing.\n#\n# `robotctl experiments start --ignore-pull-failures[=true|false]` overrides\n# this for a single run.\nIGNORE_PULL_FAILURES=false\n";

pub const IGNORE_PULL_FAILURES_KEY: &'static str = "IGNORE_PULL_FAILURES";

/// What an `EnabledList` holds.
#[verifier::ext_equal]
pub struct EnabledView {
    pub targets: Seq<TargetView>,
    pub warnings: Seq<Seq<char>>,
}

/// The result of reading `enabled.conf`: the targets to act on, and everything rejected on the
/// way.
#[derive(Debug, PartialEq, Eq)]
pub struct EnabledList {
    pub targets: Vec<Target>,
    pub warnings: Vec<String>,
}

impl View for EnabledList {
    type V = EnabledView;

    open spec fn view(&self) -> EnabledView {
        EnabledView {
            targets: target::target_views(self.targets@),
            warnings: text::views(self.warnings@),
        }
    }
}

/// A list on which nothing is enabled, and of which nothing was rejected.
pub open spec fn nothing_enabled() -> EnabledView {
    EnabledView { targets: Seq::empty(), warnings: Seq::empty() }
}

impl Default for EnabledList {
    fn default() -> (r: Self)
        ensures
            r@ == nothing_enabled(),
    {
        let r = EnabledList { targets: Vec::new(), warnings: Vec::new() };
        assert(r@ =~= nothing_enabled());
        r
    }
}

/// Whether one of `targets` is the experiment `name`.
pub open spec fn names_experiment(targets: Seq<TargetView>, name: Seq<char>) -> bool {
    exists|i: int| 0 <= i < targets.len() && #[trigger] targets[i].name == name
}

/// How a line of `enabled.conf` is called in warnings.
pub open spec fn line_label(number: nat) -> Seq<char> {
    "line "@ + text::decimal(number) + ": '"@
}

/// `before`, and what the line of that number adds to it.
pub open spec fn with_line(before: EnabledView, line: Seq<char>, number: nat) -> EnabledView {
    let line = text::trimmed(line);
    if line.len() == 0 || line[0] == '#' {
        before
    } else {
        match target::target_of(line) {
            Err(err) => EnabledView {
                warnings: before.warnings.push(
                    line_label(number) + line + "': "@ + err.message(),
                ),
                ..before
            },
            Ok(target) => if names_experiment(before.targets, target.name) {
                EnabledView {
                    warnings: before.warnings.push(
                        line_label(number) + target.name + "' is listed more than once"@,
                    ),
                    ..before
                }
            } else {
                EnabledView { targets: before.targets.push(target), ..before }
            },
        }
    }
}

/// What the lines of `enabled.conf` enable.
pub open spec fn enabled_by(lines: Seq<Seq<char>>) -> EnabledView
    decreases lines.len(),
{
    if lines.len() == 0 {
        nothing_enabled()
    } else {
        with_line(enabled_by(lines.drop_last()), lines.last(), lines.len())
    }
}

/// What the text of `enabled.conf` enables.
pub open spec fn enabled_of(text: Seq<char>) -> EnabledView {
    enabled_by(text::lines_of(text))
}

/// Whether one of `targets` is the experiment `name`.
pub(crate) fn is_listed(targets: &Vec<Target>, name: &str) -> (r: bool)
    ensures
        r == names_experiment(target::target_views(targets@), name@),
{
    let ghost views = target::target_views(targets@);
    let mut i: usize = 0;
    while i < targets.len()
        invariant
            i <= targets@.len(),
            views == target::target_views(targets@),
            forall|j: int| 0 <= j < i ==> #[trigger] views[j].name != name@,
        decreases targets@.len() - i,
    {
        assert(views[i as int] == targets@[i as int]@);
        if text::same(targets[i].name.as_str(), name) {
            assert(views[i as int].name == name@);
            return true;
        }
        i = i + 1;
    }
    false
}

/// Parses `enabled.conf`: one `name[:profiles]` per line, `#` comments and blank lines ignored.
///
/// Duplicate names are dropped with a warning. Unlike the command line, where naming an
/// experiment twice merges its profile sets, a hand-edited file listing one twice is a mistake
/// worth pointing at rather than quietly reconciling.
pub fn parse_enabled(text: &str) -> (r: EnabledList)
    ensures
        r@ == enabled_of(text@),
{
    broadcast use text::lemma_views_push;

    let lines: Vec<String> = text::lines(text);
    let ghost views = text::views(lines@);
    let mut targets: Vec<Target> = Vec::new();
    let mut warnings: Vec<String> = Vec::new();
    let mut i: usize = 0;
    assert(views.take(0) =~= Seq::<Seq<char>>::empty());
    assert(target::target_views(targets@) =~= Seq::<TargetView>::empty());
    assert(text::views(warnings@) =~= Seq::<Seq<char>>::empty());
    while i < lines.len()
        invariant
            i <= lines@.len(),
            views == text::views(lines@),
            views == text::lines_of(text@),
            enabled_by(views.take(i as int)).targets == target::target_views(targets@),
            enabled_by(views.take(i as int)).warnings == text::views(warnings@),
        decreases lines@.len() - i,
    {
        let ghost before = enabled_by(views.take(i as int));
        assert(views.take(i + 1).drop_last() =~= views.take(i as int));
        assert(views.take(i + 1).last() == lines@[i as int]@);
        let line: String = text::trim(lines[i].as_str());
        let skipped: bool = line.as_str().is_empty() || line.as_str().get_char(0) == '#';
        if !skipped {
            let number: String = text::to_decimal(i as u64 + 1);
            match Target::parse(line.as_str()) {
                Err(err) => {
                    warnings.push(
                        text::cat6(
                            "line ",
                            number.as_str(),
                            ": '",
                            line.as_str(),
                            "': ",
                            err.to_string().as_str(),
                        ),
                    );
                },
                Ok(target) => {
                    if is_listed(&targets, target.name.as_str()) {
                        warnings.push(
                            text::cat5(
                                "line ",
                                number.as_str(),
                                ": '",
                                target.name.as_str(),
                                "' is listed more than once",
                            ),
                        );
                    } else {
                        let ghost added = target@;
                        targets.push(target);
                        assert(target::target_views(targets@) =~= before.targets.push(added));
                    }
                },
            }
        }
        i = i + 1;
    }
    assert(views.take(i as int) =~= views);
    EnabledList { targets, warnings }
}

/// Each experiment of `enabled.conf` is on the list once.
pub proof fn enabled_names_are_distinct(lines: Seq<Seq<char>>)
    ensures
        distinct_names(enabled_by(lines).targets),
    decreases lines.len(),
{
    if lines.len() > 0 {
        enabled_names_are_distinct(lines.drop_last());
    }
}

/// No two of `targets` are the same experiment.
pub open spec fn distinct_names(targets: Seq<TargetView>) -> bool {
    forall|i: int, j: int|
        0 <= i < j < targets.len() ==> #[trigger] targets[i].name != #[trigger] targets[j].name
}

/// A later line adds to what the earlier ones enabled and takes nothing of it away: a line that
/// is rejected does not discard the good ones.
pub proof fn later_lines_keep_earlier_targets(lines: Seq<Seq<char>>, line: Seq<char>)
    ensures
        enabled_by(lines.push(line)).targets == enabled_by(lines).targets || (target::target_of(
            text::trimmed(line),
        ) matches Ok(target) && enabled_by(lines.push(line)).targets == enabled_by(
            lines,
        ).targets.push(target)),
{
    assert(lines.push(line).drop_last() =~= lines);
}

/// How `start` treats a failed `docker compose pull`.
#[derive(Debug, Clone, Copy, PartialEq, Eq)]
pub struct StartOptions {
    /// A one-run override of `IGNORE_PULL_FAILURES` in `experiments.conf`.
    ///
    /// `None` means "whatever the file says", which is the normal case: the persistent setting
    /// belongs on the robot, since whether its registry is reachable is a property of where that
    /// robot is deployed, not of who is invoking the command.
    pub ignore_pull_failures: Option<bool>,
}

impl Default for StartOptions {
    fn default() -> (r: Self)
        ensures
            r.ignore_pull_failures is None,
    {
        StartOptions { ignore_pull_failures: None }
    }
}

/// The boolean that a spelling in a hand-edited config file means.
pub open spec fn bool_of(value: Seq<char>) -> Option<bool> {
    let value = text::lowered(text::trimmed(value));
    if value == "true"@ || value == "yes"@ || value == "on"@ || value == "1"@ {
        Some(true)
    } else if value == "false"@ || value == "no"@ || value == "off"@ || value == "0"@ {
        Some(false)
    } else {
        None
    }
}

/// Accepts the spellings people actually write in a hand-edited config file.
pub fn parse_bool(value: &str) -> (r: Option<bool>)
    ensures
        r == bool_of(value@),
{
    proof {
        reveal_strlit("true");
        reveal_strlit("yes");
        reveal_strlit("on");
        reveal_strlit("1");
        reveal_strlit("false");
        reveal_strlit("no");
        reveal_strlit("off");
        reveal_strlit("0");
    }
    let value: String = text::to_lowercase(text::trim(value).as_str());
    let value: &str = value.as_str();
    if text::same(value, "true") || text::same(value, "yes") || text::same(value, "on")
        || text::same(value, "1") {
        Some(true)
    } else if text::same(value, "false") || text::same(value, "no") || text::same(value, "off")
        || text::same(value, "0") {
        Some(false)
    } else {
        None
    }
}

/// What `experiments.conf`, where there is one, says about failed pulls: that they are fatal,
/// unless it plainly says otherwise.
pub open spec fn pull_failures_ignored(settings: Option<Seq<char>>) -> bool {
    match settings {
        None => false,
        Some(text) => match conf::value_of(text, IGNORE_PULL_FAILURES_KEY@) {
            None => false,
            Some(raw) => bool_of(raw) == Some(true),
        },
    }
}

/// Reads `IGNORE_PULL_FAILURES` from `experiments.conf`, defaulting to false (a failed pull is
/// fatal). An unparseable value takes the default rather than guessing.
pub fn ignore_pull_failures(settings: Option<&str>) -> (r: bool)
    ensures
        r == pull_failures_ignored(conf::opt(settings)),
{
    match settings {
        None => false,
        Some(text) => match conf::parse_value(text, IGNORE_PULL_FAILURES_KEY) {
            None => false,
            Some(raw) => match parse_bool(raw.as_str()) {
                Some(ignored) => ignored,
                None => false,
            },
        },
    }
}

/// What is logged when `settings`, read from `path`, are looked up.
pub open spec fn ignore_report(settings: Option<Seq<char>>, path: Seq<char>) -> Seq<Seq<char>> {
    match settings {
        None => Seq::empty(),
        Some(text) => match conf::value_of(text, IGNORE_PULL_FAILURES_KEY@) {
            None => Seq::empty(),
            Some(raw) => if bool_of(raw) is Some {
                Seq::empty()
            } else {
                seq![
                    log::warn_line(
                        path + ": "@ + IGNORE_PULL_FAILURES_KEY@ + "='"@ + raw
                            + "' is not a boolean; treating a failed pull as fatal"@,
                    ),
                ]
            },
        },
    }
}

/// The warnings that go with `ignore_pull_failures`.
pub fn ignore_pull_failures_notices(settings: Option<&str>, path: &str) -> (r: Vec<String>)
    ensures
        text::views(r@) == ignore_report(conf::opt(settings), path@),
{
    let mut out: Vec<String> = Vec::new();
    assert(text::views(out@) =~= Seq::<Seq<char>>::empty());
    if let Some(text) = settings {
        if let Some(raw) = conf::parse_value(text, IGNORE_PULL_FAILURES_KEY) {
            if parse_bool(raw.as_str()).is_none() {
                let msg: String = text::cat6(
                    path,
                    ": ",
                    IGNORE_PULL_FAILURES_KEY,
                    "='",
                    raw.as_str(),
                    "' is not a boolean; treating a failed pull as fatal",
                );
                out.push(log::warn(msg.as_str()));
                assert(text::views(out@) =~= ignore_report(conf::opt(settings), path@));
            }
        }
    }
    out
}

/// Whether failed pulls are ignored in a run with `options` on a robot with `settings`: the
/// command line decides, where it says something.
pub open spec fn run_ignores(options: StartOptions, settings: Option<Seq<char>>) -> bool {
    match options.ignore_pull_failures {
        Some(ignored) => ignored,
        None => pull_failures_ignored(settings),
    }
}

/// What is logged when `options` and `settings` are weighed.
pub open spec fn run_report(
    options: StartOptions,
    settings: Option<Seq<char>>,
    path: Seq<char>,
) -> Seq<Seq<char>> {
    match options.ignore_pull_failures {
        Some(ignored) => seq![
            log::info_line(
                IGNORE_PULL_FAILURES_KEY@ + (if ignored {
                    "=true"@
                } else {
                    "=false"@
                }) + " for this run (command line)"@,
            ),
        ],
        None => ignore_report(settings, path),
    }
}

impl StartOptions {
    /// Whether failed pulls are ignored in this run, and what to log of it.
    pub fn resolve(self, settings: Option<&str>, path: &str) -> (r: (bool, Vec<String>))
        ensures
            r.0 == run_ignores(self, conf::opt(settings)),
            text::views(r.1@) == run_report(self, conf::opt(settings), path@),
    {
        match self.ignore_pull_failures {
            Some(ignored) => {
                let value: &str = if ignored {
                    "=true"
                } else {
                    "=false"
                };
                let msg: String = text::cat3(
                    IGNORE_PULL_FAILURES_KEY,
                    value,
                    " for this run (command line)",
                );
                let mut notices: Vec<String> = Vec::new();
                notices.push(log::info(msg.as_str()));
                assert(text::views(notices@) =~= run_report(self, conf::opt(settings), path@));
                (ignored, notices)
            },
            None => (
                ignore_pull_failures(settings),
                ignore_pull_failures_notices(settings, path),
            ),
        }
    }
}

} // verus!
