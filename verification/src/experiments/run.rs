//! Starting, stopping and querying experiments, one `docker compose` command after another.

use vstd::prelude::*;
use vstd::string::*;

use crate::command::{self, Command, CommandView, Exit};
use crate::conf;
use crate::config::{self, Paths};
use crate::experiments::enabled::{self, StartOptions};
use crate::experiments::names::ExperimentName;
use crate::experiments::select::{self, Selection, SelectionView};
use crate::experiments::target::{self, Profiles, ProfilesView, Target, TargetView};
use crate::id::FileChange;
use crate::log;
use crate::text;

verus! {

pub const SETTINGS_CONF: &'static str = "experiments.conf";

/// The full `docker compose` argument list for one experiment: the profile flags come before the
/// verb.
pub open spec fn compose_args_of(
    dir: Seq<char>,
    name: Seq<char>,
    profiles: ProfilesView,
    verb: Seq<Seq<char>>,
) -> Seq<Seq<char>> {
    seq![
        "compose"@,
        "-f"@,
        select::compose_path(dir, name),
        "--project-directory"@,
        config::path_below(dir, name),
    ] + target::profile_flags(profiles) + verb
}

/// The full `docker compose` argument list for one experiment.
///
/// `--profile` is a compose-level flag, so it has to precede the verb.
pub fn compose_args(dir: &str, name: &ExperimentName, profiles: &Profiles, verb: &[&str]) -> (r:
    Vec<String>)
    ensures
        text::views(r@) == compose_args_of(dir@, name@, profiles@, command::str_views(verb@)),
{
    let file: String = select::compose_file(dir, name);
    let project: String = config::join_path(dir, name.as_str());
    let mut args: Vec<String> = command::strings(
        &["compose", "-f", file.as_str(), "--project-directory", project.as_str()],
    );
    let ghost head = text::views(args@);
    let mut flags: Vec<String> = profiles.args();
    let ghost middle = text::views(flags@);
    let mut rest: Vec<String> = command::strings(verb);
    let ghost tail = text::views(rest@);
    args.append(&mut flags);
    args.append(&mut rest);
    assert(head =~= seq![
        "compose"@,
        "-f"@,
        select::compose_path(dir@, name@),
        "--project-directory"@,
        config::path_below(dir@, name@),
    ]);
    assert(text::views(args@) =~= head + middle + tail);
    args
}

/// The `docker compose` command for one experiment.
pub open spec fn compose_command(
    dir: Seq<char>,
    target: TargetView,
    verb: Seq<Seq<char>>,
) -> CommandView {
    CommandView {
        program: "docker"@,
        args: compose_args_of(dir, target.name, target.profiles, verb),
    }
}

fn docker_compose(dir: &str, name: &ExperimentName, profiles: &Profiles, verb: &[&str]) -> (r:
    Command)
    ensures
        r@ == compose_command(
            dir@,
            (TargetView { name: name@, profiles: profiles@ }),
            command::str_views(verb@),
        ),
{
    Command { program: "docker".to_owned(), args: compose_args(dir, name, profiles, verb) }
}

/// Why `docker compose` failed to do `verb`, if it did.
pub open spec fn compose_failure(verb: Seq<char>, exit: Exit) -> Option<Seq<char>> {
    match exit {
        Exit::Success => None,
        Exit::Failure { status } => Some(
            "`docker compose "@ + verb + "` exited with "@ + status@,
        ),
        Exit::NotRun { err } => Some("running `docker compose "@ + verb + "`: "@ + err@),
    }
}

/// Why `docker compose` failed to do `verb`, if it did.
pub fn compose(verb: &str, exit: &Exit) -> (r: Result<(), String>)
    ensures
        r is Ok <==> compose_failure(verb@, *exit) is None,
        r matches Err(err) ==> compose_failure(verb@, *exit) == Some(err@),
{
    match exit {
        Exit::Success => Ok(()),
        Exit::Failure { status } => Err(
            text::cat4("`docker compose ", verb, "` exited with ", status.as_str()),
        ),
        Exit::NotRun { err } => Err(
            text::cat4("running `docker compose ", verb, "`: ", err.as_str()),
        ),
    }
}

/// The command whose success shows that there is a docker.
pub fn docker_version() -> (r: Command)
    ensures
        r@ == (CommandView { program: "docker"@, args: seq!["--version"@] }),
{
    let r: Command = command::command("docker", &["--version"]);
    assert(r@.args =~= seq!["--version"@]);
    r
}

/// Whether docker can be run at all; that it exits with a failure is of no interest.
pub fn require_docker(exit: &Exit) -> (r: Result<(), String>)
    ensures
        r is Ok <==> !(exit is NotRun),
        r matches Err(message) ==> (exit matches Exit::NotRun { err } && message@
            == "required command not found: docker: "@ + err@),
{
    match exit {
        Exit::NotRun { err } => Err(
            text::cat2("required command not found: docker: ", err.as_str()),
        ),
        _ => Ok(()),
    }
}

/// What has to be written so that there is a file at `path`: nothing if there is one.
///
/// A fresh robot gets a file that explains itself rather than nothing at all.
pub fn ensure_file(exists: bool, path: &str, template: &str) -> (r: Option<FileChange>)
    ensures
        r is None <==> exists,
        r matches Some(change) ==> {
            &&& change.path@ == path@
            &&& change.contents@ == template@
            &&& change.notice@ == log::info_line("created "@ + path@)
        },
{
    if exists {
        return None;
    }
    Some(
        FileChange {
            path: path.to_owned(),
            contents: template.to_owned(),
            notice: log::info(text::cat2("created ", path).as_str()),
        },
    )
}

/// What is said of a command that failed on the experiments `failed`.
pub open spec fn report_message(failed: Seq<Seq<char>>, total: nat, verb: Seq<char>) -> Seq<char> {
    "failed to "@ + verb + " "@ + text::decimal(failed.len()) + " of "@ + text::decimal(total)
        + " experiments: "@ + text::joined(failed, ", "@)
}

/// Fails the command if anything failed, having already attempted everything else.
pub fn report(failed: &Vec<String>, total: usize, verb: &str) -> (r: Result<(), String>)
    ensures
        r is Ok <==> failed@.len() == 0,
        r matches Err(message) ==> message@ == report_message(
            text::views(failed@),
            total as nat,
            verb@,
        ),
{
    if failed.len() == 0 {
        return Ok(());
    }
    let head: String = text::cat6(
        "failed to ",
        verb,
        " ",
        text::to_decimal(failed.len() as u64).as_str(),
        " of ",
        text::to_decimal(total as u64).as_str(),
    );
    Err(text::cat3(head.as_str(), " experiments: ", text::join(failed, ", ").as_str()))
}

/// What a `Step` holds.
#[verifier::ext_equal]
pub struct StepView {
    pub heading: Seq<char>,
    pub command: CommandView,
}

/// A command to run, and what to tell the user before.
#[derive(Debug, Clone, PartialEq, Eq)]
pub struct Step {
    pub heading: String,
    pub command: Command,
}

impl View for Step {
    type V = StepView;

    open spec fn view(&self) -> StepView {
        StepView { heading: self.heading@, command: self.command@ }
    }
}

/// What a `Step` that may not be there holds.
pub open spec fn step_view(step: Option<Step>) -> Option<StepView> {
    match step {
        Some(step) => Some(step@),
        None => None,
    }
}

/// How far a start has come.
#[verifier::ext_equal]
pub struct StartView {
    pub dir: Seq<char>,
    pub settings_path: Seq<char>,
    pub targets: Seq<TargetView>,
    pub ignore_pull_failures: bool,
    /// The target that is dealt with.
    pub at: nat,
    /// Whether its pull is done with, so that it is to be brought up.
    pub pulled: bool,
    /// The experiments that failed so far.
    pub failed: Seq<Seq<char>>,
}

pub open spec fn pull_verb() -> Seq<Seq<char>> {
    seq!["pull"@, "--quiet"@]
}

pub open spec fn up_verb() -> Seq<Seq<char>> {
    seq!["up"@, "-d"@, "--remove-orphans"@]
}

impl StartView {
    pub open spec fn done(self) -> bool {
        self.at >= self.targets.len()
    }

    /// What is to be done next.
    pub open spec fn step(self) -> Option<StepView> {
        if self.done() {
            None
        } else {
            let target = self.targets[self.at as int];
            Some(
                if self.pulled {
                    StepView {
                        heading: log::info_line(
                            "starting experiment '"@ + target::target_text(target) + "'"@,
                        ),
                        command: compose_command(self.dir, target, up_verb()),
                    }
                } else {
                    StepView {
                        heading: log::info_line(
                            "pulling images for experiment '"@ + target::target_text(target)
                                + "'"@,
                        ),
                        command: compose_command(self.dir, target, pull_verb()),
                    }
                },
            )
        }
    }

    /// The start after the step at hand went well or did not.
    pub open spec fn after(self, success: bool) -> StartView {
        if self.done() {
            self
        } else if !self.pulled && (success || self.ignore_pull_failures) {
            StartView { pulled: true, ..self }
        } else {
            StartView {
                at: self.at + 1,
                pulled: false,
                failed: if success {
                    self.failed
                } else {
                    self.failed.push(self.targets[self.at as int].name)
                },
                ..self
            }
        }
    }

    /// What is logged of the step at hand, which ended with `exit`.
    pub open spec fn notices(self, exit: Exit) -> Seq<Seq<char>> {
        if self.done() {
            Seq::empty()
        } else {
            let name = self.targets[self.at as int].name;
            if self.pulled {
                match compose_failure("up -d --remove-orphans"@, exit) {
                    None => Seq::empty(),
                    Some(err) => seq![
                        log::error_line(
                            "failed to start experiment '"@ + name + "': "@ + err,
                        ),
                    ],
                }
            } else {
                match compose_failure("pull --quiet"@, exit) {
                    None => Seq::empty(),
                    Some(err) => seq![
                        if self.ignore_pull_failures {
                            log::warn_line(
                                "pull failed for '"@ + name + "' ("@ + err
                                    + "); starting with the local image (IGNORE_PULL_FAILURES=true)"@,
                            )
                        } else {
                            log::error_line(
                                "pull failed for '"@ + name + "': "@ + err
                                    + ". Not starting it — the local image may be out of date. Set IGNORE_PULL_FAILURES=true in "@
                                    + self.settings_path
                                    + " to start it anyway on this robot, or pass --ignore-pull-failures for one run."@,
                            )
                        },
                    ],
                }
            }
        }
    }
}

/// Experiments that are being started.
#[derive(Debug)]
pub struct StartRun {
    dir: String,
    settings_path: String,
    targets: Vec<Target>,
    ignore_pull_failures: bool,
    at: usize,
    pulled: bool,
    failed: Vec<String>,
}

impl View for StartRun {
    type V = StartView;

    closed spec fn view(&self) -> StartView {
        StartView {
            dir: self.dir@,
            settings_path: self.settings_path@,
            targets: target::target_views(self.targets@),
            ignore_pull_failures: self.ignore_pull_failures,
            at: self.at as nat,
            pulled: self.pulled,
            failed: text::views(self.failed@),
        }
    }
}

/// A start of which nothing is done yet.
pub open spec fn start_of(
    selection: SelectionView,
    settings_path: Seq<char>,
    ignore_pull_failures: bool,
) -> StartView {
    StartView {
        dir: selection.dir,
        settings_path,
        targets: selection.targets,
        ignore_pull_failures,
        at: 0,
        pulled: false,
        failed: Seq::empty(),
    }
}

/// Pulls images and brings the selected stacks up.
///
/// With no targets, that is everything in `enabled.conf`, with the profiles configured there,
/// which is how the boot-time systemd unit invokes it, and the only way profiles can differ
/// per robot, since the unit's `ExecStart` is baked into the image.
///
/// A failed pull is fatal by default, and the experiment is *not* started.
///
/// Experiment images are cross-built on a workstation and pushed to a registry on the lab LAN: a
/// robot never builds them. `up -d` will happily start whatever stale image is already in
/// /data/docker, so treating a failed pull as a warning means a robot that missed a deploy keeps
/// running an old experiment indefinitely with nothing to indicate the results are from the
/// wrong code. Refusing to start is the louder failure, and the recoverable one.
///
/// Failures are collected rather than raised at the first one: an unreachable registry should
/// not stop the *other* experiments from being attempted. The command still exits non-zero, so
/// the systemd unit fails and `robotctl status` reports it.
///
/// The result is the run, whose steps are the commands to carry out, and what to log before it.
pub fn start(
    paths: &Paths,
    selection: Selection,
    options: StartOptions,
    settings: Option<&str>,
) -> (r: (StartRun, Vec<String>))
    ensures
        r.0@ == start_of(
            selection@,
            settings_path_of(paths@),
            enabled::run_ignores(options, conf::opt(settings)),
        ),
        text::views(r.1@) == enabled::run_report(
            options,
            conf::opt(settings),
            settings_path_of(paths@),
        ),
{
    let path: String = settings_path(paths);
    let (ignore_pull_failures, notices): (bool, Vec<String>) = options.resolve(
        settings,
        path.as_str(),
    );
    let run = StartRun {
        dir: selection.dir,
        settings_path: path,
        targets: selection.targets,
        ignore_pull_failures,
        at: 0,
        pulled: false,
        failed: Vec::new(),
    };
    assert(text::views(run.failed@) =~= Seq::<Seq<char>>::empty());
    (run, notices)
}

/// Where `experiments.conf` stands.
pub open spec fn settings_path_of(paths: config::PathsView) -> Seq<char> {
    config::path_below(config::path_below(paths.data_dir, "experiments"@), SETTINGS_CONF@)
}

/// Where `experiments.conf` stands.
pub fn settings_path(paths: &Paths) -> (r: String)
    ensures
        r@ == settings_path_of(paths@),
{
    config::join_path(paths.experiments_dir().as_str(), SETTINGS_CONF)
}

impl StartRun {
    /// What is to be done next: nothing once every target was dealt with.
    pub fn step(&self) -> (r: Option<Step>)
        ensures
            step_view(r) == self@.step(),
    {
        if self.at >= self.targets.len() {
            return None;
        }
        let target: &Target = &self.targets[self.at];
        assert(self@.targets[self.at as int] == target@);
        let shown: String = target.to_string();
        let step: Step = if self.pulled {
            let msg: String = text::cat3("starting experiment '", shown.as_str(), "'");
            let verb: [&str; 3] = ["up", "-d", "--remove-orphans"];
            assert(command::str_views(verb@) =~= up_verb());
            Step {
                heading: log::info(msg.as_str()),
                command: docker_compose(self.dir.as_str(), &target.name, &target.profiles, &verb),
            }
        } else {
            let msg: String = text::cat3("pulling images for experiment '", shown.as_str(), "'");
            let verb: [&str; 2] = ["pull", "--quiet"];
            assert(command::str_views(verb@) =~= pull_verb());
            Step {
                heading: log::info(msg.as_str()),
                command: docker_compose(self.dir.as_str(), &target.name, &target.profiles, &verb),
            }
        };
        assert(step@ == self@.step()->0);
        Some(step)
    }

    /// Takes note of how the step at hand ended; the result is what to log of it.
    pub fn record(&mut self, exit: &Exit) -> (r: Vec<String>)
        ensures
            final(self)@ == old(self)@.after(exit is Success),
            text::views(r@) == old(self)@.notices(*exit),
    {
        let ghost before = self@;
        let mut notices: Vec<String> = Vec::new();
        assert(text::views(notices@) =~= Seq::<Seq<char>>::empty());
        if self.at >= self.targets.len() {
            return notices;
        }
        assert(before.targets[self.at as int] == self.targets@[self.at as int]@);
        let name: String = self.targets[self.at].name.as_str().to_owned();
        if self.pulled {
            match compose("up -d --remove-orphans", exit) {
                Ok(_) => {},
                Err(err) => {
                    let msg: String = text::cat4(
                        "failed to start experiment '",
                        name.as_str(),
                        "': ",
                        err.as_str(),
                    );
                    notices.push(log::error(msg.as_str()));
                    self.failed.push(name);
                    assert(text::views(self.failed@) =~= before.failed.push(
                        before.targets[before.at as int].name,
                    ));
                },
            }
            self.pulled = false;
            self.at = self.at + 1;
        } else {
            match compose("pull --quiet", exit) {
                Ok(_) => {
                    self.pulled = true;
                },
                Err(err) => {
                    if self.ignore_pull_failures {
                        let msg: String = text::cat5(
                            "pull failed for '",
                            name.as_str(),
                            "' (",
                            err.as_str(),
                            "); starting with the local image (IGNORE_PULL_FAILURES=true)",
                        );
                        notices.push(log::warn(msg.as_str()));
                        self.pulled = true;
                    } else {
                        let msg: String = text::cat7(
                            "pull failed for '",
                            name.as_str(),
                            "': ",
                            err.as_str(),
                            ". Not starting it — the local image may be out of date. Set IGNORE_PULL_FAILURES=true in ",
                            self.settings_path.as_str(),
                            " to start it anyway on this robot, or pass --ignore-pull-failures for one run.",
                        );
                        notices.push(log::error(msg.as_str()));
                        self.failed.push(name);
                        assert(text::views(self.failed@) =~= before.failed.push(
                            before.targets[before.at as int].name,
                        ));
                        self.at = self.at + 1;
                    }
                },
            }
        }
        assert(text::views(notices@) =~= before.notices(*exit));
        notices
    }

    /// Whether everything was started.
    pub fn finish(&self) -> (r: Result<(), String>)
        ensures
            r is Ok <==> self@.failed.len() == 0,
            r matches Err(message) ==> message@ == report_message(
                self@.failed,
                self@.targets.len(),
                "start"@,
            ),
    {
        report(&self.failed, self.targets.len(), "start")
    }
}

/// An experiment is brought up only if its pull succeeded or failed pulls are ignored, whatever
/// became of the others; and it counts as failed if and only if it was not brought up.
pub proof fn each_experiment_is_started_on_its_own(run: StartView, pull: bool, up: bool)
    requires
        !run.done(),
        !run.pulled,
    ensures
        run.after(pull).pulled <==> pull || run.ignore_pull_failures,
        run.after(pull).pulled ==> run.after(pull).at == run.at,
        ({
            let next = if run.after(pull).pulled {
                run.after(pull).after(up)
            } else {
                run.after(pull)
            };
            &&& next.at == run.at + 1
            &&& !next.pulled
            &&& next.targets == run.targets
            &&& next.failed == if (pull || run.ignore_pull_failures) && up {
                run.failed
            } else {
                run.failed.push(run.targets[run.at as int].name)
            }
        }),
{
}

/// The run at its end, where the pull and the start of each target go as given.
pub open spec fn start_to_end(
    run: StartView,
    pulls: spec_fn(nat) -> bool,
    ups: spec_fn(nat) -> bool,
) -> StartView
    decreases
            run.targets.len() - run.at,
            if run.pulled {
                0int
            } else {
                1int
            },
{
    if run.done() {
        run
    } else if run.pulled {
        start_to_end(run.after(ups(run.at)), pulls, ups)
    } else {
        start_to_end(run.after(pulls(run.at)), pulls, ups)
    }
}

/// The first `n` of `targets` that do not start, where the pull and the start of each go as given.
pub open spec fn not_started(
    targets: Seq<TargetView>,
    ignore_pull_failures: bool,
    pulls: spec_fn(nat) -> bool,
    ups: spec_fn(nat) -> bool,
    n: nat,
) -> Seq<Seq<char>>
    decreases n,
{
    if n == 0 {
        Seq::empty()
    } else {
        let i = (n - 1) as nat;
        let before = not_started(targets, ignore_pull_failures, pulls, ups, i);
        if (pulls(i) || ignore_pull_failures) && ups(i) {
            before
        } else {
            before.push(targets[i as int].name)
        }
    }
}

/// Every target is attempted, and the failures are exactly those that did not start: one bad
/// experiment does not keep the others from being started.
pub proof fn a_start_attempts_everything(
    selection: SelectionView,
    settings_path: Seq<char>,
    ignore_pull_failures: bool,
    pulls: spec_fn(nat) -> bool,
    ups: spec_fn(nat) -> bool,
)
    ensures
        ({
            let end = start_to_end(
                start_of(selection, settings_path, ignore_pull_failures),
                pulls,
                ups,
            );
            &&& end.at == selection.targets.len()
            &&& end.failed == not_started(
                selection.targets,
                ignore_pull_failures,
                pulls,
                ups,
                selection.targets.len(),
            )
        }),
{
    lemma_start_to_end(start_of(selection, settings_path, ignore_pull_failures), pulls, ups);
}

proof fn lemma_start_to_end(
    run: StartView,
    pulls: spec_fn(nat) -> bool,
    ups: spec_fn(nat) -> bool,
)
    requires
        run.at <= run.targets.len(),
        !run.pulled,
        run.failed == not_started(run.targets, run.ignore_pull_failures, pulls, ups, run.at),
    ensures
        start_to_end(run, pulls, ups).at == run.targets.len(),
        start_to_end(run, pulls, ups).failed == not_started(
            run.targets,
            run.ignore_pull_failures,
            pulls,
            ups,
            run.targets.len(),
        ),
    decreases run.targets.len() - run.at,
{
    if !run.done() {
        let pulled = run.after(pulls(run.at));
        reveal_with_fuel(start_to_end, 3);
        if pulled.pulled {
            lemma_start_to_end(pulled.after(ups(run.at)), pulls, ups);
        } else {
            lemma_start_to_end(pulled, pulls, ups);
        }
    }
}

/// How far a stop has come.
#[verifier::ext_equal]
pub struct StopView {
    pub dir: Seq<char>,
    pub targets: Seq<TargetView>,
    /// The target that is dealt with.
    pub at: nat,
    /// The experiments that failed so far.
    pub failed: Seq<Seq<char>>,
}

/// A stop of which nothing is done yet.
pub open spec fn stop_of(selection: SelectionView) -> StopView {
    StopView { dir: selection.dir, targets: selection.targets, at: 0, failed: Seq::empty() }
}

/// What to take down of an experiment: everything, unless the caller narrowed it to specific
/// profiles.
pub open spec fn stop_target(target: TargetView) -> TargetView {
    if target.profiles is Named {
        target
    } else {
        TargetView { profiles: ProfilesView::All, ..target }
    }
}

/// How to take it down: with its orphans, unless the caller narrowed it to specific profiles.
pub open spec fn stop_verb(target: TargetView) -> Seq<Seq<char>> {
    if target.profiles is Named {
        seq!["down"@]
    } else {
        seq!["down"@, "--remove-orphans"@]
    }
}

impl StopView {
    pub open spec fn done(self) -> bool {
        self.at >= self.targets.len()
    }

    /// The stop after the step at hand went well or did not.
    pub open spec fn after(self, success: bool) -> StopView {
        if self.done() {
            self
        } else {
            StopView {
                at: self.at + 1,
                failed: if success {
                    self.failed
                } else {
                    self.failed.push(self.targets[self.at as int].name)
                },
                ..self
            }
        }
    }

    /// What is to be done next.
    pub open spec fn step(self) -> Option<StepView> {
        if self.done() {
            None
        } else {
            let target = self.targets[self.at as int];
            Some(
                StepView {
                    heading: log::info_line(
                        "stopping experiment '"@ + target::target_text(target) + "'"@,
                    ),
                    command: compose_command(self.dir, stop_target(target), stop_verb(target)),
                },
            )
        }
    }

    /// What is logged of the stop at hand, which ended with `exit`.
    pub open spec fn notices(self, exit: Exit) -> Seq<Seq<char>> {
        if self.done() {
            Seq::empty()
        } else {
            let target = self.targets[self.at as int];
            let verb = if target.profiles is Named {
                "down"@
            } else {
                "down --remove-orphans"@
            };
            match compose_failure(verb, exit) {
                None => Seq::empty(),
                Some(err) => seq![
                    log::error_line(
                        "failed to stop experiment '"@ + target.name + "': "@ + err,
                    ),
                ],
            }
        }
    }
}

/// Stop means stop: a command that is not narrowed to specific profiles covers every profile.
pub proof fn stop_covers_every_profile(target: TargetView, profile: Seq<char>)
    requires
        !(target.profiles is Named),
    ensures
        select::activates(stop_target(target).profiles, profile),
        stop_verb(target).contains("--remove-orphans"@),
{
    assert(stop_verb(target)[1] == "--remove-orphans"@);
}

/// Experiments that are being stopped.
#[derive(Debug)]
pub struct StopRun {
    dir: String,
    targets: Vec<Target>,
    at: usize,
    failed: Vec<String>,
}

impl View for StopRun {
    type V = StopView;

    closed spec fn view(&self) -> StopView {
        StopView {
            dir: self.dir@,
            targets: target::target_views(self.targets@),
            at: self.at as nat,
            failed: text::views(self.failed@),
        }
    }
}

/// Brings the selected stacks down.
///
/// With no targets this sweeps *every* stack directory on disk, not just the enabled ones: an
/// experiment removed from `enabled.conf` while still running would otherwise never be stopped
/// by anything. `down` on a stack that isn't running is a cheap no-op.
///
/// Unless the caller narrowed it to specific profiles, every profile is activated
/// (`--profile "*"`) and orphans are removed, because compose's `down` only removes containers
/// for services in the *active* profile set, so a plain `down` would strand containers that
/// were started under a profile. Stop means stop.
pub fn stop(selection: Selection) -> (r: StopRun)
    ensures
        r@ == stop_of(selection@),
{
    let run = StopRun {
        dir: selection.dir,
        targets: selection.targets,
        at: 0,
        failed: Vec::new(),
    };
    assert(text::views(run.failed@) =~= Seq::<Seq<char>>::empty());
    run
}

impl StopRun {
    /// What is to be done next: nothing once every target was dealt with.
    pub fn step(&self) -> (r: Option<Step>)
        ensures
            step_view(r) == self@.step(),
    {
        if self.at >= self.targets.len() {
            return None;
        }
        let target: &Target = &self.targets[self.at];
        assert(self@.targets[self.at as int] == target@);
        let msg: String = text::cat3("stopping experiment '", target.to_string().as_str(), "'");
        // No profiles here means the caller said nothing about profiles, not that they want a
        // profile-less teardown: there is no such thing, since the goal is an empty project.
        let command: Command = match &target.profiles {
            Profiles::Named(_) => {
                let verb: [&str; 1] = ["down"];
                assert(command::str_views(verb@) =~= stop_verb(target@));
                docker_compose(self.dir.as_str(), &target.name, &target.profiles, &verb)
            },
            _ => {
                let verb: [&str; 2] = ["down", "--remove-orphans"];
                assert(command::str_views(verb@) =~= stop_verb(target@));
                docker_compose(self.dir.as_str(), &target.name, &Profiles::All, &verb)
            },
        };
        let step = Step { heading: log::info(msg.as_str()), command };
        assert(step@ == self@.step()->0);
        Some(step)
    }

    /// Takes note of how the step at hand ended; the result is what to log of it.
    pub fn record(&mut self, exit: &Exit) -> (r: Vec<String>)
        ensures
            final(self)@ == old(self)@.after(exit is Success),
            text::views(r@) == old(self)@.notices(*exit),
    {
        let ghost before = self@;
        let mut notices: Vec<String> = Vec::new();
        assert(text::views(notices@) =~= Seq::<Seq<char>>::empty());
        if self.at >= self.targets.len() {
            return notices;
        }
        assert(before.targets[self.at as int] == self.targets@[self.at as int]@);
        let name: String = self.targets[self.at].name.as_str().to_owned();
        let verb: &str = match &self.targets[self.at].profiles {
            Profiles::Named(_) => "down",
            _ => "down --remove-orphans",
        };
        match compose(verb, exit) {
            Ok(_) => {},
            Err(err) => {
                let msg: String = text::cat4(
                    "failed to stop experiment '",
                    name.as_str(),
                    "': ",
                    err.as_str(),
                );
                notices.push(log::error(msg.as_str()));
                self.failed.push(name);
                assert(text::views(self.failed@) =~= before.failed.push(
                    before.targets[before.at as int].name,
                ));
            },
        }
        self.at = self.at + 1;
        assert(text::views(notices@) =~= before.notices(*exit));
        notices
    }

    /// Whether everything was stopped.
    pub fn finish(&self) -> (r: Result<(), String>)
        ensures
            r is Ok <==> self@.failed.len() == 0,
            r matches Err(message) ==> message@ == report_message(
                self@.failed,
                self@.targets.len(),
                "stop"@,
            ),
    {
        report(&self.failed, self.targets.len(), "stop")
    }
}

/// Experiments that are being queried.
#[derive(Debug)]
pub struct StatusRun {
    dir: String,
    targets: Vec<Target>,
    at: usize,
}

/// How far a query has come. It keeps no account of failures.
#[verifier::ext_equal]
pub struct QueryView {
    pub dir: Seq<char>,
    pub targets: Seq<TargetView>,
    pub at: nat,
}

impl QueryView {
    pub open spec fn done(self) -> bool {
        self.at >= self.targets.len()
    }

    /// What is to be done next.
    pub open spec fn step(self) -> Option<StepView> {
        if self.done() {
            None
        } else {
            let target = self.targets[self.at as int];
            Some(
                StepView {
                    heading: "== "@ + target::target_text(target) + " =="@,
                    command: compose_command(self.dir, target, seq!["ps"@]),
                },
            )
        }
    }

    /// What is logged of the query at hand, which ended with `exit`.
    pub open spec fn notices(self, exit: Exit) -> Seq<Seq<char>> {
        if self.done() {
            Seq::empty()
        } else {
            let target = self.targets[self.at as int];
            match compose_failure("ps"@, exit) {
                None => Seq::empty(),
                Some(err) => seq![
                    log::warn_line(
                        "could not query experiment '"@ + target.name + "': "@ + err,
                    ),
                ],
            }
        }
    }

    /// The query after the step at hand, however it went.
    pub open spec fn next(self) -> QueryView {
        if self.done() {
            self
        } else {
            QueryView { at: self.at + 1, ..self }
        }
    }
}

impl View for StatusRun {
    type V = QueryView;

    closed spec fn view(&self) -> QueryView {
        QueryView {
            dir: self.dir@,
            targets: target::target_views(self.targets@),
            at: self.at as nat,
        }
    }
}

/// `docker compose ps` for the selected stacks.
///
/// Per-experiment failures stay warnings and the command still exits 0: a report that aborts
/// because one stack could not be queried is least useful exactly when something is wrong.
pub fn status(selection: Selection) -> (r: StatusRun)
    ensures
        r@ == (QueryView { dir: selection@.dir, targets: selection@.targets, at: 0 }),
{
    StatusRun { dir: selection.dir, targets: selection.targets, at: 0 }
}

impl StatusRun {
    /// What is to be done next: nothing once every target was dealt with. The heading is part of
    /// the report.
    pub fn step(&self) -> (r: Option<Step>)
        ensures
            step_view(r) == self@.step(),
    {
        if self.at >= self.targets.len() {
            return None;
        }
        let target: &Target = &self.targets[self.at];
        assert(self@.targets[self.at as int] == target@);
        let verb: [&str; 1] = ["ps"];
        assert(command::str_views(verb@) =~= seq!["ps"@]);
        let step = Step {
            heading: text::cat3("== ", target.to_string().as_str(), " =="),
            command: docker_compose(self.dir.as_str(), &target.name, &target.profiles, &verb),
        };
        assert(step@ == self@.step()->0);
        Some(step)
    }

    /// Takes note of how the step at hand ended; the result is what to log of it.
    pub fn record(&mut self, exit: &Exit) -> (r: Vec<String>)
        ensures
            final(self)@ == old(self)@.next(),
            text::views(r@) == old(self)@.notices(*exit),
    {
        let ghost before = self@;
        let mut notices: Vec<String> = Vec::new();
        assert(text::views(notices@) =~= Seq::<Seq<char>>::empty());
        if self.at >= self.targets.len() {
            return notices;
        }
        assert(before.targets[self.at as int] == self.targets@[self.at as int]@);
        match compose("ps", exit) {
            Ok(_) => {},
            Err(err) => {
                let msg: String = text::cat4(
                    "could not query experiment '",
                    self.targets[self.at].name.as_str(),
                    "': ",
                    err.as_str(),
                );
                notices.push(log::warn(msg.as_str()));
            },
        }
        self.at = self.at + 1;
        assert(text::views(notices@) =~= before.notices(*exit));
        notices
    }
}

} // verus!
