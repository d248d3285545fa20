//! Tasks that are carried out one after another, until one of them fails.

use vstd::prelude::*;
use vstd::string::*;

use crate::command::{Command, CommandView};
use crate::log;
use crate::text;
use crate::wifi::net::{self, Captured};

verus! {

/// What a `Task` holds.
#[verifier::ext_equal]
pub enum TaskView {
    Require { interface: Seq<char> },
    Run { command: CommandView },
    Try { command: CommandView, complaint: Seq<char> },
    Write { path: Seq<char>, contents: Seq<char> },
    Spawn { name: Seq<char>, command: CommandView },
    Log { lines: Seq<Seq<char>> },
}

/// One thing to do.
#[derive(Debug, Clone, PartialEq, Eq)]
pub enum Task {
    /// Make sure that the interface exists.
    Require { interface: String },
    /// Run a command to its end.
    Run { command: Command },
    /// Run a command to its end, and complain if it fails.
    Try { command: Command, complaint: String },
    /// Write a file.
    Write { path: String, contents: String },
    /// Start a daemon.
    Spawn { name: String, command: Command },
    /// Log what has been done.
    Log { lines: Vec<String> },
}

impl View for Task {
    type V = TaskView;

    open spec fn view(&self) -> TaskView {
        match self {
            Task::Require { interface } => TaskView::Require { interface: interface@ },
            Task::Run { command } => TaskView::Run { command: command@ },
            Task::Try { command, complaint } => TaskView::Try {
                command: command@,
                complaint: complaint@,
            },
            Task::Write { path, contents } => TaskView::Write {
                path: path@,
                contents: contents@,
            },
            Task::Spawn { name, command } => TaskView::Spawn { name: name@, command: command@ },
            Task::Log { lines } => TaskView::Log { lines: text::views(lines@) },
        }
    }
}

/// The contents of each task of a list.
pub open spec fn task_views(list: Seq<Task>) -> Seq<TaskView> {
    list.map_values(|task: Task| task@)
}

/// What came of a task.
#[derive(Debug, Clone, PartialEq, Eq)]
pub enum Reply {
    /// Its command ran, or could not be run.
    Ran { captured: Captured },
    /// Its file was written.
    Written,
    /// Its file could not be written.
    NotWritten { err: String },
    /// Its daemon was started.
    Spawned { pid: u32 },
    /// Its daemon could not be started.
    NotSpawned { err: String },
    /// Its lines were logged.
    Logged,
}

/// Whether `reply` is one that `task` can get.
pub open spec fn fits(task: TaskView, reply: Reply) -> bool {
    match task {
        TaskView::Require { .. } | TaskView::Run { .. } | TaskView::Try { .. } => reply is Ran,
        TaskView::Write { .. } => reply is Written || reply is NotWritten,
        TaskView::Spawn { .. } => reply is Spawned || reply is NotSpawned,
        TaskView::Log { .. } => reply is Logged,
    }
}

/// Why `task` failed, if `reply` says that it did.
pub open spec fn failure_of(task: TaskView, reply: Reply) -> Option<Seq<char>> {
    match (task, reply) {
        (TaskView::Require { interface }, Reply::Ran { captured }) => if net::succeeded(captured) {
            None
        } else {
            Some(net::missing_interface(interface))
        },
        (TaskView::Run { command }, Reply::Ran { captured }) => match net::output_of(
            command,
            captured,
        ) {
            Ok(_) => None,
            Err(err) => Some(err),
        },
        (TaskView::Write { path, .. }, Reply::NotWritten { err }) => Some(
            "writing "@ + path + ": "@ + err@,
        ),
        (TaskView::Spawn { name, command }, Reply::NotSpawned { err }) => Some(
            "could not start "@ + name + " (is `"@ + command.program + "` installed?): "@ + err@,
        ),
        _ => None,
    }
}

/// What is logged of `task` once `reply` is there.
pub open spec fn notices_of(task: TaskView, reply: Reply) -> Seq<Seq<char>> {
    match (task, reply) {
        (TaskView::Try { command, complaint }, Reply::Ran { captured }) => match net::output_of(
            command,
            captured,
        ) {
            Ok(_) => Seq::empty(),
            Err(err) => seq![log::warn_line(complaint + ": "@ + err)],
        },
        (TaskView::Spawn { name, .. }, Reply::Spawned { pid }) => seq![
            log::info_line("started "@ + name + " (pid "@ + text::decimal(pid as nat) + ")"@),
        ],
        _ => Seq::empty(),
    }
}

/// How far a script has come.
#[verifier::ext_equal]
pub struct ScriptView {
    pub tasks: Seq<TaskView>,
    /// The task at hand.
    pub at: nat,
    /// Why the task at hand failed, if it did.
    pub failure: Option<Seq<char>>,
}

impl ScriptView {
    pub open spec fn done(self) -> bool {
        self.at >= self.tasks.len() || self.failure is Some
    }

    /// The task at hand: none if all are done or one has failed.
    pub open spec fn task(self) -> Option<TaskView> {
        if self.done() {
            None
        } else {
            Some(self.tasks[self.at as int])
        }
    }

    /// The script once `reply` is there.
    pub open spec fn after(self, reply: Reply) -> ScriptView {
        match self.task() {
            None => self,
            Some(task) => if !fits(task, reply) {
                self
            } else {
                match failure_of(task, reply) {
                    Some(err) => ScriptView { failure: Some(err), ..self },
                    None => ScriptView { at: self.at + 1, ..self },
                }
            },
        }
    }

    /// What is logged once `reply` is there.
    pub open spec fn notices(self, reply: Reply) -> Seq<Seq<char>> {
        match self.task() {
            None => Seq::empty(),
            Some(task) => notices_of(task, reply),
        }
    }
}

/// A script of which nothing is done yet.
pub open spec fn script_of(tasks: Seq<TaskView>) -> ScriptView {
    ScriptView { tasks, at: 0, failure: None }
}

/// Tasks that are carried out one after another.
#[derive(Debug)]
pub struct Script {
    tasks: Vec<Task>,
    at: usize,
    failure: Option<String>,
}

impl View for Script {
    type V = ScriptView;

    closed spec fn view(&self) -> ScriptView {
        ScriptView {
            tasks: task_views(self.tasks@),
            at: self.at as nat,
            failure: text::opt_view(self.failure),
        }
    }
}

/// Whether `reply` is one that `task` can get, and if it is, why the task failed, where it did.
fn check(task: &Task, reply: &Reply) -> (r: (bool, Option<String>))
    ensures
        r.0 == fits(task@, *reply),
        r.0 ==> text::opt_view(r.1) == failure_of(task@, *reply),
{
    match (task, reply) {
        (Task::Require { interface }, Reply::Ran { captured }) => {
            match net::require_interface(interface.as_str(), captured) {
                Ok(_) => (true, None),
                Err(err) => (true, Some(err)),
            }
        },
        (Task::Run { command }, Reply::Ran { captured }) => {
            match net::run(command, captured) {
                Ok(_) => (true, None),
                Err(err) => (true, Some(err)),
            }
        },
        (Task::Try { .. }, Reply::Ran { .. }) => (true, None),
        (Task::Write { .. }, Reply::Written) => (true, None),
        (Task::Write { path, .. }, Reply::NotWritten { err }) => (
            true,
            Some(text::cat4("writing ", path.as_str(), ": ", err.as_str())),
        ),
        (Task::Spawn { .. }, Reply::Spawned { .. }) => (true, None),
        (Task::Spawn { name, command }, Reply::NotSpawned { err }) => (
            true,
            Some(
                text::cat6(
                    "could not start ",
                    name.as_str(),
                    " (is `",
                    command.program.as_str(),
                    "` installed?): ",
                    err.as_str(),
                ),
            ),
        ),
        (Task::Log { .. }, Reply::Logged) => (true, None),
        _ => (false, None),
    }
}

fn describe(task: &Task, reply: &Reply) -> (r: Vec<String>)
    ensures
        text::views(r@) == notices_of(task@, *reply),
{
    let mut notices: Vec<String> = Vec::new();
    assert(text::views(notices@) =~= Seq::<Seq<char>>::empty());
    match (task, reply) {
        (Task::Try { command, complaint }, Reply::Ran { captured }) => {
            if let Err(err) = net::run(command, captured) {
                let msg: String = text::cat3(complaint.as_str(), ": ", err.as_str());
                notices.push(log::warn(msg.as_str()));
                assert(text::views(notices@) =~= notices_of(task@, *reply));
            }
        },
        (Task::Spawn { name, .. }, Reply::Spawned { pid }) => {
            let msg: String = text::cat5(
                "started ",
                name.as_str(),
                " (pid ",
                text::to_decimal(*pid as u64).as_str(),
                ")",
            );
            notices.push(log::info(msg.as_str()));
            assert(text::views(notices@) =~= notices_of(task@, *reply));
        },
        _ => {},
    }
    notices
}

impl Script {
    pub fn new(tasks: Vec<Task>) -> (r: Self)
        ensures
            r@ == script_of(task_views(tasks@)),
    {
        Script { tasks, at: 0, failure: None }
    }

    /// The task at hand: none if all are done or one has failed.
    pub fn task(&self) -> (r: Option<&Task>)
        ensures
            r is Some <==> self@.task() is Some,
            r matches Some(task) ==> self@.task() == Some(task@),
    {
        if self.failure.is_some() || self.at >= self.tasks.len() {
            return None;
        }
        Some(&self.tasks[self.at])
    }

    /// Takes note of what came of the task at hand; the result is what to log of it. A reply that
    /// the task cannot get is passed over.
    pub fn record(&mut self, reply: &Reply) -> (r: Vec<String>)
        ensures
            final(self)@ == old(self)@.after(*reply),
            text::views(r@) == old(self)@.notices(*reply),
    {
        let ghost before = self@;
        if self.failure.is_some() || self.at >= self.tasks.len() {
            let none: Vec<String> = Vec::new();
            assert(text::views(none@) =~= Seq::<Seq<char>>::empty());
            return none;
        }
        let task: &Task = &self.tasks[self.at];
        assert(before.tasks[before.at as int] == task@);
        let notices: Vec<String> = describe(task, reply);
        let (fitting, failure): (bool, Option<String>) = check(task, reply);
        if fitting {
            match failure {
                Some(err) => {
                    self.failure = Some(err);
                },
                None => {
                    self.at = self.at + 1;
                },
            }
        }
        notices
    }

    /// Whether all tasks are done: `None` while that is open.
    pub fn outcome(&self) -> (r: Option<Result<(), String>>)
        ensures
            r is None <==> !self@.done(),
            r matches Some(Ok(_)) ==> self@.failure is None && self@.at >= self@.tasks.len(),
            r matches Some(Err(err)) ==> self@.failure == Some(err@),
    {
        match &self.failure {
            Some(err) => Some(Err(err.clone())),
            None => if self.at >= self.tasks.len() {
                Some(Ok(()))
            } else {
                None
            },
        }
    }
}

/// A script whose task has failed does nothing more.
pub proof fn a_failed_script_stops(script: ScriptView, reply: Reply)
    requires
        script.failure is Some,
    ensures
        script.task() is None,
        script.after(reply) == script,
        script.notices(reply) == Seq::<Seq<char>>::empty(),
{
}

/// A script goes on to the next task if and only if the one at hand got a reply and did not fail,
/// and leaves none out.
pub proof fn a_script_goes_on_after_success(script: ScriptView, reply: Reply)
    requires
        script.task() is Some,
    ensures
        script.after(reply).at == script.at + 1 <==> fits(script.task()->0, reply) && failure_of(
            script.task()->0,
            reply,
        ) is None,
        script.after(reply).at == script.at || script.after(reply).at == script.at + 1,
        script.after(reply).tasks == script.tasks,
{
}

/// A script starts with its first task, and has a task at hand until the last one is done, unless
/// one fails.
pub proof fn a_script_runs_from_its_first_task_to_its_last(
    tasks: Seq<TaskView>,
    script: ScriptView,
    reply: Reply,
)
    ensures
        tasks.len() > 0 ==> script_of(tasks).task() == Some(tasks[0]),
        tasks.len() == 0 ==> script_of(tasks).done(),
        script.failure is None && script.at < script.tasks.len() ==> script.task() == Some(
            script.tasks[script.at as int],
        ),
        script.at >= script.tasks.len() ==> script.task() is None && script.after(reply) == script,
        script.task() is None <==> script.done(),
        script.after(reply).failure is Some && script.failure is None ==> script.after(reply).at
            == script.at,
{
}

} // verus!
