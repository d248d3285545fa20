//! WiFi: client mode, the fallback access point, and the supervisor that switches between them.

pub mod ap;
pub mod client;
pub mod config_gen;
pub mod config_laws;
pub mod daemon;
pub mod hook;
pub mod ipv4;
pub mod laws;
pub mod net;
pub mod script;
pub mod supervise;

use vstd::prelude::*;
use vstd::string::*;

use crate::command::{Command, CommandView};
use crate::config::{self, Paths, SuperviseTuning};
use crate::log;
use crate::systemd;
use crate::text;
use crate::wifi::config_gen::ApSecurity;
use crate::wifi::net::InterfaceMode;
use crate::wifi::script::{Script, Task, TaskView};
use crate::wifi::supervise::{Effect, Supervisor};

verus! {

/// Backs `robotctl wifi start`: the supervisor, tuned by the environment, and what it does first.
pub fn start(paths: &Paths, env: &Vec<(String, String)>) -> (r: (Supervisor, Vec<Effect>))
    ensures
        supervise::step_view(r.0@, r.1@) == supervise::supervisor_of(
            paths@.wifi_interface,
            config::tuning_of(config::vars(env@)),
        ),
{
    supervise::run(paths, &SuperviseTuning::from_env(env))
}

/// Whether a unit in `state` is one to stop.
pub open spec fn is_up(state: Seq<char>) -> bool {
    state == "active"@ || state == "activating"@
}

/// Backs `robotctl wifi stop`: what to log, and the command that stops the supervisor, where it
/// is running.
pub fn stop(paths: &Paths, state: &str) -> (r: (String, Option<Command>))
    ensures
        r.1 is Some <==> is_up(state@),
        r.1 matches Some(command) ==> {
            &&& command@ == (CommandView {
                program: "systemctl"@,
                args: seq!["stop"@, paths@.wifi_unit],
            })
            &&& r.0@ == log::info_line("stopping "@ + paths@.wifi_unit)
        },
        r.1 is None ==> r.0@ == log::info_line(
            paths@.wifi_unit + " is "@ + state@
                + "; if `robotctl wifi start` is running by hand, stop it there"@,
        ),
{
    let unit: &str = paths.wifi_unit();
    if text::same(state, "active") || text::same(state, "activating") {
        let notice: String = log::info(text::cat2("stopping ", unit).as_str());
        return (notice, Some(systemd::stop(unit)));
    }
    // A supervisor started by hand is not something this can reach: it is not in a cgroup
    // systemd will tear down, and hunting for `wpa_supplicant` by name risks killing a
    // process that has nothing to do with this robot's control interface.
    let msg: String = text::cat4(
        unit,
        " is ",
        state,
        "; if `robotctl wifi start` is running by hand, stop it there",
    );
    (log::info(msg.as_str()), None)
}

/// What has to be done to put the interface down.
pub open spec fn teardown_tasks(interface: Seq<char>, exists: bool) -> Seq<TaskView> {
    if exists {
        seq![
            TaskView::Run { command: net::flush_command(interface) },
            TaskView::Run { command: net::link_command(interface, "down"@) },
            TaskView::Log { lines: seq![log::info_line(interface + " is down"@)] },
        ]
    } else {
        seq![
            TaskView::Log {
                lines: seq![
                    log::info_line(interface + " does not exist; nothing to tear down"@),
                ],
            },
        ]
    }
}

/// What has to be done to put the interface down, once the supervisor is stopped.
pub fn stop_interface(paths: &Paths, exists: bool) -> (r: Script)
    ensures
        r@ == script::script_of(teardown_tasks(paths@.wifi_interface, exists)),
{
    let interface: &str = paths.wifi_interface();
    let mut tasks: Vec<Task> = Vec::new();
    let mut lines: Vec<String> = Vec::new();
    if exists {
        tasks.push(Task::Run { command: net::flush_addresses(interface) });
        tasks.push(Task::Run { command: net::link_down(interface) });
        lines.push(log::info(text::cat2(interface, " is down").as_str()));
        assert(text::views(lines@) =~= seq![log::info_line(interface@ + " is down"@)]);
    } else {
        lines.push(
            log::info(text::cat2(interface, " does not exist; nothing to tear down").as_str()),
        );
        assert(text::views(lines@) =~= seq![
            log::info_line(interface@ + " does not exist; nothing to tear down"@),
        ]);
    }
    tasks.push(Task::Log { lines });
    assert(script::task_views(tasks@) =~= teardown_tasks(interface@, exists));
    Script::new(tasks)
}

/// What is shown of an interface's mode.
pub open spec fn mode_text(mode: Option<InterfaceMode>) -> Seq<char> {
    match mode {
        Some(InterfaceMode::Client) => "client"@,
        Some(InterfaceMode::AccessPoint) => "fallback AP"@,
        Some(InterfaceMode::Other) => "other (not driven by robotctl)"@,
        None => "unknown (is `iw` installed?)"@,
    }
}

fn describe_mode(mode: Option<InterfaceMode>) -> (r: &'static str)
    ensures
        r@ == mode_text(mode),
{
    match mode {
        Some(InterfaceMode::Client) => "client",
        Some(InterfaceMode::AccessPoint) => "fallback AP",
        Some(InterfaceMode::Other) => "other (not driven by robotctl)",
        None => "unknown (is `iw` installed?)",
    }
}

/// The lines that open the report on the interface.
pub open spec fn heading_lines(
    interface: Seq<char>,
    exists: bool,
    mode: Option<InterfaceMode>,
) -> Seq<Seq<char>> {
    if exists {
        seq!["interface:     "@ + interface, "mode:          "@ + mode_text(mode)]
    } else {
        seq![
            "interface:     "@ + interface,
            "state:         interface does not exist"@,
            "               (set ROBOTCTL_WIFI_INTERFACE to the correct NIC)"@,
        ]
    }
}

/// The opening of the report on the interface: all of it if there is no such interface.
pub fn status_heading(paths: &Paths, exists: bool, mode: Option<InterfaceMode>) -> (r: String)
    ensures
        r@ == text::unlines(heading_lines(paths@.wifi_interface, exists, mode)),
{
    let interface: &str = paths.wifi_interface();
    let mut lines: Vec<String> = Vec::new();
    lines.push(text::cat2("interface:     ", interface));
    if exists {
        lines.push(text::cat2("mode:          ", describe_mode(mode)));
    } else {
        lines.push("state:         interface does not exist".to_owned());
        lines.push("               (set ROBOTCTL_WIFI_INTERFACE to the correct NIC)".to_owned());
    }
    assert(text::views(lines@) =~= heading_lines(interface@, exists, mode));
    text::join_lines(&lines)
}

/// What `fallback-ap.conf` says of the AP that is being served.
#[derive(Debug, Clone, PartialEq, Eq)]
pub enum ApReport {
    Readable { ssid: String, security: ApSecurity },
    Unreadable { err: String },
}

/// What is known of an interface that exists.
#[derive(Debug, Clone, PartialEq, Eq)]
pub struct WifiReport {
    pub mode: Option<InterfaceMode>,
    /// The network that is joined, in client mode.
    pub ssid: Option<String>,
    /// The network that is served, in AP mode.
    pub ap: Option<ApReport>,
    pub address: Option<String>,
    pub has_client_conf: bool,
}

/// The lines about the network that is joined or served.
pub open spec fn network_lines(report: WifiReport) -> Seq<Seq<char>> {
    match report.mode {
        Some(InterfaceMode::Client) => match report.ssid {
            Some(ssid) => seq!["ssid:          "@ + ssid@],
            None => seq!["ssid:          not associated"@],
        },
        Some(InterfaceMode::AccessPoint) => match report.ap {
            Some(ApReport::Readable { ssid, security }) => seq![
                "ssid:          "@ + ssid@,
                "security:      "@ + security.text(),
            ],
            Some(ApReport::Unreadable { err }) => seq![
                "ap config:     unreadable ("@ + err@ + ")"@,
            ],
            None => Seq::empty(),
        },
        _ => Seq::empty(),
    }
}

/// The lines that close the report on the interface.
pub open spec fn detail_lines(report: WifiReport, client_conf: Seq<char>) -> Seq<Seq<char>> {
    network_lines(report) + seq![
        match report.address {
            Some(address) => "address:       "@ + address@,
            None => "address:       none"@,
        },
        if report.has_client_conf {
            "client.conf:   "@ + client_conf
        } else {
            "client.conf:   "@ + client_conf + " (missing)"@
        },
    ]
}

/// The rest of the report on an interface that exists.
pub fn status_details(paths: &Paths, report: &WifiReport) -> (r: String)
    ensures
        r@ == text::unlines(detail_lines(*report, client::client_conf_of(paths@))),
{
    let conf: String = paths.wifi_client_conf();
    let mut lines: Vec<String> = Vec::new();
    match report.mode {
        Some(InterfaceMode::Client) => {
            match &report.ssid {
                Some(ssid) => lines.push(text::cat2("ssid:          ", ssid.as_str())),
                None => lines.push("ssid:          not associated".to_owned()),
            }
        },
        Some(InterfaceMode::AccessPoint) => {
            match &report.ap {
                Some(ApReport::Readable { ssid, security }) => {
                    lines.push(text::cat2("ssid:          ", ssid.as_str()));
                    lines.push(text::cat2("security:      ", security.to_string().as_str()));
                },
                Some(ApReport::Unreadable { err }) => {
                    lines.push(text::cat3("ap config:     unreadable (", err.as_str(), ")"));
                },
                None => {},
            }
        },
        _ => {},
    }
    assert(text::views(lines@) =~= network_lines(*report));
    match &report.address {
        Some(address) => lines.push(text::cat2("address:       ", address.as_str())),
        None => lines.push("address:       none".to_owned()),
    }
    if report.has_client_conf {
        lines.push(text::cat2("client.conf:   ", conf.as_str()));
    } else {
        lines.push(text::cat3("client.conf:   ", conf.as_str(), " (missing)"));
    }
    assert(text::views(lines@) =~= detail_lines(*report, conf@));
    text::join_lines(&lines)
}

/// Backs `robotctl wifi status`: the report on the interface, of which nothing more is known if it
/// does not exist.
pub fn print_status(paths: &Paths, report: Option<&WifiReport>) -> (r: String)
    ensures
        r@ == match report {
            Some(report) => text::unlines(
                heading_lines(paths@.wifi_interface, true, report.mode),
            ) + text::unlines(detail_lines(*report, client::client_conf_of(paths@))),
            None => text::unlines(heading_lines(paths@.wifi_interface, false, None)),
        },
{
    match report {
        Some(report) => text::cat2(
            status_heading(paths, true, report.mode).as_str(),
            status_details(paths, report).as_str(),
        ),
        None => status_heading(paths, false, None),
    }
}

} // verus!
