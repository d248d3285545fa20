//! Fallback access point: hostapd for the radio, dnsmasq for DHCP.

use vstd::prelude::*;
use vstd::string::*;

use crate::command::{self, Command, CommandView};
use crate::config;
use crate::log;
use crate::text;
use crate::wifi::config_gen::{
    self, render_dnsmasq_conf, render_hostapd_conf, ApConfig, ApConfigView, ApSecurity,
};
use crate::wifi::ipv4;
use crate::wifi::net;
use crate::wifi::script::{self, Script, Task, TaskView};

verus! {

/// What is known of a running fallback AP.
#[derive(Debug, Clone, Copy, PartialEq, Eq)]
pub struct ApSession {
    pub hostapd_running: bool,
    pub dnsmasq_running: bool,
}

impl ApSession {
    /// Both daemons still alive. A dead hostapd means the AP is gone even though we think we are
    /// in AP mode.
    pub fn is_healthy(&self) -> (r: bool)
        ensures
            r == (self.hostapd_running && self.dnsmasq_running),
    {
        self.hostapd_running && self.dnsmasq_running
    }
}

/// dnsmasq's arguments: the configuration's path is attached with an equals sign.
pub open spec fn dnsmasq_args_of(conf: Seq<char>) -> Seq<Seq<char>> {
    seq!["--keep-in-foreground"@, "--conf-file="@ + conf]
}

pub fn dnsmasq_args(conf: &str) -> (r: Vec<String>)
    ensures
        text::views(r@) == dnsmasq_args_of(conf@),
{
    let file: String = text::cat2("--conf-file=", conf);
    let r: Vec<String> = command::strings(&["--keep-in-foreground", file.as_str()]);
    assert(text::views(r@) =~= dnsmasq_args_of(conf@));
    r
}

/// The AP's own address, with the width of its netmask.
pub open spec fn ap_address(config: ApConfigView) -> Seq<char> {
    ipv4::dotted(config.address) + "/"@ + text::decimal(config.netmask_cidr as nat)
}

pub open spec fn security_of(config: ApConfigView) -> ApSecurity {
    if config.psk is Some {
        ApSecurity::Wpa2
    } else {
        ApSecurity::Open
    }
}

/// What is logged of an AP that is about to start.
pub open spec fn ap_report(config: ApConfigView) -> Seq<Seq<char>> {
    seq![
        log::info_line("starting fallback AP:"@),
        log::info_line("  interface: "@ + config.interface),
        log::info_line("  ssid:      "@ + config.ssid),
        log::info_line("  security:  "@ + security_of(config).text()),
        log::info_line("  address:   "@ + ap_address(config)),
        log::info_line(
            "  dhcp:      "@ + ipv4::dotted(config.dhcp_range_start) + " - "@ + ipv4::dotted(
                config.dhcp_range_end,
            ),
        ),
    ]
}

fn ap_lines(config: &ApConfig) -> (r: Vec<String>)
    ensures
        text::views(r@) == ap_report(config@),
{
    let address: String = text::cat3(
        config.address.to_string().as_str(),
        "/",
        text::to_decimal(config.netmask_cidr as u64).as_str(),
    );
    let mut lines: Vec<String> = Vec::new();
    lines.push(log::info("starting fallback AP:"));
    lines.push(log::info(text::cat2("  interface: ", config.interface.as_str()).as_str()));
    lines.push(log::info(text::cat2("  ssid:      ", config.ssid.as_str()).as_str()));
    lines.push(
        log::info(text::cat2("  security:  ", config.security().to_string().as_str()).as_str()),
    );
    lines.push(log::info(text::cat2("  address:   ", address.as_str()).as_str()));
    lines.push(
        log::info(
            text::cat4(
                "  dhcp:      ",
                config.dhcp_range_start.to_string().as_str(),
                " - ",
                config.dhcp_range_end.to_string().as_str(),
            ).as_str(),
        ),
    );
    assert(text::views(lines@) =~= ap_report(config@));
    lines
}

/// What has to be done to start the AP. dnsmasq comes first: if hostapd comes up and a client
/// associates before DHCP is listening, that client waits out a lease timeout for no reason.
pub open spec fn start_tasks(run_dir: Seq<char>, config: ApConfigView) -> Seq<TaskView> {
    let hostapd_conf = config::path_below(run_dir, "hostapd.conf"@);
    let dnsmasq_conf = config::path_below(run_dir, "dnsmasq.conf"@);
    seq![
        TaskView::Require { interface: config.interface },
        TaskView::Write {
            path: hostapd_conf,
            contents: text::unlines(config_gen::hostapd_lines(config)),
        },
        TaskView::Write {
            path: dnsmasq_conf,
            contents: text::unlines(config_gen::dnsmasq_lines(config)),
        },
        TaskView::Run { command: net::flush_command(config.interface) },
        TaskView::Run { command: net::address_command(config.interface, ap_address(config)) },
        TaskView::Run { command: net::link_command(config.interface, "up"@) },
        TaskView::Log { lines: ap_report(config) },
        TaskView::Spawn {
            name: "dnsmasq"@,
            command: CommandView { program: "dnsmasq"@, args: dnsmasq_args_of(dnsmasq_conf) },
        },
        TaskView::Spawn {
            name: "hostapd"@,
            command: CommandView { program: "hostapd"@, args: seq![hostapd_conf] },
        },
    ]
}

/// What has to be done to generate the daemon configs, configure the interface, and start hostapd
/// and dnsmasq.
pub fn start(run_dir: &str, config: &ApConfig) -> (r: Script)
    ensures
        r@ == script::script_of(start_tasks(run_dir@, config@)),
{
    let interface: &str = config.interface.as_str();
    let hostapd_conf: String = config::join_path(run_dir, "hostapd.conf");
    let dnsmasq_conf: String = config::join_path(run_dir, "dnsmasq.conf");
    let address: String = text::cat3(
        config.address.to_string().as_str(),
        "/",
        text::to_decimal(config.netmask_cidr as u64).as_str(),
    );
    let dnsmasq = Command {
        program: "dnsmasq".to_owned(),
        args: dnsmasq_args(dnsmasq_conf.as_str()),
    };
    let hostapd: Command = command::command("hostapd", &[hostapd_conf.as_str()]);
    assert(hostapd@.args =~= seq![hostapd_conf@]);
    let mut tasks: Vec<Task> = Vec::new();
    tasks.push(Task::Require { interface: interface.to_owned() });
    tasks.push(Task::Write { path: hostapd_conf, contents: render_hostapd_conf(config) });
    tasks.push(Task::Write { path: dnsmasq_conf, contents: render_dnsmasq_conf(config) });
    tasks.push(Task::Run { command: net::flush_addresses(interface) });
    tasks.push(Task::Run { command: net::add_address(interface, address.as_str()) });
    tasks.push(Task::Run { command: net::link_up(interface) });
    tasks.push(Task::Log { lines: ap_lines(config) });
    tasks.push(Task::Spawn { name: "dnsmasq".to_owned(), command: dnsmasq });
    tasks.push(Task::Spawn { name: "hostapd".to_owned(), command: hostapd });
    assert(script::task_views(tasks@) =~= start_tasks(run_dir@, config@));
    Script::new(tasks)
}

/// The command that takes down what is left of an AP whose daemons are stopped.
pub fn teardown(interface: &str) -> (r: Command)
    ensures
        r@ == net::flush_command(interface@),
{
    net::flush_addresses(interface)
}

/// No daemon is started before both configurations are written, and hostapd is the last.
pub proof fn daemons_start_last(run_dir: Seq<char>, config: ApConfigView, i: int)
    requires
        0 <= i < start_tasks(run_dir, config).len(),
    ensures
        start_tasks(run_dir, config)[i] is Spawn ==> forall|j: int|
            0 <= j < start_tasks(run_dir, config).len() && !(#[trigger] start_tasks(
                run_dir,
                config,
            )[j] is Spawn) ==> j < i,
        start_tasks(run_dir, config).last() matches TaskView::Spawn { name, .. } && name
            == "hostapd"@,
{
}

} // verus!
