//! What the reports, the scripts and the configurations of the WiFi stack are for, stated apart
//! from how they are put together.

use vstd::prelude::*;
use vstd::string::*;

use crate::command::CommandView;
use crate::config;
use crate::text;
use crate::wifi::ap;
use crate::wifi::client;
use crate::wifi::config_gen::{self, ApConfigView, ApSecurity};
use crate::wifi::ipv4;
use crate::wifi::net::{self, Captured, InterfaceMode};
use crate::wifi::script::{self, Reply, TaskView};
use crate::wifi::{self, ApReport, WifiReport};

verus! {

/// Whether `value` is what stands under `label` in a report: on exactly one line, and nothing else
/// with it.
pub open spec fn reads(lines: Seq<Seq<char>>, label: Seq<char>, value: Seq<char>) -> bool {
    &&& exists|i: int| 0 <= i < lines.len() && #[trigger] lines[i] == label + value
    &&& forall|i: int, j: int|
        0 <= i < lines.len() && 0 <= j < lines.len() && text::has_prefix(#[trigger] lines[i], label)
            && text::has_prefix(#[trigger] lines[j], label) ==> i == j
}

/// Whether no line of a report stands under `label`.
pub open spec fn silent(lines: Seq<Seq<char>>, label: Seq<char>) -> bool {
    forall|i: int| 0 <= i < lines.len() ==> !text::has_prefix(#[trigger] lines[i], label)
}

/// A report says one thing under a label.
pub proof fn a_report_reads_one_way(
    lines: Seq<Seq<char>>,
    label: Seq<char>,
    a: Seq<char>,
    b: Seq<char>,
)
    requires
        reads(lines, label, a),
        reads(lines, label, b),
    ensures
        a == b,
{
    let i = choose|i: int| 0 <= i < lines.len() && #[trigger] lines[i] == label + a;
    let j = choose|j: int| 0 <= j < lines.len() && #[trigger] lines[j] == label + b;
    assert((label + a).subrange(0, label.len() as int) =~= label);
    assert((label + b).subrange(0, label.len() as int) =~= label);
    assert(text::has_prefix(lines[i], label));
    assert(text::has_prefix(lines[j], label));
    assert(i == j);
    assert(a =~= (label + a).skip(label.len() as int));
    assert(b =~= (label + b).skip(label.len() as int));
}

pub(crate) proof fn lemma_other_label(label: Seq<char>, line: Seq<char>, k: int)
    requires
        0 <= k < label.len(),
        k >= line.len() || line[k] != label[k],
    ensures
        !text::has_prefix(line, label),
{
    if text::has_prefix(line, label) {
        assert(line.subrange(0, label.len() as int)[k] == line[k]);
    }
}

/// In client mode the report says under `ssid:` which network is joined, and `not associated` if
/// none is.
pub proof fn client_status_names_the_joined_network(report: WifiReport, conf: Seq<char>)
    requires
        report.mode == Some(InterfaceMode::Client),
    ensures
        reads(
            wifi::detail_lines(report, conf),
            "ssid:          "@,
            match report.ssid {
                Some(ssid) => ssid@,
                None => "not associated"@,
            },
        ),
        silent(wifi::detail_lines(report, conf), "security:"@),
        silent(wifi::detail_lines(report, conf), "ap config:"@),
{
    lemma_detail_labels(report, conf);
    let lines = wifi::detail_lines(report, conf);
    reveal_strlit("ssid:          ");
    reveal_strlit("not associated");
    reveal_strlit("ssid:          not associated");
    reveal_strlit("security:");
    reveal_strlit("ap config:");
    assert("ssid:          not associated"@ =~= "ssid:          "@ + "not associated"@);
    assert(lines.len() == 3);
    assert forall|i: int| 0 <= i < lines.len() implies !text::has_prefix(
        #[trigger] lines[i],
        "security:"@,
    ) && !text::has_prefix(lines[i], "ap config:"@) by {
        if i == 0 {
            assert(lines[0][1] == 's');
            lemma_other_label("security:"@, lines[0], 1);
            lemma_other_label("ap config:"@, lines[0], 0);
        } else {
            lemma_tail_label(report, conf, "security:"@);
            lemma_tail_label(report, conf, "ap config:"@);
        }
    }
    lemma_tail_label(report, conf, "ssid:          "@);
    assert(lines[0] == "ssid:          "@ + match report.ssid {
        Some(ssid) => ssid@,
        None => "not associated"@,
    });
}

proof fn lemma_detail_labels(report: WifiReport, conf: Seq<char>)
    ensures
        ({
            let lines = wifi::detail_lines(report, conf);
            let n = lines.len() as int;
            &&& n >= 2
            &&& lines[n - 2].len() > 2 && lines[n - 2][0] == 'a' && lines[n - 2][1] == 'd'
            &&& lines[n - 1].len() > 2 && lines[n - 1][0] == 'c' && lines[n - 1][1] == 'l'
        }),
{
    reveal_strlit("address:       ");
    reveal_strlit("address:       none");
    reveal_strlit("client.conf:   ");
}

/// The last two lines of the report are about the address and the credentials.
proof fn lemma_tail_label(report: WifiReport, conf: Seq<char>, label: Seq<char>)
    requires
        label.len() >= 2,
        label[0] == 's' || (label[0] == 'a' && label[1] == 'p'),
    ensures
        ({
            let lines = wifi::detail_lines(report, conf);
            let n = lines.len() as int;
            !text::has_prefix(lines[n - 2], label) && !text::has_prefix(lines[n - 1], label)
        }),
{
    lemma_detail_labels(report, conf);
    let lines = wifi::detail_lines(report, conf);
    let n = lines.len() as int;
    lemma_other_label(
        label,
        lines[n - 2],
        if label[0] == 's' {
            0
        } else {
            1
        },
    );
    lemma_other_label(label, lines[n - 1], 0);
}

/// Reports on two different networks differ.
pub proof fn client_status_tells_networks_apart(
    a: WifiReport,
    b: WifiReport,
    x: String,
    y: String,
    conf: Seq<char>,
)
    requires
        a.mode == Some(InterfaceMode::Client),
        b.mode == Some(InterfaceMode::Client),
        a.ssid == Some(x),
        b.ssid == Some(y),
        x@ != y@,
    ensures
        wifi::detail_lines(a, conf) != wifi::detail_lines(b, conf),
{
    client_status_names_the_joined_network(a, conf);
    client_status_names_the_joined_network(b, conf);
    if wifi::detail_lines(a, conf) == wifi::detail_lines(b, conf) {
        a_report_reads_one_way(wifi::detail_lines(a, conf), "ssid:          "@, x@, y@);
    }
}

/// In AP mode the report says under `ssid:` and `security:` what is served, where
/// `fallback-ap.conf` can be read, and else why it cannot.
pub proof fn ap_status_names_the_served_network(report: WifiReport, conf: Seq<char>)
    requires
        report.mode == Some(InterfaceMode::AccessPoint),
    ensures
        match report.ap {
            Some(ApReport::Readable { ssid, security }) => {
                &&& reads(wifi::detail_lines(report, conf), "ssid:          "@, ssid@)
                &&& reads(
                    wifi::detail_lines(report, conf),
                    "security:      "@,
                    match security {
                        ApSecurity::Open => "open (no passphrase)"@,
                        ApSecurity::Wpa2 => "WPA2"@,
                    },
                )
            },
            Some(ApReport::Unreadable { err }) => {
                &&& silent(wifi::detail_lines(report, conf), "ssid:"@)
                &&& reads(
                    wifi::detail_lines(report, conf),
                    "ap config:     "@,
                    "unreadable ("@ + err@ + ")"@,
                )
            },
            None => silent(wifi::detail_lines(report, conf), "ssid:"@),
        },
{
    lemma_detail_labels(report, conf);
    let lines = wifi::detail_lines(report, conf);
    reveal_strlit("ssid:          ");
    reveal_strlit("security:      ");
    reveal_strlit("ssid:");
    reveal_strlit("ap config:     ");
    reveal_strlit("ap config:     unreadable (");
    reveal_strlit("unreadable (");
    lemma_tail_label(report, conf, "ssid:          "@);
    lemma_tail_label(report, conf, "security:      "@);
    lemma_tail_label(report, conf, "ssid:"@);
    lemma_tail_label(report, conf, "ap config:     "@);
    match report.ap {
        Some(ApReport::Readable { ssid, security }) => {
            assert(lines.len() == 4);
            assert(lines[0] == "ssid:          "@ + ssid@);
            assert(lines[1] == "security:      "@ + security.text());
            assert(lines[0][1] == 's');
            assert(lines[1][1] == 'e');
            lemma_other_label("ssid:          "@, lines[1], 1);
            lemma_other_label("security:      "@, lines[0], 1);
        },
        Some(ApReport::Unreadable { err }) => {
            assert(lines.len() == 3);
            assert(lines[0] =~= "ap config:     "@ + ("unreadable ("@ + err@ + ")"@));
            assert(lines[0][0] == 'a');
            lemma_other_label("ssid:"@, lines[0], 0);
        },
        None => {
            assert(lines.len() == 2);
        },
    }
}

/// In every mode the report says under `address:` which address the interface has, and under
/// `client.conf:` where the credentials stand, and if they are missing.
pub proof fn status_names_the_address_and_the_credentials(report: WifiReport, conf: Seq<char>)
    ensures
        reads(
            wifi::detail_lines(report, conf),
            "address:       "@,
            match report.address {
                Some(address) => address@,
                None => "none"@,
            },
        ),
        reads(
            wifi::detail_lines(report, conf),
            "client.conf:   "@,
            if report.has_client_conf {
                conf
            } else {
                conf + " (missing)"@
            },
        ),
{
    let lines = wifi::detail_lines(report, conf);
    let n = lines.len() as int;
    lemma_detail_labels(report, conf);
    reveal_strlit("address:       ");
    reveal_strlit("address:       none");
    reveal_strlit("none");
    reveal_strlit("client.conf:   ");
    reveal_strlit("ssid:          ");
    reveal_strlit("ssid:          not associated");
    reveal_strlit("security:      ");
    reveal_strlit("ap config:     unreadable (");
    assert("address:       none"@ =~= "address:       "@ + "none"@);
    assert(lines[n - 1] =~= "client.conf:   "@ + if report.has_client_conf {
        conf
    } else {
        conf + " (missing)"@
    });
    assert forall|i: int| 0 <= i < n - 2 implies !text::has_prefix(
        #[trigger] lines[i],
        "address:       "@,
    ) && !text::has_prefix(lines[i], "client.conf:   "@) by {
        assert(lines[i] == wifi::network_lines(report)[i]);
        assert(lines[i][0] == 's' || (lines[i][0] == 'a' && lines[i][1] == 'p'));
        lemma_other_label(
            "address:       "@,
            lines[i],
            if lines[i][0] == 's' {
                0
            } else {
                1
            },
        );
        lemma_other_label("client.conf:   "@, lines[i], 0);
    }
    lemma_other_label("address:       "@, lines[n - 1], 0);
    lemma_other_label("client.conf:   "@, lines[n - 2], 0);
}

/// The opening of the report names the interface, and what it does if it exists.
pub proof fn status_opens_with_the_interface_and_its_mode(
    interface: Seq<char>,
    exists: bool,
    mode: Option<InterfaceMode>,
)
    ensures
        reads(wifi::heading_lines(interface, exists, mode), "interface:     "@, interface),
        exists ==> reads(
            wifi::heading_lines(interface, exists, mode),
            "mode:          "@,
            match mode {
                Some(InterfaceMode::Client) => "client"@,
                Some(InterfaceMode::AccessPoint) => "fallback AP"@,
                Some(InterfaceMode::Other) => "other (not driven by robotctl)"@,
                None => "unknown (is `iw` installed?)"@,
            },
        ),
        !exists ==> {
            &&& silent(wifi::heading_lines(interface, exists, mode), "mode:"@)
            &&& reads(
                wifi::heading_lines(interface, exists, mode),
                "state:         "@,
                "interface does not exist"@,
            )
        },
{
    let lines = wifi::heading_lines(interface, exists, mode);
    reveal_strlit("interface:     ");
    reveal_strlit("mode:          ");
    reveal_strlit("mode:");
    reveal_strlit("state:         ");
    reveal_strlit("interface does not exist");
    reveal_strlit("state:         interface does not exist");
    reveal_strlit("               (set ROBOTCTL_WIFI_INTERFACE to the correct NIC)");
    assert("state:         interface does not exist"@ =~= "state:         "@
        + "interface does not exist"@);
    assert(lines[0] == "interface:     "@ + interface);
    assert(lines[0][0] == 'i');
    assert(lines[1][0] == if exists {
        'm'
    } else {
        's'
    });
    lemma_other_label("interface:     "@, lines[1], 0);
    lemma_other_label("mode:          "@, lines[0], 0);
    lemma_other_label("mode:"@, lines[0], 0);
    lemma_other_label("state:         "@, lines[0], 0);
    if !exists {
        assert(lines[2][0] == ' ');
        lemma_other_label("mode:"@, lines[1], 0);
        lemma_other_label("mode:"@, lines[2], 0);
        lemma_other_label("interface:     "@, lines[2], 0);
        lemma_other_label("state:         "@, lines[2], 0);
    }
}

/// A supervisor that runs, or is about to, is stopped; nothing else is.
pub proof fn only_what_runs_is_stopped(state: Seq<char>)
    ensures
        wifi::is_up(state) <==> state == "active"@ || state == "activating"@,
{
}

/// The interface is put down, after its addresses are taken off, if and only if it exists.
pub proof fn an_existing_interface_is_put_down(interface: Seq<char>, exists: bool)
    ensures
        ({
            let tasks = wifi::teardown_tasks(interface, exists);
            if exists {
                &&& tasks.len() == 3
                &&& runs(tasks[0], "ip"@, seq!["addr"@, "flush"@, "dev"@, interface])
                &&& runs(tasks[1], "ip"@, seq!["link"@, "set"@, interface, "down"@])
                &&& tasks[2] is Log
            } else {
                tasks.len() == 1 && tasks[0] is Log
            }
        }),
{
}

/// Whether `task` runs `program` with `args`, and fails if that fails.
pub open spec fn runs(task: TaskView, program: Seq<char>, args: Seq<Seq<char>>) -> bool {
    task matches TaskView::Run { command } && command == (CommandView { program, args })
}

/// A task fails if and only if what it does fails: a command that exits badly or cannot be run, a
/// file that is not written, a daemon that is not started. One that is only tried never fails.
pub proof fn tasks_fail_as_their_work_does(task: TaskView, reply: Reply)
    requires
        script::fits(task, reply),
    ensures
        script::failure_of(task, reply) is Some <==> match (task, reply) {
            (TaskView::Require { .. }, Reply::Ran { captured }) => !went_well(captured),
            (TaskView::Run { .. }, Reply::Ran { captured }) => !went_well(captured),
            (TaskView::Write { .. }, reply) => reply is NotWritten,
            (TaskView::Spawn { .. }, reply) => reply is NotSpawned,
            _ => false,
        },
{
}

/// Whether a command ran and exited with success.
pub open spec fn went_well(captured: Captured) -> bool {
    match captured {
        Captured::Exited { success, .. } => success,
        Captured::NotRun { .. } => false,
    }
}

/// What can be told of a task is what it can come to: the outcome of its command, of its file, of
/// its daemon, or of its lines.
pub proof fn replies_fit_their_tasks(task: TaskView, reply: Reply)
    ensures
        script::fits(task, reply) <==> match reply {
            Reply::Ran { .. } => task is Require || task is Run || task is Try,
            Reply::Written => task is Write,
            Reply::NotWritten { .. } => task is Write,
            Reply::Spawned { .. } => task is Spawn,
            Reply::NotSpawned { .. } => task is Spawn,
            Reply::Logged => task is Log,
        },
{
}

/// What is logged of a task: a started daemon, and the complaint about a command that was only
/// tried and did not go well.
pub proof fn tasks_log_what_is_worth_it(task: TaskView, reply: Reply)
    requires
        script::fits(task, reply),
    ensures
        script::notices_of(task, reply).len() == if reply is Spawned || (task is Try
            && !went_well(reply->captured)) {
            1nat
        } else {
            0nat
        },
{
}

/// What a command printed is handed on if it went well, and only then.
pub proof fn output_is_what_was_printed(command: CommandView, captured: Captured)
    ensures
        net::output_of(command, captured) is Ok <==> went_well(captured),
        captured matches Captured::Exited { success: true, stdout, .. } ==> net::output_of(
            command,
            captured,
        ) == Ok::<Seq<char>, Seq<char>>(stdout@),
        net::succeeded(captured) == went_well(captured),
{
}

/// What is found behind a prefix stands on the first line that starts with it.
pub proof fn the_first_line_counts(lines: Seq<Seq<char>>, prefix: Seq<char>)
    ensures
        match net::first_after(lines, prefix) {
            Some(rest) => exists|i: int|
                0 <= i < lines.len() && text::trimmed(#[trigger] lines[i]) == prefix + rest
                    && forall|j: int|
                    0 <= j < i ==> !text::has_prefix(text::trimmed(#[trigger] lines[j]), prefix),
            None => forall|j: int|
                0 <= j < lines.len() ==> !text::has_prefix(
                    text::trimmed(#[trigger] lines[j]),
                    prefix,
                ),
        },
    decreases lines.len(),
{
    if lines.len() > 0 {
        let line = text::trimmed(lines[0]);
        if text::has_prefix(line, prefix) {
            assert(line =~= prefix + line.skip(prefix.len() as int));
            assert(lines[0] == lines[0]);
        } else {
            let rest = lines.drop_first();
            the_first_line_counts(rest, prefix);
            assert forall|j: int| 1 <= j < lines.len() implies lines[j] == rest[j - 1] by {}
            if let Some(found) = net::first_after(rest, prefix) {
                let k = choose|k: int|
                    0 <= k < rest.len() && text::trimmed(#[trigger] rest[k]) == prefix + found
                        && forall|j: int|
                        0 <= j < k ==> !text::has_prefix(text::trimmed(#[trigger] rest[j]), prefix);
                assert(text::trimmed(lines[k + 1]) == prefix + found);
                assert forall|j: int| 0 <= j < k + 1 implies !text::has_prefix(
                    text::trimmed(#[trigger] lines[j]),
                    prefix,
                ) by {
                    if j > 0 {
                        assert(lines[j] == rest[j - 1]);
                    }
                }
            } else {
                assert forall|j: int| 0 <= j < lines.len() implies !text::has_prefix(
                    text::trimmed(#[trigger] lines[j]),
                    prefix,
                ) by {
                    if j > 0 {
                        assert(lines[j] == rest[j - 1]);
                    }
                }
            }
        }
    }
}

/// The address, the mode and the network are read from the line that starts with `inet`, `type`
/// and `SSID:`.
pub proof fn the_interface_is_read_from_its_lines(text: Seq<char>)
    ensures
        net::inet_address_of(text) == match net::first_after(text::lines_of(text), "inet "@) {
            Some(rest) => if text::words_of(rest).len() > 0 {
                Some(text::words_of(rest)[0])
            } else {
                None
            },
            None => None,
        },
        net::iw_link_ssid_of(text) == match net::first_after(text::lines_of(text), "SSID: "@) {
            Some(rest) => if text::trimmed(rest).len() > 0 {
                Some(text::trimmed(rest))
            } else {
                None
            },
            None => None,
        },
        net::iw_type_of(text) is Some <==> net::first_after(text::lines_of(text), "type "@) is Some,
        net::iw_type_of(text) == Some(InterfaceMode::AccessPoint) <==> (net::first_after(
            text::lines_of(text),
            "type "@,
        ) matches Some(rest) && text::trimmed(rest) == "AP"@),
        net::iw_type_of(text) == Some(InterfaceMode::Client) <==> (net::first_after(
            text::lines_of(text),
            "type "@,
        ) matches Some(rest) && (text::trimmed(rest) == "managed"@ || text::trimmed(rest)
            == "station"@)),
{
    reveal_strlit("AP");
    assert("AP"@.len() == 2);
    reveal_strlit("managed");
    reveal_strlit("station");
    assert("managed"@.len() == 7);
    assert("station"@.len() == 7);
}

/// Connecting works on the interface and the credentials it is given: they are what the interface
/// commands, wpa_supplicant and udhcpc are told, in this order.
pub proof fn connecting_prepares_associates_and_asks_for_an_address(
    interface: Seq<char>,
    conf: Seq<char>,
    timeout: nat,
)
    ensures
        ({
            let tasks = client::connect_tasks(interface, conf, timeout);
            &&& tasks.len() == 5
            &&& tasks[0] == (TaskView::Require { interface })
            &&& runs(tasks[1], "ip"@, seq!["addr"@, "flush"@, "dev"@, interface])
            &&& runs(tasks[2], "ip"@, seq!["link"@, "set"@, interface, "up"@])
            &&& tasks[3] matches TaskView::Spawn { command, .. } && command.program
                == "wpa_supplicant"@ && told(command.args, "-i"@, interface) && told(
                command.args,
                "-c"@,
                conf,
            )
            &&& tasks[3]->Spawn_name == "wpa_supplicant"@
            &&& tasks[4] matches TaskView::Try { command, .. } && command.program == "udhcpc"@
                && command.args.contains("-n"@) && command.args.contains("-q"@) && told(
                command.args,
                "-i"@,
                interface,
            ) && told(
                command.args,
                "-T"@,
                text::decimal(5),
            ) && exists|times: nat| #[trigger]
                told(command.args, "-t"@, text::decimal(times)) && 1 <= times && 5 * times
                    >= timeout && (timeout > 0 ==> 5 * times < timeout + 5)
        }),
{
    let tasks = client::connect_tasks(interface, conf, timeout);
    client::dhcp_attempts_fill_the_timeout(timeout);
    let supplicant = client::supplicant_command(interface, conf);
    let dhcp = client::dhcp_command(interface, timeout);
    assert(supplicant.args[0] == "-i"@ && supplicant.args[1] == interface);
    assert(supplicant.args[2] == "-c"@ && supplicant.args[3] == conf);
    assert(dhcp.args[0] == "-i"@ && dhcp.args[1] == interface);
    assert(dhcp.args[2] == "-n"@ && dhcp.args[3] == "-q"@);
    assert(dhcp.args[4] == "-T"@ && dhcp.args[5] == text::decimal(5));
    let times = client::dhcp_attempts_of(timeout);
    assert(dhcp.args[6] == "-t"@ && dhcp.args[7] == text::decimal(times));
    assert(told(dhcp.args, "-t"@, text::decimal(times)));
    assert(told(dhcp.args, "-i"@, interface));
    assert(told(dhcp.args, "-T"@, text::decimal(5)));
    assert(told(supplicant.args, "-i"@, interface));
    assert(told(supplicant.args, "-c"@, conf));
    assert(1 <= times && 5 * times >= timeout && (timeout > 0 ==> 5 * times < timeout + 5));
    assert(tasks[3]->Spawn_command == supplicant);
    assert(tasks[4]->Try_command == dhcp);
}

/// Whether `args` give `option` the value `value`.
pub open spec fn told(args: Seq<Seq<char>>, option: Seq<char>, value: Seq<char>) -> bool {
    exists|i: int| 0 <= i && i + 1 < args.len() && #[trigger] args[i] == option && args[i + 1] == value
}

/// The access point's daemons are started on the very files that were written for them, on an
/// interface that has the configured address and is up.
pub proof fn the_ap_serves_what_was_written(run_dir: Seq<char>, config: ApConfigView)
    ensures
        ({
            let tasks = ap::start_tasks(run_dir, config);
            &&& tasks.len() == 9
            &&& tasks[0] == (TaskView::Require { interface: config.interface })
            &&& runs(tasks[3], "ip"@, seq!["addr"@, "flush"@, "dev"@, config.interface])
            &&& runs(
                tasks[4],
                "ip"@,
                seq!["addr"@, "add"@, ap::ap_address(config), "dev"@, config.interface],
            )
            &&& runs(tasks[5], "ip"@, seq!["link"@, "set"@, config.interface, "up"@])
            &&& (tasks[1], tasks[8]) matches (
                TaskView::Write { path, .. },
                TaskView::Spawn { command, .. },
            ) && command == (CommandView { program: "hostapd"@, args: seq![path] })
            &&& (tasks[2], tasks[7]) matches (
                TaskView::Write { path, .. },
                TaskView::Spawn { command, .. },
            ) && command.program == "dnsmasq"@ && command.args.contains("--conf-file="@ + path)
                && command.args.contains("--keep-in-foreground"@)
            &&& tasks[1] == (TaskView::Write {
                path: config::path_below(run_dir, "hostapd.conf"@),
                contents: text::unlines(config_gen::hostapd_lines(config)),
            })
            &&& tasks[2] == (TaskView::Write {
                path: config::path_below(run_dir, "dnsmasq.conf"@),
                contents: text::unlines(config_gen::dnsmasq_lines(config)),
            })
            &&& tasks[6] is Log
            &&& tasks[7]->Spawn_name == "dnsmasq"@
            &&& tasks[8]->Spawn_name == "hostapd"@
        }),
{
    let tasks = ap::start_tasks(run_dir, config);
    let conf = config::path_below(run_dir, "dnsmasq.conf"@);
    assert(ap::dnsmasq_args_of(conf)[0] == "--keep-in-foreground"@);
    assert(ap::dnsmasq_args_of(conf)[1] == "--conf-file="@ + conf);
}

/// What is logged of the access point is what it serves: the interface, the name, how it is
/// secured, the address and the range that is leased.
pub proof fn the_ap_is_logged_as_it_is_served(config: ApConfigView)
    ensures
        ({
            let lines = ap::ap_report(config);
            &&& lines.len() == 6
            &&& lines[1] == "[INFO] "@ + ("  interface: "@ + config.interface)
            &&& lines[2] == "[INFO] "@ + ("  ssid:      "@ + config.ssid)
            &&& lines[3] == "[INFO] "@ + ("  security:  "@ + if config.psk is Some {
                "WPA2"@
            } else {
                "open (no passphrase)"@
            })
            &&& lines[4] == "[INFO] "@ + ("  address:   "@ + ap::ap_address(config))
            &&& lines[5] == "[INFO] "@ + ("  dhcp:      "@ + ipv4::dotted(config.dhcp_range_start)
                + " - "@ + ipv4::dotted(config.dhcp_range_end))
        }),
{
}

/// The access point's address reads as the configured address and the width of its netmask.
pub proof fn the_ap_address_reads_back(config: ApConfigView)
    ensures
        text::split_once_of(ap::ap_address(config), '/') == Some(
            (ipv4::dotted(config.address), text::decimal(config.netmask_cidr as nat)),
        ),
        ipv4::ipv4_of(ipv4::dotted(config.address)) == Some(config.address),
        text::number_of(text::decimal(config.netmask_cidr as nat), 255) == Some(
            config.netmask_cidr as nat,
        ),
{
    let addr = ipv4::dotted(config.address);
    let width = text::decimal(config.netmask_cidr as nat);
    let whole = ap::ap_address(config);
    reveal_strlit("/");
    ipv4::written_address_reads_back(config.address);
    text::lemma_number_round_trip(config.netmask_cidr as nat, 255);
    assert forall|i: int| 0 <= i < addr.len() implies whole[i] != '/' by {
        lemma_dotted_chars(config.address, i);
        assert(whole[i] == addr[i]);
    }
    assert(whole[addr.len() as int] == '/');
    text::lemma_position_is(whole, '/', addr.len() as int);
    assert(whole.take(addr.len() as int) =~= addr);
    assert(whole.skip(addr.len() as int + 1) =~= width);
}

proof fn lemma_digits_only(n: nat, i: int)
    requires
        0 <= i < text::decimal(n).len(),
    ensures
        text::is_digit(text::decimal(n)[i]),
{
    text::lemma_decimal_reads_back(n);
}

pub(crate) proof fn lemma_dotted_chars(addr: ipv4::Ipv4Addr, i: int)
    requires
        0 <= i < ipv4::dotted(addr).len(),
    ensures
        text::is_digit(ipv4::dotted(addr)[i]) || ipv4::dotted(addr)[i] == '.',
{
    reveal_strlit(".");
    let (a, b, c, d) = (
        text::decimal(addr.0 as nat),
        text::decimal(addr.1 as nat),
        text::decimal(addr.2 as nat),
        text::decimal(addr.3 as nat),
    );
    let n1 = a.len() as int;
    let n2 = n1 + 1 + b.len();
    let n3 = n2 + 1 + c.len();
    if i < n1 {
        lemma_digits_only(addr.0 as nat, i);
    } else if n1 < i < n2 {
        lemma_digits_only(addr.1 as nat, i - n1 - 1);
    } else if n2 < i < n3 {
        lemma_digits_only(addr.2 as nat, i - n2 - 1);
    } else if n3 < i {
        lemma_digits_only(addr.3 as nat, i - n3 - 1);
    }
}

/// The access point is said to be protected if and only if it has a passphrase.
pub proof fn security_follows_the_passphrase(config: ApConfigView)
    ensures
        ap::security_of(config) == ApSecurity::Wpa2 <==> config.psk is Some,
        ap::ap_report(config).len() == 6,
        ap::ap_report(config)[3] == "[INFO]   security:  "@ + if config.psk is Some {
            "WPA2"@
        } else {
            "open (no passphrase)"@
        },
{
    reveal_strlit("[INFO] ");
    reveal_strlit("  security:  ");
    reveal_strlit("[INFO]   security:  ");
    let words = if config.psk is Some {
        "WPA2"@
    } else {
        "open (no passphrase)"@
    };
    assert("[INFO]   security:  "@ =~= "[INFO] "@ + "  security:  "@);
    assert("[INFO]   security:  "@ + words =~= "[INFO] "@ + ("  security:  "@ + words));
}

/// The credentials stand below the configuration directory, in a file of their own.
pub proof fn the_credentials_have_their_own_file(paths: config::PathsView)
    ensures
        client::client_conf_of(paths) == config::path_below(paths.config_dir, "wifi/client.conf"@),
{
}

} // verus!
