//! Client (station) mode: associate with a configured network and get a DHCP lease.

use vstd::prelude::*;
use vstd::string::*;

use crate::command::{self, Command, CommandView};
use crate::config::{self, Paths, SuperviseTuning};
use crate::text;
use crate::wifi::net;
use crate::wifi::script::{self, Script, Task, TaskView};

verus! {

/// udhcpc's per-attempt timeout, in seconds. The number of attempts is derived from the overall
/// connect timeout so that the two knobs stay consistent.
pub const DHCP_ATTEMPT_TIMEOUT_SEC: u32 = 5;

/// Why a client attempt did not result in a working connection.
///
/// `NoConfig` is separated from the rest because it is not a failure to retry: without
/// credentials, trying again in five seconds cannot possibly work, and the supervisor should go
/// straight to the fallback AP.
#[derive(Debug, Clone, PartialEq, Eq)]
pub enum ClientFailure {
    NoConfig { path: String },
    Failed(String),
}

/// A live client connection: the address we ended up with.
#[derive(Debug, Clone, PartialEq, Eq)]
pub struct ClientSession {
    pub address: String,
}

/// How many times udhcpc may try within `timeout` seconds: as often as it takes to fill them, and
/// once at least.
pub open spec fn dhcp_attempts_of(timeout: nat) -> nat {
    if timeout == 0 {
        1
    } else {
        (timeout + DHCP_ATTEMPT_TIMEOUT_SEC as nat - 1) as nat / DHCP_ATTEMPT_TIMEOUT_SEC as nat
    }
}

/// How many times udhcpc may try within `timeout` seconds.
pub fn dhcp_attempts(timeout: u32) -> (r: u32)
    ensures
        r == dhcp_attempts_of(timeout as nat),
{
    if timeout == 0 {
        return 1;
    }
    if timeout % DHCP_ATTEMPT_TIMEOUT_SEC == 0 {
        timeout / DHCP_ATTEMPT_TIMEOUT_SEC
    } else {
        timeout / DHCP_ATTEMPT_TIMEOUT_SEC + 1
    }
}

/// The attempts fill the timeout, and one attempt fewer would not.
pub proof fn dhcp_attempts_fill_the_timeout(timeout: nat)
    ensures
        dhcp_attempts_of(timeout) >= 1,
        dhcp_attempts_of(timeout) * DHCP_ATTEMPT_TIMEOUT_SEC >= timeout,
        timeout > 0 ==> (dhcp_attempts_of(timeout) - 1) * DHCP_ATTEMPT_TIMEOUT_SEC < timeout,
{
}

/// The command that associates with the network in `config`.
pub open spec fn supplicant_command(interface: Seq<char>, config: Seq<char>) -> CommandView {
    CommandView { program: "wpa_supplicant"@, args: seq!["-i"@, interface, "-c"@, config] }
}

/// The command that asks for an address.
pub open spec fn dhcp_command(interface: Seq<char>, timeout: nat) -> CommandView {
    CommandView {
        program: "udhcpc"@,
        args: seq![
            "-i"@,
            interface,
            "-n"@,
            "-q"@,
            "-T"@,
            text::decimal(DHCP_ATTEMPT_TIMEOUT_SEC as nat),
            "-t"@,
            text::decimal(dhcp_attempts_of(timeout)),
        ],
    }
}

/// What has to be done to bring the interface up as a station.
pub open spec fn connect_tasks(
    interface: Seq<char>,
    config: Seq<char>,
    timeout: nat,
) -> Seq<TaskView> {
    seq![
        TaskView::Require { interface },
        TaskView::Run { command: net::flush_command(interface) },
        TaskView::Run { command: net::link_command(interface, "up"@) },
        TaskView::Spawn {
            name: "wpa_supplicant"@,
            command: supplicant_command(interface, config),
        },
        TaskView::Try {
            command: dhcp_command(interface, timeout),
            complaint: "DHCP did not obtain a lease on "@ + interface,
        },
    ]
}

/// Where the credentials for the client network stand.
pub open spec fn client_conf_of(paths: config::PathsView) -> Seq<char> {
    config::path_below(paths.config_dir, "wifi/client.conf"@)
}

/// What has to be done to bring the interface up as a station and get a DHCP lease: nothing
/// without credentials.
pub fn connect(paths: &Paths, tuning: &SuperviseTuning, has_config: bool) -> (r: Result<
    Script,
    ClientFailure,
>)
    ensures
        r is Ok <==> has_config,
        r matches Ok(script) ==> script@ == script::script_of(
            connect_tasks(
                paths@.wifi_interface,
                client_conf_of(paths@),
                tuning.connect_timeout_sec as nat,
            ),
        ),
        r matches Err(failure) ==> (failure matches ClientFailure::NoConfig { path } && path@
            == client_conf_of(paths@)),
{
    let config: String = paths.wifi_client_conf();
    if !has_config {
        return Err(ClientFailure::NoConfig { path: config });
    }
    let interface: &str = paths.wifi_interface();
    let supplicant: Command = command::command(
        "wpa_supplicant",
        &["-i", interface, "-c", config.as_str()],
    );
    assert(supplicant@ == supplicant_command(interface@, config@));
    let each: String = text::to_decimal(DHCP_ATTEMPT_TIMEOUT_SEC as u64);
    let times: String = text::to_decimal(dhcp_attempts(tuning.connect_timeout_sec) as u64);
    let dhcp: Command = command::command(
        "udhcpc",
        &["-i", interface, "-n", "-q", "-T", each.as_str(), "-t", times.as_str()],
    );
    assert(dhcp@ == dhcp_command(interface@, tuning.connect_timeout_sec as nat));
    let mut tasks: Vec<Task> = Vec::new();
    tasks.push(Task::Require { interface: interface.to_owned() });
    tasks.push(Task::Run { command: net::flush_addresses(interface) });
    tasks.push(Task::Run { command: net::link_up(interface) });
    tasks.push(Task::Spawn { name: "wpa_supplicant".to_owned(), command: supplicant });
    tasks.push(
        Task::Try {
            command: dhcp,
            complaint: text::cat2("DHCP did not obtain a lease on ", interface),
        },
    );
    assert(script::task_views(tasks@) =~= connect_tasks(
        interface@,
        config@,
        tuning.connect_timeout_sec as nat,
    ));
    Ok(Script::new(tasks))
}

/// The connection that the tasks have led to: none without an address.
pub fn connected(paths: &Paths, address: Option<String>) -> (r: Result<
    ClientSession,
    ClientFailure,
>)
    ensures
        r is Ok <==> address is Some,
        r matches Ok(session) ==> address == Some(session.address),
        r matches Err(failure) ==> (failure matches ClientFailure::Failed(err) && err@
            == "associated but got no IPv4 address on "@ + paths@.wifi_interface),
{
    match address {
        Some(address) => Ok(ClientSession { address }),
        None => Err(
            ClientFailure::Failed(
                text::cat2(
                    "associated but got no IPv4 address on ",
                    paths.wifi_interface(),
                ),
            ),
        ),
    }
}

/// The command that takes down what is left of a connection.
pub fn teardown(interface: &str) -> (r: Command)
    ensures
        r@ == net::flush_command(interface@),
{
    net::flush_addresses(interface)
}

} // verus!
