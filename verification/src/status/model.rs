//! What this robot currently is and is doing, put together from what the system says of itself.

use vstd::prelude::*;
use vstd::string::*;

use crate::command::{self, Command, CommandView};
use crate::conf;
use crate::config::{Paths, PathsView};
use crate::id::RobotConfig;
use crate::status::parse::{self, Interface, InterfaceView};
use crate::status::uptime;
use crate::systemd;
use crate::text;
use crate::wifi::config_gen::{ApConfig, ApSecurity};
use crate::wifi::net::{self, InterfaceMode};

verus! {

/// What an `Identity` holds.
#[verifier::ext_equal]
pub struct IdentityView {
    pub robot_id: Seq<char>,
    pub ros_domain_id: u16,
    pub hostname: Option<Seq<char>>,
    pub hostname_matches: bool,
}

#[derive(Debug, Clone, PartialEq, Eq)]
pub struct Identity {
    pub robot_id: String,
    pub ros_domain_id: u16,
    pub hostname: Option<String>,
    /// False when the running hostname disagrees with `robot.conf`, i.e. `id apply` has not run.
    pub hostname_matches: bool,
}

impl View for Identity {
    type V = IdentityView;

    open spec fn view(&self) -> IdentityView {
        IdentityView {
            robot_id: self.robot_id@,
            ros_domain_id: self.ros_domain_id,
            hostname: text::opt_view(self.hostname),
            hostname_matches: self.hostname_matches,
        }
    }
}

/// What a `System` holds.
#[verifier::ext_equal]
pub struct SystemView {
    pub kernel: Option<Seq<char>>,
    pub uptime_seconds: Option<u64>,
    pub time_utc: Option<Seq<char>>,
}

#[derive(Debug, Clone, PartialEq, Eq)]
pub struct System {
    pub kernel: Option<String>,
    pub uptime_seconds: Option<u64>,
    pub time_utc: Option<String>,
}

impl View for System {
    type V = SystemView;

    open spec fn view(&self) -> SystemView {
        SystemView {
            kernel: text::opt_view(self.kernel),
            uptime_seconds: self.uptime_seconds,
            time_utc: text::opt_view(self.time_utc),
        }
    }
}

/// What a `Network` holds.
#[verifier::ext_equal]
pub struct NetworkView {
    pub interfaces: Seq<InterfaceView>,
    pub default_route: Option<Seq<char>>,
}

#[derive(Debug, Clone, PartialEq, Eq)]
pub struct Network {
    pub interfaces: Vec<Interface>,
    pub default_route: Option<String>,
}

impl View for Network {
    type V = NetworkView;

    open spec fn view(&self) -> NetworkView {
        NetworkView {
            interfaces: parse::interface_views(self.interfaces@),
            default_route: text::opt_view(self.default_route),
        }
    }
}

/// What a `Filesystem` holds.
#[verifier::ext_equal]
pub struct FilesystemView {
    pub mount: Seq<char>,
    pub total_bytes: u64,
    pub available_bytes: u64,
}

#[derive(Debug, PartialEq, Eq)]
pub struct Filesystem {
    pub mount: String,
    pub total_bytes: u64,
    pub available_bytes: u64,
}

impl View for Filesystem {
    type V = FilesystemView;

    open spec fn view(&self) -> FilesystemView {
        FilesystemView {
            mount: self.mount@,
            total_bytes: self.total_bytes,
            available_bytes: self.available_bytes,
        }
    }
}

impl Clone for Filesystem {
    fn clone(&self) -> (r: Self)
        ensures
            r@ == self@,
    {
        Filesystem {
            mount: self.mount.clone(),
            total_bytes: self.total_bytes,
            available_bytes: self.available_bytes,
        }
    }
}

/// The contents of each filesystem of a list.
pub open spec fn filesystem_views(list: Seq<Filesystem>) -> Seq<FilesystemView> {
    list.map_values(|filesystem: Filesystem| filesystem@)
}

/// What a `WifiSummary` holds.
#[verifier::ext_equal]
pub struct WifiSummaryView {
    pub interface: Seq<char>,
    pub exists: bool,
    pub mode: Option<Seq<char>>,
    pub ssid: Option<Seq<char>>,
    pub security: Option<Seq<char>>,
    pub address: Option<Seq<char>>,
    pub client_conf_present: bool,
}

#[derive(Debug, Clone, PartialEq, Eq)]
pub struct WifiSummary {
    pub interface: String,
    pub exists: bool,
    pub mode: Option<String>,
    pub ssid: Option<String>,
    pub security: Option<String>,
    pub address: Option<String>,
    pub client_conf_present: bool,
}

impl View for WifiSummary {
    type V = WifiSummaryView;

    open spec fn view(&self) -> WifiSummaryView {
        WifiSummaryView {
            interface: self.interface@,
            exists: self.exists,
            mode: text::opt_view(self.mode),
            ssid: text::opt_view(self.ssid),
            security: text::opt_view(self.security),
            address: text::opt_view(self.address),
            client_conf_present: self.client_conf_present,
        }
    }
}

/// What a `RaucSummary` holds.
#[verifier::ext_equal]
pub struct RaucSummaryView {
    pub booted_slot: Option<Seq<char>>,
    pub primary_slot: Option<Seq<char>>,
    pub slot_states: Seq<(Seq<char>, Seq<char>)>,
}

#[derive(Debug, Clone, PartialEq, Eq)]
pub struct RaucSummary {
    /// The slot actually running, from the kernel command line.
    pub booted_slot: Option<String>,
    /// The slot a plain reboot would land on, from the tryboot backend.
    pub primary_slot: Option<String>,
    pub slot_states: Vec<(String, String)>,
}

impl View for RaucSummary {
    type V = RaucSummaryView;

    open spec fn view(&self) -> RaucSummaryView {
        RaucSummaryView {
            booted_slot: text::opt_view(self.booted_slot),
            primary_slot: text::opt_view(self.primary_slot),
            slot_states: parse::pair_views(self.slot_states@),
        }
    }
}

/// What a `Unit` holds.
#[verifier::ext_equal]
pub struct UnitView {
    pub name: Seq<char>,
    pub state: Seq<char>,
}

#[derive(Debug, Clone, PartialEq, Eq)]
pub struct Unit {
    pub name: String,
    pub state: String,
}

impl View for Unit {
    type V = UnitView;

    open spec fn view(&self) -> UnitView {
        UnitView { name: self.name@, state: self.state@ }
    }
}

/// The contents of each unit of a list.
pub open spec fn unit_views(list: Seq<Unit>) -> Seq<UnitView> {
    list.map_values(|unit: Unit| unit@)
}

/// What a `Status` holds.
#[verifier::ext_equal]
pub struct StatusView {
    pub identity: IdentityView,
    pub image: Seq<(Seq<char>, Seq<char>)>,
    pub system: SystemView,
    pub rauc: RaucSummaryView,
    pub filesystems: Seq<FilesystemView>,
    pub wifi: WifiSummaryView,
    pub network: NetworkView,
    pub units: Seq<UnitView>,
    pub failed_units: Seq<Seq<char>>,
}

#[derive(Debug, Clone, PartialEq, Eq)]
pub struct Status {
    pub identity: Identity,
    /// Key/value pairs in the order the build wrote them, not a map, so that order survives.
    pub image: Vec<(String, String)>,
    pub system: System,
    pub rauc: RaucSummary,
    pub filesystems: Vec<Filesystem>,
    pub wifi: WifiSummary,
    pub network: Network,
    pub units: Vec<Unit>,
    pub failed_units: Vec<String>,
}

impl View for Status {
    type V = StatusView;

    open spec fn view(&self) -> StatusView {
        StatusView {
            identity: self.identity@,
            image: parse::pair_views(self.image@),
            system: self.system@,
            rauc: self.rauc@,
            filesystems: filesystem_views(self.filesystems@),
            wifi: self.wifi@,
            network: self.network@,
            units: unit_views(self.units@),
            failed_units: text::views(self.failed_units@),
        }
    }
}

/// Units worth reporting whether or not they exist.
pub open spec fn watched_unit_names() -> Seq<Seq<char>> {
    seq![
        "robotctl-wifi.service"@,
        "robot-wifi-supervisor.service"@,
        "robot-wifi-client.service"@,
        "robot-wifi-fallback-ap.service"@,
        "docker.service"@,
        "robot-experiments.service"@,
        "robot-update-health-check.service"@,
    ]
}

/// Units worth reporting whether or not they exist.
pub fn watched_units() -> (r: Vec<String>)
    ensures
        text::views(r@) == watched_unit_names(),
{
    let r: Vec<String> = command::strings(
        &[
            "robotctl-wifi.service",
            "robot-wifi-supervisor.service",
            "robot-wifi-client.service",
            "robot-wifi-fallback-ap.service",
            "docker.service",
            "robot-experiments.service",
            "robot-update-health-check.service",
        ],
    );
    assert(text::views(r@) =~= watched_unit_names());
    r
}

/// Filesystems worth reporting, in the order someone debugging would want them.
pub fn watched_mounts() -> (r: Vec<String>)
    ensures
        text::views(r@) == seq!["/"@, "/data"@, "/boot"@],
{
    let r: Vec<String> = command::strings(&["/", "/data", "/boot"]);
    assert(text::views(r@) =~= seq!["/"@, "/data"@, "/boot"@]);
    r
}

/// Space on one mount point, from what `statvfs(3)` counts: blocks of `unit` bytes each.
pub fn filesystem(mount: &str, unit: u64, blocks: u64, available: u64) -> (r: Filesystem)
    requires
        blocks * unit <= u64::MAX,
        available * unit <= u64::MAX,
    ensures
        r@ == (FilesystemView {
            mount: mount@,
            total_bytes: (blocks * unit) as u64,
            available_bytes: (available * unit) as u64,
        }),
{
    Filesystem {
        mount: mount.to_owned(),
        total_bytes: blocks * unit,
        available_bytes: available * unit,
    }
}

/// What is found out about the WiFi interface.
#[derive(Debug, Clone, PartialEq, Eq)]
pub struct WifiProbe {
    pub exists: bool,
    /// What `iw dev <if> info` prints, if it succeeds.
    pub info: Option<String>,
    /// What `iw dev <if> link` prints, if it succeeds.
    pub link: Option<String>,
    /// What `ip -4 addr show` prints, if it succeeds.
    pub addresses: Option<String>,
    /// The fallback AP's configuration, if it can be loaded.
    pub ap: Option<ApConfig>,
    pub client_conf_present: bool,
}

/// The mode that a probe shows.
pub open spec fn probed_mode(probe: WifiProbe) -> Option<InterfaceMode> {
    match probe.info {
        Some(info) => if probe.exists {
            net::iw_type_of(info@)
        } else {
            None
        },
        None => None,
    }
}

/// How a mode is called in the summary.
pub open spec fn mode_name(mode: InterfaceMode) -> Seq<char> {
    match mode {
        InterfaceMode::Client => "client"@,
        InterfaceMode::AccessPoint => "fallback AP"@,
        InterfaceMode::Other => "other"@,
    }
}

/// What a probe of the interface comes to.
pub open spec fn wifi_of(interface: Seq<char>, probe: WifiProbe) -> WifiSummaryView {
    let mode = probed_mode(probe);
    WifiSummaryView {
        interface,
        exists: probe.exists,
        mode: match mode {
            Some(mode) => Some(mode_name(mode)),
            None => None,
        },
        ssid: match (mode, probe.link, probe.ap) {
            (Some(InterfaceMode::Client), Some(link), _) => net::iw_link_ssid_of(link@),
            (Some(InterfaceMode::AccessPoint), _, Some(ap)) => Some(ap.ssid@),
            _ => None,
        },
        security: match (mode, probe.ap) {
            (Some(InterfaceMode::AccessPoint), Some(ap)) => Some(
                if ap@.psk is Some {
                    ApSecurity::Wpa2.text()
                } else {
                    ApSecurity::Open.text()
                },
            ),
            _ => None,
        },
        address: match probe.addresses {
            Some(text) => if probe.exists {
                net::inet_address_of(text@)
            } else {
                None
            },
            None => None,
        },
        client_conf_present: probe.client_conf_present,
    }
}

/// Sums up what was found out about the WiFi interface.
pub fn wifi(paths: &Paths, probe: &WifiProbe) -> (r: WifiSummary)
    ensures
        r@ == wifi_of(paths@.wifi_interface, *probe),
{
    let mode: Option<InterfaceMode> = match &probe.info {
        Some(info) => if probe.exists {
            net::parse_iw_type(info.as_str())
        } else {
            None
        },
        None => None,
    };
    let ssid: Option<String> = match mode {
        Some(InterfaceMode::Client) => match &probe.link {
            Some(link) => net::parse_iw_link_ssid(link.as_str()),
            None => None,
        },
        Some(InterfaceMode::AccessPoint) => match &probe.ap {
            Some(ap) => Some(ap.ssid.as_str().to_owned()),
            None => None,
        },
        _ => None,
    };
    let security: Option<String> = match mode {
        Some(InterfaceMode::AccessPoint) => match &probe.ap {
            Some(ap) => Some(ap.security().to_string()),
            None => None,
        },
        _ => None,
    };
    let name: Option<String> = match mode {
        Some(InterfaceMode::Client) => Some("client".to_owned()),
        Some(InterfaceMode::AccessPoint) => Some("fallback AP".to_owned()),
        Some(InterfaceMode::Other) => Some("other".to_owned()),
        None => None,
    };
    let address: Option<String> = match &probe.addresses {
        Some(text) => if probe.exists {
            net::parse_inet_address(text.as_str())
        } else {
            None
        },
        None => None,
    };
    WifiSummary {
        interface: paths.wifi_interface().to_owned(),
        exists: probe.exists,
        mode: name,
        ssid,
        security,
        address,
        client_conf_present: probe.client_conf_present,
    }
}

/// What is found out about the update slots.
#[derive(Debug, Clone, PartialEq, Eq)]
pub struct RaucProbe {
    /// The kernel command line, if it can be read.
    pub cmdline: Option<String>,
    /// What the tryboot backend prints for `get-primary`, if there is one and it succeeds.
    pub primary: Option<String>,
    /// What it prints for `get-state A`.
    pub state_a: Option<String>,
    /// What it prints for `get-state B`.
    pub state_b: Option<String>,
}

/// The command that prints the slot a plain reboot would land on.
pub fn primary_query(paths: &Paths) -> (r: Command)
    ensures
        r@ == (CommandView { program: paths@.tryboot_backend, args: seq!["get-primary"@] }),
{
    let r: Command = command::command(paths.tryboot_backend(), &["get-primary"]);
    assert(r@.args =~= seq!["get-primary"@]);
    r
}

/// The command that prints the state of `slot`.
pub fn state_query(paths: &Paths, slot: &str) -> (r: Command)
    ensures
        r@ == (CommandView {
            program: paths@.tryboot_backend,
            args: seq!["get-state"@, slot@],
        }),
{
    let r: Command = command::command(paths.tryboot_backend(), &["get-state", slot]);
    assert(r@.args =~= seq!["get-state"@, slot@]);
    r
}

/// `pairs`, and the state of `slot` where there is one.
pub open spec fn with_slot(
    pairs: Seq<(Seq<char>, Seq<char>)>,
    slot: Seq<char>,
    state: Option<Seq<char>>,
) -> Seq<(Seq<char>, Seq<char>)> {
    match state {
        Some(state) => pairs.push((slot, state)),
        None => pairs,
    }
}

/// What a probe of the update slots comes to.
pub open spec fn rauc_of(probe: RaucProbe) -> RaucSummaryView {
    RaucSummaryView {
        booted_slot: match probe.cmdline {
            Some(cmdline) => parse::rauc_slot_of(cmdline@),
            None => None,
        },
        primary_slot: parse::nonblank(text::opt_view(probe.primary)),
        slot_states: with_slot(
            with_slot(Seq::empty(), "A"@, parse::nonblank(text::opt_view(probe.state_a))),
            "B"@,
            parse::nonblank(text::opt_view(probe.state_b)),
        ),
    }
}

fn as_deref(text: &Option<String>) -> (r: Option<&str>)
    ensures
        conf::opt(r) == text::opt_view(*text),
{
    match text {
        Some(text) => Some(text.as_str()),
        None => None,
    }
}

/// Sums up what was found out about the update slots: only the read-only verbs, and only for the
/// two slots this layout defines.
pub fn rauc(probe: &RaucProbe) -> (r: RaucSummary)
    ensures
        r@ == rauc_of(*probe),
{
    let booted_slot: Option<String> = match &probe.cmdline {
        Some(cmdline) => parse::parse_rauc_slot(cmdline.as_str()),
        None => None,
    };
    let mut slot_states: Vec<(String, String)> = Vec::new();
    let a: Option<String> = parse::read_trimmed(as_deref(&probe.state_a));
    if let Some(state) = a {
        slot_states.push(("A".to_owned(), state));
    }
    let b: Option<String> = parse::read_trimmed(as_deref(&probe.state_b));
    if let Some(state) = b {
        slot_states.push(("B".to_owned(), state));
    }
    assert(parse::pair_views(slot_states@) =~= rauc_of(*probe).slot_states);
    RaucSummary {
        booted_slot,
        primary_slot: parse::read_trimmed(as_deref(&probe.primary)),
        slot_states,
    }
}

/// What is found out about the robot, each on its own: a probe that failed is `None`.
#[derive(Debug, Clone, PartialEq, Eq)]
pub struct Probes {
    /// `/proc/sys/kernel/hostname`.
    pub hostname: Option<String>,
    /// `/etc/robot/image-version`.
    pub image_version: Option<String>,
    /// `/proc/sys/kernel/osrelease`.
    pub kernel: Option<String>,
    /// `/proc/uptime`.
    pub uptime: Option<String>,
    /// What `date` prints.
    pub time_utc: Option<String>,
    pub rauc: RaucProbe,
    pub filesystems: Vec<Filesystem>,
    pub wifi: WifiProbe,
    /// What `ip -o -4 addr show` prints.
    pub addresses: Option<String>,
    /// What `ip route show default` prints.
    pub route: Option<String>,
    /// What `systemctl is-active` prints for each of the watched units, in their order.
    pub units: Vec<Option<String>>,
    /// What `systemctl list-units` prints.
    pub failed_units: Option<String>,
}

/// The command that prints the system time in UTC.
///
/// `date` rather than a format of our own: turning a time into a calendar date means implementing
/// civil-date arithmetic, and this is a display string in a status report.
pub fn time_query() -> (r: Command)
    ensures
        r@ == (CommandView { program: "date"@, args: seq!["-u"@, "+%Y-%m-%dT%H:%M:%SZ"@] }),
{
    let r: Command = command::command("date", &["-u", "+%Y-%m-%dT%H:%M:%SZ"]);
    assert(r@.args =~= seq!["-u"@, "+%Y-%m-%dT%H:%M:%SZ"@]);
    r
}

/// The command that prints the addresses of every interface.
pub fn addresses_query() -> (r: Command)
    ensures
        r@ == (CommandView { program: "ip"@, args: seq!["-o"@, "-4"@, "addr"@, "show"@] }),
{
    let r: Command = command::command("ip", &["-o", "-4", "addr", "show"]);
    assert(r@.args =~= seq!["-o"@, "-4"@, "addr"@, "show"@]);
    r
}

/// The command that prints the default route.
pub fn route_query() -> (r: Command)
    ensures
        r@ == (CommandView { program: "ip"@, args: seq!["route"@, "show"@, "default"@] }),
{
    let r: Command = command::command("ip", &["route", "show", "default"]);
    assert(r@.args =~= seq!["route"@, "show"@, "default"@]);
    r
}

/// The command that prints the units that failed.
pub fn failed_units_query() -> (r: Command)
    ensures
        r@ == (CommandView {
            program: "systemctl"@,
            args: seq!["list-units"@, "--state=failed"@, "--no-legend"@, "--plain"@],
        }),
{
    let r: Command = command::command(
        "systemctl",
        &["list-units", "--state=failed", "--no-legend", "--plain"],
    );
    assert(r@.args =~= seq!["list-units"@, "--state=failed"@, "--no-legend"@, "--plain"@]);
    r
}

/// What a unit's probe says, of the unit at index `i`: nothing where it was not made.
pub open spec fn unit_probe(probes: Seq<Option<String>>, i: int) -> Option<Seq<char>> {
    if 0 <= i < probes.len() {
        text::opt_view(probes[i])
    } else {
        None
    }
}

/// The watched units, each with its state.
pub open spec fn units_of(probes: Seq<Option<String>>) -> Seq<UnitView> {
    Seq::new(
        watched_unit_names().len(),
        |i: int|
            UnitView {
                name: watched_unit_names()[i],
                state: systemd::state_of(unit_probe(probes, i)),
            },
    )
}

/// The watched units, each with its state.
pub fn units(probes: &Vec<Option<String>>) -> (r: Vec<Unit>)
    ensures
        unit_views(r@) == units_of(probes@),
{
    let names: Vec<String> = watched_units();
    let ghost views = watched_unit_names();
    let mut out: Vec<Unit> = Vec::new();
    let mut i: usize = 0;
    while i < names.len()
        invariant
            i <= names@.len(),
            views == text::views(names@),
            views == watched_unit_names(),
            out@.len() == i,
            forall|j: int| 0 <= j < i ==> (#[trigger] out@[j])@ == units_of(probes@)[j],
        decreases names@.len() - i,
    {
        let stdout: Option<&str> = if i < probes.len() {
            as_deref(&probes[i])
        } else {
            None
        };
        assert(views[i as int] == names@[i as int]@);
        out.push(Unit { name: names[i].clone(), state: systemd::is_active(stdout) });
        i = i + 1;
    }
    assert(unit_views(out@) =~= units_of(probes@));
    out
}

/// The robot's ID, as far as it is known.
pub open spec fn known_id(identity: Option<&RobotConfig>) -> Seq<char> {
    match identity {
        Some(identity) => identity.robot_id@,
        None => "unknown"@,
    }
}

/// What the probes come to.
pub open spec fn status_of(
    paths: PathsView,
    identity: Option<&RobotConfig>,
    probes: Probes,
) -> StatusView {
    let hostname = parse::nonblank(text::opt_view(probes.hostname));
    StatusView {
        identity: IdentityView {
            robot_id: known_id(identity),
            ros_domain_id: match identity {
                Some(identity) => identity.ros_domain_id@ as u16,
                None => 0,
            },
            hostname,
            hostname_matches: hostname == Some(known_id(identity)),
        },
        image: parse::assignments(
            text::lines_of(conf::text_of(text::opt_view(probes.image_version))),
        ),
        system: SystemView {
            kernel: parse::nonblank(text::opt_view(probes.kernel)),
            uptime_seconds: match probes.uptime {
                Some(text) => uptime::uptime_of(text@),
                None => None,
            },
            time_utc: match probes.time_utc {
                Some(text) => Some(text::trimmed(text@)),
                None => None,
            },
        },
        rauc: rauc_of(probes.rauc),
        filesystems: filesystem_views(probes.filesystems@),
        wifi: wifi_of(paths.wifi_interface, probes.wifi),
        network: NetworkView {
            interfaces: match probes.addresses {
                Some(text) => parse::interfaces_on(text::lines_of(text@)),
                None => Seq::empty(),
            },
            default_route: match probes.route {
                Some(text) => parse::default_route_on(text::lines_of(text@)),
                None => None,
            },
        },
        units: units_of(probes.units@),
        failed_units: match probes.failed_units {
            Some(text) => parse::unit_names(text::lines_of(text@)),
            None => Seq::empty(),
        },
    }
}

fn clone_filesystems(list: &Vec<Filesystem>) -> (r: Vec<Filesystem>)
    ensures
        filesystem_views(r@) == filesystem_views(list@),
{
    let mut out: Vec<Filesystem> = Vec::new();
    let mut i: usize = 0;
    while i < list.len()
        invariant
            i <= list@.len(),
            out@.len() == i,
            forall|j: int| 0 <= j < i ==> (#[trigger] out@[j])@ == list@[j]@,
        decreases list@.len() - i,
    {
        out.push(list[i].clone());
        i = i + 1;
    }
    assert(filesystem_views(out@) =~= filesystem_views(list@));
    out
}

/// Puts together what was found out. Never fails as a whole: each probe degrades to `None` on its
/// own.
pub fn gather(paths: &Paths, identity: Option<&RobotConfig>, probes: &Probes) -> (r: Status)
    ensures
        r@ == status_of(paths@, identity, *probes),
{
    let hostname: Option<String> = parse::read_trimmed(as_deref(&probes.hostname));
    let robot_id: String = match identity {
        Some(identity) => identity.robot_id.as_str().to_owned(),
        None => "unknown".to_owned(),
    };
    let ros_domain_id: u16 = match identity {
        Some(identity) => identity.ros_domain_id.value() as u16,
        None => 0,
    };
    let hostname_matches: bool = match &hostname {
        Some(name) => text::same(name.as_str(), robot_id.as_str()),
        None => false,
    };
    let uptime_seconds: Option<u64> = match &probes.uptime {
        Some(text) => uptime::parse_uptime(text.as_str()),
        None => None,
    };
    let time_utc: Option<String> = match &probes.time_utc {
        Some(text) => Some(text::trim(text.as_str())),
        None => None,
    };
    let interfaces: Vec<Interface> = match &probes.addresses {
        Some(text) => parse::parse_ip_addresses(text.as_str()),
        None => Vec::new(),
    };
    let default_route: Option<String> = match &probes.route {
        Some(text) => parse::parse_default_route(text.as_str()),
        None => None,
    };
    let failed_units: Vec<String> = match &probes.failed_units {
        Some(text) => parse::parse_failed_units(text.as_str()),
        None => Vec::new(),
    };
    assert(probes.addresses is None ==> parse::interface_views(interfaces@) =~= Seq::<
        InterfaceView,
    >::empty());
    assert(probes.failed_units is None ==> text::views(failed_units@) =~= Seq::<
        Seq<char>,
    >::empty());
    Status {
        identity: Identity { robot_id, ros_domain_id, hostname, hostname_matches },
        image: parse::image_version(as_deref(&probes.image_version)),
        system: System {
            kernel: parse::read_trimmed(as_deref(&probes.kernel)),
            uptime_seconds,
            time_utc,
        },
        rauc: rauc(&probes.rauc),
        filesystems: clone_filesystems(&probes.filesystems),
        wifi: wifi(paths, &probes.wifi),
        network: Network { interfaces, default_route },
        units: units(&probes.units),
        failed_units,
    }
}

} // verus!
