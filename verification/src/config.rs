//! Path and default resolution: what the environment settles before anything else runs.

use vstd::prelude::*;
use vstd::string::*;

use crate::id::{self, RobotId, RosDomainId};
use crate::log;
use crate::text;

verus! {

pub const DEFAULT_DATA_DIR: &'static str = "/data";

pub const DEFAULT_CONFIG_DIR: &'static str = "/data/robot";

pub const DEFAULT_HOSTNAME_PATH: &'static str = "/etc/hostname";

pub const DEFAULT_HOSTS_PATH: &'static str = "/etc/hosts";

/// Generated hostapd/dnsmasq configs and pidfiles.
pub const DEFAULT_RUN_DIR: &'static str = "/run/robot-wifi";

pub const DEFAULT_WIFI_INTERFACE: &'static str = "wlan-ctrl";

/// The systemd unit running `robotctl wifi start`. `wifi stop` needs to know what to stop, and
/// `status` reports its health.
pub const DEFAULT_WIFI_UNIT: &'static str = "robotctl-wifi.service";

/// The command run on every supervisor state change. Empty, the platform-neutral default, runs
/// nothing.
pub const DEFAULT_WIFI_STATE_HOOK: &'static str = "";

/// The mDNS responder to nudge after a hostname change. Empty disables the nudge.
pub const DEFAULT_MDNS_UNIT: &'static str = "avahi-daemon.service";

/// Written into the rootfs at build time, so it describes the slot that is running, not the
/// robot.
pub const DEFAULT_IMAGE_VERSION_PATH: &'static str = "/etc/robot/image-version";

pub const DEFAULT_TRYBOOT_BACKEND: &'static str = "/usr/libexec/rauc/tryboot-backend";

pub const DEFAULT_ROBOT_ID: &'static str = "unprovisioned";

pub const DEFAULT_ROS_DOMAIN_ID: u8 = 0;

/// `name` below the directory `dir`, unless `name` is an absolute path itself.
pub open spec fn path_below(dir: Seq<char>, name: Seq<char>) -> Seq<char> {
    if (name.len() > 0 && name[0] == '/') || dir.len() == 0 {
        name
    } else if dir.last() == '/' {
        dir + name
    } else {
        dir.push('/') + name
    }
}

/// `name` below the directory `dir`.
pub fn join_path(dir: &str, name: &str) -> (r: String)
    ensures
        r@ == path_below(dir@, name@),
{
    let d: Vec<char> = text::to_chars(dir);
    let n: Vec<char> = text::to_chars(name);
    if (n.len() > 0 && n[0] == '/') || d.len() == 0 {
        return name.to_owned();
    }
    let mut out: String = dir.to_owned();
    if d[d.len() - 1] != '/' {
        out.push('/');
    }
    out.append(name);
    out
}

/// What `Paths` holds.
pub struct PathsView {
    pub data_dir: Seq<char>,
    pub config_dir: Seq<char>,
    pub hostname_path: Seq<char>,
    pub hosts_path: Seq<char>,
    pub wifi_run_dir: Seq<char>,
    pub wifi_interface: Seq<char>,
    pub wifi_unit: Seq<char>,
    pub image_version_path: Seq<char>,
    pub tryboot_backend: Seq<char>,
    pub default_robot_id: Seq<char>,
    pub default_ros_domain_id: u8,
}

/// Resolved configuration, built once at startup and passed down.
#[derive(Debug, Clone)]
pub struct Paths {
    data_dir: String,
    config_dir: String,
    hostname_path: String,
    hosts_path: String,
    wifi_run_dir: String,
    wifi_interface: String,
    wifi_unit: String,
    image_version_path: String,
    tryboot_backend: String,
    default_robot_id: RobotId,
    default_ros_domain_id: RosDomainId,
}

impl View for Paths {
    type V = PathsView;

    closed spec fn view(&self) -> PathsView {
        PathsView {
            data_dir: self.data_dir@,
            config_dir: self.config_dir@,
            hostname_path: self.hostname_path@,
            hosts_path: self.hosts_path@,
            wifi_run_dir: self.wifi_run_dir@,
            wifi_interface: self.wifi_interface@,
            wifi_unit: self.wifi_unit@,
            image_version_path: self.image_version_path@,
            tryboot_backend: self.tryboot_backend@,
            default_robot_id: self.default_robot_id@,
            default_ros_domain_id: self.default_ros_domain_id@,
        }
    }
}

/// The variables of an environment and their values.
pub open spec fn vars(env: Seq<(String, String)>) -> Seq<(Seq<char>, Seq<char>)> {
    env.map_values(|var: (String, String)| (var.0@, var.1@))
}

/// The value of the variable `name`, if it is set.
pub open spec fn var_of(env: Seq<(Seq<char>, Seq<char>)>, name: Seq<char>) -> Option<Seq<char>>
    decreases env.len(),
{
    if env.len() == 0 {
        None
    } else if env[0].0 == name {
        Some(env[0].1)
    } else {
        var_of(env.drop_first(), name)
    }
}

/// The value of the variable `name`, if it is set.
fn var(env: &Vec<(String, String)>, name: &str) -> (r: Option<String>)
    ensures
        r is Some <==> var_of(vars(env@), name@) is Some,
        r matches Some(value) ==> var_of(vars(env@), name@) == Some(value@),
{
    let ghost all = vars(env@);
    let mut i: usize = 0;
    assert(all.skip(0) =~= all);
    while i < env.len()
        invariant
            i <= env@.len(),
            all == vars(env@),
            var_of(all, name@) == var_of(all.skip(i as int), name@),
        decreases env@.len() - i,
    {
        assert(all.skip(i as int).drop_first() =~= all.skip(i + 1));
        assert(all[i as int] == (env@[i as int].0@, env@[i as int].1@));
        if text::same(env[i].0.as_str(), name) {
            return Some(env[i].1.clone());
        }
        i = i + 1;
    }
    None
}

/// A path from the environment: a blank value is as good as none.
pub open spec fn path_setting(value: Option<Seq<char>>, default: Seq<char>) -> Seq<char> {
    match value {
        Some(value) if text::trimmed(value).len() > 0 => value,
        _ => default,
    }
}

/// A name from the environment, without the whitespace around it: a blank value is as good as
/// none.
pub open spec fn string_setting(value: Option<Seq<char>>, default: Seq<char>) -> Seq<char> {
    match value {
        Some(value) if text::trimmed(value).len() > 0 => text::trimmed(value),
        _ => default,
    }
}

/// A number from the environment: a malformed value is as good as none.
pub open spec fn u32_setting(value: Option<Seq<char>>, default: u32) -> u32 {
    match value {
        Some(value) => match text::number_of(text::trimmed(value), u32::MAX as nat) {
            Some(number) => number as u32,
            None => default,
        },
        None => default,
    }
}

fn path_from_env(env: &Vec<(String, String)>, name: &str, default: &str) -> (r: String)
    ensures
        r@ == path_setting(var_of(vars(env@), name@), default@),
{
    match var(env, name) {
        Some(value) => {
            let trimmed: String = text::trim(value.as_str());
            if trimmed.as_str().is_empty() {
                default.to_owned()
            } else {
                value
            }
        },
        None => default.to_owned(),
    }
}

fn string_from_env(env: &Vec<(String, String)>, name: &str, default: &str) -> (r: String)
    ensures
        r@ == string_setting(var_of(vars(env@), name@), default@),
{
    match var(env, name) {
        Some(value) => {
            let trimmed: String = text::trim(value.as_str());
            if trimmed.as_str().is_empty() {
                default.to_owned()
            } else {
                trimmed
            }
        },
        None => default.to_owned(),
    }
}

fn u32_from_env(env: &Vec<(String, String)>, name: &str, default: u32) -> (r: u32)
    ensures
        r == u32_setting(var_of(vars(env@), name@), default),
{
    match var(env, name) {
        Some(raw) => {
            let trimmed: String = text::trim(raw.as_str());
            match text::parse_number(trimmed.as_str(), u32::MAX as u64) {
                Some(number) => number as u32,
                None => default,
            }
        },
        None => default,
    }
}

/// The fallback identity the environment settles: its own if that is valid, else the built-in.
pub open spec fn default_robot_id_setting(value: Option<Seq<char>>) -> Seq<char> {
    match value {
        Some(raw) if id::valid_robot_id(raw) => raw,
        _ => DEFAULT_ROBOT_ID@,
    }
}

/// The fallback ROS domain ID the environment settles: its own if valid, else the built-in.
pub open spec fn default_ros_domain_id_setting(value: Option<Seq<char>>) -> u8 {
    match value {
        Some(raw) => match id::ros_domain_of(raw) {
            Some(value) => value,
            None => DEFAULT_ROS_DOMAIN_ID,
        },
        None => DEFAULT_ROS_DOMAIN_ID,
    }
}

fn default_robot_id_from_env(env: &Vec<(String, String)>) -> (r: RobotId)
    ensures
        r@ == default_robot_id_setting(var_of(vars(env@), "ROBOTCTL_DEFAULT_ROBOT_ID"@)),
{
    match var(env, "ROBOTCTL_DEFAULT_ROBOT_ID") {
        Some(raw) => match RobotId::new(raw.as_str()) {
            Ok(id) => id,
            Err(_) => builtin_default_robot_id(),
        },
        None => builtin_default_robot_id(),
    }
}

fn default_ros_domain_id_from_env(env: &Vec<(String, String)>) -> (r: RosDomainId)
    ensures
        r@ == default_ros_domain_id_setting(
            var_of(vars(env@), "ROBOTCTL_DEFAULT_ROS_DOMAIN_ID"@),
        ),
{
    match var(env, "ROBOTCTL_DEFAULT_ROS_DOMAIN_ID") {
        Some(raw) => match RosDomainId::parse(raw.as_str()) {
            Ok(id) => id,
            Err(_) => builtin_default_ros_domain_id(),
        },
        None => builtin_default_ros_domain_id(),
    }
}

/// The built-in fallback identity obeys the rules for robot IDs.
pub proof fn builtin_robot_id_is_valid()
    ensures
        id::valid_robot_id(DEFAULT_ROBOT_ID@),
{
    reveal_strlit("unprovisioned");
}

pub fn builtin_default_robot_id() -> (r: RobotId)
    ensures
        r@ == DEFAULT_ROBOT_ID@,
{
    proof {
        builtin_robot_id_is_valid();
    }
    match RobotId::new(DEFAULT_ROBOT_ID) {
        Ok(id) => id,
        Err(_) => {
            assert(false);
            vstd::pervasive::unreached()
        },
    }
}

pub fn builtin_default_ros_domain_id() -> (r: RosDomainId)
    ensures
        r@ == DEFAULT_ROS_DOMAIN_ID,
{
    match RosDomainId::new(DEFAULT_ROS_DOMAIN_ID) {
        Ok(id) => id,
        Err(_) => {
            assert(false);
            vstd::pervasive::unreached()
        },
    }
}

/// What each path of `Paths` is when the environment holds `env`.
pub open spec fn paths_of(env: Seq<(Seq<char>, Seq<char>)>) -> PathsView {
    PathsView {
        data_dir: path_setting(var_of(env, "ROBOTCTL_DATA_DIR"@), DEFAULT_DATA_DIR@),
        config_dir: path_setting(var_of(env, "ROBOTCTL_CONFIG_DIR"@), DEFAULT_CONFIG_DIR@),
        hostname_path: path_setting(var_of(env, "ROBOTCTL_HOSTNAME_PATH"@), DEFAULT_HOSTNAME_PATH@),
        hosts_path: path_setting(var_of(env, "ROBOTCTL_HOSTS_PATH"@), DEFAULT_HOSTS_PATH@),
        wifi_run_dir: path_setting(var_of(env, "ROBOTCTL_RUN_DIR"@), DEFAULT_RUN_DIR@),
        wifi_interface: string_setting(
            var_of(env, "ROBOTCTL_WIFI_INTERFACE"@),
            DEFAULT_WIFI_INTERFACE@,
        ),
        wifi_unit: string_setting(var_of(env, "ROBOTCTL_WIFI_UNIT"@), DEFAULT_WIFI_UNIT@),
        image_version_path: path_setting(
            var_of(env, "ROBOTCTL_IMAGE_VERSION_PATH"@),
            DEFAULT_IMAGE_VERSION_PATH@,
        ),
        tryboot_backend: path_setting(
            var_of(env, "ROBOTCTL_TRYBOOT_BACKEND"@),
            DEFAULT_TRYBOOT_BACKEND@,
        ),
        default_robot_id: default_robot_id_setting(var_of(env, "ROBOTCTL_DEFAULT_ROBOT_ID"@)),
        default_ros_domain_id: default_ros_domain_id_setting(
            var_of(env, "ROBOTCTL_DEFAULT_ROS_DOMAIN_ID"@),
        ),
    }
}

impl Paths {
    /// Resolves every knob from the environment, falling back to the documented default.
    ///
    /// Never fails: an unset variable takes the default silently, and a *malformed* one (an
    /// invalid `ROBOTCTL_DEFAULT_ROBOT_ID`, say) takes the default too, which [`env_warnings`]
    /// reports.
    pub fn from_env(env: &Vec<(String, String)>) -> (r: Self)
        ensures
            r@ == paths_of(vars(env@)),
    {
        Paths {
            data_dir: path_from_env(env, "ROBOTCTL_DATA_DIR", DEFAULT_DATA_DIR),
            config_dir: path_from_env(env, "ROBOTCTL_CONFIG_DIR", DEFAULT_CONFIG_DIR),
            hostname_path: path_from_env(env, "ROBOTCTL_HOSTNAME_PATH", DEFAULT_HOSTNAME_PATH),
            hosts_path: path_from_env(env, "ROBOTCTL_HOSTS_PATH", DEFAULT_HOSTS_PATH),
            wifi_run_dir: path_from_env(env, "ROBOTCTL_RUN_DIR", DEFAULT_RUN_DIR),
            wifi_interface: string_from_env(env, "ROBOTCTL_WIFI_INTERFACE", DEFAULT_WIFI_INTERFACE),
            wifi_unit: string_from_env(env, "ROBOTCTL_WIFI_UNIT", DEFAULT_WIFI_UNIT),
            image_version_path: path_from_env(
                env,
                "ROBOTCTL_IMAGE_VERSION_PATH",
                DEFAULT_IMAGE_VERSION_PATH,
            ),
            tryboot_backend: path_from_env(env, "ROBOTCTL_TRYBOOT_BACKEND", DEFAULT_TRYBOOT_BACKEND),
            default_robot_id: default_robot_id_from_env(env),
            default_ros_domain_id: default_ros_domain_id_from_env(env),
        }
    }

    /// Identity: `ROBOT_ID` and `ROS_DOMAIN_ID`, in shell-sourceable `KEY=value` form.
    pub fn robot_conf(&self) -> (r: String)
        ensures
            r@ == path_below(self@.config_dir, "robot.conf"@),
    {
        join_path(self.config_dir.as_str(), "robot.conf")
    }

    pub fn hostname_path(&self) -> (r: &str)
        ensures
            r@ == self@.hostname_path,
    {
        self.hostname_path.as_str()
    }

    pub fn hosts_path(&self) -> (r: &str)
        ensures
            r@ == self@.hosts_path,
    {
        self.hosts_path.as_str()
    }

    pub fn wifi_client_conf(&self) -> (r: String)
        ensures
            r@ == path_below(self@.config_dir, "wifi/client.conf"@),
    {
        join_path(self.config_dir.as_str(), "wifi/client.conf")
    }

    pub fn wifi_ap_conf(&self) -> (r: String)
        ensures
            r@ == path_below(self@.config_dir, "wifi/fallback-ap.conf"@),
    {
        join_path(self.config_dir.as_str(), "wifi/fallback-ap.conf")
    }

    pub fn experiments_dir(&self) -> (r: String)
        ensures
            r@ == path_below(self@.data_dir, "experiments"@),
    {
        join_path(self.data_dir.as_str(), "experiments")
    }

    pub fn wifi_run_dir(&self) -> (r: &str)
        ensures
            r@ == self@.wifi_run_dir,
    {
        self.wifi_run_dir.as_str()
    }

    pub fn wifi_interface(&self) -> (r: &str)
        ensures
            r@ == self@.wifi_interface,
    {
        self.wifi_interface.as_str()
    }

    pub fn wifi_unit(&self) -> (r: &str)
        ensures
            r@ == self@.wifi_unit,
    {
        self.wifi_unit.as_str()
    }

    pub fn image_version(&self) -> (r: &str)
        ensures
            r@ == self@.image_version_path,
    {
        self.image_version_path.as_str()
    }

    pub fn tryboot_backend(&self) -> (r: &str)
        ensures
            r@ == self@.tryboot_backend,
    {
        self.tryboot_backend.as_str()
    }

    pub fn default_robot_id(&self) -> (r: &RobotId)
        ensures
            r@ == self@.default_robot_id,
    {
        &self.default_robot_id
    }

    pub fn default_ros_domain_id(&self) -> (r: RosDomainId)
        ensures
            r@ == self@.default_ros_domain_id,
    {
        self.default_ros_domain_id
    }

    /// Builds a `Paths` rooted entirely inside `root`: no real system path is reachable from the
    /// result.
    pub fn for_test(root: &str) -> (r: Self)
        ensures
            r@ == (PathsView {
                data_dir: path_below(root@, "data"@),
                config_dir: path_below(root@, "data/robot"@),
                hostname_path: path_below(root@, "etc/hostname"@),
                hosts_path: path_below(root@, "etc/hosts"@),
                wifi_run_dir: path_below(root@, "run/robot-wifi"@),
                wifi_interface: DEFAULT_WIFI_INTERFACE@,
                wifi_unit: DEFAULT_WIFI_UNIT@,
                image_version_path: path_below(root@, "etc/robot/image-version"@),
                tryboot_backend: path_below(root@, "usr/libexec/rauc/tryboot-backend"@),
                default_robot_id: DEFAULT_ROBOT_ID@,
                default_ros_domain_id: DEFAULT_ROS_DOMAIN_ID,
            }),
    {
        Paths {
            data_dir: join_path(root, "data"),
            config_dir: join_path(root, "data/robot"),
            hostname_path: join_path(root, "etc/hostname"),
            hosts_path: join_path(root, "etc/hosts"),
            wifi_run_dir: join_path(root, "run/robot-wifi"),
            wifi_interface: DEFAULT_WIFI_INTERFACE.to_owned(),
            wifi_unit: DEFAULT_WIFI_UNIT.to_owned(),
            image_version_path: join_path(root, "etc/robot/image-version"),
            tryboot_backend: join_path(root, "usr/libexec/rauc/tryboot-backend"),
            default_robot_id: builtin_default_robot_id(),
            default_ros_domain_id: builtin_default_ros_domain_id(),
        }
    }
}

#[derive(Debug, Clone, Copy, PartialEq, Eq)]
pub struct SuperviseTuning {
    /// How long one client association + DHCP attempt may take before it counts as failed.
    pub connect_timeout_sec: u32,
    /// Consecutive failed client attempts before giving up and raising the fallback AP.
    pub client_attempts: u32,
    /// Pause between client attempts within one cycle.
    pub retry_sec: u32,
    /// How often to re-check that an established client connection is still up.
    pub link_poll_sec: u32,
    /// How often to drop the fallback AP and re-try the client network.
    ///
    /// Deliberately long: retrying means taking the AP down for the duration of the attempt, so a
    /// short interval would make the recovery AP repeatedly vanish under whoever is connected to
    /// it trying to fix the robot.
    pub ap_retry_sec: u32,
}

pub open spec fn at_least_one(n: u32) -> u32 {
    if n < 1 {
        1
    } else {
        n
    }
}

fn raise_to_one(n: u32) -> (r: u32)
    ensures
        r == at_least_one(n),
{
    if n < 1 {
        1
    } else {
        n
    }
}

/// The tuning that the environment sets: every knob that it does not set takes its documented
/// default, and the number of attempts and the two intervals that are polled at are at least one.
pub open spec fn tuning_of(env: Seq<(Seq<char>, Seq<char>)>) -> SuperviseTuning {
    SuperviseTuning {
        connect_timeout_sec: u32_setting(var_of(env, "ROBOTCTL_WIFI_CONNECT_TIMEOUT_SEC"@), 45),
        client_attempts: at_least_one(
            u32_setting(var_of(env, "ROBOTCTL_WIFI_CLIENT_ATTEMPTS"@), 3),
        ),
        retry_sec: u32_setting(var_of(env, "ROBOTCTL_WIFI_RETRY_SEC"@), 5),
        link_poll_sec: at_least_one(u32_setting(var_of(env, "ROBOTCTL_WIFI_LINK_POLL_SEC"@), 10)),
        ap_retry_sec: at_least_one(u32_setting(var_of(env, "ROBOTCTL_WIFI_AP_RETRY_SEC"@), 300)),
    }
}

impl SuperviseTuning {
    /// Resolves every knob from the environment, falling back to the documented default. The
    /// number of attempts and the two intervals that are polled at are at least one.
    pub fn from_env(env: &Vec<(String, String)>) -> (r: Self)
        ensures
            r == tuning_of(vars(env@)),
    {
        SuperviseTuning {
            connect_timeout_sec: u32_from_env(env, "ROBOTCTL_WIFI_CONNECT_TIMEOUT_SEC", 45),
            client_attempts: raise_to_one(u32_from_env(env, "ROBOTCTL_WIFI_CLIENT_ATTEMPTS", 3)),
            retry_sec: u32_from_env(env, "ROBOTCTL_WIFI_RETRY_SEC", 5),
            link_poll_sec: raise_to_one(u32_from_env(env, "ROBOTCTL_WIFI_LINK_POLL_SEC", 10)),
            ap_retry_sec: raise_to_one(u32_from_env(env, "ROBOTCTL_WIFI_AP_RETRY_SEC", 300)),
        }
    }
}

/// What there is to report of the fallback identity in the environment.
pub open spec fn default_robot_id_report(value: Option<Seq<char>>) -> Seq<Seq<char>> {
    match value {
        Some(raw) if !id::valid_robot_id(raw) => seq![
            log::warn_line(
                "ROBOTCTL_DEFAULT_ROBOT_ID='"@ + raw + "': "@ + id::robot_id_fault(
                    raw,
                ).unwrap().message() + " Falling back to '"@ + DEFAULT_ROBOT_ID@ + "'."@,
            ),
        ],
        _ => Seq::empty(),
    }
}

/// What there is to report of the fallback ROS domain ID in the environment.
pub open spec fn default_ros_domain_id_report(value: Option<Seq<char>>) -> Seq<Seq<char>> {
    match value {
        Some(raw) if id::ros_domain_of(raw) is None => seq![
            log::warn_line(
                "ROBOTCTL_DEFAULT_ROS_DOMAIN_ID='"@ + raw + "': "@ + id::ros_domain_fault_message(raw)
                    + " Falling back to "@ + text::decimal(DEFAULT_ROS_DOMAIN_ID as nat) + "."@,
            ),
        ],
        _ => Seq::empty(),
    }
}

/// The lines to report when `Paths::from_env` resolves `env`.
pub fn env_warnings(env: &Vec<(String, String)>) -> (r: Vec<String>)
    ensures
        text::views(r@) == default_robot_id_report(
            var_of(vars(env@), "ROBOTCTL_DEFAULT_ROBOT_ID"@),
        ) + default_ros_domain_id_report(var_of(vars(env@), "ROBOTCTL_DEFAULT_ROS_DOMAIN_ID"@)),
{
    broadcast use text::lemma_views_push;

    let mut out: Vec<String> = Vec::new();
    assert(text::views(out@) =~= Seq::<Seq<char>>::empty());
    if let Some(raw) = var(env, "ROBOTCTL_DEFAULT_ROBOT_ID") {
        if let Err(err) = RobotId::new(raw.as_str()) {
            let message: String = text::cat7(
                "ROBOTCTL_DEFAULT_ROBOT_ID='",
                raw.as_str(),
                "': ",
                err.to_string().as_str(),
                " Falling back to '",
                DEFAULT_ROBOT_ID,
                "'.",
            );
            out.push(log::warn(message.as_str()));
        }
    }
    assert(text::views(out@) =~= default_robot_id_report(
        var_of(vars(env@), "ROBOTCTL_DEFAULT_ROBOT_ID"@),
    ));
    let ghost first = text::views(out@);
    if let Some(raw) = var(env, "ROBOTCTL_DEFAULT_ROS_DOMAIN_ID") {
        if let Err(err) = RosDomainId::parse(raw.as_str()) {
            let message: String = text::cat7(
                "ROBOTCTL_DEFAULT_ROS_DOMAIN_ID='",
                raw.as_str(),
                "': ",
                err.to_string().as_str(),
                " Falling back to ",
                text::to_decimal(DEFAULT_ROS_DOMAIN_ID as u64).as_str(),
                ".",
            );
            assert(err.message() == id::ros_domain_fault_message(raw@));
            out.push(log::warn(message.as_str()));
        }
    }
    assert(text::views(out@) =~= first + default_ros_domain_id_report(
        var_of(vars(env@), "ROBOTCTL_DEFAULT_ROS_DOMAIN_ID"@),
    ));
    out
}

/// What there is to report of one number in the environment.
pub open spec fn u32_report(
    env: Seq<(Seq<char>, Seq<char>)>,
    name: Seq<char>,
    default: u32,
) -> Seq<Seq<char>> {
    match var_of(env, name) {
        Some(raw) if text::number_of(text::trimmed(raw), u32::MAX as nat) is None => seq![
            log::warn_line(
                name + "='"@ + raw + "' is not a non-negative integer. Falling back to "@
                    + text::decimal(default as nat) + "."@,
            ),
        ],
        _ => Seq::empty(),
    }
}

/// Adds what there is to report of one number in the environment.
fn u32_warning(out: &mut Vec<String>, env: &Vec<(String, String)>, name: &str, default: u32)
    ensures
        text::views(final(out)@) == text::views(old(out)@) + u32_report(
            vars(env@),
            name@,
            default,
        ),
{
    broadcast use text::lemma_views_push;

    if let Some(raw) = var(env, name) {
        let trimmed: String = text::trim(raw.as_str());
        if text::parse_number(trimmed.as_str(), u32::MAX as u64).is_none() {
            let message: String = text::cat6(
                name,
                "='",
                raw.as_str(),
                "' is not a non-negative integer. Falling back to ",
                text::to_decimal(default as u64).as_str(),
                ".",
            );
            out.push(log::warn(message.as_str()));
        }
    }
    assert(text::views(out@) =~= text::views(old(out)@) + u32_report(vars(env@), name@, default));
}

/// The lines to report when `SuperviseTuning::from_env` resolves `env`.
pub fn tuning_warnings(env: &Vec<(String, String)>) -> (r: Vec<String>)
    ensures
        text::views(r@) == u32_report(vars(env@), "ROBOTCTL_WIFI_CONNECT_TIMEOUT_SEC"@, 45)
            + u32_report(vars(env@), "ROBOTCTL_WIFI_CLIENT_ATTEMPTS"@, 3) + u32_report(
            vars(env@),
            "ROBOTCTL_WIFI_RETRY_SEC"@,
            5,
        ) + u32_report(vars(env@), "ROBOTCTL_WIFI_LINK_POLL_SEC"@, 10) + u32_report(
            vars(env@),
            "ROBOTCTL_WIFI_AP_RETRY_SEC"@,
            300,
        ),
{
    let mut out: Vec<String> = Vec::new();
    let ghost first = u32_report(vars(env@), "ROBOTCTL_WIFI_CONNECT_TIMEOUT_SEC"@, 45);
    u32_warning(&mut out, env, "ROBOTCTL_WIFI_CONNECT_TIMEOUT_SEC", 45);
    assert(text::views(out@) =~= first);
    u32_warning(&mut out, env, "ROBOTCTL_WIFI_CLIENT_ATTEMPTS", 3);
    u32_warning(&mut out, env, "ROBOTCTL_WIFI_RETRY_SEC", 5);
    u32_warning(&mut out, env, "ROBOTCTL_WIFI_LINK_POLL_SEC", 10);
    u32_warning(&mut out, env, "ROBOTCTL_WIFI_AP_RETRY_SEC", 300);
    out
}

/// The socket systemd listens on for readiness, from `NOTIFY_SOCKET`. An abstract one, which
/// starts with `@`, is not used.
pub open spec fn notify_socket_of(value: Option<Seq<char>>) -> Option<Seq<char>> {
    match value {
        Some(socket) if socket.len() > 0 && socket[0] != '@' => Some(socket),
        _ => None,
    }
}

pub fn systemd_notify_socket(env: &Vec<(String, String)>) -> (r: Option<String>)
    ensures
        r is Some <==> notify_socket_of(var_of(vars(env@), "NOTIFY_SOCKET"@)) is Some,
        r matches Some(socket) ==> notify_socket_of(var_of(vars(env@), "NOTIFY_SOCKET"@)) == Some(
            socket@,
        ),
{
    match var(env, "NOTIFY_SOCKET") {
        Some(socket) => {
            let chars: Vec<char> = text::to_chars(socket.as_str());
            if chars.len() == 0 || chars[0] == '@' {
                None
            } else {
                Some(socket)
            }
        },
        None => None,
    }
}

/// A name from the environment that may be empty, without the whitespace around it: only an unset
/// one takes the default.
pub open spec fn optional_setting(value: Option<Seq<char>>, default: Seq<char>) -> Seq<char> {
    match value {
        Some(value) => text::trimmed(value),
        None => default,
    }
}

fn optional_from_env(env: &Vec<(String, String)>, name: &str, default: &str) -> (r: String)
    ensures
        r@ == optional_setting(var_of(vars(env@), name@), default@),
{
    match var(env, name) {
        Some(value) => text::trim(value.as_str()),
        None => default.to_owned(),
    }
}

/// The command run on every supervisor state change: none if it is empty.
pub fn wifi_state_hook(env: &Vec<(String, String)>) -> (r: String)
    ensures
        r@ == optional_setting(
            var_of(vars(env@), "ROBOTCTL_WIFI_STATE_HOOK"@),
            DEFAULT_WIFI_STATE_HOOK@,
        ),
{
    optional_from_env(env, "ROBOTCTL_WIFI_STATE_HOOK", DEFAULT_WIFI_STATE_HOOK)
}

/// The mDNS responder to nudge after a hostname change: none if it is empty.
pub fn mdns_unit(env: &Vec<(String, String)>) -> (r: String)
    ensures
        r@ == optional_setting(var_of(vars(env@), "ROBOTCTL_MDNS_UNIT"@), DEFAULT_MDNS_UNIT@),
{
    optional_from_env(env, "ROBOTCTL_MDNS_UNIT", DEFAULT_MDNS_UNIT)
}

} // verus!
