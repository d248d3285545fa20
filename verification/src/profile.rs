//! Hardware profiles: the defaults that an image is built with.
//!
//! Every knob in `config::Paths` / `config::SuperviseTuning` has a built-in default and an
//! environment variable that overrides it at runtime. A *profile* sits between the two: a
//! shell-style `KEY=value` file, keyed by the same variable names, whose values are compiled in.
//! A profile only needs the keys it changes; anything it omits keeps the built-in default.
//!
//! Values are validated here rather than at runtime, because the alternative to failing the build
//! is shipping a robot a binary that warns on every invocation.

use vstd::prelude::*;
use vstd::string::*;

use crate::conf;
use crate::config;
use crate::id::{self, RobotId, RobotIdValidationError};
use crate::order;
use crate::text;

verus! {

pub const PROFILE_VAR: &'static str = "ROBOTCTL_PROFILE";

pub const PROFILE_FILE_VAR: &'static str = "ROBOTCTL_PROFILE_FILE";

pub const PROFILE_DIR: &'static str = "profiles";

#[derive(Debug, Clone, Copy, PartialEq, Eq, Structural)]
pub enum Kind {
    /// Rendered as `&str`. An empty value is rejected: every one of these has a meaningful
    /// default, and `config` treats an empty *environment* value as "unset" for the same reason.
    Str,
    /// Rendered as `&str`, empty allowed, for the knobs where empty means something.
    OptionalStr,
    /// Rendered as `&str`, validated against the `RobotId` rules.
    RobotId,
    /// Rendered as `u8`, validated against the ROS domain ID range.
    RosDomainId,
    /// Rendered as `u32`.
    U32,
}

#[derive(Debug, Clone, Copy)]
pub struct Knob {
    /// The environment variable, which is also the profile key.
    pub var: &'static str,
    /// The constant that holds the default.
    pub konst: &'static str,
    pub kind: Kind,
    /// The built-in default, in the same textual form a profile would write.
    pub value: &'static str,
    pub doc: &'static str,
}

/// Every compiled-in default.
///
/// Platform-neutral on purpose: what is specific to a robot belongs in that robot's profile, not
/// here.
pub open spec fn knob_table() -> Seq<Knob> {
    seq![
        Knob {
            var: "ROBOTCTL_DATA_DIR",
            konst: "DEFAULT_DATA_DIR",
            kind: Kind::Str,
            value: "/data",
            doc: "Partition root. Only `experiments/` hangs off it today.",
        },
        Knob {
            var: "ROBOTCTL_CONFIG_DIR",
            konst: "DEFAULT_CONFIG_DIR",
            kind: Kind::Str,
            value: "/data/robot",
            doc: "The subtree `robotctl` owns: `robot.conf` and `wifi/`.",
        },
        Knob {
            var: "ROBOTCTL_HOSTNAME_PATH",
            konst: "DEFAULT_HOSTNAME_PATH",
            kind: Kind::Str,
            value: "/etc/hostname",
            doc: "Derived output, written and never read back.",
        },
        Knob {
            var: "ROBOTCTL_HOSTS_PATH",
            konst: "DEFAULT_HOSTS_PATH",
            kind: Kind::Str,
            value: "/etc/hosts",
            doc: "Same, for the `127.0.1.1` line.",
        },
        Knob {
            var: "ROBOTCTL_RUN_DIR",
            konst: "DEFAULT_RUN_DIR",
            kind: Kind::Str,
            value: "/run/robot-wifi",
            doc: "Generated hostapd/dnsmasq configs and pidfiles.",
        },
        Knob {
            var: "ROBOTCTL_WIFI_INTERFACE",
            konst: "DEFAULT_WIFI_INTERFACE",
            kind: Kind::Str,
            value: "wlan-ctrl",
            doc: "The WiFi NIC `wifi` drives, in both client and AP mode. Names a role, not a probe order: the image's udev `.link` files are what map it to hardware.",
        },
        Knob {
            var: "ROBOTCTL_WIFI_UNIT",
            konst: "DEFAULT_WIFI_UNIT",
            kind: Kind::Str,
            value: "robotctl-wifi.service",
            doc: "The systemd unit running `robotctl wifi start`. `wifi stop` needs to know what to stop, and `status` reports its health.",
        },
        Knob {
            var: "ROBOTCTL_WIFI_STATE_HOOK",
            konst: "DEFAULT_WIFI_STATE_HOOK",
            kind: Kind::OptionalStr,
            value: "",
            doc: "Command run on every supervisor state change, with the state name as its only argument. Empty -- the platform-neutral default -- runs nothing. This is the whole of what `robotctl` knows about status indicators: what a robot does with the state belongs to that robot's own image.",
        },
        Knob {
            var: "ROBOTCTL_MDNS_UNIT",
            konst: "DEFAULT_MDNS_UNIT",
            kind: Kind::OptionalStr,
            value: "avahi-daemon.service",
            doc: "The mDNS responder to nudge after a hostname change. Empty disables the nudge -- one of the two knobs (with ROBOTCTL_WIFI_STATE_HOOK) where empty does not mean \"use the default\".",
        },
        Knob {
            var: "ROBOTCTL_IMAGE_VERSION_PATH",
            konst: "DEFAULT_IMAGE_VERSION_PATH",
            kind: Kind::Str,
            value: "/etc/robot/image-version",
            doc: "Written into the rootfs at build time by the image recipe, so it describes the slot that is running, not the robot.",
        },
        Knob {
            var: "ROBOTCTL_TRYBOOT_BACKEND",
            konst: "DEFAULT_TRYBOOT_BACKEND",
            kind: Kind::Str,
            value: "/usr/libexec/rauc/tryboot-backend",
            doc: "RAUC's custom bootloader backend. `status` calls only its read-only verbs.",
        },
        Knob {
            var: "ROBOTCTL_DEFAULT_ROBOT_ID",
            konst: "DEFAULT_ROBOT_ID",
            kind: Kind::RobotId,
            value: "unprovisioned",
            doc: "Fallback identity, used only until a `robot.conf` exists.",
        },
        Knob {
            var: "ROBOTCTL_DEFAULT_ROS_DOMAIN_ID",
            konst: "DEFAULT_ROS_DOMAIN_ID",
            kind: Kind::RosDomainId,
            value: "0",
            doc: "Fallback ROS domain ID, same situation.",
        },
        Knob {
            var: "ROBOTCTL_WIFI_CONNECT_TIMEOUT_SEC",
            konst: "DEFAULT_WIFI_CONNECT_TIMEOUT_SEC",
            kind: Kind::U32,
            value: "45",
            doc: "How long one client association + DHCP attempt may take before it counts as failed.",
        },
        Knob {
            var: "ROBOTCTL_WIFI_CLIENT_ATTEMPTS",
            konst: "DEFAULT_WIFI_CLIENT_ATTEMPTS",
            kind: Kind::U32,
            value: "3",
            doc: "Consecutive failed client attempts before giving up and raising the fallback AP.",
        },
        Knob {
            var: "ROBOTCTL_WIFI_RETRY_SEC",
            konst: "DEFAULT_WIFI_RETRY_SEC",
            kind: Kind::U32,
            value: "5",
            doc: "Pause between client attempts within one cycle.",
        },
        Knob {
            var: "ROBOTCTL_WIFI_LINK_POLL_SEC",
            konst: "DEFAULT_WIFI_LINK_POLL_SEC",
            kind: Kind::U32,
            value: "10",
            doc: "How often to re-check that an established client connection is still up.",
        },
        Knob {
            var: "ROBOTCTL_WIFI_AP_RETRY_SEC",
            konst: "DEFAULT_WIFI_AP_RETRY_SEC",
            kind: Kind::U32,
            value: "300",
            doc: "How often to drop the fallback AP and re-try the client network.",
        },
    ]
}

/// Every compiled-in default.
pub fn knobs() -> (r: Vec<Knob>)
    ensures
        r@ == knob_table(),
{
    let mut out: Vec<Knob> = Vec::new();
    out.push(
        Knob {
            var: "ROBOTCTL_DATA_DIR",
            konst: "DEFAULT_DATA_DIR",
            kind: Kind::Str,
            value: "/data",
            doc: "Partition root. Only `experiments/` hangs off it today.",
        },
    );
    out.push(
        Knob {
            var: "ROBOTCTL_CONFIG_DIR",
            konst: "DEFAULT_CONFIG_DIR",
            kind: Kind::Str,
            value: "/data/robot",
            doc: "The subtree `robotctl` owns: `robot.conf` and `wifi/`.",
        },
    );
    out.push(
        Knob {
            var: "ROBOTCTL_HOSTNAME_PATH",
            konst: "DEFAULT_HOSTNAME_PATH",
            kind: Kind::Str,
            value: "/etc/hostname",
            doc: "Derived output, written and never read back.",
        },
    );
    out.push(
        Knob {
            var: "ROBOTCTL_HOSTS_PATH",
            konst: "DEFAULT_HOSTS_PATH",
            kind: Kind::Str,
            value: "/etc/hosts",
            doc: "Same, for the `127.0.1.1` line.",
        },
    );
    out.push(
        Knob {
            var: "ROBOTCTL_RUN_DIR",
            konst: "DEFAULT_RUN_DIR",
            kind: Kind::Str,
            value: "/run/robot-wifi",
            doc: "Generated hostapd/dnsmasq configs and pidfiles.",
        },
    );
    out.push(
        Knob {
            var: "ROBOTCTL_WIFI_INTERFACE",
            konst: "DEFAULT_WIFI_INTERFACE",
            kind: Kind::Str,
            value: "wlan-ctrl",
            doc: "The WiFi NIC `wifi` drives, in both client and AP mode. Names a role, not a probe order: the image's udev `.link` files are what map it to hardware.",
        },
    );
    out.push(
        Knob {
            var: "ROBOTCTL_WIFI_UNIT",
            konst: "DEFAULT_WIFI_UNIT",
            kind: Kind::Str,
            value: "robotctl-wifi.service",
            doc: "The systemd unit running `robotctl wifi start`. `wifi stop` needs to know what to stop, and `status` reports its health.",
        },
    );
    out.push(
        Knob {
            var: "ROBOTCTL_WIFI_STATE_HOOK",
            konst: "DEFAULT_WIFI_STATE_HOOK",
            kind: Kind::OptionalStr,
            value: "",
            doc: "Command run on every supervisor state change, with the state name as its only argument. Empty -- the platform-neutral default -- runs nothing. This is the whole of what `robotctl` knows about status indicators: what a robot does with the state belongs to that robot's own image.",
        },
    );
    out.push(
        Knob {
            var: "ROBOTCTL_MDNS_UNIT",
            konst: "DEFAULT_MDNS_UNIT",
            kind: Kind::OptionalStr,
            value: "avahi-daemon.service",
            doc: "The mDNS responder to nudge after a hostname change. Empty disables the nudge -- one of the two knobs (with ROBOTCTL_WIFI_STATE_HOOK) where empty does not mean \"use the default\".",
        },
    );
    out.push(
        Knob {
            var: "ROBOTCTL_IMAGE_VERSION_PATH",
            konst: "DEFAULT_IMAGE_VERSION_PATH",
            kind: Kind::Str,
            value: "/etc/robot/image-version",
            doc: "Written into the rootfs at build time by the image recipe, so it describes the slot that is running, not the robot.",
        },
    );
    out.push(
        Knob {
            var: "ROBOTCTL_TRYBOOT_BACKEND",
            konst: "DEFAULT_TRYBOOT_BACKEND",
            kind: Kind::Str,
            value: "/usr/libexec/rauc/tryboot-backend",
            doc: "RAUC's custom bootloader backend. `status` calls only its read-only verbs.",
        },
    );
    out.push(
        Knob {
            var: "ROBOTCTL_DEFAULT_ROBOT_ID",
            konst: "DEFAULT_ROBOT_ID",
            kind: Kind::RobotId,
            value: "unprovisioned",
            doc: "Fallback identity, used only until a `robot.conf` exists.",
        },
    );
    out.push(
        Knob {
            var: "ROBOTCTL_DEFAULT_ROS_DOMAIN_ID",
            konst: "DEFAULT_ROS_DOMAIN_ID",
            kind: Kind::RosDomainId,
            value: "0",
            doc: "Fallback ROS domain ID, same situation.",
        },
    );
    out.push(
        Knob {
            var: "ROBOTCTL_WIFI_CONNECT_TIMEOUT_SEC",
            konst: "DEFAULT_WIFI_CONNECT_TIMEOUT_SEC",
            kind: Kind::U32,
            value: "45",
            doc: "How long one client association + DHCP attempt may take before it counts as failed.",
        },
    );
    out.push(
        Knob {
            var: "ROBOTCTL_WIFI_CLIENT_ATTEMPTS",
            konst: "DEFAULT_WIFI_CLIENT_ATTEMPTS",
            kind: Kind::U32,
            value: "3",
            doc: "Consecutive failed client attempts before giving up and raising the fallback AP.",
        },
    );
    out.push(
        Knob {
            var: "ROBOTCTL_WIFI_RETRY_SEC",
            konst: "DEFAULT_WIFI_RETRY_SEC",
            kind: Kind::U32,
            value: "5",
            doc: "Pause between client attempts within one cycle.",
        },
    );
    out.push(
        Knob {
            var: "ROBOTCTL_WIFI_LINK_POLL_SEC",
            konst: "DEFAULT_WIFI_LINK_POLL_SEC",
            kind: Kind::U32,
            value: "10",
            doc: "How often to re-check that an established client connection is still up.",
        },
    );
    out.push(
        Knob {
            var: "ROBOTCTL_WIFI_AP_RETRY_SEC",
            konst: "DEFAULT_WIFI_AP_RETRY_SEC",
            kind: Kind::U32,
            value: "300",
            doc: "How often to drop the fallback AP and re-try the client network.",
        },
    );
    assert(out@ =~= knob_table());
    out
}

/// `value` without the whitespace around it, unless that leaves nothing.
pub open spec fn set_to(value: Option<Seq<char>>) -> Option<Seq<char>> {
    match value {
        Some(value) => if text::trimmed(value).len() > 0 {
            Some(text::trimmed(value))
        } else {
            None
        },
        None => None,
    }
}

fn non_empty(value: Option<&str>) -> (r: Option<String>)
    ensures
        text::opt_view(r) == set_to(conf::opt(value)),
{
    match value {
        Some(value) => {
            let value: String = text::trim(value);
            if value.as_str().is_empty() {
                None
            } else {
                Some(value)
            }
        },
        None => None,
    }
}

/// The index of the last `c` in `s`, or -1 if it holds none.
pub open spec fn last_position(s: Seq<char>, c: char) -> int
    decreases s.len(),
{
    if s.len() == 0 {
        -1
    } else if s.last() == c {
        s.len() - 1
    } else {
        last_position(s.drop_last(), c)
    }
}

proof fn lemma_last_position(s: Seq<char>, c: char)
    ensures
        -1 <= last_position(s, c) < s.len(),
    decreases s.len(),
{
    if s.len() > 0 && s.last() != c {
        lemma_last_position(s.drop_last(), c);
    }
}

/// The number of characters of `s` up to its last `c` and with it: none if it holds no `c`.
fn find_last(s: &str, c: char) -> (r: usize)
    ensures
        r == last_position(s@, c) + 1,
        r <= s@.len(),
{
    proof {
        lemma_last_position(s@, c);
    }
    let chars: Vec<char> = text::to_chars(s);
    let mut to: usize = chars.len();
    assert(s@.take(to as int) =~= s@);
    while to > 0 && chars[to - 1] != c
        invariant
            to <= chars@.len(),
            chars@ == s@,
            last_position(s@, c) == last_position(s@.take(to as int), c),
        decreases to,
    {
        assert(s@.take(to as int).drop_last() =~= s@.take(to - 1));
        to = to - 1;
    }
    to
}

/// The last of the components of a path that counts: an empty one and `.` say nothing.
pub open spec fn last_component(parts: Seq<Seq<char>>) -> Option<Seq<char>>
    decreases parts.len(),
{
    if parts.len() == 0 {
        None
    } else if parts.last().len() > 0 && parts.last() != seq!['.'] {
        Some(parts.last())
    } else {
        last_component(parts.drop_last())
    }
}

/// The name of the file at `path`, if it names one: `..` does not.
pub open spec fn file_name_of(path: Seq<char>) -> Option<Seq<char>> {
    match last_component(text::split_of(path, '/')) {
        Some(name) => if name == seq!['.', '.'] {
            None
        } else {
            Some(name)
        },
        None => None,
    }
}

fn file_name(path: &str) -> (r: Option<String>)
    ensures
        text::opt_view(r) == file_name_of(path@),
{
    proof {
        reveal_strlit(".");
        reveal_strlit("..");
        assert("."@ =~= seq!['.']);
        assert(".."@ =~= seq!['.', '.']);
    }
    let parts: Vec<String> = text::split(path, '/');
    let ghost views = text::views(parts@);
    let mut to: usize = parts.len();
    assert(views.take(to as int) =~= views);
    while to > 0
        invariant
            to <= parts@.len(),
            "."@ == seq!['.'],
            ".."@ == seq!['.', '.'],
            views == text::views(parts@),
            views == text::split_of(path@, '/'),
            last_component(views) == last_component(views.take(to as int)),
        decreases to,
    {
        let part: &str = parts[to - 1].as_str();
        assert(views.take(to as int).last() == part@);
        assert(views.take(to as int).drop_last() =~= views.take(to - 1));
        if !part.is_empty() && !text::same(part, ".") {
            return if text::same(part, "..") {
                None
            } else {
                Some(part.to_owned())
            };
        }
        to = to - 1;
    }
    None
}

/// The name of a file without its extension: a dot at its very start begins none.
pub open spec fn stem_of(name: Seq<char>) -> Seq<char> {
    let dot = last_position(name, '.');
    if dot > 0 {
        name.take(dot)
    } else {
        name
    }
}

/// The extension of a file's name, where it has one.
pub open spec fn extension_of(name: Seq<char>) -> Option<Seq<char>> {
    let dot = last_position(name, '.');
    if dot > 0 {
        Some(name.skip(dot + 1))
    } else {
        None
    }
}

fn file_stem(name: &str) -> (r: String)
    ensures
        r@ == stem_of(name@),
{
    let to: usize = find_last(name, '.');
    if to > 1 {
        assert(name@.subrange(0, to - 1) =~= name@.take(to - 1));
        text::slice(name, 0, to - 1)
    } else {
        name.to_owned()
    }
}

fn has_extension(name: &str, extension: &str) -> (r: bool)
    ensures
        r == (extension_of(name@) == Some(extension@)),
{
    let to: usize = find_last(name, '.');
    if to > 1 {
        let len: usize = name.unicode_len();
        assert(name@.subrange(to as int, len as int) =~= name@.skip(to as int));
        text::same(text::slice(name, to, len).as_str(), extension)
    } else {
        false
    }
}

/// The name of the profile at `path`: `custom` where the path names no file.
pub open spec fn profile_name_at(path: Seq<char>) -> Seq<char> {
    match file_name_of(path) {
        Some(name) => stem_of(name),
        None => "custom"@,
    }
}

/// The name of the profile in the file at `path`, for `--version`.
///
/// `profiles/gopigo.conf` and an out-of-tree `gopigo.conf` both report `gopigo`.
pub fn profile_name_from_path(path: &str) -> (r: String)
    ensures
        r@ == profile_name_at(path@),
{
    match file_name(path) {
        Some(name) => file_stem(name.as_str()),
        None => "custom".to_owned(),
    }
}

/// The profiles among the files of the given names.
pub open spec fn profiles_among(files: Seq<Seq<char>>) -> Seq<Seq<char>>
    decreases files.len(),
{
    if files.len() == 0 {
        Seq::empty()
    } else {
        let before = profiles_among(files.drop_last());
        if extension_of(files.last()) == Some("conf"@) {
            before.push(stem_of(files.last()))
        } else {
            before
        }
    }
}

/// The profiles to choose from, as they are listed for the user.
pub open spec fn available_of(files: Seq<Seq<char>>) -> Seq<char> {
    if profiles_among(files).len() == 0 {
        "none"@
    } else {
        text::joined(order::arranged(profiles_among(files)), ", "@)
    }
}

/// The profiles to choose from, given the names of the files in the profiles' directory.
pub fn available_profiles(files: &Vec<String>) -> (r: String)
    ensures
        r@ == available_of(text::views(files@)),
{
    broadcast use text::lemma_views_push;

    let ghost views = text::views(files@);
    let mut names: Vec<String> = Vec::new();
    let mut i: usize = 0;
    assert(views.take(0) =~= Seq::<Seq<char>>::empty());
    assert(text::views(names@) =~= Seq::<Seq<char>>::empty());
    while i < files.len()
        invariant
            i <= files@.len(),
            views == text::views(files@),
            text::views(names@) == profiles_among(views.take(i as int)),
        decreases files@.len() - i,
    {
        assert(views.take(i + 1).drop_last() =~= views.take(i as int));
        assert(views.take(i + 1).last() == files@[i as int]@);
        if has_extension(files[i].as_str(), "conf") {
            names.push(file_stem(files[i].as_str()));
        }
        i = i + 1;
    }
    assert(views.take(i as int) =~= views);
    if names.len() == 0 {
        return "none".to_owned();
    }
    text::join(&order::sort(names), ", ")
}

/// What a `Profile` holds.
#[verifier::ext_equal]
pub struct ProfileView {
    pub name: Seq<char>,
    pub path: Seq<char>,
    pub origin: Seq<char>,
}

/// A profile that was selected.
#[derive(Debug, Clone, PartialEq, Eq)]
pub struct Profile {
    /// The stem, for `--version`.
    pub name: String,
    pub path: String,
    /// How it was selected.
    pub origin: String,
}

impl View for Profile {
    type V = ProfileView;

    open spec fn view(&self) -> ProfileView {
        ProfileView { name: self.name@, path: self.path@, origin: self.origin@ }
    }
}

/// The contents of an optional profile.
pub open spec fn profile_view(profile: Option<Profile>) -> Option<ProfileView> {
    match profile {
        Some(profile) => Some(profile@),
        None => None,
    }
}

/// Whether a profile's name is a path: a name silently reaching outside the profiles' directory
/// would build something nobody could find again.
pub open spec fn is_path(name: Seq<char>) -> bool {
    name.contains('/') || name.contains('\\') || (name.len() > 0 && name[0] == '.')
}

/// Which profile the two variables select, if they select one; that its file exists is not yet
/// known.
pub open spec fn selected_by(
    name: Option<Seq<char>>,
    file: Option<Seq<char>>,
    root: Seq<char>,
) -> Result<Option<ProfileView>, Seq<char>> {
    match (set_to(name), set_to(file)) {
        (Some(name), Some(file)) => Err(
            PROFILE_VAR@ + "='"@ + name + "' and "@ + PROFILE_FILE_VAR@ + "='"@ + file
                + "' are both set. Pick one -- there is no sensible precedence between \"the profile named X\" and \"the profile at path Y\"."@,
        ),
        (Some(name), None) => if is_path(name) {
            Err(
                PROFILE_VAR@ + "='"@ + name + "' is a path, not a profile name. Use "@
                    + "ROBOTCTL_PROFILE=<name> for profiles/<name>.conf, or ROBOTCTL_PROFILE_FILE for a profile outside this repo."@,
            )
        } else {
            Ok(
                Some(
                    ProfileView {
                        name,
                        path: config::path_below(
                            config::path_below(root, PROFILE_DIR@),
                            name + ".conf"@,
                        ),
                        origin: PROFILE_VAR@,
                    },
                ),
            )
        },
        (None, Some(file)) => Ok(
            Some(
                ProfileView {
                    name: profile_name_at(config::path_below(root, file)),
                    path: config::path_below(root, file),
                    origin: PROFILE_FILE_VAR@,
                },
            ),
        ),
        (None, None) => Ok(None),
    }
}

/// Which profile the two variables select, if they select one: `name` one of the profiles below
/// `root`, `file` one at any path, which is relative to `root`.
pub fn select_profile(name: Option<&str>, file: Option<&str>, root: &str) -> (r: Result<
    Option<Profile>,
    String,
>)
    ensures
        r matches Ok(profile) ==> selected_by(conf::opt(name), conf::opt(file), root@) == Ok::<
            Option<ProfileView>,
            Seq<char>,
        >(profile_view(profile)),
        r matches Err(message) ==> selected_by(conf::opt(name), conf::opt(file), root@) == Err::<
            Option<ProfileView>,
            Seq<char>,
        >(message@),
{
    match (non_empty(name), non_empty(file)) {
        (Some(name), Some(file)) => {
            let head: String = text::cat6(
                PROFILE_VAR,
                "='",
                name.as_str(),
                "' and ",
                PROFILE_FILE_VAR,
                "='",
            );
            Err(
                text::cat3(
                    head.as_str(),
                    file.as_str(),
                    "' are both set. Pick one -- there is no sensible precedence between \"the profile named X\" and \"the profile at path Y\".",
                ),
            )
        },
        (Some(name), None) => {
            let chars: Vec<char> = text::to_chars(name.as_str());
            if text::contains_char(name.as_str(), '/') || text::contains_char(name.as_str(), '\\')
                || (chars.len() > 0 && chars[0] == '.') {
                return Err(
                    text::cat5(
                        PROFILE_VAR,
                        "='",
                        name.as_str(),
                        "' is a path, not a profile name. Use ",
                        "ROBOTCTL_PROFILE=<name> for profiles/<name>.conf, or ROBOTCTL_PROFILE_FILE for a profile outside this repo.",
                    ),
                );
            }
            let path: String = config::join_path(
                config::join_path(root, PROFILE_DIR).as_str(),
                text::cat2(name.as_str(), ".conf").as_str(),
            );
            Ok(Some(Profile { name, path, origin: PROFILE_VAR.to_owned() }))
        },
        (None, Some(file)) => {
            let path: String = config::join_path(root, file.as_str());
            Ok(
                Some(
                    Profile {
                        name: profile_name_from_path(path.as_str()),
                        path,
                        origin: PROFILE_FILE_VAR.to_owned(),
                    },
                ),
            )
        },
        (None, None) => Ok(None),
    }
}

/// What is said of a selected profile whose file does not exist.
pub open spec fn missing_profile(
    name: Option<Seq<char>>,
    file: Option<Seq<char>>,
    path: Seq<char>,
    available: Seq<char>,
) -> Seq<char> {
    match (set_to(name), set_to(file)) {
        (Some(name), _) => {
            PROFILE_VAR@ + "='"@ + name + "' but "@ + path
                + " does not exist. Available profiles: "@ + available + "."@
        },
        (None, Some(file)) => {
            PROFILE_FILE_VAR@ + "='"@ + file + "' does not exist (looked at "@ + path + ")."@
        },
        (None, None) => path + " does not exist."@,
    }
}

/// What to say of a selected profile whose file does not exist.
pub fn describe_missing(
    name: Option<&str>,
    file: Option<&str>,
    profile: &Profile,
    available: &str,
) -> (r: String)
    ensures
        r@ == missing_profile(conf::opt(name), conf::opt(file), profile.path@, available@),
{
    match (non_empty(name), non_empty(file)) {
        (Some(name), _) => {
            let head: String = text::cat6(
                PROFILE_VAR,
                "='",
                name.as_str(),
                "' but ",
                profile.path.as_str(),
                " does not exist. Available profiles: ",
            );
            text::cat3(head.as_str(), available, ".")
        },
        (None, Some(file)) => text::cat6(
            PROFILE_FILE_VAR,
            "='",
            file.as_str(),
            "' does not exist (looked at ",
            profile.path.as_str(),
            ").",
        ),
        (None, None) => text::cat2(profile.path.as_str(), " does not exist."),
    }
}

/// Whether one of the knobs is called `key`.
pub open spec fn is_known(key: Seq<char>) -> bool {
    exists|i: int| 0 <= i < knob_table().len() && #[trigger] knob_table()[i].var@ == key
}

/// The names of the knobs.
pub open spec fn known_keys() -> Seq<Seq<char>> {
    knob_table().map_values(|knob: Knob| knob.var@)
}

fn known(key: &str) -> (r: bool)
    ensures
        r == is_known(key@),
{
    let table: Vec<Knob> = knobs();
    let mut i: usize = 0;
    while i < table.len()
        invariant
            i <= table@.len(),
            table@ == knob_table(),
            forall|j: int| 0 <= j < i ==> #[trigger] knob_table()[j].var@ != key@,
        decreases table@.len() - i,
    {
        if text::same(table[i].var, key) {
            assert(knob_table()[i as int].var@ == key@);
            return true;
        }
        i = i + 1;
    }
    false
}

fn list_keys() -> (r: String)
    ensures
        r@ == text::joined(known_keys(), ", "@),
{
    let table: Vec<Knob> = knobs();
    let mut keys: Vec<String> = Vec::new();
    let mut i: usize = 0;
    while i < table.len()
        invariant
            i <= table@.len(),
            table@ == knob_table(),
            keys@.len() == i,
            forall|j: int| 0 <= j < i ==> (#[trigger] keys@[j])@ == knob_table()[j].var@,
        decreases table@.len() - i,
    {
        keys.push(table[i].var.to_owned());
        i = i + 1;
    }
    assert(text::views(keys@) =~= known_keys());
    text::join(&keys, ", ")
}

/// A setting of a profile, or nothing, or what is wrong with its line.
#[verifier::ext_equal]
pub enum LineView {
    Nothing,
    Setting { key: Seq<char>, value: Seq<char> },
    Wrong { reason: Seq<char> },
}

/// What a line of a profile says.
pub open spec fn line_of(line: Seq<char>) -> LineView {
    let line = text::trimmed(line);
    if line.len() == 0 || line[0] == '#' {
        LineView::Nothing
    } else {
        match text::split_once_of(line, '=') {
            None => LineView::Wrong {
                reason: "'"@ + line + "' is not a KEY=value assignment, a comment, or blank."@,
            },
            Some((key, value)) => if is_known(text::trimmed(key)) {
                LineView::Setting {
                    key: text::trimmed(key),
                    value: conf::unquoted(text::trimmed(value)),
                }
            } else {
                LineView::Wrong {
                    reason: "'"@ + text::trimmed(key)
                        + "' is not a robotctl setting. Known keys: "@ + text::joined(
                        known_keys(),
                        ", "@,
                    ) + "."@,
                }
            },
        }
    }
}

/// The settings on the lines of the profile at `path`, in order, or what is wrong with the first
/// line that is wrong.
pub open spec fn settings_on(lines: Seq<Seq<char>>, path: Seq<char>) -> Result<
    Seq<(Seq<char>, Seq<char>)>,
    Seq<char>,
>
    decreases lines.len(),
{
    if lines.len() == 0 {
        Ok(Seq::empty())
    } else {
        match settings_on(lines.drop_last(), path) {
            Err(message) => Err(message),
            Ok(before) => match line_of(lines.last()) {
                LineView::Nothing => Ok(before),
                LineView::Setting { key, value } => Ok(before.push((key, value))),
                LineView::Wrong { reason } => Err(
                    path + ":"@ + text::decimal(lines.len()) + ": "@ + reason,
                ),
            },
        }
    }
}

proof fn lemma_first_wrong_line_counts(lines: Seq<Seq<char>>, path: Seq<char>, n: int)
    requires
        0 <= n <= lines.len(),
        settings_on(lines.take(n), path) is Err,
    ensures
        settings_on(lines, path) == settings_on(lines.take(n), path),
    decreases lines.len(),
{
    if n == lines.len() {
        assert(lines.take(n) =~= lines);
    } else {
        assert(lines.drop_last().take(n) =~= lines.take(n));
        lemma_first_wrong_line_counts(lines.drop_last(), path, n);
    }
}

/// The contents of each setting of a list.
pub open spec fn setting_views(list: Seq<(String, String)>) -> Seq<(Seq<char>, Seq<char>)> {
    list.map_values(|setting: (String, String)| (setting.0@, setting.1@))
}

/// Reads a line of a profile: a setting, or nothing, or what is wrong with it.
fn read_line(line: &str) -> (r: Result<Option<(String, String)>, String>)
    ensures
        match r {
            Ok(None) => line_of(line@) == LineView::Nothing,
            Ok(Some(setting)) => line_of(line@) == (LineView::Setting {
                key: setting.0@,
                value: setting.1@,
            }),
            Err(reason) => line_of(line@) == (LineView::Wrong { reason: reason@ }),
        },
{
    let line: String = text::trim(line);
    if line.as_str().is_empty() || line.as_str().get_char(0) == '#' {
        return Ok(None);
    }
    match text::split_once(line.as_str(), '=') {
        None => Err(
            text::cat3(
                "'",
                line.as_str(),
                "' is not a KEY=value assignment, a comment, or blank.",
            ),
        ),
        Some((key, value)) => {
            let key: String = text::trim(key.as_str());
            if !known(key.as_str()) {
                return Err(
                    text::cat5(
                        "'",
                        key.as_str(),
                        "' is not a robotctl setting. Known keys: ",
                        list_keys().as_str(),
                        ".",
                    ),
                );
            }
            let value: String = conf::strip_quotes(text::trim(value.as_str()).as_str());
            Ok(Some((key, value)))
        },
    }
}

/// Parses shell-style `KEY=value` text, with the same syntax `conf` accepts at runtime: `#`
/// comments, blank lines, optional surrounding quotes, last assignment wins.
///
/// Stricter in one direction: an unknown key is an error here. At runtime an unknown environment
/// variable is just an environment variable, but in a file whose entire purpose is to set these
/// keys, a key nothing reads is a typo, and a typo that builds is a robot with the wrong defaults.
pub fn read_profile(path: &str, text: &str) -> (r: Result<Vec<(String, String)>, String>)
    ensures
        r matches Ok(settings) ==> settings_on(text::lines_of(text@), path@) == Ok::<
            Seq<(Seq<char>, Seq<char>)>,
            Seq<char>,
        >(setting_views(settings@)),
        r matches Err(message) ==> settings_on(text::lines_of(text@), path@) == Err::<
            Seq<(Seq<char>, Seq<char>)>,
            Seq<char>,
        >(message@),
{
    let lines: Vec<String> = text::lines(text);
    let ghost views = text::views(lines@);
    let mut settings: Vec<(String, String)> = Vec::new();
    let mut i: usize = 0;
    assert(views.take(0) =~= Seq::<Seq<char>>::empty());
    assert(setting_views(settings@) =~= Seq::<(Seq<char>, Seq<char>)>::empty());
    while i < lines.len()
        invariant
            i <= lines@.len(),
            views == text::views(lines@),
            views == text::lines_of(text@),
            settings_on(views.take(i as int), path@) == Ok::<
                Seq<(Seq<char>, Seq<char>)>,
                Seq<char>,
            >(setting_views(settings@)),
        decreases lines@.len() - i,
    {
        assert(views.take(i + 1).drop_last() =~= views.take(i as int));
        assert(views.take(i + 1).last() == lines@[i as int]@);
        let ghost before = setting_views(settings@);
        match read_line(lines[i].as_str()) {
            Ok(None) => {},
            Ok(Some(setting)) => {
                let ghost added = (setting.0@, setting.1@);
                settings.push(setting);
                assert(setting_views(settings@) =~= before.push(added));
            },
            Err(reason) => {
                proof {
                    lemma_first_wrong_line_counts(views, path@, i + 1);
                }
                return Err(
                    text::cat5(
                        path,
                        ":",
                        text::to_decimal(i as u64 + 1).as_str(),
                        ": ",
                        reason.as_str(),
                    ),
                );
            },
        }
        i = i + 1;
    }
    assert(views.take(i as int) =~= views);
    Ok(settings)
}

/// What the last of `settings` for `key` sets it to, if there is one.
pub open spec fn last_setting(settings: Seq<(Seq<char>, Seq<char>)>, key: Seq<char>) -> Option<
    Seq<char>,
>
    decreases settings.len(),
{
    if settings.len() == 0 {
        None
    } else if settings.last().0 == key {
        Some(settings.last().1)
    } else {
        last_setting(settings.drop_last(), key)
    }
}

fn find_setting<'a>(settings: &'a Vec<(String, String)>, key: &str) -> (r: Option<&'a str>)
    ensures
        conf::opt(r) == last_setting(setting_views(settings@), key@),
{
    let ghost views = setting_views(settings@);
    let mut to: usize = settings.len();
    assert(views.take(to as int) =~= views);
    while to > 0
        invariant
            to <= settings@.len(),
            views == setting_views(settings@),
            last_setting(views, key@) == last_setting(views.take(to as int), key@),
        decreases to,
    {
        assert(views.take(to as int).last() == views[to - 1]);
        assert(views.take(to as int).drop_last() =~= views.take(to - 1));
        if text::same(settings[to - 1].0.as_str(), key) {
            return Some(settings[to - 1].1.as_str());
        }
        to = to - 1;
    }
    None
}

/// Every setting of a profile that is read is one that something reads.
pub proof fn a_profile_sets_known_keys(lines: Seq<Seq<char>>, path: Seq<char>, i: int)
    requires
        settings_on(lines, path) is Ok,
        0 <= i < settings_on(lines, path)->Ok_0.len(),
    ensures
        is_known(settings_on(lines, path)->Ok_0[i].0),
    decreases lines.len(),
{
    if lines.len() > 0 {
        let before = settings_on(lines.drop_last(), path)->Ok_0;
        if i < before.len() {
            a_profile_sets_known_keys(lines.drop_last(), path, i);
        }
    }
}

/// What is wrong with a robot's ID in a profile.
pub open spec fn robot_id_reason(fault: RobotIdValidationError) -> Seq<char> {
    match fault {
        RobotIdValidationError::Lowercase { char, pos } => {
            "must be lowercase; found '"@ + seq![char] + "' at position "@ + text::decimal(
                pos as nat,
            ) + "."@
        },
        RobotIdValidationError::InvalidChar { char, pos } => {
            "may only contain letters, digits and hyphens; found '"@ + seq![char]
                + "' at position "@ + text::decimal(pos as nat) + "."@
        },
        RobotIdValidationError::InvalidLength { length } => {
            "must be between 1 and 63 characters long; it is "@ + text::decimal(length as nat)
                + "."@
        },
        RobotIdValidationError::StartsWithHyphen => "must not start or end with a hyphen."@,
        RobotIdValidationError::EndsWithHyphen => "must not start or end with a hyphen."@,
    }
}

/// Why a knob cannot be set to `raw`, if it cannot.
pub open spec fn fault_of(kind: Kind, raw: Seq<char>) -> Option<Seq<char>> {
    match kind {
        Kind::Str => if raw.len() == 0 {
            Some("must not be empty."@)
        } else {
            None
        },
        Kind::OptionalStr => None,
        Kind::RobotId => match id::robot_id_fault(raw) {
            Some(fault) => Some(robot_id_reason(fault)),
            None => None,
        },
        Kind::RosDomainId => match text::number_of(raw, u16::MAX as nat) {
            None => Some("is not an integer."@),
            Some(value) => if value > 232 {
                Some("must be between 0 and 232 inclusive."@)
            } else {
                None
            },
        },
        Kind::U32 => match text::number_of(raw, u32::MAX as nat) {
            None => Some("is not a non-negative integer."@),
            Some(_) => None,
        },
    }
}

/// The literal that a string is written as in source code: what the standard library's `Debug`
/// writes of it.
pub uninterp spec fn debug_text(s: Seq<char>) -> Seq<char>;

/// `std::fmt::Debug` for a string, which writes it as a literal. Which characters are escaped is
/// left to it.
#[verifier::external_body]
fn debug_str(s: &str) -> (r: String)
    ensures
        r@ == debug_text(s@),
{
    format!("{:?}", s)
}

/// The type of a knob's constant.
pub open spec fn type_of(kind: Kind) -> Seq<char> {
    match kind {
        Kind::RosDomainId => "u8"@,
        Kind::U32 => "u32"@,
        _ => "&str"@,
    }
}

/// The literal of a knob's constant, where it can be set to `raw`.
pub open spec fn literal_of(kind: Kind, raw: Seq<char>) -> Seq<char> {
    match kind {
        Kind::RosDomainId => text::decimal(text::number_of(raw, u16::MAX as nat)->0),
        Kind::U32 => text::decimal(text::number_of(raw, u32::MAX as nat)->0),
        _ => debug_text(raw),
    }
}

fn describe_fault(fault: &RobotIdValidationError) -> (r: String)
    ensures
        r@ == robot_id_reason(*fault),
{
    match fault {
        RobotIdValidationError::Lowercase { char, pos } => text::cat5(
            "must be lowercase; found '",
            text::char_str(*char).as_str(),
            "' at position ",
            text::to_decimal(*pos as u64).as_str(),
            ".",
        ),
        RobotIdValidationError::InvalidChar { char, pos } => text::cat5(
            "may only contain letters, digits and hyphens; found '",
            text::char_str(*char).as_str(),
            "' at position ",
            text::to_decimal(*pos as u64).as_str(),
            ".",
        ),
        RobotIdValidationError::InvalidLength { length } => text::cat3(
            "must be between 1 and 63 characters long; it is ",
            text::to_decimal(*length as u64).as_str(),
            ".",
        ),
        RobotIdValidationError::StartsWithHyphen => {
            "must not start or end with a hyphen.".to_owned()
        },
        RobotIdValidationError::EndsWithHyphen => {
            "must not start or end with a hyphen.".to_owned()
        },
    }
}

/// Validates one value and renders it as a literal.
pub fn validate(kind: Kind, raw: &str) -> (r: Result<String, String>)
    ensures
        r is Ok <==> fault_of(kind, raw@) is None,
        r matches Ok(literal) ==> literal@ == literal_of(kind, raw@),
        r matches Err(reason) ==> fault_of(kind, raw@) == Some(reason@),
{
    match kind {
        Kind::Str => {
            if raw.is_empty() {
                return Err("must not be empty.".to_owned());
            }
            Ok(debug_str(raw))
        },
        Kind::OptionalStr => Ok(debug_str(raw)),
        Kind::RobotId => {
            proof {
                id::robot_id_is_valid_or_faulty(raw@);
            }
            match RobotId::new(raw) {
                Ok(_) => Ok(debug_str(raw)),
                Err(fault) => Err(describe_fault(&fault)),
            }
        },
        Kind::RosDomainId => match text::parse_number(raw, u16::MAX as u64) {
            None => Err("is not an integer.".to_owned()),
            Some(value) => if value > 232 {
                Err("must be between 0 and 232 inclusive.".to_owned())
            } else {
                Ok(text::to_decimal(value))
            },
        },
        Kind::U32 => match text::parse_number(raw, u32::MAX as u64) {
            None => Err("is not a non-negative integer.".to_owned()),
            Some(value) => Ok(text::to_decimal(value)),
        },
    }
}

/// What is said of a value that a knob cannot be set to, in the profile at `path` or, where there
/// is none, as a built-in default.
pub open spec fn rejection(
    path: Option<Seq<char>>,
    var: Seq<char>,
    raw: Seq<char>,
    reason: Seq<char>,
) -> Seq<char> {
    match path {
        Some(path) => path + ": "@ + var + "='"@ + raw + "' "@ + reason,
        None => "built-in default for "@ + var + "='"@ + raw + "' "@ + reason,
    }
}

fn reject(path: Option<&str>, var: &str, raw: &str, reason: &str) -> (r: String)
    ensures
        r@ == rejection(conf::opt(path), var@, raw@, reason@),
{
    match path {
        Some(path) => text::cat7(path, ": ", var, "='", raw, "' ", reason),
        None => text::cat6("built-in default for ", var, "='", raw, "' ", reason),
    }
}

/// The definition of a knob's constant.
pub open spec fn definition(
    knob: Knob,
    literal: Seq<char>,
    from_profile: bool,
    profile: Seq<char>,
) -> Seq<char> {
    "/// "@ + knob.doc@ + "\n///\n/// Overridable at runtime with `"@ + knob.var@ + "`. "@ + (
    if from_profile {
        "Set by the `"@ + profile + "` profile."@
    } else {
        "Built-in default."@
    }) + "\npub const "@ + knob.konst@ + ": "@ + type_of(knob.kind) + " = "@ + literal + ";\n\n"@
}

/// The definition of a knob's constant.
pub fn define(knob: &Knob, literal: &str, from_profile: bool, profile: &str) -> (r: String)
    ensures
        r@ == definition(*knob, literal@, from_profile, profile@),
{
    let setter: String = if from_profile {
        text::cat3("Set by the `", profile, "` profile.")
    } else {
        "Built-in default.".to_owned()
    };
    let ty: &str = match knob.kind {
        Kind::RosDomainId => "u8",
        Kind::U32 => "u32",
        _ => "&str",
    };
    let head: String = text::cat6(
        "/// ",
        knob.doc,
        "\n///\n/// Overridable at runtime with `",
        knob.var,
        "`. ",
        setter.as_str(),
    );
    let constant: String = text::cat5(head.as_str(), "\npub const ", knob.konst, ": ", ty);
    text::cat4(constant.as_str(), " = ", literal, ";\n\n")
}

/// What a knob is set to: by the profile, or else by default.
pub open spec fn raw_of(knob: Knob, settings: Seq<(Seq<char>, Seq<char>)>) -> Seq<char> {
    match last_setting(settings, knob.var@) {
        Some(value) => value,
        None => knob.value@,
    }
}

/// The definitions of the first `n` constants, or what is wrong with the first that is wrong.
pub open spec fn definitions(
    n: nat,
    settings: Seq<(Seq<char>, Seq<char>)>,
    path: Option<Seq<char>>,
    profile: Seq<char>,
) -> Result<Seq<char>, Seq<char>>
    decreases n,
{
    if n == 0 {
        Ok(Seq::empty())
    } else {
        let knob = knob_table()[n - 1];
        let raw = raw_of(knob, settings);
        match definitions((n - 1) as nat, settings, path, profile) {
            Err(message) => Err(message),
            Ok(before) => match fault_of(knob.kind, raw) {
                Some(reason) => Err(rejection(path, knob.var@, raw, reason)),
                None => Ok(
                    before + definition(
                        knob,
                        literal_of(knob.kind, raw),
                        last_setting(settings, knob.var@) is Some,
                        profile,
                    ),
                ),
            },
        }
    }
}

proof fn lemma_first_rejection_counts(
    a: nat,
    b: nat,
    settings: Seq<(Seq<char>, Seq<char>)>,
    path: Option<Seq<char>>,
    profile: Seq<char>,
)
    requires
        a <= b,
        definitions(a, settings, path, profile) is Err,
    ensures
        definitions(b, settings, path, profile) == definitions(a, settings, path, profile),
    decreases b,
{
    if a < b {
        lemma_first_rejection_counts(a, (b - 1) as nat, settings, path, profile);
    }
}

/// The name under which an image's defaults go.
pub open spec fn profile_name(profile: Option<ProfileView>) -> Seq<char> {
    match profile {
        Some(profile) => profile.name,
        None => "built-in"@,
    }
}

/// What `--version` says of an image's defaults.
pub open spec fn long_version_of(version: Seq<char>, name: Seq<char>) -> Seq<char> {
    version + " (profile: "@ + name + ")"@
}

/// What `--version` says: the defaults' profile as well as the version, because two images built
/// from the same commit can carry different compiled-in defaults.
pub fn long_version(version: &str, profile: Option<&Profile>) -> (r: String)
    ensures
        r@ == long_version_of(version@, profile_name(borrowed_view(profile))),
{
    let name: &str = match profile {
        Some(profile) => profile.name.as_str(),
        None => "built-in",
    };
    text::cat4(version, " (profile: ", name, ")")
}

/// The lines that open the source of the defaults.
pub open spec fn opening(version: Seq<char>, profile: Option<ProfileView>) -> Seq<char> {
    let source = match profile {
        Some(profile) => profile.path + " (via "@ + profile.origin + ")"@,
        None => "no profile selected"@,
    };
    "// @generated by build.rs -- do not edit.\n// Profile: "@ + profile_name(profile) + "\n// Source:  "@
        + source
        + "\n\n/// Version string for `--version`, naming the profile this binary was built with, because\n/// \"which defaults does the flashed image have\" is otherwise unanswerable from the robot.\npub const LONG_VERSION: &str = "@
        + debug_text(long_version_of(version, profile_name(profile))) + ";\n\n"@
}

/// The source that defines an image's defaults, or what is wrong with one of them.
pub open spec fn source_of(
    version: Seq<char>,
    profile: Option<ProfileView>,
    settings: Seq<(Seq<char>, Seq<char>)>,
) -> Result<Seq<char>, Seq<char>> {
    let path = match profile {
        Some(profile) => Some(profile.path),
        None => None,
    };
    match definitions(knob_table().len(), settings, path, profile_name(profile)) {
        Ok(all) => Ok(opening(version, profile) + all),
        Err(message) => Err(message),
    }
}

/// The contents of an optional profile.
pub open spec fn borrowed_view(profile: Option<&Profile>) -> Option<ProfileView> {
    match profile {
        Some(profile) => Some(profile@),
        None => None,
    }
}

/// The source that defines an image's defaults: those of `profile`, which sets what is in
/// `settings`, and the built-in ones where it sets nothing.
pub fn generate(version: &str, profile: Option<&Profile>, settings: &Vec<(String, String)>) -> (r:
    Result<String, String>)
    ensures
        r matches Ok(source) ==> source_of(
            version@,
            borrowed_view(profile),
            setting_views(settings@),
        ) == Ok::<Seq<char>, Seq<char>>(source@),
        r matches Err(message) ==> source_of(
            version@,
            borrowed_view(profile),
            setting_views(settings@),
        ) == Err::<Seq<char>, Seq<char>>(message@),
{
    let name: &str = match profile {
        Some(profile) => profile.name.as_str(),
        None => "built-in",
    };
    let path: Option<&str> = match profile {
        Some(profile) => Some(profile.path.as_str()),
        None => None,
    };
    let source: String = match profile {
        Some(profile) => text::cat4(
            profile.path.as_str(),
            " (via ",
            profile.origin.as_str(),
            ")",
        ),
        None => "no profile selected".to_owned(),
    };
    let long_version: String = long_version(version, profile);
    let head: String = text::cat7(
        "// @generated by build.rs -- do not edit.\n// Profile: ",
        name,
        "\n// Source:  ",
        source.as_str(),
        "\n\n/// Version string for `--version`, naming the profile this binary was built with, because\n/// \"which defaults does the flashed image have\" is otherwise unanswerable from the robot.\npub const LONG_VERSION: &str = ",
        debug_str(long_version.as_str()).as_str(),
        ";\n\n",
    );
    let ghost views = setting_views(settings@);
    let table: Vec<Knob> = knobs();
    let mut all: String = String::new();
    let mut i: usize = 0;
    assert(all@ =~= Seq::<char>::empty());
    while i < table.len()
        invariant
            i <= table@.len(),
            table@ == knob_table(),
            views == setting_views(settings@),
            name@ == profile_name(borrowed_view(profile)),
            conf::opt(path) == match borrowed_view(profile) {
                Some(profile) => Some(profile.path),
                None => None,
            },
            definitions(i as nat, views, conf::opt(path), name@) == Ok::<Seq<char>, Seq<char>>(
                all@,
            ),
        decreases table@.len() - i,
    {
        let knob: &Knob = &table[i];
        assert(*knob == knob_table()[i as int]);
        let found: Option<&str> = find_setting(settings, knob.var);
        let from_profile: bool = found.is_some();
        let raw: &str = match found {
            Some(raw) => raw,
            None => knob.value,
        };
        match validate(knob.kind, raw) {
            Err(reason) => {
                let message: String = reject(path, knob.var, raw, reason.as_str());
                proof {
                    assert(definitions((i + 1) as nat, views, conf::opt(path), name@) == Err::<
                        Seq<char>,
                        Seq<char>,
                    >(message@));
                    lemma_first_rejection_counts(
                        (i + 1) as nat,
                        knob_table().len(),
                        views,
                        conf::opt(path),
                        name@,
                    );
                }
                return Err(message);
            },
            Ok(literal) => {
                all.append(define(knob, literal.as_str(), from_profile, name).as_str());
            },
        }
        i = i + 1;
    }
    Ok(text::cat2(head.as_str(), all.as_str()))
}

proof fn lemma_small_number(s: Seq<char>)
    requires
        1 <= s.len() <= 3,
        text::all_digits(s),
    ensures
        text::number_of(s, u16::MAX as nat) is Some,
        text::number_of(s, u32::MAX as nat) is Some,
        s.len() == 1 ==> text::number_of(s, u16::MAX as nat)->0 <= 9,
{
    reveal_with_fuel(text::digits_value, 4);
    assert(text::is_digit(s[0]));
    assert(text::is_digit(s[s.len() - 1]));
    assert(text::digits_value(s) <= 999) by {
        if s.len() > 1 {
            assert(s.drop_last().last() == s[s.len() - 2]);
            assert(text::is_digit(s[s.len() - 2]));
        }
        if s.len() > 2 {
            assert(s.drop_last().drop_last().last() == s[0]);
        }
    }
}

/// The built-in defaults are all valid.
pub proof fn builtin_defaults_are_valid(i: int)
    requires
        0 <= i < knob_table().len(),
    ensures
        fault_of(knob_table()[i].kind, knob_table()[i].value@) is None,
{
    reveal_strlit("/data");
    reveal_strlit("/data/robot");
    reveal_strlit("/etc/hostname");
    reveal_strlit("/etc/hosts");
    reveal_strlit("/run/robot-wifi");
    reveal_strlit("wlan-ctrl");
    reveal_strlit("robotctl-wifi.service");
    reveal_strlit("/etc/robot/image-version");
    reveal_strlit("/usr/libexec/rauc/tryboot-backend");
    assert(id::valid_robot_id("unprovisioned"@)) by {
        config::builtin_robot_id_is_valid();
    }
    id::robot_id_is_valid_or_faulty("unprovisioned"@);
    assert(text::number_of("0"@, u16::MAX as nat) is Some && text::number_of(
        "0"@,
        u32::MAX as nat,
    ) is Some) by {
        reveal_strlit("0");
        lemma_small_number("0"@);
    }
    assert(text::number_of("45"@, u16::MAX as nat) is Some && text::number_of(
        "45"@,
        u32::MAX as nat,
    ) is Some) by {
        reveal_strlit("45");
        lemma_small_number("45"@);
    }
    assert(text::number_of("3"@, u16::MAX as nat) is Some && text::number_of(
        "3"@,
        u32::MAX as nat,
    ) is Some) by {
        reveal_strlit("3");
        lemma_small_number("3"@);
    }
    assert(text::number_of("5"@, u16::MAX as nat) is Some && text::number_of(
        "5"@,
        u32::MAX as nat,
    ) is Some) by {
        reveal_strlit("5");
        lemma_small_number("5"@);
    }
    assert(text::number_of("10"@, u16::MAX as nat) is Some && text::number_of(
        "10"@,
        u32::MAX as nat,
    ) is Some) by {
        reveal_strlit("10");
        lemma_small_number("10"@);
    }
    assert(text::number_of("300"@, u16::MAX as nat) is Some && text::number_of(
        "300"@,
        u32::MAX as nat,
    ) is Some) by {
        reveal_strlit("300");
        lemma_small_number("300"@);
    }
    assert(text::number_of("0"@, u16::MAX as nat)->0 <= 9) by {
        reveal_strlit("0");
        lemma_small_number("0"@);
    }
}

proof fn lemma_definitions_without_profile(n: nat, name: Seq<char>)
    requires
        n <= knob_table().len(),
    ensures
        definitions(n, Seq::empty(), None, name) is Ok,
    decreases n,
{
    if n > 0 {
        lemma_definitions_without_profile((n - 1) as nat, name);
        builtin_defaults_are_valid(n - 1);
    }
}

/// Without a profile the defaults can always be generated.
pub proof fn defaults_without_a_profile_are_valid(version: Seq<char>)
    ensures
        source_of(version, None, Seq::empty()) is Ok,
{
    lemma_definitions_without_profile(knob_table().len(), profile_name(None));
}

/// The built-in defaults as an environment would set them: each knob's variable and value.
pub open spec fn builtin_settings() -> Seq<(Seq<char>, Seq<char>)> {
    knob_table().map_values(|knob: Knob| (knob.var@, knob.value@))
}

/// A variable that is set is read, unless one of the same name stands before it.
proof fn lemma_var_at(env: Seq<(Seq<char>, Seq<char>)>, i: int)
    requires
        0 <= i < env.len(),
        forall|j: int| 0 <= j < i ==> (#[trigger] env[j]).0 != env[i].0,
    ensures
        config::var_of(env, env[i].0) == Some(env[i].1),
    decreases i,
{
    if i > 0 {
        let rest = env.drop_first();
        assert forall|j: int| 0 <= j < i - 1 implies (#[trigger] rest[j]).0 != rest[i - 1].0 by {
            assert(rest[j] == env[j + 1]);
        }
        assert(env[0].0 != env[i].0);
        lemma_var_at(rest, i - 1);
    }
}

/// No two knobs have the same variable.
proof fn lemma_vars_differ(i: int, j: int)
    requires
        0 <= j < i < knob_table().len(),
    ensures
        knob_table()[j].var@ != knob_table()[i].var@,
{
    reveal_strlit("ROBOTCTL_DATA_DIR");
    reveal_strlit("ROBOTCTL_CONFIG_DIR");
    reveal_strlit("ROBOTCTL_HOSTNAME_PATH");
    reveal_strlit("ROBOTCTL_HOSTS_PATH");
    reveal_strlit("ROBOTCTL_RUN_DIR");
    reveal_strlit("ROBOTCTL_WIFI_INTERFACE");
    reveal_strlit("ROBOTCTL_WIFI_UNIT");
    reveal_strlit("ROBOTCTL_WIFI_STATE_HOOK");
    reveal_strlit("ROBOTCTL_MDNS_UNIT");
    reveal_strlit("ROBOTCTL_IMAGE_VERSION_PATH");
    reveal_strlit("ROBOTCTL_TRYBOOT_BACKEND");
    reveal_strlit("ROBOTCTL_DEFAULT_ROBOT_ID");
    reveal_strlit("ROBOTCTL_DEFAULT_ROS_DOMAIN_ID");
    reveal_strlit("ROBOTCTL_WIFI_CONNECT_TIMEOUT_SEC");
    reveal_strlit("ROBOTCTL_WIFI_CLIENT_ATTEMPTS");
    reveal_strlit("ROBOTCTL_WIFI_RETRY_SEC");
    reveal_strlit("ROBOTCTL_WIFI_LINK_POLL_SEC");
    reveal_strlit("ROBOTCTL_WIFI_AP_RETRY_SEC");
    // Those of the same length differ in a character.
    assert("ROBOTCTL_CONFIG_DIR"@[9] == 'C');
    assert("ROBOTCTL_HOSTS_PATH"@[9] == 'H');
    assert("ROBOTCTL_WIFI_INTERFACE"@[14] == 'I');
    assert("ROBOTCTL_WIFI_RETRY_SEC"@[14] == 'R');
    assert("ROBOTCTL_WIFI_UNIT"@[9] == 'W');
    assert("ROBOTCTL_MDNS_UNIT"@[9] == 'M');
    assert("ROBOTCTL_WIFI_STATE_HOOK"@[9] == 'W');
    assert("ROBOTCTL_TRYBOOT_BACKEND"@[9] == 'T');
    assert("ROBOTCTL_IMAGE_VERSION_PATH"@[9] == 'I');
    assert("ROBOTCTL_WIFI_LINK_POLL_SEC"@[9] == 'W');
    let table = knob_table();
    assert(table[0].var@ == "ROBOTCTL_DATA_DIR"@);
    assert(table[1].var@ == "ROBOTCTL_CONFIG_DIR"@);
    assert(table[2].var@ == "ROBOTCTL_HOSTNAME_PATH"@);
    assert(table[3].var@ == "ROBOTCTL_HOSTS_PATH"@);
    assert(table[4].var@ == "ROBOTCTL_RUN_DIR"@);
    assert(table[5].var@ == "ROBOTCTL_WIFI_INTERFACE"@);
    assert(table[6].var@ == "ROBOTCTL_WIFI_UNIT"@);
    assert(table[7].var@ == "ROBOTCTL_WIFI_STATE_HOOK"@);
    assert(table[8].var@ == "ROBOTCTL_MDNS_UNIT"@);
    assert(table[9].var@ == "ROBOTCTL_IMAGE_VERSION_PATH"@);
    assert(table[10].var@ == "ROBOTCTL_TRYBOOT_BACKEND"@);
    assert(table[11].var@ == "ROBOTCTL_DEFAULT_ROBOT_ID"@);
    assert(table[12].var@ == "ROBOTCTL_DEFAULT_ROS_DOMAIN_ID"@);
    assert(table[13].var@ == "ROBOTCTL_WIFI_CONNECT_TIMEOUT_SEC"@);
    assert(table[14].var@ == "ROBOTCTL_WIFI_CLIENT_ATTEMPTS"@);
    assert(table[15].var@ == "ROBOTCTL_WIFI_RETRY_SEC"@);
    assert(table[16].var@ == "ROBOTCTL_WIFI_LINK_POLL_SEC"@);
    assert(table[17].var@ == "ROBOTCTL_WIFI_AP_RETRY_SEC"@);
    assert(j == 0 || j == 1 || j == 2 || j == 3 || j == 4 || j == 5 || j == 6 || j == 7 || j == 8 || j == 9 || j == 10 || j == 11 || j == 12 || j == 13 || j == 14 || j == 15 || j == 16);
    assert(i == 1 || i == 2 || i == 3 || i == 4 || i == 5 || i == 6 || i == 7 || i == 8 || i == 9 || i == 10 || i == 11 || i == 12 || i == 13 || i == 14 || i == 15 || i == 16 || i == 17);
}

/// What each knob is set to by default.
proof fn lemma_builtin_setting(i: int)
    requires
        0 <= i < knob_table().len(),
    ensures
        config::var_of(builtin_settings(), knob_table()[i].var@) == Some(knob_table()[i].value@),
{
    let env = builtin_settings();
    assert forall|j: int| 0 <= j < i implies (#[trigger] env[j]).0 != env[i].0 by {
        lemma_vars_differ(i, j);
    }
    lemma_var_at(env, i);
}

/// What has no blank at either end is not trimmed.
proof fn lemma_not_blank(s: Seq<char>)
    requires
        s.len() > 0,
        !text::is_whitespace(s[0]),
        !text::is_whitespace(s[s.len() - 1]),
    ensures
        text::trimmed(s) == s,
{
    assert(text::trim_start_of(s) == s);
    assert(text::trim_end_of(s) == s);
}

/// The number that a short default writes.
proof fn lemma_default_number(s: Seq<char>)
    requires
        1 <= s.len() <= 3,
        text::all_digits(s),
    ensures
        text::number_of(text::trimmed(s), u32::MAX as nat) == Some(text::digits_value(s)),
        s.len() == 1 ==> text::digits_value(s) == text::digit_value(s[0]),
        s.len() == 2 ==> text::digits_value(s) == 10 * text::digit_value(s[0]) + text::digit_value(
            s[1],
        ),
        s.len() == 3 ==> text::digits_value(s) == 100 * text::digit_value(s[0]) + 10
            * text::digit_value(s[1]) + text::digit_value(s[2]),
{
    assert(text::is_digit(s[0]));
    assert(text::is_digit(s[s.len() - 1]));
    lemma_not_blank(s);
    lemma_small_number(s);
    reveal_with_fuel(text::digits_value, 4);
    if s.len() > 1 {
        assert(s.drop_last().last() == s[s.len() - 2]);
    }
    if s.len() > 2 {
        assert(s.drop_last().drop_last().last() == s[0]);
    }
}

/// The paths that the knobs set by default are those that `config` falls back on.
proof fn lemma_path_defaults()
    ensures
        config::paths_of(builtin_settings()) == config::paths_of(Seq::empty()),
{
    lemma_builtin_setting(0);
    lemma_builtin_setting(1);
    lemma_builtin_setting(2);
    lemma_builtin_setting(3);
    lemma_builtin_setting(4);
    lemma_builtin_setting(5);
    lemma_builtin_setting(6);
    lemma_builtin_setting(9);
    lemma_builtin_setting(10);
    lemma_builtin_setting(11);
    lemma_builtin_setting(12);
    assert(text::trimmed("/data"@) == "/data"@ && "/data"@.len() > 0) by {
        reveal_strlit("/data");
        lemma_not_blank("/data"@);
    }
    assert(text::trimmed("/data/robot"@) == "/data/robot"@ && "/data/robot"@.len() > 0) by {
        reveal_strlit("/data/robot");
        lemma_not_blank("/data/robot"@);
    }
    assert(text::trimmed("/etc/hostname"@) == "/etc/hostname"@ && "/etc/hostname"@.len() > 0) by {
        reveal_strlit("/etc/hostname");
        lemma_not_blank("/etc/hostname"@);
    }
    assert(text::trimmed("/etc/hosts"@) == "/etc/hosts"@ && "/etc/hosts"@.len() > 0) by {
        reveal_strlit("/etc/hosts");
        lemma_not_blank("/etc/hosts"@);
    }
    assert(text::trimmed("/run/robot-wifi"@) == "/run/robot-wifi"@ && "/run/robot-wifi"@.len() > 0) by {
        reveal_strlit("/run/robot-wifi");
        lemma_not_blank("/run/robot-wifi"@);
    }
    assert(text::trimmed("wlan-ctrl"@) == "wlan-ctrl"@ && "wlan-ctrl"@.len() > 0) by {
        reveal_strlit("wlan-ctrl");
        lemma_not_blank("wlan-ctrl"@);
    }
    assert(text::trimmed("robotctl-wifi.service"@) == "robotctl-wifi.service"@ && "robotctl-wifi.service"@.len() > 0) by {
        reveal_strlit("robotctl-wifi.service");
        lemma_not_blank("robotctl-wifi.service"@);
    }
    assert(text::trimmed("/etc/robot/image-version"@) == "/etc/robot/image-version"@ && "/etc/robot/image-version"@.len() > 0) by {
        reveal_strlit("/etc/robot/image-version");
        lemma_not_blank("/etc/robot/image-version"@);
    }
    assert(text::trimmed("/usr/libexec/rauc/tryboot-backend"@) == "/usr/libexec/rauc/tryboot-backend"@ && "/usr/libexec/rauc/tryboot-backend"@.len() > 0) by {
        reveal_strlit("/usr/libexec/rauc/tryboot-backend");
        lemma_not_blank("/usr/libexec/rauc/tryboot-backend"@);
    }
    config::builtin_robot_id_is_valid();
    assert(id::ros_domain_of("0"@) == Some(config::DEFAULT_ROS_DOMAIN_ID)) by {
        reveal_strlit("0");
        lemma_default_number("0"@);
    }
}

/// The tuning that the knobs set by default is the one that `config` falls back on.
proof fn lemma_tuning_defaults()
    ensures
        config::tuning_of(builtin_settings()) == config::tuning_of(Seq::empty()),
{
    lemma_builtin_setting(13);
    lemma_builtin_setting(14);
    lemma_builtin_setting(15);
    lemma_builtin_setting(16);
    lemma_builtin_setting(17);
    assert(text::number_of(text::trimmed("45"@), u32::MAX as nat) == Some(45nat)) by {
        reveal_strlit("45");
        lemma_default_number("45"@);
    }
    assert(text::number_of(text::trimmed("3"@), u32::MAX as nat) == Some(3nat)) by {
        reveal_strlit("3");
        lemma_default_number("3"@);
    }
    assert(text::number_of(text::trimmed("5"@), u32::MAX as nat) == Some(5nat)) by {
        reveal_strlit("5");
        lemma_default_number("5"@);
    }
    assert(text::number_of(text::trimmed("10"@), u32::MAX as nat) == Some(10nat)) by {
        reveal_strlit("10");
        lemma_default_number("10"@);
    }
    assert(text::number_of(text::trimmed("300"@), u32::MAX as nat) == Some(300nat)) by {
        reveal_strlit("300");
        lemma_default_number("300"@);
    }
}

/// The knobs hold the defaults that `config` falls back on: an environment that sets each of them
/// to its built-in value is as good as an empty one.
pub proof fn the_knobs_are_the_defaults()
    ensures
        config::paths_of(builtin_settings()) == config::paths_of(Seq::empty()),
        config::tuning_of(builtin_settings()) == config::tuning_of(Seq::empty()),
        config::optional_setting(
            config::var_of(builtin_settings(), "ROBOTCTL_WIFI_STATE_HOOK"@),
            config::DEFAULT_WIFI_STATE_HOOK@,
        ) == config::DEFAULT_WIFI_STATE_HOOK@,
        config::optional_setting(
            config::var_of(builtin_settings(), "ROBOTCTL_MDNS_UNIT"@),
            config::DEFAULT_MDNS_UNIT@,
        ) == config::DEFAULT_MDNS_UNIT@,
{
    lemma_path_defaults();
    lemma_tuning_defaults();
    lemma_builtin_setting(7);
    lemma_builtin_setting(8);
    reveal_strlit("");
    assert(text::trimmed("avahi-daemon.service"@) == "avahi-daemon.service"@) by {
        reveal_strlit("avahi-daemon.service");
        lemma_not_blank("avahi-daemon.service"@);
    }
}

} // verus!
