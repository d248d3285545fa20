//! Robot identity: the robot's hostname and ROS domain ID.
//!
//! Both are stored in `robot.conf` and derived into `/etc/hostname` and `/etc/hosts`, and the
//! running hostname is updated to match. The path to `robot.conf` is
//! [`Paths::robot_conf()`](crate::config::Paths::robot_conf).

use vstd::prelude::*;
use vstd::string::*;

use crate::command::{self, command, Command, CommandView};
use crate::conf;
use crate::config::Paths;
use crate::log;
use crate::systemd;
use crate::text;

verus! {

pub const ROBOT_ID_KEY: &'static str = "ROBOT_ID";

pub const ROS_DOMAIN_ID_KEY: &'static str = "ROS_DOMAIN_ID";

pub const ROS_DOMAIN_ID_MAX: u8 = 232;

#[derive(Debug, Clone)]
pub enum RobotIdValidationError {
    Lowercase { char: char, pos: usize },
    InvalidChar { char: char, pos: usize },
    InvalidLength { length: usize },
    StartsWithHyphen,
    EndsWithHyphen,
}

impl RobotIdValidationError {
    /// What the error tells the user.
    pub open spec fn message(self) -> Seq<char> {
        match self {
            RobotIdValidationError::Lowercase { char, pos } => {
                "Robot ID must be lowercase. Found character '"@ + seq![char] + "' at position "@
                    + text::decimal(pos as nat) + "."@
            },
            RobotIdValidationError::InvalidChar { char, pos } => {
                "Robot ID may only contain letters, digits, and hyphens. Found character '"@
                    + seq![char] + "' at position "@ + text::decimal(pos as nat) + "."@
            },
            RobotIdValidationError::InvalidLength { length } => {
                "Robot ID must be between 1 and 63 characters long. Supplied string has length "@
                    + text::decimal(length as nat) + "."@
            },
            RobotIdValidationError::StartsWithHyphen => "Robot ID must not start with a hyphen."@,
            RobotIdValidationError::EndsWithHyphen => "Robot ID must not end in a hyphen."@,
        }
    }

    /// What the error tells the user.
    pub fn to_string(&self) -> (r: String)
        ensures
            r@ == self.message(),
    {
        match self {
            RobotIdValidationError::Lowercase { char, pos } => text::cat5(
                "Robot ID must be lowercase. Found character '",
                text::char_str(*char).as_str(),
                "' at position ",
                text::to_decimal(*pos as u64).as_str(),
                ".",
            ),
            RobotIdValidationError::InvalidChar { char, pos } => text::cat5(
                "Robot ID may only contain letters, digits, and hyphens. Found character '",
                text::char_str(*char).as_str(),
                "' at position ",
                text::to_decimal(*pos as u64).as_str(),
                ".",
            ),
            RobotIdValidationError::InvalidLength { length } => text::cat3(
                "Robot ID must be between 1 and 63 characters long. Supplied string has length ",
                text::to_decimal(*length as u64).as_str(),
                ".",
            ),
            RobotIdValidationError::StartsWithHyphen => {
                "Robot ID must not start with a hyphen.".to_owned()
            },
            RobotIdValidationError::EndsWithHyphen => "Robot ID must not end in a hyphen.".to_owned(),
        }
    }
}

pub open spec fn is_robot_id_char(c: char) -> bool {
    text::is_lowercase(c) || text::is_digit(c) || c == '-'
}

/// The rules a robot ID obeys:
/// - lowercase letters, digits and hyphens only
/// - between 1 and 63 characters long
/// - no hyphen at the start or the end
pub open spec fn valid_robot_id(id: Seq<char>) -> bool {
    &&& forall|i: int| 0 <= i < id.len() ==> is_robot_id_char(#[trigger] id[i])
    &&& 1 <= id.len() <= 63
    &&& id[0] != '-'
    &&& id.last() != '-'
}

/// Why `id` is no robot ID. The first character that may not stand in one comes before its
/// length and its hyphens; an uppercase letter is told apart from other characters.
pub open spec fn robot_id_fault(id: Seq<char>) -> Option<RobotIdValidationError> {
    let pos = text::position_where(id, |c: char| !is_robot_id_char(c));
    if pos < id.len() {
        let char = id[pos];
        let pos = pos as usize;
        if text::is_uppercase(char) {
            Some(RobotIdValidationError::Lowercase { char, pos })
        } else {
            Some(RobotIdValidationError::InvalidChar { char, pos })
        }
    } else if id.len() == 0 || id.len() > 63 {
        Some(RobotIdValidationError::InvalidLength { length: id.len() as usize })
    } else if id[0] == '-' {
        Some(RobotIdValidationError::StartsWithHyphen)
    } else if id.last() == '-' {
        Some(RobotIdValidationError::EndsWithHyphen)
    } else {
        None
    }
}

/// What has no fault is valid, and what is valid has none.
pub proof fn robot_id_is_valid_or_faulty(id: Seq<char>)
    ensures
        valid_robot_id(id) <==> robot_id_fault(id) is None,
{
    let bad = |c: char| !is_robot_id_char(c);
    text::lemma_position_where(id, bad);
    let pos = text::position_where(id, bad);
    if pos == id.len() {
        assert forall|i: int| 0 <= i < id.len() implies is_robot_id_char(#[trigger] id[i]) by {
            assert(!bad(id[i]));
        }
    } else {
        assert(bad(id[pos]));
    }
}

#[derive(Debug, PartialEq, Eq, Hash)]
pub struct RobotId(String);

impl View for RobotId {
    type V = Seq<char>;

    closed spec fn view(&self) -> Seq<char> {
        self.0@
    }
}

impl Clone for RobotId {
    fn clone(&self) -> (r: Self)
        ensures
            r@ == self@,
    {
        proof {
            use_type_invariant(self);
        }
        RobotId(self.0.clone())
    }
}

impl RobotId {
    #[verifier::type_invariant]
    spec fn wf(self) -> bool {
        valid_robot_id(self.0@)
    }

    /// Validates a string to ensure it is a valid robot ID, according to the following rules:
    /// - Must be lowercase
    /// - May only contain letters, digits, and hyphens
    /// - Must be between 1 and 63 characters long
    /// - Must not start or end with a hyphen
    pub fn new(id: &str) -> (r: Result<Self, RobotIdValidationError>)
        ensures
            r is Ok <==> valid_robot_id(id@),
            r matches Ok(robot_id) ==> robot_id@ == id@,
            r matches Err(err) ==> robot_id_fault(id@) == Some(err),
    {
        let ghost bad = |c: char| !is_robot_id_char(c);
        proof {
            robot_id_is_valid_or_faulty(id@);
        }
        let chars: Vec<char> = text::to_chars(id);
        // Uppercase is told apart so that "GoPiGo-01" reports the more useful "must be lowercase"
        // rather than "invalid character".
        let mut pos: usize = 0;
        while pos < chars.len()
            invariant
                chars@ == id@,
                pos <= chars@.len(),
                bad == (|c: char| !is_robot_id_char(c)),
                forall|i: int| 0 <= i < pos ==> !bad(#[trigger] id@[i]),
                valid_robot_id(id@) <==> robot_id_fault(id@) is None,
            decreases chars@.len() - pos,
        {
            let char: char = chars[pos];
            if text::uppercase(char) {
                proof {
                    text::lemma_position_where_is(id@, bad, pos as int);
                }
                return Err(RobotIdValidationError::Lowercase { char, pos });
            }
            if !text::lowercase(char) && !text::digit(char) && char != '-' {
                proof {
                    text::lemma_position_where_is(id@, bad, pos as int);
                }
                return Err(RobotIdValidationError::InvalidChar { char, pos });
            }
            pos = pos + 1;
        }
        proof {
            text::lemma_position_where_is(id@, bad, pos as int);
        }
        let length: usize = chars.len();
        if length == 0 || length > 63 {
            return Err(RobotIdValidationError::InvalidLength { length });
        }
        if chars[0] == '-' {
            return Err(RobotIdValidationError::StartsWithHyphen);
        }
        if chars[length - 1] == '-' {
            return Err(RobotIdValidationError::EndsWithHyphen);
        }
        Ok(RobotId(id.to_owned()))
    }

    pub fn as_str(&self) -> (r: &str)
        ensures
            r@ == self@,
            valid_robot_id(r@),
    {
        proof {
            use_type_invariant(self);
        }
        self.0.as_str()
    }
}

#[derive(Debug)]
pub enum RosDomainIdValidationError {
    OutOfRange { value: u32 },
    NotAnInteger { value: String },
}

impl Clone for RosDomainIdValidationError {
    fn clone(&self) -> (r: Self)
        ensures
            r == *self,
    {
        match self {
            RosDomainIdValidationError::OutOfRange { value } => {
                RosDomainIdValidationError::OutOfRange { value: *value }
            },
            RosDomainIdValidationError::NotAnInteger { value } => {
                RosDomainIdValidationError::NotAnInteger { value: value.clone() }
            },
        }
    }
}

pub open spec fn out_of_range_message(value: u32) -> Seq<char> {
    "ROS domain ID must be between 0 and "@ + text::decimal(ROS_DOMAIN_ID_MAX as nat)
        + " inclusive. Found "@ + text::decimal(value as nat) + "."@
}

pub open spec fn not_an_integer_message(value: Seq<char>) -> Seq<char> {
    "ROS domain ID must be an integer between 0 and "@ + text::decimal(ROS_DOMAIN_ID_MAX as nat)
        + ". Found '"@ + value + "'."@
}

/// What the user is told of `text` when it names no valid ROS domain ID.
pub open spec fn ros_domain_fault_message(text: Seq<char>) -> Seq<char> {
    match ros_domain_number(text) {
        Some(value) => out_of_range_message(value),
        None => not_an_integer_message(text),
    }
}

impl RosDomainIdValidationError {
    /// What the error tells the user.
    pub open spec fn message(self) -> Seq<char> {
        match self {
            RosDomainIdValidationError::OutOfRange { value } => out_of_range_message(value),
            RosDomainIdValidationError::NotAnInteger { value } => not_an_integer_message(value@),
        }
    }

    /// What the error tells the user.
    pub fn to_string(&self) -> (r: String)
        ensures
            r@ == self.message(),
    {
        let max: String = text::to_decimal(ROS_DOMAIN_ID_MAX as u64);
        match self {
            RosDomainIdValidationError::OutOfRange { value } => text::cat5(
                "ROS domain ID must be between 0 and ",
                max.as_str(),
                " inclusive. Found ",
                text::to_decimal(*value as u64).as_str(),
                ".",
            ),
            RosDomainIdValidationError::NotAnInteger { value } => text::cat5(
                "ROS domain ID must be an integer between 0 and ",
                max.as_str(),
                ". Found '",
                value.as_str(),
                "'.",
            ),
        }
    }
}

/// The valid range is 0..=232, which fits a `u8` exactly.
#[derive(Debug, Clone, Copy, PartialEq, Eq, Hash)]
pub struct RosDomainId(u8);

impl View for RosDomainId {
    type V = u8;

    closed spec fn view(&self) -> u8 {
        self.0
    }
}

/// The number that `text` names as a ROS domain ID, in or out of range: a `u32` in decimal, with
/// whitespace around it or not.
pub open spec fn ros_domain_number(text: Seq<char>) -> Option<u32> {
    match text::number_of(text::trimmed(text), u32::MAX as nat) {
        Some(value) => Some(value as u32),
        None => None,
    }
}

/// The ROS domain ID that `text` names, if it names one that is in range.
pub open spec fn ros_domain_of(text: Seq<char>) -> Option<u8> {
    match ros_domain_number(text) {
        Some(value) if value <= ROS_DOMAIN_ID_MAX => Some(value as u8),
        _ => None,
    }
}

impl RosDomainId {
    #[verifier::type_invariant]
    spec fn wf(self) -> bool {
        self.0 <= ROS_DOMAIN_ID_MAX
    }

    /// Validates a ROS domain ID: must be between 0 and 232 inclusive.
    ///
    /// Values above 101 are valid but risk port collisions with the host OS.
    pub fn new(value: u8) -> (r: Result<Self, RosDomainIdValidationError>)
        ensures
            r is Ok <==> value <= ROS_DOMAIN_ID_MAX,
            r matches Ok(id) ==> id@ == value,
            r matches Err(err) ==> err == (RosDomainIdValidationError::OutOfRange {
                value: value as u32,
            }),
    {
        if value > ROS_DOMAIN_ID_MAX {
            return Err(RosDomainIdValidationError::OutOfRange { value: value as u32 });
        }
        Ok(RosDomainId(value))
    }

    pub fn value(&self) -> (r: u8)
        ensures
            r == self@,
            r <= ROS_DOMAIN_ID_MAX,
    {
        proof {
            use_type_invariant(self);
        }
        self.0
    }

    /// Reads a ROS domain ID from text.
    ///
    /// The number is read as a `u32`, so that an oversized value still reports the range, and stays
    /// distinguishable from text.
    pub fn parse(s: &str) -> (r: Result<Self, RosDomainIdValidationError>)
        ensures
            r is Ok <==> ros_domain_of(s@) is Some,
            r matches Ok(id) ==> ros_domain_of(s@) == Some(id@),
            r matches Err(RosDomainIdValidationError::OutOfRange { value }) ==> ros_domain_number(
                s@,
            ) == Some(value),
            r matches Err(RosDomainIdValidationError::NotAnInteger { value }) ==> ros_domain_number(
                s@,
            ) is None && value@ == s@,
    {
        let trimmed: String = text::trim(s);
        match text::parse_number(trimmed.as_str(), u32::MAX as u64) {
            Some(value) => if value > ROS_DOMAIN_ID_MAX as u64 {
                Err(RosDomainIdValidationError::OutOfRange { value: value as u32 })
            } else {
                Self::new(value as u8)
            },
            None => Err(RosDomainIdValidationError::NotAnInteger { value: s.to_owned() }),
        }
    }

    /// The ID in decimal.
    pub fn to_string(&self) -> (r: String)
        ensures
            r@ == text::decimal(self@ as nat),
    {
        text::to_decimal(self.0 as u64)
    }
}

impl std::str::FromStr for RosDomainId {
    type Err = RosDomainIdValidationError;

    /// Reads a ROS domain ID from text, as `parse` does.
    fn from_str(s: &str) -> (r: Result<Self, Self::Err>)
        ensures
            r is Ok <==> ros_domain_of(s@) is Some,
            r matches Ok(id) ==> ros_domain_of(s@) == Some(id@),
            r matches Err(RosDomainIdValidationError::OutOfRange { value }) ==> ros_domain_number(
                s@,
            ) == Some(value),
            r matches Err(RosDomainIdValidationError::NotAnInteger { value }) ==> ros_domain_number(
                s@,
            ) is None && value@ == s@,
    {
        Self::parse(s)
    }
}

/// The contents of `robot.conf`, resolved against the defaults.
#[derive(Debug, PartialEq, Eq)]
pub struct RobotConfig {
    pub robot_id: RobotId,
    pub ros_domain_id: RosDomainId,
}

impl Clone for RobotConfig {
    fn clone(&self) -> (r: Self)
        ensures
            r.robot_id@ == self.robot_id@,
            r.ros_domain_id == self.ros_domain_id,
    {
        RobotConfig { robot_id: self.robot_id.clone(), ros_domain_id: self.ros_domain_id }
    }
}

/// What `robot.conf` sets `key` to, if there is such a file and it does.
pub open spec fn setting(text: Option<Seq<char>>, key: Seq<char>) -> Option<Seq<char>> {
    match text {
        Some(text) => conf::value_of(text, key),
        None => None,
    }
}

/// The robot ID that `robot.conf` resolves to: its own if that is valid, else the default.
pub open spec fn resolved_robot_id(text: Option<Seq<char>>, default: Seq<char>) -> Seq<char> {
    match setting(text, ROBOT_ID_KEY@) {
        Some(raw) if valid_robot_id(raw) => raw,
        _ => default,
    }
}

/// The ROS domain ID that `robot.conf` resolves to: its own if that is valid, else the default.
pub open spec fn resolved_ros_domain_id(text: Option<Seq<char>>, default: u8) -> u8 {
    match setting(text, ROS_DOMAIN_ID_KEY@) {
        Some(raw) => match ros_domain_of(raw) {
            Some(value) => value,
            None => default,
        },
        None => default,
    }
}

/// Resolves the contents of `robot.conf` (none if there is no such file), falling back to the
/// configured defaults for anything missing or invalid.
pub fn load(paths: &Paths, text: Option<&str>) -> (r: RobotConfig)
    ensures
        r.robot_id@ == resolved_robot_id(conf::opt(text), paths@.default_robot_id),
        r.ros_domain_id@ == resolved_ros_domain_id(
            conf::opt(text),
            paths@.default_ros_domain_id,
        ),
{
    let text: &str = match text {
        Some(text) => text,
        None => {
            return RobotConfig {
                robot_id: paths.default_robot_id().clone(),
                ros_domain_id: paths.default_ros_domain_id(),
            };
        },
    };
    let robot_id: RobotId = match conf::parse_value(text, ROBOT_ID_KEY) {
        None => paths.default_robot_id().clone(),
        Some(raw) => match RobotId::new(raw.as_str()) {
            Ok(robot_id) => robot_id,
            Err(_) => paths.default_robot_id().clone(),
        },
    };
    let ros_domain_id: RosDomainId = match conf::parse_value(text, ROS_DOMAIN_ID_KEY) {
        None => paths.default_ros_domain_id(),
        Some(raw) => match RosDomainId::parse(raw.as_str()) {
            Ok(ros_domain_id) => ros_domain_id,
            Err(_) => paths.default_ros_domain_id(),
        },
    };
    RobotConfig { robot_id, ros_domain_id }
}

/// What `load` has to report: that there is no `robot.conf`, or each setting of it that is
/// invalid and the default taken in its place.
pub open spec fn load_report(paths: crate::config::PathsView, text: Option<Seq<char>>) -> Seq<
    Seq<char>,
> {
    let path = crate::config::path_below(paths.config_dir, "robot.conf"@);
    if text is None {
        seq![
            log::info_line(
                path + " does not exist; using defaults (robot is unprovisioned)"@,
            ),
        ]
    } else {
        robot_id_report(path, setting(text, ROBOT_ID_KEY@), paths.default_robot_id)
            + ros_domain_id_report(
            path,
            setting(text, ROS_DOMAIN_ID_KEY@),
            paths.default_ros_domain_id,
        )
    }
}

pub open spec fn robot_id_report(
    path: Seq<char>,
    raw: Option<Seq<char>>,
    default: Seq<char>,
) -> Seq<Seq<char>> {
    match raw {
        Some(raw) if !valid_robot_id(raw) => seq![
            log::warn_line(
                path + ": invalid ROBOT_ID='"@ + raw + "'. "@ + robot_id_fault(
                    raw,
                ).unwrap().message() + " Using '"@ + default + "'."@,
            ),
        ],
        _ => Seq::empty(),
    }
}

pub open spec fn ros_domain_id_report(
    path: Seq<char>,
    raw: Option<Seq<char>>,
    default: u8,
) -> Seq<Seq<char>> {
    match raw {
        Some(raw) if ros_domain_of(raw) is None => seq![
            log::warn_line(
                path + ": invalid ROS_DOMAIN_ID='"@ + raw + "'. "@ + ros_domain_fault_message(raw)
                    + " Using "@ + text::decimal(default as nat) + "."@,
            ),
        ],
        _ => Seq::empty(),
    }
}

/// The lines to report when `load` resolves `text`.
pub fn load_notices(paths: &Paths, text: Option<&str>) -> (r: Vec<String>)
    ensures
        text::views(r@) == load_report(paths@, conf::opt(text)),
{
    broadcast use text::lemma_views_push;

    let path: String = paths.robot_conf();
    let mut out: Vec<String> = Vec::new();
    assert(text::views(out@) =~= Seq::<Seq<char>>::empty());
    let text: &str = match text {
        Some(text) => text,
        None => {
            let message: String = text::cat2(
                path.as_str(),
                " does not exist; using defaults (robot is unprovisioned)",
            );
            out.push(log::info(message.as_str()));
            assert(text::views(out@) =~= load_report(paths@, None));
            return out;
        },
    };
    if let Some(raw) = conf::parse_value(text, ROBOT_ID_KEY) {
        if let Err(err) = RobotId::new(raw.as_str()) {
            let message: String = text::cat7(
                path.as_str(),
                ": invalid ROBOT_ID='",
                raw.as_str(),
                "'. ",
                err.to_string().as_str(),
                " Using '",
                text::cat2(paths.default_robot_id().as_str(), "'.").as_str(),
            );
            assert(message@ =~= path@ + ": invalid ROBOT_ID='"@ + raw@ + "'. "@ + err.message()
                + " Using '"@ + paths@.default_robot_id + "'."@);
            out.push(log::warn(message.as_str()));
        }
    }
    assert(text::views(out@) =~= robot_id_report(
        path@,
        setting(Some(text@), ROBOT_ID_KEY@),
        paths@.default_robot_id,
    ));
    if let Some(raw) = conf::parse_value(text, ROS_DOMAIN_ID_KEY) {
        if let Err(err) = RosDomainId::parse(raw.as_str()) {
            let message: String = text::cat7(
                path.as_str(),
                ": invalid ROS_DOMAIN_ID='",
                raw.as_str(),
                "'. ",
                err.to_string().as_str(),
                " Using ",
                text::cat2(paths.default_ros_domain_id().to_string().as_str(), ".").as_str(),
            );
            assert(err.message() == ros_domain_fault_message(raw@));
            assert(message@ =~= path@ + ": invalid ROS_DOMAIN_ID='"@ + raw@ + "'. "@
                + err.message() + " Using "@ + text::decimal(paths@.default_ros_domain_id as nat)
                + "."@);
            out.push(log::warn(message.as_str()));
        }
    }
    assert(text::views(out@) =~= load_report(paths@, Some(text@)));
    out
}

pub fn robot_id(paths: &Paths, text: Option<&str>) -> (r: RobotId)
    ensures
        r@ == resolved_robot_id(conf::opt(text), paths@.default_robot_id),
{
    load(paths, text).robot_id
}

pub fn ros_domain_id(paths: &Paths, text: Option<&str>) -> (r: RosDomainId)
    ensures
        r@ == resolved_ros_domain_id(conf::opt(text), paths@.default_ros_domain_id),
{
    load(paths, text).ros_domain_id
}

/// The contents of `robot.conf` with one key set: each line that `load` reads as an assignment of
/// it is replaced, and every other line preserved.
pub fn set_key(existing: Option<&str>, key: &str, value: &str) -> (r: String)
    ensures
        r@ == conf::with_key_set(conf::opt(existing), key@, value@),
{
    conf::set_key(existing, key, value)
}

/// The contents of `robot.conf` with `ROBOT_ID` set.
pub fn set_robot_id(existing: Option<&str>, robot_id: &RobotId) -> (r: String)
    ensures
        r@ == conf::with_key_set(conf::opt(existing), ROBOT_ID_KEY@, robot_id@),
{
    set_key(existing, ROBOT_ID_KEY, robot_id.as_str())
}

/// The contents of `robot.conf` with `ROS_DOMAIN_ID` set.
pub fn set_ros_domain_id(existing: Option<&str>, ros_domain_id: RosDomainId) -> (r: String)
    ensures
        r@ == conf::with_key_set(
            conf::opt(existing),
            ROS_DOMAIN_ID_KEY@,
            text::decimal(ros_domain_id@ as nat),
        ),
{
    set_key(existing, ROS_DOMAIN_ID_KEY, ros_domain_id.to_string().as_str())
}

/// What `/etc/hostname` reads for `robot_id`.
pub open spec fn hostname_file(robot_id: Seq<char>) -> Seq<char> {
    robot_id.push('\n')
}

pub fn render_hostname_file(robot_id: &RobotId) -> (r: String)
    ensures
        r@ == hostname_file(robot_id@),
{
    let mut out: String = robot_id.as_str().to_owned();
    out.push('\n');
    out
}

/// Whether a line of `/etc/hosts` maps 127.0.1.1: the address must be followed by a blank, so
/// 127.0.1.10 is left alone.
pub open spec fn is_hosts_entry(line: Seq<char>) -> bool {
    match text::after_prefix(line, "127.0.1.1"@) {
        Some(rest) => rest.len() > 0 && (rest[0] == ' ' || rest[0] == '\t'),
        None => false,
    }
}

/// The line of `/etc/hosts` that maps 127.0.1.1 to `robot_id`.
pub open spec fn hosts_entry(robot_id: Seq<char>) -> Seq<char> {
    "127.0.1.1\t"@ + robot_id
}

/// What `/etc/hosts` reads for `robot_id`, given what it reads now: each 127.0.1.1 line is
/// rewritten, and appended if absent; a missing file gets a `localhost` line as well.
pub open spec fn hosts_file(existing: Option<Seq<char>>, robot_id: Seq<char>) -> Seq<char> {
    match existing {
        None => "127.0.0.1\tlocalhost\n"@ + hosts_entry(robot_id) + "\n"@,
        Some(text) => text::unlines(
            conf::with_entry(
                text::lines_of(text),
                |line: Seq<char>| is_hosts_entry(line),
                hosts_entry(robot_id),
            ),
        ),
    }
}

fn hosts_entry_line(line: &str) -> (r: bool)
    ensures
        r == is_hosts_entry(line@),
{
    match text::strip_prefix(line, "127.0.1.1") {
        Some(rest) => {
            let chars: Vec<char> = text::to_chars(rest.as_str());
            chars.len() > 0 && (chars[0] == ' ' || chars[0] == '\t')
        },
        None => false,
    }
}

/// Rewrites the `127.0.1.1` line and nothing else, appending it if absent.
///
/// A missing file is materialised with a `localhost` line as well. Every other line is preserved
/// verbatim.
pub fn render_hosts_file(existing: Option<&str>, robot_id: &RobotId) -> (r: String)
    ensures
        r@ == hosts_file(conf::opt(existing), robot_id@),
{
    let entry: String = text::cat2("127.0.1.1\t", robot_id.as_str());
    let existing: &str = match existing {
        None => {
            return text::cat3("127.0.0.1\tlocalhost\n", entry.as_str(), "\n");
        },
        Some(existing) => existing,
    };
    let lines: Vec<String> = text::lines(existing);
    let ghost views = text::views(lines@);
    let ghost is_entry = |line: Seq<char>| is_hosts_entry(line);
    let ghost replaced = views.map_values(
        |line: Seq<char>|
            if is_entry(line) {
                entry@
            } else {
                line
            },
    );
    let mut out: String = String::new();
    let mut found: bool = false;
    let mut i: usize = 0;
    while i < lines.len()
        invariant
            i <= lines@.len(),
            views == text::views(lines@),
            is_entry == (|line: Seq<char>| is_hosts_entry(line)),
            replaced == views.map_values(
                |line: Seq<char>|
                    if is_entry(line) {
                        entry@
                    } else {
                        line
                    },
            ),
            out@ == text::unlines(replaced.take(i as int)),
            found <==> exists|j: int| 0 <= j < i && is_entry(#[trigger] views[j]),
        decreases lines@.len() - i,
    {
        assert(replaced.take(i + 1).drop_last() =~= replaced.take(i as int));
        assert(lines@[i as int]@ == views[i as int]);
        let ghost before = out@;
        if hosts_entry_line(lines[i].as_str()) {
            assert(is_entry(views[i as int]));
            out.append(entry.as_str());
            found = true;
        } else {
            assert(!is_entry(views[i as int]));
            out.append(lines[i].as_str());
        }
        out.push('\n');
        assert(out@ =~= before + replaced[i as int] + seq!['\n']);
        i = i + 1;
    }
    assert(replaced.take(i as int) =~= replaced);
    if !found {
        assert(replaced.push(entry@).drop_last() =~= replaced);
        let ghost before = out@;
        out.append(entry.as_str());
        out.push('\n');
        assert(out@ =~= before + entry@ + seq!['\n']);
    }
    out
}

/// A file to write, and what to report once it is written.
#[derive(Debug, Clone, PartialEq, Eq)]
pub struct FileChange {
    pub path: String,
    pub contents: String,
    pub notice: String,
}

/// What has to be written for the hostname file to name `config`'s robot: nothing if it does.
pub fn hostname_change(paths: &Paths, config: &RobotConfig, current: Option<&str>) -> (r: Option<
    FileChange,
>)
    ensures
        r is None <==> conf::opt(current) == Some(hostname_file(config.robot_id@)),
        r matches Some(change) ==> {
            &&& change.path@ == paths@.hostname_path
            &&& change.contents@ == hostname_file(config.robot_id@)
            &&& change.notice@ == log::info_line(
                paths@.hostname_path + " now reads '"@ + config.robot_id@ + "'"@,
            )
        },
{
    let contents: String = render_hostname_file(&config.robot_id);
    if conf::write_if_changed(current, contents.as_str()) {
        let message: String = text::cat4(
            paths.hostname_path(),
            " now reads '",
            config.robot_id.as_str(),
            "'",
        );
        Some(
            FileChange {
                path: paths.hostname_path().to_owned(),
                contents,
                notice: log::info(message.as_str()),
            },
        )
    } else {
        None
    }
}

/// What has to be written for the hosts file to map 127.0.1.1 to `config`'s robot: nothing if it
/// does.
pub fn hosts_change(paths: &Paths, config: &RobotConfig, current: Option<&str>) -> (r: Option<
    FileChange,
>)
    ensures
        r is None <==> conf::opt(current) == Some(
            hosts_file(conf::opt(current), config.robot_id@),
        ),
        r matches Some(change) ==> {
            &&& change.path@ == paths@.hosts_path
            &&& change.contents@ == hosts_file(conf::opt(current), config.robot_id@)
            &&& change.notice@ == log::info_line(
                paths@.hosts_path + " now maps 127.0.1.1 to '"@ + config.robot_id@ + "'"@,
            )
        },
{
    let contents: String = render_hosts_file(current, &config.robot_id);
    if conf::write_if_changed(current, contents.as_str()) {
        let message: String = text::cat4(
            paths.hosts_path(),
            " now maps 127.0.1.1 to '",
            config.robot_id.as_str(),
            "'",
        );
        Some(
            FileChange {
                path: paths.hosts_path().to_owned(),
                contents,
                notice: log::info(message.as_str()),
            },
        )
    } else {
        None
    }
}

/// Everything that applying an identity does: the files to write, then the commands of which the
/// first that succeeds sets the running hostname.
#[derive(Debug, Clone, PartialEq, Eq)]
pub struct Application {
    pub changes: Vec<FileChange>,
    pub attempts: Vec<Command>,
}

/// Whether `application` is what it takes to apply the robot ID `id`: each of the two files that
/// does not hold what it should is written, the hostname file first, and the running hostname is
/// set.
pub open spec fn applies(
    application: Application,
    paths: crate::config::PathsView,
    id: Seq<char>,
    hostname: Option<Seq<char>>,
    hosts: Option<Seq<char>>,
) -> bool {
    let changes = application.changes@;
    &&& changes.len() == (if hostname == Some(hostname_file(id)) {
        0int
    } else {
        1int
    }) + (if hosts == Some(hosts_file(hosts, id)) {
        0int
    } else {
        1int
    })
    &&& hostname != Some(hostname_file(id)) ==> {
        &&& changes[0].path@ == paths.hostname_path
        &&& changes[0].contents@ == hostname_file(id)
        &&& changes[0].notice@ == log::info_line(
            paths.hostname_path + " now reads '"@ + id + "'"@,
        )
    }
    &&& hosts != Some(hosts_file(hosts, id)) ==> {
        &&& changes.last().path@ == paths.hosts_path
        &&& changes.last().contents@ == hosts_file(hosts, id)
        &&& changes.last().notice@ == log::info_line(
            paths.hosts_path + " now maps 127.0.1.1 to '"@ + id + "'"@,
        )
    }
    &&& command::command_views(application.attempts@) == hostname_commands(id)
}

/// Re-derives every hostname artifact from `config`, then the running hostname.
///
/// Idempotent by construction: files are compared before being written, so the steady-state boot
/// costs zero writes to the rootfs. Safe to run on every boot and by hand at any time. `hostname`
/// and `hosts` are what the two files hold.
pub fn apply(
    paths: &Paths,
    config: &RobotConfig,
    hostname: Option<&str>,
    hosts: Option<&str>,
) -> (r: Application)
    ensures
        applies(r, paths@, config.robot_id@, conf::opt(hostname), conf::opt(hosts)),
{
    let mut changes: Vec<FileChange> = Vec::new();
    if let Some(change) = hostname_change(paths, config, hostname) {
        changes.push(change);
    }
    if let Some(change) = hosts_change(paths, config, hosts) {
        changes.push(change);
    }
    Application { changes, attempts: hostname_attempts(&config.robot_id) }
}

/// What setting an identity value does: the contents `robot.conf` gets, and what is re-derived
/// from them.
#[derive(Debug, Clone, PartialEq, Eq)]
pub struct Update {
    pub contents: String,
    pub application: Application,
}

/// Writes `ROBOT_ID` and re-derives every artifact from it, given what `robot.conf`, the hostname
/// file and the hosts file hold.
pub fn change_robot_id(
    paths: &Paths,
    existing: Option<&str>,
    hostname: Option<&str>,
    hosts: Option<&str>,
    robot_id: &RobotId,
) -> (r: Update)
    ensures
        r.contents@ == conf::with_key_set(conf::opt(existing), ROBOT_ID_KEY@, robot_id@),
        resolved_robot_id(Some(r.contents@), paths@.default_robot_id) == robot_id@,
        applies(r.application, paths@, robot_id@, conf::opt(hostname), conf::opt(hosts)),
{
    let contents: String = set_robot_id(existing, robot_id);
    let valid: &str = robot_id.as_str();
    proof {
        set_robot_id_is_loaded(conf::opt(existing), valid@, paths@.default_robot_id);
    }
    let config: RobotConfig = load(paths, Some(contents.as_str()));
    let application: Application = apply(paths, &config, hostname, hosts);
    Update { contents, application }
}

/// Writes `ROS_DOMAIN_ID` and re-derives every artifact, given what `robot.conf`, the hostname file
/// and the hosts file hold. The robot ID stays what it was.
pub fn change_ros_domain_id(
    paths: &Paths,
    existing: Option<&str>,
    hostname: Option<&str>,
    hosts: Option<&str>,
    ros_domain_id: RosDomainId,
) -> (r: Update)
    ensures
        r.contents@ == conf::with_key_set(
            conf::opt(existing),
            ROS_DOMAIN_ID_KEY@,
            text::decimal(ros_domain_id@ as nat),
        ),
        resolved_ros_domain_id(Some(r.contents@), paths@.default_ros_domain_id) == ros_domain_id@,
        applies(
            r.application,
            paths@,
            resolved_robot_id(conf::opt(existing), paths@.default_robot_id),
            conf::opt(hostname),
            conf::opt(hosts),
        ),
{
    let contents: String = set_ros_domain_id(existing, ros_domain_id);
    let value: u8 = ros_domain_id.value();
    let fallback: &str = paths.default_robot_id().as_str();
    proof {
        set_ros_domain_id_is_loaded(conf::opt(existing), value, paths@.default_ros_domain_id);
        setting_one_keeps_the_other(
            conf::opt(existing),
            fallback@,
            value,
            paths@.default_robot_id,
            paths@.default_ros_domain_id,
        );
    }
    let config: RobotConfig = load(paths, Some(contents.as_str()));
    let application: Application = apply(paths, &config, hostname, hosts);
    Update { contents, application }
}

/// The commands that set the running hostname, the preferred one first.
pub open spec fn hostname_commands(robot_id: Seq<char>) -> Seq<CommandView> {
    seq![
        CommandView {
            program: "hostnamectl"@,
            args: seq!["--transient"@, "set-hostname"@, robot_id],
        },
        CommandView { program: "hostname"@, args: seq![robot_id] },
    ]
}

/// The commands that set the running hostname, the preferred one first.
pub fn hostname_attempts(robot_id: &RobotId) -> (r: Vec<Command>)
    ensures
        command::command_views(r@) == hostname_commands(robot_id@),
{
    let first: Command = command(
        "hostnamectl",
        &["--transient", "set-hostname", robot_id.as_str()],
    );
    let second: Command = command("hostname", &[robot_id.as_str()]);
    assert(first@ =~= hostname_commands(robot_id@)[0]);
    assert(second@ =~= hostname_commands(robot_id@)[1]);
    let mut out: Vec<Command> = Vec::new();
    out.push(first);
    out.push(second);
    assert(command::command_views(out@) =~= hostname_commands(robot_id@));
    out
}

/// What came of one attempt to set the running hostname.
#[derive(Debug, Clone, PartialEq, Eq)]
pub enum AttemptOutcome {
    /// The command ran and exited, with a status that is described in words.
    Exited { success: bool, status: String },
    /// There is no such command.
    NotFound,
    /// The command could not be run for another reason.
    Failed { err: String },
}

/// What to do after the attempts made so far.
#[derive(Debug, Clone, PartialEq, Eq)]
pub enum HostnameStep {
    Run(Command),
    Done,
}

/// The next step, and the lines to report before it is taken.
#[derive(Debug, Clone, PartialEq, Eq)]
pub struct HostnameProgress {
    pub step: HostnameStep,
    pub notices: Vec<String>,
}

pub open spec fn attempt_succeeded(outcome: AttemptOutcome) -> bool {
    outcome matches AttemptOutcome::Exited { success, .. } && success
}

/// What the attempt to run `program` has to report.
pub open spec fn attempt_report(program: Seq<char>, outcome: AttemptOutcome) -> Seq<Seq<char>> {
    match outcome {
        AttemptOutcome::Exited { success, status } => if success {
            Seq::empty()
        } else {
            seq![
                log::warn_line(program + " exited with "@ + status@ + "; trying next fallback"@),
            ]
        },
        AttemptOutcome::NotFound => Seq::empty(),
        AttemptOutcome::Failed { err } => seq![
            log::warn_line("could not run "@ + program + ": "@ + err@),
        ],
    }
}

fn attempt_notices(program: &str, outcome: &AttemptOutcome) -> (r: Vec<String>)
    ensures
        text::views(r@) == attempt_report(program@, *outcome),
{
    broadcast use text::lemma_views_push;

    let mut out: Vec<String> = Vec::new();
    assert(text::views(out@) =~= Seq::<Seq<char>>::empty());
    match outcome {
        AttemptOutcome::Exited { success, status } => {
            if !*success {
                let message: String = text::cat4(
                    program,
                    " exited with ",
                    status.as_str(),
                    "; trying next fallback",
                );
                out.push(log::warn(message.as_str()));
            }
        },
        AttemptOutcome::NotFound => {},
        AttemptOutcome::Failed { err } => {
            let message: String = text::cat4("could not run ", program, ": ", err.as_str());
            out.push(log::warn(message.as_str()));
        },
    }
    assert(text::views(out@) =~= attempt_report(program@, *outcome));
    out
}

/// Sets the *running* hostname only: given what came of the attempts made so far, the next
/// command to run, until one succeeds or none is left.
pub fn apply_runtime_hostname(robot_id: &RobotId, outcomes: &Vec<AttemptOutcome>) -> (r:
    HostnameProgress)
    ensures
        outcomes@.len() == 0 ==> text::views(r.notices@) == Seq::<Seq<char>>::empty(),
        outcomes@.len() == 1 ==> text::views(r.notices@) == attempt_report(
            "hostnamectl"@,
            outcomes@[0],
        ),
        outcomes@.len() >= 2 ==> text::views(r.notices@) == attempt_report(
            "hostname"@,
            outcomes@[1],
        ) + (if attempt_succeeded(outcomes@[1]) {
            Seq::empty()
        } else {
            seq![
                log::warn_line(
                    "Could not update the running hostname. Persistent hostname files were still updated."@,
                ),
            ]
        }),
        match r.step {
            HostnameStep::Run(next) => outcomes@.len() < 2 && !(outcomes@.len() > 0
                && attempt_succeeded(outcomes@[0])) && next@ == hostname_commands(
                robot_id@,
            )[outcomes@.len() as int],
            HostnameStep::Done => outcomes@.len() >= 2 || (outcomes@.len() > 0
                && attempt_succeeded(outcomes@[0])),
        },
{
    broadcast use text::lemma_views_push;

    let mut attempts: Vec<Command> = hostname_attempts(robot_id);
    let ghost all = command::command_views(attempts@);
    assert(all.len() == 2);
    assert(attempts@.len() == 2);
    assert(all[0] == attempts@[0]@ && all[1] == attempts@[1]@);
    if outcomes.len() == 0 {
        let first: Command = attempts.remove(0);
        assert(first@ == all[0]);
        let notices: Vec<String> = Vec::new();
        assert(text::views(notices@) =~= Seq::<Seq<char>>::empty());
        return HostnameProgress { step: HostnameStep::Run(first), notices };
    }
    if outcomes.len() == 1 {
        let notices: Vec<String> = attempt_notices("hostnamectl", &outcomes[0]);
        let succeeded: bool = match &outcomes[0] {
            AttemptOutcome::Exited { success, .. } => *success,
            _ => false,
        };
        if succeeded {
            return HostnameProgress { step: HostnameStep::Done, notices };
        }
        let second: Command = attempts.remove(1);
        assert(second@ == all[1]);
        return HostnameProgress { step: HostnameStep::Run(second), notices };
    }
    let mut notices: Vec<String> = attempt_notices("hostname", &outcomes[1]);
    let succeeded: bool = match &outcomes[1] {
        AttemptOutcome::Exited { success, .. } => *success,
        _ => false,
    };
    if !succeeded {
        notices.push(
            log::warn(
                "Could not update the running hostname. Persistent hostname files were still updated.",
            ),
        );
    }
    assert(text::views(notices@) =~= attempt_report("hostname"@, outcomes@[1]) + (
    if attempt_succeeded(outcomes@[1]) {
        Seq::empty()
    } else {
        seq![
            log::warn_line(
                "Could not update the running hostname. Persistent hostname files were still updated."@,
            ),
        ]
    }));
    HostnameProgress { step: HostnameStep::Done, notices }
}

/// Whether a robot whose hostname read `before` is renamed by `id`.
pub open spec fn renames(before: Option<Seq<char>>, id: Seq<char>) -> bool {
    text::trimmed(conf::text_of(before)) != id
}

/// The command that nudges the mDNS responder `unit` after a hostname change: none where the
/// hostname was `robot_id` before, or where no unit is configured.
pub fn mdns_nudge(before: Option<&str>, robot_id: &RobotId, unit: &str) -> (r: Option<Command>)
    ensures
        r is Some <==> renames(conf::opt(before), robot_id@) && unit@.len() > 0,
        r matches Some(command) ==> command@ == (CommandView {
            program: "systemctl"@,
            args: seq!["--no-block"@, "try-restart"@, unit@],
        }),
{
    proof {
        reveal_strlit("");
        assert(""@ =~= Seq::<char>::empty());
    }
    let before: &str = match before {
        Some(before) => before,
        None => "",
    };
    if text::same(text::trim(before).as_str(), robot_id.as_str()) {
        return None;
    }
    systemd::try_restart_async(unit)
}

/// A robot ID holds no line break, no quotes and no whitespace.
proof fn lemma_robot_id_chars(id: Seq<char>)
    requires
        valid_robot_id(id),
    ensures
        !id.contains('\n'),
        !id.contains('\r'),
        conf::unquoted(text::trimmed(id)) == id,
{
    assert forall|i: int| 0 <= i < id.len() implies id[i] != '\n' && id[i] != '\r' by {
        assert(is_robot_id_char(id[i]));
    }
    assert(is_robot_id_char(id[0]));
    assert(is_robot_id_char(id[id.len() - 1]));
    assert(text::trim_start_of(id) == id);
    assert(text::trim_end_of(id) == id);
}

/// The robot ID that was set is the one that is loaded next, whatever `robot.conf` read before.
pub proof fn set_robot_id_is_loaded(existing: Option<Seq<char>>, id: Seq<char>, default: Seq<char>)
    requires
        valid_robot_id(id),
    ensures
        resolved_robot_id(Some(conf::with_key_set(existing, ROBOT_ID_KEY@, id)), default) == id,
{
    reveal_strlit("ROBOT_ID");
    lemma_robot_id_chars(id);
    conf::set_key_reads_back(existing, ROBOT_ID_KEY@, id);
}

/// The ROS domain ID that was set is the one that is loaded next, whatever `robot.conf` read
/// before.
pub proof fn set_ros_domain_id_is_loaded(existing: Option<Seq<char>>, value: u8, default: u8)
    requires
        value <= ROS_DOMAIN_ID_MAX,
    ensures
        resolved_ros_domain_id(
            Some(conf::with_key_set(existing, ROS_DOMAIN_ID_KEY@, text::decimal(value as nat))),
            default,
        ) == value,
{
    reveal_strlit("ROS_DOMAIN_ID");
    let digits = text::decimal(value as nat);
    text::lemma_decimal_reads_back(value as nat);
    text::lemma_number_round_trip(value as nat, u32::MAX as nat);
    assert(!digits.contains('\n')) by {
        assert forall|i: int| 0 <= i < digits.len() implies digits[i] != '\n' by {
            assert(text::is_digit(digits[i]));
        }
    }
    assert(text::is_digit(digits[0]));
    assert(text::is_digit(digits[digits.len() - 1]));
    assert(text::trim_start_of(digits) == digits);
    assert(text::trim_end_of(digits) == digits);
    conf::set_key_reads_back(existing, ROS_DOMAIN_ID_KEY@, digits);
}

/// Setting the robot ID leaves the ROS domain ID as it was, and the other way round.
pub proof fn setting_one_keeps_the_other(
    existing: Option<Seq<char>>,
    id: Seq<char>,
    value: u8,
    default_id: Seq<char>,
    default_value: u8,
)
    requires
        valid_robot_id(id),
    ensures
        resolved_ros_domain_id(
            Some(conf::with_key_set(existing, ROBOT_ID_KEY@, id)),
            default_value,
        ) == resolved_ros_domain_id(existing, default_value),
        resolved_robot_id(
            Some(conf::with_key_set(existing, ROS_DOMAIN_ID_KEY@, text::decimal(value as nat))),
            default_id,
        ) == resolved_robot_id(existing, default_id),
{
    reveal_strlit("ROBOT_ID");
    reveal_strlit("ROS_DOMAIN_ID");
    assert(ROBOT_ID_KEY@.len() != ROS_DOMAIN_ID_KEY@.len());
    lemma_robot_id_chars(id);
    let digits = text::decimal(value as nat);
    text::lemma_decimal_reads_back(value as nat);
    assert(!digits.contains('\n')) by {
        assert forall|i: int| 0 <= i < digits.len() implies digits[i] != '\n' by {
            assert(text::is_digit(digits[i]));
        }
    }
    conf::set_key_keeps_other_keys(existing, ROBOT_ID_KEY@, id, ROS_DOMAIN_ID_KEY@);
    conf::set_key_keeps_other_keys(existing, ROS_DOMAIN_ID_KEY@, digits, ROBOT_ID_KEY@);
    if existing is None {
        assert(text::lines_of(Seq::<char>::empty()) =~= Seq::<Seq<char>>::empty());
    }
}

/// The lines that the hosts file is put together from.
pub open spec fn hosts_lines(existing: Option<Seq<char>>, id: Seq<char>) -> Seq<Seq<char>> {
    match existing {
        None => seq!["127.0.0.1\tlocalhost"@, hosts_entry(id)],
        Some(text) => conf::with_entry(
            text::lines_of(text),
            |line: Seq<char>| is_hosts_entry(line),
            hosts_entry(id),
        ),
    }
}

/// The entry of a robot is an entry, and one line.
proof fn lemma_hosts_entry(id: Seq<char>)
    requires
        valid_robot_id(id),
    ensures
        is_hosts_entry(hosts_entry(id)),
        !hosts_entry(id).contains('\n'),
        text::without_cr(hosts_entry(id)) == hosts_entry(id),
{
    reveal_strlit("127.0.1.1\t");
    reveal_strlit("127.0.1.1");
    lemma_robot_id_chars(id);
    let entry = hosts_entry(id);
    assert(entry.subrange(0, 9) =~= "127.0.1.1"@);
    assert(entry.skip(9)[0] == '\t');
    assert forall|i: int| 0 <= i < entry.len() implies entry[i] != '\n' by {
        if i >= 10 {
            assert(id.contains(id[i - 10]));
        }
    }
    assert(id.contains(id.last()));
    assert(entry.last() == id.last());
}

proof fn lemma_hosts_lines(existing: Option<Seq<char>>, id: Seq<char>)
    requires
        valid_robot_id(id),
    ensures
        hosts_file(existing, id) == text::unlines(hosts_lines(existing, id)),
        text::lines_of(hosts_file(existing, id)) == hosts_lines(existing, id).map_values(
            |line: Seq<char>| text::without_cr(line),
        ),
{
    let entry = hosts_entry(id);
    let result = hosts_lines(existing, id);
    lemma_hosts_entry(id);
    match existing {
        None => {
            reveal_strlit("127.0.0.1\tlocalhost");
            reveal_strlit("127.0.0.1\tlocalhost\n");
            reveal_strlit("\n");
            reveal_with_fuel(text::unlines, 3);
            assert(result.drop_last() =~= seq!["127.0.0.1\tlocalhost"@]);
            assert(result.drop_last().drop_last() =~= Seq::<Seq<char>>::empty());
            assert(text::unlines(result) =~= hosts_file(existing, id));
        },
        Some(text) => {
            text::lemma_lines_hold_no_line_feed(text);
            let lines = text::lines_of(text);
            assert forall|i: int| 0 <= i < result.len() implies !(
            #[trigger] result[i]).contains('\n') by {
                if i < lines.len() {
                    assert(result[i] == entry || result[i] == lines[i]);
                }
            }
        },
    }
    text::lemma_lines_of_unlines(result);
}

/// Applying a second robot ID to a hosts file leaves what applying it at first would have left:
/// a rename replaces the old entry, and applying the same ID again changes nothing. The file must
/// not hold a line that ends in two carriage returns and is no entry: the first pass keeps one of
/// them, the second none.
pub proof fn hosts_rewrite_replaces(existing: Option<Seq<char>>, a: Seq<char>, b: Seq<char>)
    requires
        valid_robot_id(a),
        valid_robot_id(b),
        existing matches Some(text) ==> forall|i: int|
            0 <= i < text::lines_of(text).len() && !is_hosts_entry(
                #[trigger] text::lines_of(text)[i],
            ) ==> text::without_cr(text::lines_of(text)[i]) == text::lines_of(text)[i],
    ensures
        hosts_file(Some(hosts_file(existing, a)), b) == hosts_file(existing, b),
{
    let is_entry = |line: Seq<char>| is_hosts_entry(line);
    let first = hosts_lines(existing, a);
    let second = hosts_lines(existing, b);
    let read = text::lines_of(hosts_file(existing, a));
    lemma_hosts_lines(existing, a);
    lemma_hosts_lines(existing, b);
    lemma_hosts_entry(a);
    lemma_hosts_entry(b);
    reveal_strlit("127.0.0.1\tlocalhost");
    reveal_strlit("127.0.1.1");
    assert(!is_hosts_entry("127.0.0.1\tlocalhost"@)) by {
        let line = "127.0.0.1\tlocalhost"@;
        assert(line.subrange(0, 9)[6] == '0');
    }
    assert(text::without_cr("127.0.0.1\tlocalhost"@) == "127.0.0.1\tlocalhost"@);
    assert(first.len() == second.len());
    assert forall|i: int| 0 <= i < first.len() implies (if is_entry(#[trigger] read[i]) {
        hosts_entry(b)
    } else {
        read[i]
    }) == second[i] by {
        assert(read[i] == text::without_cr(first[i]));
    }
    assert(exists|i: int| 0 <= i < read.len() && is_entry(#[trigger] read[i])) by {
        match existing {
            None => {
                assert(is_entry(read[1]));
            },
            Some(text) => {
                let lines = text::lines_of(text);
                if exists|i: int| 0 <= i < lines.len() && is_entry(#[trigger] lines[i]) {
                    let i = choose|i: int| 0 <= i < lines.len() && is_entry(#[trigger] lines[i]);
                    assert(first[i] == hosts_entry(a));
                    assert(is_entry(read[i]));
                } else {
                    let i = first.len() - 1;
                    assert(first[i] == hosts_entry(a));
                    assert(is_entry(read[i]));
                }
            },
        }
    }
    assert(conf::with_entry(read, is_entry, hosts_entry(b)) =~= second);
}

/// Applying an identity again changes nothing: both files then hold what would be written, and the
/// steady-state boot costs no writes. What is said of the file in `hosts_rewrite_replaces` holds
/// here too.
pub proof fn applying_again_changes_nothing(existing: Option<Seq<char>>, id: Seq<char>)
    requires
        valid_robot_id(id),
        existing matches Some(text) ==> forall|i: int|
            0 <= i < text::lines_of(text).len() && !is_hosts_entry(
                #[trigger] text::lines_of(text)[i],
            ) ==> text::without_cr(text::lines_of(text)[i]) == text::lines_of(text)[i],
    ensures
        hosts_file(Some(hosts_file(existing, id)), id) == hosts_file(existing, id),
{
    hosts_rewrite_replaces(existing, id, id);
}

/// Rewriting the hosts file leaves every line that is no entry in its place as it reads, and every
/// entry maps to the robot; there is at least one.
pub proof fn hosts_rewrite_touches_only_entries(text: Seq<char>, id: Seq<char>)
    requires
        valid_robot_id(id),
    ensures
        ({
            let before = text::lines_of(text);
            let after = text::lines_of(hosts_file(Some(text), id));
            &&& before.len() <= after.len() <= before.len() + 1
            &&& forall|i: int|
                0 <= i < before.len() ==> #[trigger] after[i] == (if is_hosts_entry(before[i]) {
                    hosts_entry(id)
                } else {
                    text::without_cr(before[i])
                })
            &&& after.len() > before.len() ==> after.last() == hosts_entry(id)
            &&& after.contains(hosts_entry(id))
        }),
{
    let before = text::lines_of(text);
    let after = text::lines_of(hosts_file(Some(text), id));
    let is_entry = |line: Seq<char>| is_hosts_entry(line);
    lemma_hosts_lines(Some(text), id);
    lemma_hosts_entry(id);
    if exists|i: int| 0 <= i < before.len() && is_entry(#[trigger] before[i]) {
        let i = choose|i: int| 0 <= i < before.len() && is_entry(#[trigger] before[i]);
        assert(after[i] == hosts_entry(id));
    } else {
        assert(after[before.len() as int] == hosts_entry(id));
    }
}

} // verus!
