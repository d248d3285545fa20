//! Fallback-AP configuration: loading, validation, and hostapd/dnsmasq generation.

use vstd::prelude::*;
use vstd::string::*;

use crate::command;
use crate::conf;
use crate::config::{self, Paths};
use crate::id::RobotId;
use crate::log;
use crate::text;
use crate::wifi::ipv4::{self, Ipv4Addr};

verus! {

/// 802.11 caps the SSID at 32 octets.
pub const SSID_MAX_BYTES: usize = 32;

/// WPA2-PSK passphrase bounds, from the standard.
pub const PSK_MIN_CHARS: usize = 8;

pub const PSK_MAX_CHARS: usize = 63;

/// `hw_mode=g` is hardcoded in the generated config, so only the 2.4 GHz channels are usable.
pub const CHANNEL_MAX: u8 = 14;

pub const DEFAULT_SSID_SUFFIX: &'static str = "-setup";

pub const DEFAULT_ADDRESS: &'static str = "192.168.50.1";

pub const DEFAULT_NETMASK: &'static str = "255.255.255.0";

pub const DEFAULT_NETMASK_CIDR: &'static str = "24";

pub const DEFAULT_DHCP_RANGE_START: &'static str = "192.168.50.10";

pub const DEFAULT_DHCP_RANGE_END: &'static str = "192.168.50.50";

pub const DEFAULT_DHCP_LEASE_TIME: &'static str = "12h";

pub const DEFAULT_CHANNEL: &'static str = "6";

pub const DEFAULT_COUNTRY: &'static str = "US";

/// What an `ApConfigError` holds.
#[verifier::ext_equal]
pub enum ApErrorView {
    EmptySsid,
    SsidTooLong { ssid: Seq<char>, len: nat },
    PskLength { len: nat },
    ControlCharacter { field: Seq<char> },
    NotAnIpv4Address { field: Seq<char>, value: Seq<char> },
    NotANumber { field: Seq<char>, value: Seq<char> },
    ChannelOutOfRange { channel: u16 },
    CidrOutOfRange { cidr: u16 },
    Empty { field: Seq<char> },
}

impl ApErrorView {
    /// What the error tells the user.
    pub open spec fn message(self) -> Seq<char> {
        match self {
            ApErrorView::EmptySsid => "AP_SSID must not be empty."@,
            ApErrorView::SsidTooLong { ssid, len } => {
                "AP_SSID must be 32 bytes or fewer. '"@ + ssid + "' is "@ + text::decimal(len)
                    + "."@
            },
            ApErrorView::PskLength { len } => {
                "AP_PSK must be between 8 and 63 characters, or empty for an open network. Supplied passphrase is "@
                    + text::decimal(len) + "."@
            },
            ApErrorView::ControlCharacter { field } => {
                field + " must not contain control characters."@
            },
            ApErrorView::NotAnIpv4Address { field, value } => {
                field + "='"@ + value + "' is not a valid IPv4 address."@
            },
            ApErrorView::NotANumber { field, value } => {
                field + "='"@ + value + "' is not a valid number."@
            },
            ApErrorView::ChannelOutOfRange { channel } => {
                "AP_CHANNEL must be between 1 and 14 (the generated config is hw_mode=g, i.e. 2.4 GHz). Found "@
                    + text::decimal(channel as nat) + "."@
            },
            ApErrorView::CidrOutOfRange { cidr } => {
                "AP_NETMASK_CIDR must be between 1 and 32. Found "@ + text::decimal(cidr as nat)
                    + "."@
            },
            ApErrorView::Empty { field } => field + " must not be empty."@,
        }
    }
}

#[derive(Debug, Clone, PartialEq, Eq)]
pub enum ApConfigError {
    EmptySsid,
    SsidTooLong { ssid: String, len: usize },
    PskLength { len: usize },
    /// hostapd's config format is one directive per line, so an embedded newline in a value
    /// read from `fallback-ap.conf` would append arbitrary directives to the generated file.
    ControlCharacter { field: &'static str },
    NotAnIpv4Address { field: &'static str, value: String },
    NotANumber { field: &'static str, value: String },
    ChannelOutOfRange { channel: u16 },
    CidrOutOfRange { cidr: u16 },
    Empty { field: &'static str },
}

impl View for ApConfigError {
    type V = ApErrorView;

    open spec fn view(&self) -> ApErrorView {
        match self {
            ApConfigError::EmptySsid => ApErrorView::EmptySsid,
            ApConfigError::SsidTooLong { ssid, len } => ApErrorView::SsidTooLong {
                ssid: ssid@,
                len: *len as nat,
            },
            ApConfigError::PskLength { len } => ApErrorView::PskLength { len: *len as nat },
            ApConfigError::ControlCharacter { field } => ApErrorView::ControlCharacter {
                field: field@,
            },
            ApConfigError::NotAnIpv4Address { field, value } => ApErrorView::NotAnIpv4Address {
                field: field@,
                value: value@,
            },
            ApConfigError::NotANumber { field, value } => ApErrorView::NotANumber {
                field: field@,
                value: value@,
            },
            ApConfigError::ChannelOutOfRange { channel } => ApErrorView::ChannelOutOfRange {
                channel: *channel,
            },
            ApConfigError::CidrOutOfRange { cidr } => ApErrorView::CidrOutOfRange { cidr: *cidr },
            ApConfigError::Empty { field } => ApErrorView::Empty { field: field@ },
        }
    }
}

impl ApConfigError {
    /// What the error tells the user.
    pub fn to_string(&self) -> (r: String)
        ensures
            r@ == self@.message(),
    {
        match self {
            ApConfigError::EmptySsid => "AP_SSID must not be empty.".to_owned(),
            ApConfigError::SsidTooLong { ssid, len } => text::cat5(
                "AP_SSID must be 32 bytes or fewer. '",
                ssid.as_str(),
                "' is ",
                text::to_decimal(*len as u64).as_str(),
                ".",
            ),
            ApConfigError::PskLength { len } => text::cat3(
                "AP_PSK must be between 8 and 63 characters, or empty for an open network. Supplied passphrase is ",
                text::to_decimal(*len as u64).as_str(),
                ".",
            ),
            ApConfigError::ControlCharacter { field } => text::cat2(
                field,
                " must not contain control characters.",
            ),
            ApConfigError::NotAnIpv4Address { field, value } => text::cat4(
                field,
                "='",
                value.as_str(),
                "' is not a valid IPv4 address.",
            ),
            ApConfigError::NotANumber { field, value } => text::cat4(
                field,
                "='",
                value.as_str(),
                "' is not a valid number.",
            ),
            ApConfigError::ChannelOutOfRange { channel } => text::cat3(
                "AP_CHANNEL must be between 1 and 14 (the generated config is hw_mode=g, i.e. 2.4 GHz). Found ",
                text::to_decimal(*channel as u64).as_str(),
                ".",
            ),
            ApConfigError::CidrOutOfRange { cidr } => text::cat3(
                "AP_NETMASK_CIDR must be between 1 and 32. Found ",
                text::to_decimal(*cidr as u64).as_str(),
                ".",
            ),
            ApConfigError::Empty { field } => text::cat2(field, " must not be empty."),
        }
    }
}

/// How many octets `s` takes in UTF-8.
pub open spec fn octets(s: Seq<char>) -> nat {
    vstd::utf8::encode_utf8(s).len()
}

/// A network's name: not empty, at most 32 octets, no control characters.
pub open spec fn valid_ssid(ssid: Seq<char>) -> bool {
    ssid.len() > 0 && !text::has_control(ssid) && octets(ssid) <= SSID_MAX_BYTES
}

/// Why `ssid` is no network's name: the first of the rules that it breaks.
pub open spec fn ssid_fault(ssid: Seq<char>) -> Option<ApErrorView> {
    if ssid.len() == 0 {
        Some(ApErrorView::EmptySsid)
    } else if text::has_control(ssid) {
        Some(ApErrorView::ControlCharacter { field: "AP_SSID"@ })
    } else if octets(ssid) > SSID_MAX_BYTES {
        Some(ApErrorView::SsidTooLong { ssid, len: octets(ssid) })
    } else {
        None
    }
}

/// A validated SSID: non-empty, at most 32 octets, no control characters.
#[derive(Debug, PartialEq, Eq)]
pub struct Ssid(String);

impl View for Ssid {
    type V = Seq<char>;

    closed spec fn view(&self) -> Seq<char> {
        self.0@
    }
}

impl Clone for Ssid {
    fn clone(&self) -> (r: Self)
        ensures
            r@ == self@,
    {
        proof {
            use_type_invariant(self);
        }
        Ssid(self.0.clone())
    }
}

impl Ssid {
    #[verifier::type_invariant]
    spec fn wf(self) -> bool {
        valid_ssid(self.0@)
    }

    pub fn new(ssid: &str) -> (r: Result<Self, ApConfigError>)
        ensures
            r is Ok <==> valid_ssid(ssid@),
            r matches Ok(name) ==> name@ == ssid@,
            r matches Err(err) ==> ssid_fault(ssid@) == Some(err@),
    {
        if ssid.is_empty() {
            return Err(ApConfigError::EmptySsid);
        }
        if text::contains_control(ssid) {
            return Err(ApConfigError::ControlCharacter { field: "AP_SSID" });
        }
        // Bytes, not characters: the 802.11 limit is 32 octets.
        let len: usize = ssid.as_bytes().len();
        if len > SSID_MAX_BYTES {
            return Err(ApConfigError::SsidTooLong { ssid: ssid.to_owned(), len });
        }
        Ok(Ssid(ssid.to_owned()))
    }

    pub fn as_str(&self) -> (r: &str)
        ensures
            r@ == self@,
            valid_ssid(r@),
    {
        proof {
            use_type_invariant(self);
        }
        self.0.as_str()
    }
}

/// A WPA2 passphrase: 8 to 63 characters, none of them a control character.
pub open spec fn valid_psk(psk: Seq<char>) -> bool {
    PSK_MIN_CHARS <= psk.len() <= PSK_MAX_CHARS && !text::has_control(psk)
}

/// Why `psk` is neither a passphrase nor empty: the first of the rules that it breaks.
pub open spec fn psk_fault(psk: Seq<char>) -> Option<ApErrorView> {
    if psk.len() == 0 {
        None
    } else if text::has_control(psk) {
        Some(ApErrorView::ControlCharacter { field: "AP_PSK"@ })
    } else if !(PSK_MIN_CHARS <= psk.len() <= PSK_MAX_CHARS) {
        Some(ApErrorView::PskLength { len: psk.len() })
    } else {
        None
    }
}

/// A validated WPA2 passphrase.
#[derive(Debug, PartialEq, Eq)]
pub struct Psk(String);

impl View for Psk {
    type V = Seq<char>;

    closed spec fn view(&self) -> Seq<char> {
        self.0@
    }
}

impl Clone for Psk {
    fn clone(&self) -> (r: Self)
        ensures
            r@ == self@,
    {
        proof {
            use_type_invariant(self);
        }
        Psk(self.0.clone())
    }
}

/// The contents of an optional passphrase.
pub open spec fn psk_view(psk: Option<Psk>) -> Option<Seq<char>> {
    match psk {
        Some(psk) => Some(psk@),
        None => None,
    }
}

/// The passphrase that `psk` sets: none if it is empty.
pub open spec fn psk_of(psk: Seq<char>) -> Option<Seq<char>> {
    if psk.len() == 0 {
        None
    } else {
        Some(psk)
    }
}

impl Psk {
    #[verifier::type_invariant]
    spec fn wf(self) -> bool {
        valid_psk(self.0@)
    }

    /// Empty input yields `None`: an open fallback AP, which is the shipped default and
    /// deliberate.
    pub fn parse_optional(psk: &str) -> (r: Result<Option<Self>, ApConfigError>)
        ensures
            r is Ok <==> psk@.len() == 0 || valid_psk(psk@),
            r matches Ok(parsed) ==> psk_view(parsed) == psk_of(psk@),
            r matches Err(err) ==> psk_fault(psk@) == Some(err@),
    {
        if psk.is_empty() {
            return Ok(None);
        }
        if text::contains_control(psk) {
            return Err(ApConfigError::ControlCharacter { field: "AP_PSK" });
        }
        let len: usize = psk.unicode_len();
        if len < PSK_MIN_CHARS || len > PSK_MAX_CHARS {
            return Err(ApConfigError::PskLength { len });
        }
        Ok(Some(Psk(psk.to_owned())))
    }

    pub fn as_str(&self) -> (r: &str)
        ensures
            r@ == self@,
            valid_psk(r@),
    {
        proof {
            use_type_invariant(self);
        }
        self.0.as_str()
    }
}

#[derive(Debug, Clone, Copy, PartialEq, Eq, Structural)]
pub enum ApSecurity {
    Open,
    Wpa2,
}

impl ApSecurity {
    pub open spec fn text(self) -> Seq<char> {
        match self {
            ApSecurity::Open => "open (no passphrase)"@,
            ApSecurity::Wpa2 => "WPA2"@,
        }
    }

    pub fn to_string(&self) -> (r: String)
        ensures
            r@ == self.text(),
    {
        match self {
            ApSecurity::Open => "open (no passphrase)".to_owned(),
            ApSecurity::Wpa2 => "WPA2".to_owned(),
        }
    }
}

/// What an `ApConfig` holds.
#[verifier::ext_equal]
pub struct ApConfigView {
    pub interface: Seq<char>,
    pub ssid: Seq<char>,
    pub psk: Option<Seq<char>>,
    pub address: Ipv4Addr,
    pub netmask: Ipv4Addr,
    pub netmask_cidr: u8,
    pub dhcp_range_start: Ipv4Addr,
    pub dhcp_range_end: Ipv4Addr,
    pub dhcp_lease_time: Seq<char>,
    pub channel: u8,
    pub country: Seq<char>,
}

#[derive(Debug, Clone, PartialEq, Eq)]
pub struct ApConfig {
    pub interface: String,
    pub ssid: Ssid,
    pub psk: Option<Psk>,
    pub address: Ipv4Addr,
    pub netmask: Ipv4Addr,
    pub netmask_cidr: u8,
    pub dhcp_range_start: Ipv4Addr,
    pub dhcp_range_end: Ipv4Addr,
    pub dhcp_lease_time: String,
    pub channel: u8,
    pub country: String,
}

impl View for ApConfig {
    type V = ApConfigView;

    open spec fn view(&self) -> ApConfigView {
        ApConfigView {
            interface: self.interface@,
            ssid: self.ssid@,
            psk: psk_view(self.psk),
            address: self.address,
            netmask: self.netmask,
            netmask_cidr: self.netmask_cidr,
            dhcp_range_start: self.dhcp_range_start,
            dhcp_range_end: self.dhcp_range_end,
            dhcp_lease_time: self.dhcp_lease_time@,
            channel: self.channel,
            country: self.country@,
        }
    }
}

impl ApConfig {
    /// The network is open if and only if it has no passphrase.
    pub fn security(&self) -> (r: ApSecurity)
        ensures
            r == (if self@.psk is Some {
                ApSecurity::Wpa2
            } else {
                ApSecurity::Open
            }),
    {
        match self.psk {
            Some(_) => ApSecurity::Wpa2,
            None => ApSecurity::Open,
        }
    }
}

/// What `text` sets `field` to: an unset key and an explicitly empty one both take the default.
pub open spec fn value_or_default(
    text: Seq<char>,
    field: Seq<char>,
    default: Seq<char>,
) -> Seq<char> {
    match conf::value_of(text, field) {
        Some(value) => if value.len() > 0 {
            value
        } else {
            default
        },
        None => default,
    }
}

/// An unset key and an explicitly empty one both take the default, matching shell's
/// `${AP_FOO:-default}` rather than `${AP_FOO-default}`.
fn value_or(text: &str, field: &str, default: &str) -> (r: String)
    ensures
        r@ == value_or_default(text@, field@, default@),
{
    match conf::parse_value(text, field) {
        Some(value) => if value.as_str().is_empty() {
            default.to_owned()
        } else {
            value
        },
        None => default.to_owned(),
    }
}

/// The address that `text` sets `field` to.
pub open spec fn ipv4_setting(text: Seq<char>, field: Seq<char>, default: Seq<char>) -> Result<
    Ipv4Addr,
    ApErrorView,
> {
    let raw = value_or_default(text, field, default);
    match ipv4::ipv4_of(raw) {
        Some(addr) => Ok(addr),
        None => Err(ApErrorView::NotAnIpv4Address { field, value: raw }),
    }
}

fn ipv4(text: &str, field: &'static str, default: &str) -> (r: Result<Ipv4Addr, ApConfigError>)
    ensures
        r matches Ok(addr) ==> ipv4_setting(text@, field@, default@) == Ok::<
            Ipv4Addr,
            ApErrorView,
        >(addr),
        r matches Err(err) ==> ipv4_setting(text@, field@, default@) == Err::<
            Ipv4Addr,
            ApErrorView,
        >(err@),
{
    let raw: String = value_or(text, field, default);
    match Ipv4Addr::parse(raw.as_str()) {
        Some(addr) => Ok(addr),
        None => Err(ApConfigError::NotAnIpv4Address { field, value: raw }),
    }
}

/// The words that `text` sets `field` to.
pub open spec fn words_setting(text: Seq<char>, field: Seq<char>, default: Seq<char>) -> Result<
    Seq<char>,
    ApErrorView,
> {
    let raw = value_or_default(text, field, default);
    if raw.len() == 0 {
        Err(ApErrorView::Empty { field })
    } else if text::has_control(raw) {
        Err(ApErrorView::ControlCharacter { field })
    } else {
        Ok(raw)
    }
}

fn nonempty(text: &str, field: &'static str, default: &str) -> (r: Result<String, ApConfigError>)
    ensures
        r matches Ok(words) ==> words_setting(text@, field@, default@) == Ok::<
            Seq<char>,
            ApErrorView,
        >(words@),
        r matches Err(err) ==> words_setting(text@, field@, default@) == Err::<
            Seq<char>,
            ApErrorView,
        >(err@),
{
    let raw: String = value_or(text, field, default);
    if raw.as_str().is_empty() {
        return Err(ApConfigError::Empty { field });
    }
    if text::contains_control(raw.as_str()) {
        return Err(ApConfigError::ControlCharacter { field });
    }
    Ok(raw)
}

/// The channel that `text` sets.
pub open spec fn channel_setting(text: Seq<char>) -> Result<u8, ApErrorView> {
    let raw = value_or_default(text, "AP_CHANNEL"@, DEFAULT_CHANNEL@);
    match text::number_of(raw, u16::MAX as nat) {
        None => Err(ApErrorView::NotANumber { field: "AP_CHANNEL"@, value: raw }),
        Some(n) => if 1 <= n <= CHANNEL_MAX {
            Ok(n as u8)
        } else {
            Err(ApErrorView::ChannelOutOfRange { channel: n as u16 })
        },
    }
}

fn channel(text: &str) -> (r: Result<u8, ApConfigError>)
    ensures
        r matches Ok(n) ==> channel_setting(text@) == Ok::<u8, ApErrorView>(n),
        r matches Err(err) ==> channel_setting(text@) == Err::<u8, ApErrorView>(err@),
{
    let raw: String = value_or(text, "AP_CHANNEL", DEFAULT_CHANNEL);
    match text::parse_number(raw.as_str(), u16::MAX as u64) {
        None => Err(ApConfigError::NotANumber { field: "AP_CHANNEL", value: raw }),
        Some(n) => if 1 <= n && n <= CHANNEL_MAX as u64 {
            Ok(n as u8)
        } else {
            Err(ApConfigError::ChannelOutOfRange { channel: n as u16 })
        },
    }
}

/// The width of the netmask that `text` sets.
pub open spec fn cidr_setting(text: Seq<char>) -> Result<u8, ApErrorView> {
    let raw = value_or_default(text, "AP_NETMASK_CIDR"@, DEFAULT_NETMASK_CIDR@);
    match text::number_of(raw, u16::MAX as nat) {
        None => Err(ApErrorView::NotANumber { field: "AP_NETMASK_CIDR"@, value: raw }),
        Some(n) => if 1 <= n <= 32 {
            Ok(n as u8)
        } else {
            Err(ApErrorView::CidrOutOfRange { cidr: n as u16 })
        },
    }
}

fn cidr(text: &str) -> (r: Result<u8, ApConfigError>)
    ensures
        r matches Ok(n) ==> cidr_setting(text@) == Ok::<u8, ApErrorView>(n),
        r matches Err(err) ==> cidr_setting(text@) == Err::<u8, ApErrorView>(err@),
{
    let raw: String = value_or(text, "AP_NETMASK_CIDR", DEFAULT_NETMASK_CIDR);
    match text::parse_number(raw.as_str(), u16::MAX as u64) {
        None => Err(ApConfigError::NotANumber { field: "AP_NETMASK_CIDR", value: raw }),
        Some(n) => if 1 <= n && n <= 32 {
            Ok(n as u8)
        } else {
            Err(ApConfigError::CidrOutOfRange { cidr: n as u16 })
        },
    }
}

/// What an `ApLoadError` holds.
#[verifier::ext_equal]
pub struct ApLoadErrorView {
    pub context: Option<Seq<char>>,
    pub source: ApErrorView,
}

impl ApLoadErrorView {
    /// What the error tells the user.
    pub open spec fn message(self) -> Seq<char> {
        match self.context {
            Some(context) => context + ": "@ + self.source.message(),
            None => self.source.message(),
        }
    }
}

/// Why `fallback-ap.conf` could not be loaded.
#[derive(Debug, Clone, PartialEq, Eq)]
pub struct ApLoadError {
    /// What was being done, where that is not plain from the error itself.
    pub context: Option<String>,
    pub source: ApConfigError,
}

impl View for ApLoadError {
    type V = ApLoadErrorView;

    open spec fn view(&self) -> ApLoadErrorView {
        ApLoadErrorView {
            context: match self.context {
                Some(context) => Some(context@),
                None => None,
            },
            source: self.source@,
        }
    }
}

impl ApLoadError {
    /// What the error tells the user.
    pub fn to_string(&self) -> (r: String)
        ensures
            r@ == self@.message(),
    {
        match &self.context {
            Some(context) => text::cat3(
                context.as_str(),
                ": ",
                self.source.to_string().as_str(),
            ),
            None => self.source.to_string(),
        }
    }
}

/// An error that speaks for itself.
pub open spec fn plain(source: ApErrorView) -> ApLoadErrorView {
    ApLoadErrorView { context: None, source }
}

fn bare(source: ApConfigError) -> (r: ApLoadError)
    ensures
        r@ == plain(source@),
{
    ApLoadError { context: None, source }
}

/// What is appended to the robot's ID where no network's name is set.
pub open spec fn suffix_setting(text: Seq<char>) -> Seq<char> {
    match conf::value_of(text, "AP_SSID_SUFFIX"@) {
        Some(suffix) => suffix,
        None => DEFAULT_SSID_SUFFIX@,
    }
}

/// The network's name that `text` sets, or else the one derived from `robot_id`.
pub open spec fn ssid_setting(text: Seq<char>, robot_id: Seq<char>) -> Result<
    Seq<char>,
    ApLoadErrorView,
> {
    let explicit = value_or_default(text, "AP_SSID"@, Seq::empty());
    if explicit.len() > 0 {
        match ssid_fault(explicit) {
            None => Ok(explicit),
            Some(source) => Err(plain(source)),
        }
    } else {
        let suffix = suffix_setting(text);
        let derived = robot_id + suffix;
        match ssid_fault(derived) {
            None => Ok(derived),
            Some(source) => Err(
                ApLoadErrorView {
                    context: Some(
                        "deriving the fallback AP SSID from ROBOT_ID='"@ + robot_id
                            + "' and AP_SSID_SUFFIX='"@ + suffix + "'"@,
                    ),
                    source,
                },
            ),
        }
    }
}

fn ssid(text: &str, robot_id: &RobotId) -> (r: Result<Ssid, ApLoadError>)
    ensures
        r matches Ok(ssid) ==> ssid_setting(text@, robot_id@) == Ok::<Seq<char>, ApLoadErrorView>(
            ssid@,
        ),
        r matches Err(err) ==> ssid_setting(text@, robot_id@) == Err::<Seq<char>, ApLoadErrorView>(
            err@,
        ),
{
    proof {
        reveal_strlit("");
        assert(""@ =~= Seq::<char>::empty());
    }
    // Both unset and explicitly empty fall through to the derived name, matching the shipped
    // fallback-ap.conf, which sets AP_SSID="" and relies on this.
    let explicit: String = value_or(text, "AP_SSID", "");
    if !explicit.as_str().is_empty() {
        return match Ssid::new(explicit.as_str()) {
            Ok(ssid) => Ok(ssid),
            Err(source) => Err(bare(source)),
        };
    }
    let suffix: String = match conf::parse_value(text, "AP_SSID_SUFFIX") {
        Some(suffix) => suffix,
        None => DEFAULT_SSID_SUFFIX.to_owned(),
    };
    let derived: String = text::cat2(robot_id.as_str(), suffix.as_str());
    match Ssid::new(derived.as_str()) {
        Ok(ssid) => Ok(ssid),
        Err(source) => Err(
            ApLoadError {
                context: Some(
                    text::cat5(
                        "deriving the fallback AP SSID from ROBOT_ID='",
                        robot_id.as_str(),
                        "' and AP_SSID_SUFFIX='",
                        suffix.as_str(),
                        "'",
                    ),
                ),
                source,
            },
        ),
    }
}

/// What `text` sets the passphrase to, before it is looked at.
pub open spec fn raw_psk(text: Seq<char>) -> Seq<char> {
    conf::text_of(conf::value_of(text, "AP_PSK"@))
}

/// The first thing that is wrong with `text`, where anything is.
pub open spec fn ap_fault(text: Seq<char>, robot_id: Seq<char>) -> Option<ApLoadErrorView> {
    let address = ipv4_setting(text, "AP_ADDRESS"@, DEFAULT_ADDRESS@);
    let netmask = ipv4_setting(text, "AP_NETMASK"@, DEFAULT_NETMASK@);
    let start = ipv4_setting(text, "AP_DHCP_RANGE_START"@, DEFAULT_DHCP_RANGE_START@);
    let end = ipv4_setting(text, "AP_DHCP_RANGE_END"@, DEFAULT_DHCP_RANGE_END@);
    let lease = words_setting(text, "AP_DHCP_LEASE_TIME"@, DEFAULT_DHCP_LEASE_TIME@);
    let country = words_setting(text, "AP_COUNTRY"@, DEFAULT_COUNTRY@);
    if let Err(err) = ssid_setting(text, robot_id) {
        Some(err)
    } else if let Some(err) = psk_fault(raw_psk(text)) {
        Some(plain(err))
    } else if let Err(err) = address {
        Some(plain(err))
    } else if let Err(err) = netmask {
        Some(plain(err))
    } else if let Err(err) = cidr_setting(text) {
        Some(plain(err))
    } else if let Err(err) = start {
        Some(plain(err))
    } else if let Err(err) = end {
        Some(plain(err))
    } else if let Err(err) = lease {
        Some(plain(err))
    } else if let Err(err) = channel_setting(text) {
        Some(plain(err))
    } else if let Err(err) = country {
        Some(plain(err))
    } else {
        None
    }
}

/// What `text` configures, where nothing is wrong with it.
pub open spec fn ap_config_of(
    text: Seq<char>,
    interface: Seq<char>,
    robot_id: Seq<char>,
) -> ApConfigView {
    ApConfigView {
        interface,
        ssid: ssid_setting(text, robot_id)->Ok_0,
        psk: psk_of(raw_psk(text)),
        address: ipv4_setting(text, "AP_ADDRESS"@, DEFAULT_ADDRESS@)->Ok_0,
        netmask: ipv4_setting(text, "AP_NETMASK"@, DEFAULT_NETMASK@)->Ok_0,
        netmask_cidr: cidr_setting(text)->Ok_0,
        dhcp_range_start: ipv4_setting(
            text,
            "AP_DHCP_RANGE_START"@,
            DEFAULT_DHCP_RANGE_START@,
        )->Ok_0,
        dhcp_range_end: ipv4_setting(text, "AP_DHCP_RANGE_END"@, DEFAULT_DHCP_RANGE_END@)->Ok_0,
        dhcp_lease_time: words_setting(
            text,
            "AP_DHCP_LEASE_TIME"@,
            DEFAULT_DHCP_LEASE_TIME@,
        )->Ok_0,
        channel: channel_setting(text)->Ok_0,
        country: words_setting(text, "AP_COUNTRY"@, DEFAULT_COUNTRY@)->Ok_0,
    }
}

/// Loads and validates `fallback-ap.conf`, resolving every unset key to its default. A file that
/// does not exist sets nothing.
pub fn load_ap_config(paths: &Paths, text: Option<&str>, robot_id: &RobotId) -> (r: Result<
    ApConfig,
    ApLoadError,
>)
    ensures
        r is Ok <==> ap_fault(conf::text_of(conf::opt(text)), robot_id@) is None,
        r matches Ok(config) ==> config@ == ap_config_of(
            conf::text_of(conf::opt(text)),
            paths@.wifi_interface,
            robot_id@,
        ),
        r matches Err(err) ==> ap_fault(conf::text_of(conf::opt(text)), robot_id@) == Some(err@),
{
    proof {
        reveal_strlit("");
        assert(""@ =~= Seq::<char>::empty());
    }
    let text: &str = match text {
        Some(text) => text,
        None => "",
    };
    let ssid: Ssid = match ssid(text, robot_id) {
        Ok(ssid) => ssid,
        Err(err) => {
            return Err(err);
        },
    };
    let raw: String = match conf::parse_value(text, "AP_PSK") {
        Some(raw) => raw,
        None => "".to_owned(),
    };
    let psk: Option<Psk> = match Psk::parse_optional(raw.as_str()) {
        Ok(psk) => psk,
        Err(err) => {
            return Err(bare(err));
        },
    };
    let address: Ipv4Addr = match ipv4(text, "AP_ADDRESS", DEFAULT_ADDRESS) {
        Ok(address) => address,
        Err(err) => {
            return Err(bare(err));
        },
    };
    let netmask: Ipv4Addr = match ipv4(text, "AP_NETMASK", DEFAULT_NETMASK) {
        Ok(netmask) => netmask,
        Err(err) => {
            return Err(bare(err));
        },
    };
    let netmask_cidr: u8 = match cidr(text) {
        Ok(cidr) => cidr,
        Err(err) => {
            return Err(bare(err));
        },
    };
    let dhcp_range_start: Ipv4Addr = match ipv4(
        text,
        "AP_DHCP_RANGE_START",
        DEFAULT_DHCP_RANGE_START,
    ) {
        Ok(start) => start,
        Err(err) => {
            return Err(bare(err));
        },
    };
    let dhcp_range_end: Ipv4Addr = match ipv4(text, "AP_DHCP_RANGE_END", DEFAULT_DHCP_RANGE_END) {
        Ok(end) => end,
        Err(err) => {
            return Err(bare(err));
        },
    };
    let dhcp_lease_time: String = match nonempty(
        text,
        "AP_DHCP_LEASE_TIME",
        DEFAULT_DHCP_LEASE_TIME,
    ) {
        Ok(lease) => lease,
        Err(err) => {
            return Err(bare(err));
        },
    };
    let channel: u8 = match channel(text) {
        Ok(channel) => channel,
        Err(err) => {
            return Err(bare(err));
        },
    };
    let country: String = match nonempty(text, "AP_COUNTRY", DEFAULT_COUNTRY) {
        Ok(country) => country,
        Err(err) => {
            return Err(bare(err));
        },
    };
    Ok(
        ApConfig {
            interface: paths.wifi_interface().to_owned(),
            ssid,
            psk,
            address,
            netmask,
            netmask_cidr,
            dhcp_range_start,
            dhcp_range_end,
            dhcp_lease_time,
            channel,
            country,
        },
    )
}

/// What is logged when `fallback-ap.conf` is loaded.
pub fn load_ap_notices(paths: &Paths, text: Option<&str>) -> (r: Vec<String>)
    ensures
        text::views(r@) == if text is None {
            seq![
                log::info_line(
                    config::path_below(paths@.config_dir, "wifi/fallback-ap.conf"@)
                        + " does not exist; using built-in fallback AP defaults"@,
                ),
            ]
        } else {
            Seq::empty()
        },
{
    let mut out: Vec<String> = Vec::new();
    if text.is_none() {
        let msg: String = text::cat2(
            paths.wifi_ap_conf().as_str(),
            " does not exist; using built-in fallback AP defaults",
        );
        out.push(log::info(msg.as_str()));
        assert(text::views(out@) =~= seq![
            log::info_line(
                config::path_below(paths@.config_dir, "wifi/fallback-ap.conf"@)
                    + " does not exist; using built-in fallback AP defaults"@,
            ),
        ]);
    } else {
        assert(text::views(out@) =~= Seq::<Seq<char>>::empty());
    }
    out
}

/// The lines of the hostapd configuration for an open network.
pub open spec fn open_lines(config: ApConfigView) -> Seq<Seq<char>> {
    seq![
        "interface="@ + config.interface,
        "driver=nl80211"@,
        "ssid="@ + config.ssid,
        "hw_mode=g"@,
        "channel="@ + text::decimal(config.channel as nat),
        "country_code="@ + config.country,
        "ieee80211n=1"@,
        "wmm_enabled=1"@,
        ""@,
        "auth_algs=1"@,
    ]
}

/// The lines that a passphrase adds to the hostapd configuration.
pub open spec fn wpa_lines(psk: Option<Seq<char>>) -> Seq<Seq<char>> {
    match psk {
        Some(psk) => seq![
            "wpa=2"@,
            "wpa_key_mgmt=WPA-PSK"@,
            "wpa_passphrase="@ + psk,
            "rsn_pairwise=CCMP"@,
        ],
        None => Seq::empty(),
    }
}

/// The lines of the hostapd configuration.
pub open spec fn hostapd_lines(config: ApConfigView) -> Seq<Seq<char>> {
    open_lines(config) + wpa_lines(config.psk)
}

pub fn render_hostapd_conf(config: &ApConfig) -> (r: String)
    ensures
        r@ == text::unlines(hostapd_lines(config@)),
{
    let interface: String = text::cat2("interface=", config.interface.as_str());
    let ssid: String = text::cat2("ssid=", config.ssid.as_str());
    let channel: String = text::cat2(
        "channel=",
        text::to_decimal(config.channel as u64).as_str(),
    );
    let country: String = text::cat2("country_code=", config.country.as_str());
    let mut lines: Vec<String> = command::strings(
        &[
            interface.as_str(),
            "driver=nl80211",
            ssid.as_str(),
            "hw_mode=g",
            channel.as_str(),
            country.as_str(),
            "ieee80211n=1",
            "wmm_enabled=1",
            "",
            "auth_algs=1",
        ],
    );
    assert(text::views(lines@) =~= open_lines(config@));
    // The absence of every `wpa*` directive is what makes this an open network. Only add WPA2
    // when an operator has explicitly set a passphrase.
    if let Some(psk) = &config.psk {
        let passphrase: String = text::cat2("wpa_passphrase=", psk.as_str());
        let mut wpa: Vec<String> = command::strings(
            &["wpa=2", "wpa_key_mgmt=WPA-PSK", passphrase.as_str(), "rsn_pairwise=CCMP"],
        );
        assert(text::views(wpa@) =~= wpa_lines(config@.psk));
        lines.append(&mut wpa);
    }
    assert(text::views(lines@) =~= hostapd_lines(config@));
    text::join_lines(&lines)
}

/// The lines of the dnsmasq configuration.
pub open spec fn dnsmasq_lines(config: ApConfigView) -> Seq<Seq<char>> {
    seq![
        "interface="@ + config.interface,
        "bind-interfaces"@,
        "dhcp-range="@ + ipv4::dotted(config.dhcp_range_start) + ","@ + ipv4::dotted(
            config.dhcp_range_end,
        ) + ","@ + ipv4::dotted(config.netmask) + ","@ + config.dhcp_lease_time,
        "dhcp-option=3,"@ + ipv4::dotted(config.address),
        "dhcp-option=6,"@ + ipv4::dotted(config.address),
        "domain-needed"@,
        "bogus-priv"@,
    ]
}

pub fn render_dnsmasq_conf(config: &ApConfig) -> (r: String)
    ensures
        r@ == text::unlines(dnsmasq_lines(config@)),
{
    let interface: String = text::cat2("interface=", config.interface.as_str());
    let from: String = text::cat2(
        "dhcp-range=",
        config.dhcp_range_start.to_string().as_str(),
    );
    let range: String = text::cat7(
        from.as_str(),
        ",",
        config.dhcp_range_end.to_string().as_str(),
        ",",
        config.netmask.to_string().as_str(),
        ",",
        config.dhcp_lease_time.as_str(),
    );
    let router: String = text::cat2("dhcp-option=3,", config.address.to_string().as_str());
    let dns: String = text::cat2("dhcp-option=6,", config.address.to_string().as_str());
    let lines: Vec<String> = command::strings(
        &[
            interface.as_str(),
            "bind-interfaces",
            range.as_str(),
            router.as_str(),
            dns.as_str(),
            "domain-needed",
            "bogus-priv",
        ],
    );
    assert(text::views(lines@) =~= dnsmasq_lines(config@));
    text::join_lines(&lines)
}

proof fn lemma_clean_append(a: Seq<char>, b: Seq<char>)
    requires
        !text::has_control(a),
        !text::has_control(b),
    ensures
        !text::has_control(a + b),
{
    assert forall|i: int| 0 <= i < (a + b).len() implies !text::is_control(
        #[trigger] (a + b)[i],
    ) by {
        if i < a.len() {
            assert((a + b)[i] == a[i]);
        } else {
            assert((a + b)[i] == b[i - a.len()]);
        }
    }
}

proof fn lemma_clean_decimal(n: nat)
    ensures
        !text::has_control(text::decimal(n)),
{
    text::lemma_decimal_reads_back(n);
    let s = text::decimal(n);
    assert forall|i: int| 0 <= i < s.len() implies !text::is_control(#[trigger] s[i]) by {
        assert(text::is_digit(s[i]));
    }
}

proof fn lemma_clean_dotted(addr: Ipv4Addr)
    ensures
        !text::has_control(ipv4::dotted(addr)),
{
    reveal_strlit(".");
    let (a, b, c, d) = (
        text::decimal(addr.0 as nat),
        text::decimal(addr.1 as nat),
        text::decimal(addr.2 as nat),
        text::decimal(addr.3 as nat),
    );
    lemma_clean_decimal(addr.0 as nat);
    lemma_clean_decimal(addr.1 as nat);
    lemma_clean_decimal(addr.2 as nat);
    lemma_clean_decimal(addr.3 as nat);
    assert(!text::has_control("."@));
    lemma_clean_append(a, "."@);
    lemma_clean_append(a + "."@, b);
    lemma_clean_append(a + "."@ + b, "."@);
    lemma_clean_append(a + "."@ + b + "."@, c);
    lemma_clean_append(a + "."@ + b + "."@ + c, "."@);
    lemma_clean_append(a + "."@ + b + "."@ + c + "."@, d);
}

/// Lines without control characters can be told apart again once they are put together.
proof fn lemma_clean_lines(lines: Seq<Seq<char>>)
    requires
        forall|i: int| 0 <= i < lines.len() ==> !text::has_control(#[trigger] lines[i]),
    ensures
        text::lines_of(text::unlines(lines)) == lines,
{
    assert forall|i: int| 0 <= i < lines.len() implies !(#[trigger] lines[i]).contains('\n')
        && text::without_cr(lines[i]) == lines[i] by {
        let line = lines[i];
        assert(!text::has_control(line));
        if line.contains('\n') {
            let j = choose|j: int| 0 <= j < line.len() && line[j] == '\n';
            assert(text::is_control(line[j]));
        }
        if line.len() > 0 {
            assert(!text::is_control(line[line.len() - 1]));
        }
    }
    text::lemma_lines_of_unlines(lines);
    assert(lines.map_values(|l: Seq<char>| text::without_cr(l)) =~= lines);
}

proof fn lemma_clean_hostapd(config: ApConfigView)
    requires
        !text::has_control(config.interface),
        !text::has_control(config.ssid),
        !text::has_control(config.country),
        config.psk matches Some(psk) ==> !text::has_control(psk),
    ensures
        text::lines_of(text::unlines(hostapd_lines(config))) == hostapd_lines(config),
{
    assert(!text::has_control("interface="@)) by {
        reveal_strlit("interface=");
    }
    assert(!text::has_control("driver=nl80211"@)) by {
        reveal_strlit("driver=nl80211");
    }
    assert(!text::has_control("ssid="@)) by {
        reveal_strlit("ssid=");
    }
    assert(!text::has_control("hw_mode=g"@)) by {
        reveal_strlit("hw_mode=g");
    }
    assert(!text::has_control("channel="@)) by {
        reveal_strlit("channel=");
    }
    assert(!text::has_control("country_code="@)) by {
        reveal_strlit("country_code=");
    }
    assert(!text::has_control("ieee80211n=1"@)) by {
        reveal_strlit("ieee80211n=1");
    }
    assert(!text::has_control("wmm_enabled=1"@)) by {
        reveal_strlit("wmm_enabled=1");
    }
    assert(!text::has_control(""@)) by {
        reveal_strlit("");
    }
    assert(!text::has_control("auth_algs=1"@)) by {
        reveal_strlit("auth_algs=1");
    }
    assert(!text::has_control("wpa=2"@)) by {
        reveal_strlit("wpa=2");
    }
    assert(!text::has_control("wpa_key_mgmt=WPA-PSK"@)) by {
        reveal_strlit("wpa_key_mgmt=WPA-PSK");
    }
    assert(!text::has_control("wpa_passphrase="@)) by {
        reveal_strlit("wpa_passphrase=");
    }
    assert(!text::has_control("rsn_pairwise=CCMP"@)) by {
        reveal_strlit("rsn_pairwise=CCMP");
    }
    lemma_clean_decimal(config.channel as nat);
    lemma_clean_append("interface="@, config.interface);
    lemma_clean_append("ssid="@, config.ssid);
    lemma_clean_append("channel="@, text::decimal(config.channel as nat));
    lemma_clean_append("country_code="@, config.country);
    if let Some(psk) = config.psk {
        lemma_clean_append("wpa_passphrase="@, psk);
    }
    lemma_clean_lines(hostapd_lines(config));
}

proof fn lemma_clean_dnsmasq(config: ApConfigView)
    requires
        !text::has_control(config.interface),
        !text::has_control(config.dhcp_lease_time),
    ensures
        text::lines_of(text::unlines(dnsmasq_lines(config))) == dnsmasq_lines(config),
{
    assert(!text::has_control("interface="@)) by {
        reveal_strlit("interface=");
    }
    assert(!text::has_control("bind-interfaces"@)) by {
        reveal_strlit("bind-interfaces");
    }
    assert(!text::has_control("dhcp-range="@)) by {
        reveal_strlit("dhcp-range=");
    }
    assert(!text::has_control(","@)) by {
        reveal_strlit(",");
    }
    assert(!text::has_control("dhcp-option=3,"@)) by {
        reveal_strlit("dhcp-option=3,");
    }
    assert(!text::has_control("dhcp-option=6,"@)) by {
        reveal_strlit("dhcp-option=6,");
    }
    assert(!text::has_control("domain-needed"@)) by {
        reveal_strlit("domain-needed");
    }
    assert(!text::has_control("bogus-priv"@)) by {
        reveal_strlit("bogus-priv");
    }
    lemma_clean_dotted(config.dhcp_range_start);
    lemma_clean_dotted(config.dhcp_range_end);
    lemma_clean_dotted(config.netmask);
    lemma_clean_dotted(config.address);
    lemma_clean_append("interface="@, config.interface);
    lemma_clean_append("dhcp-option=3,"@, ipv4::dotted(config.address));
    lemma_clean_append("dhcp-option=6,"@, ipv4::dotted(config.address));
    let from = "dhcp-range="@ + ipv4::dotted(config.dhcp_range_start);
    lemma_clean_append("dhcp-range="@, ipv4::dotted(config.dhcp_range_start));
    lemma_clean_append(from, ","@);
    lemma_clean_append(from + ","@, ipv4::dotted(config.dhcp_range_end));
    let to = from + ","@ + ipv4::dotted(config.dhcp_range_end);
    lemma_clean_append(to, ","@);
    lemma_clean_append(to + ","@, ipv4::dotted(config.netmask));
    let mask = to + ","@ + ipv4::dotted(config.netmask);
    lemma_clean_append(mask, ","@);
    lemma_clean_append(mask + ","@, config.dhcp_lease_time);
    lemma_clean_lines(dnsmasq_lines(config));
}

/// What `fallback-ap.conf` sets is free of control characters once it is loaded.
proof fn lemma_loaded_is_clean(text: Seq<char>, robot_id: Seq<char>)
    requires
        ap_fault(text, robot_id) is None,
    ensures
        !text::has_control(ssid_setting(text, robot_id)->Ok_0),
        psk_of(raw_psk(text)) matches Some(psk) ==> !text::has_control(psk),
        !text::has_control(
            words_setting(text, "AP_DHCP_LEASE_TIME"@, DEFAULT_DHCP_LEASE_TIME@)->Ok_0,
        ),
        !text::has_control(words_setting(text, "AP_COUNTRY"@, DEFAULT_COUNTRY@)->Ok_0),
{
}

/// No value of `fallback-ap.conf` adds a directive to the hostapd configuration or alters
/// another: the file, read line by line, is the lines it was made of.
pub proof fn values_add_no_hostapd_directive(
    text: Seq<char>,
    interface: Seq<char>,
    robot_id: Seq<char>,
)
    requires
        ap_fault(text, robot_id) is None,
        !text::has_control(interface),
    ensures
        text::lines_of(text::unlines(hostapd_lines(ap_config_of(text, interface, robot_id))))
            == hostapd_lines(ap_config_of(text, interface, robot_id)),
{
    lemma_loaded_is_clean(text, robot_id);
    lemma_clean_hostapd(ap_config_of(text, interface, robot_id));
}

/// No value of `fallback-ap.conf` adds a directive to the dnsmasq configuration or alters
/// another.
pub proof fn values_add_no_dnsmasq_directive(
    text: Seq<char>,
    interface: Seq<char>,
    robot_id: Seq<char>,
)
    requires
        ap_fault(text, robot_id) is None,
        !text::has_control(interface),
    ensures
        text::lines_of(text::unlines(dnsmasq_lines(ap_config_of(text, interface, robot_id))))
            == dnsmasq_lines(ap_config_of(text, interface, robot_id)),
{
    lemma_loaded_is_clean(text, robot_id);
    lemma_clean_dnsmasq(ap_config_of(text, interface, robot_id));
}

/// Two robots never get the same derived name for their fallback AP from the same configuration:
/// a name that is too long is reported, not cut off.
pub proof fn derived_names_tell_robots_apart(text: Seq<char>, a: Seq<char>, b: Seq<char>)
    requires
        value_or_default(text, "AP_SSID"@, Seq::empty()).len() == 0,
        ssid_setting(text, a) is Ok,
        ssid_setting(text, b) is Ok,
        a != b,
    ensures
        ssid_setting(text, a)->Ok_0 != ssid_setting(text, b)->Ok_0,
{
    let suffix = suffix_setting(text);
    if a + suffix == b + suffix {
        assert(a.len() == b.len());
        assert(a =~= (a + suffix).take(a.len() as int));
        assert(b =~= (b + suffix).take(b.len() as int));
    }
}

/// A directive that has to do with WPA.
pub open spec fn is_wpa_line(line: Seq<char>) -> bool {
    text::has_prefix(line, "wpa"@)
}

/// The network is open if and only if its configuration holds no WPA directive.
pub proof fn open_network_has_no_wpa_directive(config: ApConfigView)
    ensures
        config.psk is None <==> forall|i: int|
            0 <= i < hostapd_lines(config).len() ==> !is_wpa_line(
                #[trigger] hostapd_lines(config)[i],
            ),
{
    reveal_strlit("wpa");
    reveal_strlit("interface=");
    reveal_strlit("driver=nl80211");
    reveal_strlit("ssid=");
    reveal_strlit("hw_mode=g");
    reveal_strlit("channel=");
    reveal_strlit("country_code=");
    reveal_strlit("ieee80211n=1");
    reveal_strlit("wmm_enabled=1");
    reveal_strlit("");
    reveal_strlit("auth_algs=1");
    reveal_strlit("wpa=2");
    let lines = hostapd_lines(config);
    if config.psk is None {
        assert forall|i: int| 0 <= i < lines.len() implies !is_wpa_line(#[trigger] lines[i]) by {
            assert(lines[i] == open_lines(config)[i]);
            if i != 8 {
                assert(lines[i].take(3)[0] == lines[i][0]);
                assert("wpa"@[1] == 'p');
                assert(lines[i].take(3)[1] == lines[i][1]);
            }
        }
    } else {
        assert(lines[10] == "wpa=2"@);
        assert("wpa=2"@.take(3) =~= "wpa"@);
        assert(is_wpa_line(lines[10]));
    }
}

} // verus!
