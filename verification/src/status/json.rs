//! `robotctl status --json`.
//!
//! Compact rather than pretty-printed: this is meant to be piped (`robotctl status --json | jq`).

use vstd::prelude::*;
use vstd::string::*;

use crate::status::model::{
    self, Filesystem, FilesystemView, Identity, IdentityView, Network, NetworkView, RaucSummary,
    RaucSummaryView, Status, StatusView, System, SystemView, Unit, UnitView, WifiSummary,
    WifiSummaryView,
};
use crate::status::parse::{self, Interface, InterfaceView};
use crate::text;

verus! {

/// The error of a failed serialization.
#[verifier::external_type_specification]
#[verifier::external_body]
pub struct ExError(serde_json::Error);

/// The hexadecimal digit for `d`, in lower case.
pub open spec fn hex_char(d: nat) -> char {
    if d < 10 {
        (48 + d) as char
    } else {
        (87 + d) as char
    }
}

/// How a character is written inside a JSON string.
pub open spec fn escaped_char(c: char) -> Seq<char> {
    if c == '"' || c == '\\' {
        seq!['\\', c]
    } else if c == '\u{8}' {
        seq!['\\', 'b']
    } else if c == '\t' {
        seq!['\\', 't']
    } else if c == '\n' {
        seq!['\\', 'n']
    } else if c == '\u{c}' {
        seq!['\\', 'f']
    } else if c == '\r' {
        seq!['\\', 'r']
    } else if c <= '\u{1f}' {
        seq!['\\', 'u', '0', '0', hex_char(c as nat / 16), hex_char(c as nat % 16)]
    } else {
        seq![c]
    }
}

/// How characters are written inside a JSON string.
pub open spec fn escaped(s: Seq<char>) -> Seq<char>
    decreases s.len(),
{
    if s.len() == 0 {
        Seq::empty()
    } else {
        escaped_char(s[0]) + escaped(s.drop_first())
    }
}

/// `s` as a JSON string.
pub open spec fn quoted(s: Seq<char>) -> Seq<char> {
    seq!['"'] + escaped(s) + seq!['"']
}

/// `serde_json::to_string` on a string.
///
/// It never fails on one, and puts it between quotes, with a backslash before a quote or a
/// backslash, the short escapes for backspace, tab, line feed, form feed and carriage return, a
/// `\u` escape for every other character below a space, and everything else as it is.
#[verifier::external_body]
fn serialize_str(s: &str) -> (r: Result<String, serde_json::Error>)
    ensures
        r is Ok,
        r matches Ok(json) ==> json@ == quoted(s@),
{
    serde_json::to_string(s)
}

/// `s` as a JSON string.
fn string(s: &str) -> (r: String)
    ensures
        r@ == quoted(s@),
{
    match serialize_str(s) {
        Ok(json) => json,
        Err(_) => String::new(),
    }
}

proof fn lemma_escaped_char_is_decodable(a: char, b: char, x: Seq<char>, y: Seq<char>)
    requires
        escaped_char(a) + x == escaped_char(b) + y,
    ensures
        a == b,
        x == y,
{
    let left = escaped_char(a) + x;
    let right = escaped_char(b) + y;
    assert(left[0] == escaped_char(a)[0]);
    assert(right[0] == escaped_char(b)[0]);
    if escaped_char(a).len() > 1 && escaped_char(b).len() > 1 {
        assert(left[1] == escaped_char(a)[1]);
        assert(right[1] == escaped_char(b)[1]);
        if escaped_char(a).len() > 2 && escaped_char(b).len() > 2 {
            assert(left[4] == escaped_char(a)[4]);
            assert(right[4] == escaped_char(b)[4]);
            assert(left[5] == escaped_char(a)[5]);
            assert(right[5] == escaped_char(b)[5]);
            assert(a as nat / 16 == b as nat / 16);
            assert(a as nat % 16 == b as nat % 16);
        }
    }
    assert(a == b);
    let n = escaped_char(a).len() as int;
    assert(x =~= left.skip(n));
    assert(y =~= right.skip(n));
}

proof fn lemma_escaped_is_decodable(a: Seq<char>, b: Seq<char>)
    requires
        escaped(a) == escaped(b),
    ensures
        a == b,
    decreases a.len(),
{
    if a.len() == 0 {
        if b.len() > 0 {
            assert(escaped(b).len() > 0);
        }
        assert(a =~= b);
    } else if b.len() == 0 {
        assert(escaped(a).len() > 0);
    } else {
        lemma_escaped_char_is_decodable(
            a[0],
            b[0],
            escaped(a.drop_first()),
            escaped(b.drop_first()),
        );
        lemma_escaped_is_decodable(a.drop_first(), b.drop_first());
        assert(a =~= seq![a[0]] + a.drop_first());
        assert(b =~= seq![b[0]] + b.drop_first());
    }
}

/// Nothing is lost in a JSON string: two that are equal were made of the same string.
pub proof fn quoting_loses_nothing(a: Seq<char>, b: Seq<char>)
    requires
        quoted(a) == quoted(b),
    ensures
        a == b,
{
    assert(escaped(a) =~= quoted(a).subrange(1, quoted(a).len() - 1));
    assert(escaped(b) =~= quoted(b).subrange(1, quoted(b).len() - 1));
    lemma_escaped_is_decodable(a, b);
}

/// A JSON string stays on one line: it holds no control character below a space.
pub proof fn quoting_leaves_no_control_character(s: Seq<char>, i: int)
    requires
        0 <= i < quoted(s).len(),
    ensures
        quoted(s)[i] >= ' ',
{
    if 0 < i < quoted(s).len() - 1 {
        lemma_escaped_is_printable(s, i - 1);
    }
}

proof fn lemma_escaped_char_is_printable(c: char, i: int)
    requires
        0 <= i < escaped_char(c).len(),
    ensures
        escaped_char(c)[i] >= ' ',
{
}

proof fn lemma_escaped_is_printable(s: Seq<char>, i: int)
    requires
        0 <= i < escaped(s).len(),
    ensures
        escaped(s)[i] >= ' ',
    decreases s.len(),
{
    if s.len() > 0 {
        let n = escaped_char(s[0]).len() as int;
        if i < n {
            assert(escaped(s)[i] == escaped_char(s[0])[i]);
            lemma_escaped_char_is_printable(s[0], i);
        } else {
            lemma_escaped_is_printable(s.drop_first(), i - n);
            assert(escaped(s)[i] == escaped(s.drop_first())[i - n]);
        }
    }
}

/// A member of a JSON object, whose value is JSON already.
pub open spec fn member_of(key: Seq<char>, value: Seq<char>) -> Seq<char> {
    quoted(key) + ":"@ + value
}

fn member(key: &str, value: &str) -> (r: String)
    ensures
        r@ == member_of(key@, value@),
{
    text::cat3(string(key).as_str(), ":", value)
}

/// A JSON object of `members`.
pub open spec fn object_of(members: Seq<Seq<char>>) -> Seq<char> {
    "{"@ + text::joined(members, ","@) + "}"@
}

fn object(members: &Vec<String>) -> (r: String)
    ensures
        r@ == object_of(text::views(members@)),
{
    text::cat3("{", text::join(members, ",").as_str(), "}")
}

/// A JSON array of `items`.
pub open spec fn array_of(items: Seq<Seq<char>>) -> Seq<char> {
    "["@ + text::joined(items, ","@) + "]"@
}

fn array(items: &Vec<String>) -> (r: String)
    ensures
        r@ == array_of(text::views(items@)),
{
    text::cat3("[", text::join(items, ",").as_str(), "]")
}

/// A string, or `null` in place of none.
pub open spec fn nullable(s: Option<Seq<char>>) -> Seq<char> {
    match s {
        Some(s) => quoted(s),
        None => "null"@,
    }
}

fn string_or_null(s: &Option<String>) -> (r: String)
    ensures
        r@ == nullable(text::opt_view(*s)),
{
    match s {
        Some(s) => string(s.as_str()),
        None => "null".to_owned(),
    }
}

pub open spec fn boolean_of(b: bool) -> Seq<char> {
    if b {
        "true"@
    } else {
        "false"@
    }
}

fn boolean(b: bool) -> (r: &'static str)
    ensures
        r@ == boolean_of(b),
{
    if b {
        "true"
    } else {
        "false"
    }
}

/// Strings, each as a JSON string.
pub open spec fn quoted_each(list: Seq<Seq<char>>) -> Seq<Seq<char>> {
    list.map_values(|s: Seq<char>| quoted(s))
}

fn strings(list: &Vec<String>) -> (r: Vec<String>)
    ensures
        text::views(r@) == quoted_each(text::views(list@)),
{
    let mut out: Vec<String> = Vec::new();
    let mut i: usize = 0;
    while i < list.len()
        invariant
            i <= list@.len(),
            out@.len() == i,
            forall|j: int| 0 <= j < i ==> (#[trigger] out@[j])@ == quoted(list@[j]@),
        decreases list@.len() - i,
    {
        out.push(string(list[i].as_str()));
        i = i + 1;
    }
    assert(text::views(out@) =~= quoted_each(text::views(list@)));
    out
}

/// Ordered pairs as the members of an object, in their order.
pub open spec fn pair_members(pairs: Seq<(Seq<char>, Seq<char>)>) -> Seq<Seq<char>> {
    pairs.map_values(|pair: (Seq<char>, Seq<char>)| member_of(pair.0, quoted(pair.1)))
}

/// Serializes ordered pairs as a JSON object, preserving insertion order.
fn pairs_as_map(pairs: &Vec<(String, String)>) -> (r: String)
    ensures
        r@ == object_of(pair_members(parse::pair_views(pairs@))),
{
    let mut members: Vec<String> = Vec::new();
    let mut i: usize = 0;
    while i < pairs.len()
        invariant
            i <= pairs@.len(),
            members@.len() == i,
            forall|j: int|
                0 <= j < i ==> (#[trigger] members@[j])@ == member_of(
                    pairs@[j].0@,
                    quoted(pairs@[j].1@),
                ),
        decreases pairs@.len() - i,
    {
        members.push(member(pairs[i].0.as_str(), string(pairs[i].1.as_str()).as_str()));
        i = i + 1;
    }
    assert(text::views(members@) =~= pair_members(parse::pair_views(pairs@)));
    object(&members)
}

/// Units as the members of an object, in their order.
pub open spec fn unit_members(units: Seq<UnitView>) -> Seq<Seq<char>> {
    units.map_values(|unit: UnitView| member_of(unit.name, quoted(unit.state)))
}

fn units_as_map(units: &Vec<Unit>) -> (r: String)
    ensures
        r@ == object_of(unit_members(model::unit_views(units@))),
{
    let mut members: Vec<String> = Vec::new();
    let mut i: usize = 0;
    while i < units.len()
        invariant
            i <= units@.len(),
            members@.len() == i,
            forall|j: int|
                0 <= j < i ==> (#[trigger] members@[j])@ == member_of(
                    units@[j].name@,
                    quoted(units@[j].state@),
                ),
        decreases units@.len() - i,
    {
        members.push(member(units[i].name.as_str(), string(units[i].state.as_str()).as_str()));
        i = i + 1;
    }
    assert(text::views(members@) =~= unit_members(model::unit_views(units@)));
    object(&members)
}

pub open spec fn identity_json(identity: IdentityView) -> Seq<char> {
    object_of(
        seq![
            member_of("robot_id"@, quoted(identity.robot_id)),
            member_of("ros_domain_id"@, text::decimal(identity.ros_domain_id as nat)),
            member_of("hostname"@, nullable(identity.hostname)),
            member_of("hostname_matches"@, boolean_of(identity.hostname_matches)),
        ],
    )
}

fn render_identity(identity: &Identity) -> (r: String)
    ensures
        r@ == identity_json(identity@),
{
    let mut members: Vec<String> = Vec::new();
    members.push(member("robot_id", string(identity.robot_id.as_str()).as_str()));
    members.push(
        member("ros_domain_id", text::to_decimal(identity.ros_domain_id as u64).as_str()),
    );
    members.push(member("hostname", string_or_null(&identity.hostname).as_str()));
    members.push(member("hostname_matches", boolean(identity.hostname_matches)));
    let ghost view = identity@;
    assert(text::views(members@) =~= seq![
        member_of("robot_id"@, quoted(view.robot_id)),
        member_of("ros_domain_id"@, text::decimal(view.ros_domain_id as nat)),
        member_of("hostname"@, nullable(view.hostname)),
        member_of("hostname_matches"@, boolean_of(view.hostname_matches)),
    ]);
    object(&members)
}

/// A number, or `null` in place of none.
pub open spec fn number_or_null(n: Option<u64>) -> Seq<char> {
    match n {
        Some(n) => text::decimal(n as nat),
        None => "null"@,
    }
}

pub open spec fn system_json(system: SystemView) -> Seq<char> {
    object_of(
        seq![
            member_of("kernel"@, nullable(system.kernel)),
            member_of("uptime_seconds"@, number_or_null(system.uptime_seconds)),
            member_of("time_utc"@, nullable(system.time_utc)),
        ],
    )
}

fn render_system(system: &System) -> (r: String)
    ensures
        r@ == system_json(system@),
{
    let uptime: String = match system.uptime_seconds {
        Some(seconds) => text::to_decimal(seconds),
        None => "null".to_owned(),
    };
    let mut members: Vec<String> = Vec::new();
    members.push(member("kernel", string_or_null(&system.kernel).as_str()));
    members.push(member("uptime_seconds", uptime.as_str()));
    members.push(member("time_utc", string_or_null(&system.time_utc).as_str()));
    let ghost view = system@;
    assert(text::views(members@) =~= seq![
        member_of("kernel"@, nullable(view.kernel)),
        member_of("uptime_seconds"@, number_or_null(view.uptime_seconds)),
        member_of("time_utc"@, nullable(view.time_utc)),
    ]);
    object(&members)
}

pub open spec fn rauc_json(rauc: RaucSummaryView) -> Seq<char> {
    object_of(
        seq![
            member_of("booted_slot"@, nullable(rauc.booted_slot)),
            member_of("primary_slot"@, nullable(rauc.primary_slot)),
            member_of("slot_states"@, object_of(pair_members(rauc.slot_states))),
        ],
    )
}

fn render_rauc(rauc: &RaucSummary) -> (r: String)
    ensures
        r@ == rauc_json(rauc@),
{
    let mut members: Vec<String> = Vec::new();
    members.push(member("booted_slot", string_or_null(&rauc.booted_slot).as_str()));
    members.push(member("primary_slot", string_or_null(&rauc.primary_slot).as_str()));
    members.push(member("slot_states", pairs_as_map(&rauc.slot_states).as_str()));
    let ghost view = rauc@;
    assert(text::views(members@) =~= seq![
        member_of("booted_slot"@, nullable(view.booted_slot)),
        member_of("primary_slot"@, nullable(view.primary_slot)),
        member_of("slot_states"@, object_of(pair_members(view.slot_states))),
    ]);
    object(&members)
}

pub open spec fn filesystem_json(filesystem: FilesystemView) -> Seq<char> {
    object_of(
        seq![
            member_of("mount"@, quoted(filesystem.mount)),
            member_of("total_bytes"@, text::decimal(filesystem.total_bytes as nat)),
            member_of("available_bytes"@, text::decimal(filesystem.available_bytes as nat)),
        ],
    )
}

fn render_filesystem(filesystem: &Filesystem) -> (r: String)
    ensures
        r@ == filesystem_json(filesystem@),
{
    let mut members: Vec<String> = Vec::new();
    members.push(member("mount", string(filesystem.mount.as_str()).as_str()));
    members.push(member("total_bytes", text::to_decimal(filesystem.total_bytes).as_str()));
    members.push(
        member("available_bytes", text::to_decimal(filesystem.available_bytes).as_str()),
    );
    let ghost view = filesystem@;
    assert(text::views(members@) =~= seq![
        member_of("mount"@, quoted(view.mount)),
        member_of("total_bytes"@, text::decimal(view.total_bytes as nat)),
        member_of("available_bytes"@, text::decimal(view.available_bytes as nat)),
    ]);
    object(&members)
}

fn render_filesystems(list: &Vec<Filesystem>) -> (r: String)
    ensures
        r@ == array_of(
            model::filesystem_views(list@).map_values(|f: FilesystemView| filesystem_json(f)),
        ),
{
    let mut items: Vec<String> = Vec::new();
    let mut i: usize = 0;
    while i < list.len()
        invariant
            i <= list@.len(),
            items@.len() == i,
            forall|j: int| 0 <= j < i ==> (#[trigger] items@[j])@ == filesystem_json(list@[j]@),
        decreases list@.len() - i,
    {
        items.push(render_filesystem(&list[i]));
        i = i + 1;
    }
    assert(text::views(items@) =~= model::filesystem_views(list@).map_values(
        |f: FilesystemView| filesystem_json(f),
    ));
    array(&items)
}

pub open spec fn wifi_json(wifi: WifiSummaryView) -> Seq<char> {
    object_of(
        seq![
            member_of("interface"@, quoted(wifi.interface)),
            member_of("exists"@, boolean_of(wifi.exists)),
            member_of("mode"@, nullable(wifi.mode)),
            member_of("ssid"@, nullable(wifi.ssid)),
            member_of("security"@, nullable(wifi.security)),
            member_of("address"@, nullable(wifi.address)),
            member_of("client_conf_present"@, boolean_of(wifi.client_conf_present)),
        ],
    )
}

fn render_wifi(wifi: &WifiSummary) -> (r: String)
    ensures
        r@ == wifi_json(wifi@),
{
    let mut members: Vec<String> = Vec::new();
    members.push(member("interface", string(wifi.interface.as_str()).as_str()));
    members.push(member("exists", boolean(wifi.exists)));
    members.push(member("mode", string_or_null(&wifi.mode).as_str()));
    members.push(member("ssid", string_or_null(&wifi.ssid).as_str()));
    members.push(member("security", string_or_null(&wifi.security).as_str()));
    members.push(member("address", string_or_null(&wifi.address).as_str()));
    members.push(member("client_conf_present", boolean(wifi.client_conf_present)));
    let ghost view = wifi@;
    assert(text::views(members@) =~= seq![
        member_of("interface"@, quoted(view.interface)),
        member_of("exists"@, boolean_of(view.exists)),
        member_of("mode"@, nullable(view.mode)),
        member_of("ssid"@, nullable(view.ssid)),
        member_of("security"@, nullable(view.security)),
        member_of("address"@, nullable(view.address)),
        member_of("client_conf_present"@, boolean_of(view.client_conf_present)),
    ]);
    object(&members)
}

pub open spec fn interface_json(interface: InterfaceView) -> Seq<char> {
    object_of(
        seq![
            member_of("name"@, quoted(interface.name)),
            member_of("addresses"@, array_of(quoted_each(interface.addresses))),
        ],
    )
}

fn render_interface(interface: &Interface) -> (r: String)
    ensures
        r@ == interface_json(interface@),
{
    let mut members: Vec<String> = Vec::new();
    members.push(member("name", string(interface.name.as_str()).as_str()));
    members.push(member("addresses", array(&strings(&interface.addresses)).as_str()));
    let ghost view = interface@;
    assert(text::views(members@) =~= seq![
        member_of("name"@, quoted(view.name)),
        member_of("addresses"@, array_of(quoted_each(view.addresses))),
    ]);
    object(&members)
}

pub open spec fn network_json(network: NetworkView) -> Seq<char> {
    object_of(
        seq![
            member_of(
                "interfaces"@,
                array_of(network.interfaces.map_values(|i: InterfaceView| interface_json(i))),
            ),
            member_of("default_route"@, nullable(network.default_route)),
        ],
    )
}

fn render_network(network: &Network) -> (r: String)
    ensures
        r@ == network_json(network@),
{
    let mut items: Vec<String> = Vec::new();
    let mut i: usize = 0;
    while i < network.interfaces.len()
        invariant
            i <= network.interfaces@.len(),
            items@.len() == i,
            forall|j: int|
                0 <= j < i ==> (#[trigger] items@[j])@ == interface_json(network.interfaces@[j]@),
        decreases network.interfaces@.len() - i,
    {
        items.push(render_interface(&network.interfaces[i]));
        i = i + 1;
    }
    let ghost view = network@;
    assert(text::views(items@) =~= view.interfaces.map_values(
        |i: InterfaceView| interface_json(i),
    ));
    let mut members: Vec<String> = Vec::new();
    members.push(member("interfaces", array(&items).as_str()));
    members.push(member("default_route", string_or_null(&network.default_route).as_str()));
    assert(text::views(members@) =~= seq![
        member_of(
            "interfaces"@,
            array_of(view.interfaces.map_values(|i: InterfaceView| interface_json(i))),
        ),
        member_of("default_route"@, nullable(view.default_route)),
    ]);
    object(&members)
}

/// The whole report as a JSON document. Every key is there, whatever is known.
pub open spec fn document(status: StatusView) -> Seq<char> {
    object_of(
        seq![
            member_of("identity"@, identity_json(status.identity)),
            member_of("image"@, object_of(pair_members(status.image))),
            member_of("system"@, system_json(status.system)),
            member_of("rauc"@, rauc_json(status.rauc)),
            member_of(
                "filesystems"@,
                array_of(status.filesystems.map_values(|f: FilesystemView| filesystem_json(f))),
            ),
            member_of("wifi"@, wifi_json(status.wifi)),
            member_of("network"@, network_json(status.network)),
            member_of("units"@, object_of(unit_members(status.units))),
            member_of("failed_units"@, array_of(quoted_each(status.failed_units))),
        ],
    )
}

/// The whole report as a JSON document, which can always be had.
pub fn render(status: &Status) -> (r: Result<String, String>)
    ensures
        r is Ok,
        r matches Ok(json) ==> json@ == document(status@),
{
    let mut members: Vec<String> = Vec::new();
    members.push(member("identity", render_identity(&status.identity).as_str()));
    members.push(member("image", pairs_as_map(&status.image).as_str()));
    members.push(member("system", render_system(&status.system).as_str()));
    members.push(member("rauc", render_rauc(&status.rauc).as_str()));
    members.push(member("filesystems", render_filesystems(&status.filesystems).as_str()));
    members.push(member("wifi", render_wifi(&status.wifi).as_str()));
    members.push(member("network", render_network(&status.network).as_str()));
    members.push(member("units", units_as_map(&status.units).as_str()));
    members.push(member("failed_units", array(&strings(&status.failed_units)).as_str()));
    let ghost view = status@;
    assert(text::views(members@) =~= seq![
        member_of("identity"@, identity_json(view.identity)),
        member_of("image"@, object_of(pair_members(view.image))),
        member_of("system"@, system_json(view.system)),
        member_of("rauc"@, rauc_json(view.rauc)),
        member_of(
            "filesystems"@,
            array_of(view.filesystems.map_values(|f: FilesystemView| filesystem_json(f))),
        ),
        member_of("wifi"@, wifi_json(view.wifi)),
        member_of("network"@, network_json(view.network)),
        member_of("units"@, object_of(unit_members(view.units))),
        member_of("failed_units"@, array_of(quoted_each(view.failed_units))),
    ]);
    Ok(object(&members))
}

} // verus!
