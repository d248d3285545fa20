//! What the JSON document is for, stated apart from how it is put together.

use vstd::prelude::*;
use vstd::string::*;

use crate::status::json;
use crate::status::model::{
    FilesystemView, IdentityView, NetworkView, RaucSummaryView, StatusView, SystemView,
    WifiSummaryView,
};
use crate::status::parse::InterfaceView;
use crate::text;

verus! {

/// Whether `part` stands at `at` in an object or an array: with a bracket or a comma on either
/// side.
pub open spec fn stands(json: Seq<char>, part: Seq<char>, at: int) -> bool {
    &&& 1 <= at
    &&& at + part.len() < json.len()
    &&& json[at - 1] == '{' || json[at - 1] == '[' || json[at - 1] == ','
    &&& json.subrange(at, at + part.len()) == part
    &&& json[at + part.len()] == '}' || json[at + part.len()] == ']' || json[at + part.len()] == ','
}

/// Whether an object or an array holds `part`.
pub open spec fn holds(json: Seq<char>, part: Seq<char>) -> bool {
    exists|at: int| stands(json, part, at)
}

/// Whether an object states `value` under `key`.
pub open spec fn states(json: Seq<char>, key: Seq<char>, value: Seq<char>) -> bool {
    holds(json, json::quoted(key) + seq![':'] + value)
}

/// A text in quotes where there is one, and `null` where there is none.
pub open spec fn known(value: Option<Seq<char>>) -> Seq<char> {
    match value {
        Some(value) => json::quoted(value),
        None => seq!['n', 'u', 'l', 'l'],
    }
}

/// A truth value by its name.
pub open spec fn truth(value: bool) -> Seq<char> {
    if value {
        seq!['t', 'r', 'u', 'e']
    } else {
        seq!['f', 'a', 'l', 's', 'e']
    }
}

proof fn lemma_literals()
    ensures
        ":"@ == seq![':'],
        ","@ == seq![','],
        "{"@ == seq!['{'],
        "}"@ == seq!['}'],
        "["@ == seq!['['],
        "]"@ == seq![']'],
        "null"@ == seq!['n', 'u', 'l', 'l'],
        "true"@ == seq!['t', 'r', 'u', 'e'],
        "false"@ == seq!['f', 'a', 'l', 's', 'e'],
{
    reveal_strlit(":");
    reveal_strlit(",");
    reveal_strlit("{");
    reveal_strlit("}");
    reveal_strlit("[");
    reveal_strlit("]");
    reveal_strlit("null");
    reveal_strlit("true");
    reveal_strlit("false");
    assert(":"@ =~= seq![':']);
    assert(","@ =~= seq![',']);
    assert("{"@ =~= seq!['{']);
    assert("}"@ =~= seq!['}']);
    assert("["@ =~= seq!['[']);
    assert("]"@ =~= seq![']']);
    assert("null"@ =~= seq!['n', 'u', 'l', 'l']);
    assert("true"@ =~= seq!['t', 'r', 'u', 'e']);
    assert("false"@ =~= seq!['f', 'a', 'l', 's', 'e']);
}

proof fn lemma_joined_at(parts: Seq<Seq<char>>, sep: Seq<char>, k: int) -> (at: int)
    requires
        sep == seq![','],
        0 <= k < parts.len(),
    ensures
        ({
            let whole = text::joined(parts, sep);
            let end = at + parts[k].len();
            &&& 0 <= at
            &&& end <= whole.len()
            &&& at == 0 || whole[at - 1] == ','
            &&& whole.subrange(at, end) == parts[k]
            &&& end == whole.len() || whole[end] == ','
        }),
    decreases parts.len(),
{
    let whole = text::joined(parts, sep);
    if parts.len() == 1 {
        text::joining_puts_the_separator_between(parts, sep);
        assert(whole.subrange(0, whole.len() as int) =~= parts[k]);
        0
    } else {
        let init = parts.drop_last();
        let before = text::joined(init, sep);
        assert(whole =~= before + sep + parts.last());
        if k == parts.len() - 1 {
            let at = before.len() as int + 1;
            assert(whole.subrange(at, at + parts[k].len()) =~= parts[k]);
            assert(whole[at - 1] == ',');
            at
        } else {
            let at = lemma_joined_at(init, sep, k);
            let end = at + parts[k].len();
            assert(init[k] == parts[k]);
            assert(whole.subrange(at, end) =~= before.subrange(at, end));
            if end == before.len() {
                assert(whole[end] == ',');
            } else {
                assert(whole[end] == before[end]);
            }
            if at > 0 {
                assert(whole[at - 1] == before[at - 1]);
            }
            at
        }
    }
}

/// An object holds every one of its members, and an array every one of its items.
pub proof fn every_part_is_held(parts: Seq<Seq<char>>, k: int)
    requires
        0 <= k < parts.len(),
    ensures
        holds(json::object_of(parts), parts[k]),
        holds(json::array_of(parts), parts[k]),
{
    lemma_literals();
    let at = lemma_joined_at(parts, ","@, k);
    let whole = text::joined(parts, ","@);
    let end = at + parts[k].len();
    let object = json::object_of(parts);
    let array = json::array_of(parts);
    assert(object =~= seq!['{'] + whole + seq!['}']);
    assert(array =~= seq!['['] + whole + seq![']']);
    assert(object.subrange(at + 1, end + 1) =~= whole.subrange(at, end));
    assert(array.subrange(at + 1, end + 1) =~= whole.subrange(at, end));
    if at > 0 {
        assert(object[at] == whole[at - 1]);
        assert(array[at] == whole[at - 1]);
    }
    if end < whole.len() {
        assert(object[end + 1] == whole[end]);
        assert(array[end + 1] == whole[end]);
    }
    assert(stands(object, parts[k], at + 1));
    assert(stands(array, parts[k], at + 1));
}

proof fn lemma_member(parts: Seq<Seq<char>>, k: int, key: Seq<char>, value: Seq<char>)
    requires
        0 <= k < parts.len(),
        parts[k] == json::member_of(key, value),
    ensures
        states(json::object_of(parts), key, value),
{
    lemma_literals();
    every_part_is_held(parts, k);
}

/// What needs no escape is quoted as it is.
pub proof fn plain_text_is_quoted_as_it_is(s: Seq<char>)
    requires
        forall|i: int| 0 <= i < s.len() ==> s[i] > '\u{1f}' && s[i] != '"' && s[i] != '\\',
    ensures
        json::quoted(s) == seq!['"'] + s + seq!['"'],
{
    lemma_escaped_plain(s);
}

proof fn lemma_escaped_plain(s: Seq<char>)
    requires
        forall|i: int| 0 <= i < s.len() ==> s[i] > '\u{1f}' && s[i] != '"' && s[i] != '\\',
    ensures
        json::escaped(s) == s,
    decreases s.len(),
{
    if s.len() > 0 {
        let rest = s.drop_first();
        assert forall|i: int| 0 <= i < rest.len() implies rest[i] > '\u{1f}' && rest[i] != '"'
            && rest[i] != '\\' by {
            assert(rest[i] == s[i + 1]);
        }
        lemma_escaped_plain(rest);
        assert(json::escaped_char(s[0]) == seq![s[0]]);
        assert(seq![s[0]] + rest =~= s);
    } else {
        assert(json::escaped(s) =~= s);
    }
}

/// No text is taken for a missing one, and no text for another.
pub proof fn a_missing_text_is_told_from_every_other(a: Option<Seq<char>>, b: Option<Seq<char>>)
    ensures
        json::nullable(a) == json::nullable(b) ==> a == b,
        json::nullable(a) == known(a),
{
    lemma_literals();
    if let Some(x) = a {
        assert(json::quoted(x)[0] == '"');
        if let Some(y) = b {
            if json::quoted(x) == json::quoted(y) {
                json::quoting_loses_nothing(x, y);
            }
        } else {
            assert("null"@[0] == 'n');
        }
    } else {
        if let Some(y) = b {
            assert(json::quoted(y)[0] == '"');
            assert("null"@[0] == 'n');
        }
    }
}

/// The document states who the robot is.
pub proof fn json_states_the_identity(identity: IdentityView)
    ensures
        states(json::identity_json(identity), "robot_id"@, json::quoted(identity.robot_id)),
        states(
            json::identity_json(identity),
            "ros_domain_id"@,
            text::decimal(identity.ros_domain_id as nat),
        ),
        states(json::identity_json(identity), "hostname"@, known(identity.hostname)),
        states(
            json::identity_json(identity),
            "hostname_matches"@,
            truth(identity.hostname_matches),
        ),
{
    lemma_literals();
    let parts = seq![
        json::member_of("robot_id"@, json::quoted(identity.robot_id)),
        json::member_of("ros_domain_id"@, text::decimal(identity.ros_domain_id as nat)),
        json::member_of("hostname"@, json::nullable(identity.hostname)),
        json::member_of("hostname_matches"@, json::boolean_of(identity.hostname_matches)),
    ];
    lemma_member(parts, 0, "robot_id"@, json::quoted(identity.robot_id));
    lemma_member(parts, 1, "ros_domain_id"@, text::decimal(identity.ros_domain_id as nat));
    lemma_member(parts, 2, "hostname"@, known(identity.hostname));
    lemma_member(parts, 3, "hostname_matches"@, truth(identity.hostname_matches));
}

/// The document states which kernel runs, how long the robot has been up, in seconds, and what
/// time it has.
pub proof fn json_states_the_system(system: SystemView)
    ensures
        states(json::system_json(system), "kernel"@, known(system.kernel)),
        states(
            json::system_json(system),
            "uptime_seconds"@,
            match system.uptime_seconds {
                Some(seconds) => text::decimal(seconds as nat),
                None => "null"@,
            },
        ),
        states(json::system_json(system), "time_utc"@, known(system.time_utc)),
{
    lemma_literals();
    let parts = seq![
        json::member_of("kernel"@, json::nullable(system.kernel)),
        json::member_of("uptime_seconds"@, json::number_or_null(system.uptime_seconds)),
        json::member_of("time_utc"@, json::nullable(system.time_utc)),
    ];
    lemma_member(parts, 0, "kernel"@, known(system.kernel));
    lemma_member(parts, 1, "uptime_seconds"@, json::number_or_null(system.uptime_seconds));
    lemma_member(parts, 2, "time_utc"@, known(system.time_utc));
}

/// The document states which slot is booted, which one a plain reboot lands on, and the state of
/// each.
pub proof fn json_states_the_slots(rauc: RaucSummaryView, k: int)
    ensures
        states(json::rauc_json(rauc), "booted_slot"@, known(rauc.booted_slot)),
        states(json::rauc_json(rauc), "primary_slot"@, known(rauc.primary_slot)),
        states(
            json::rauc_json(rauc),
            "slot_states"@,
            json::object_of(json::pair_members(rauc.slot_states)),
        ),
        0 <= k < rauc.slot_states.len() ==> states(
            json::object_of(json::pair_members(rauc.slot_states)),
            rauc.slot_states[k].0,
            json::quoted(rauc.slot_states[k].1),
        ),
{
    lemma_literals();
    let slots = json::object_of(json::pair_members(rauc.slot_states));
    let parts = seq![
        json::member_of("booted_slot"@, json::nullable(rauc.booted_slot)),
        json::member_of("primary_slot"@, json::nullable(rauc.primary_slot)),
        json::member_of("slot_states"@, slots),
    ];
    lemma_member(parts, 0, "booted_slot"@, known(rauc.booted_slot));
    lemma_member(parts, 1, "primary_slot"@, known(rauc.primary_slot));
    lemma_member(parts, 2, "slot_states"@, slots);
    if 0 <= k < rauc.slot_states.len() {
        json_states_each_pair(rauc.slot_states, k);
    }
}

/// An object made of pairs states each.
pub proof fn json_states_each_pair(pairs: Seq<(Seq<char>, Seq<char>)>, k: int)
    requires
        0 <= k < pairs.len(),
    ensures
        states(json::object_of(json::pair_members(pairs)), pairs[k].0, json::quoted(pairs[k].1)),
{
    lemma_member(json::pair_members(pairs), k, pairs[k].0, json::quoted(pairs[k].1));
}

/// The document states of a filesystem where it is mounted, how large it is, and what is free.
pub proof fn json_states_a_filesystem(filesystem: FilesystemView)
    ensures
        states(json::filesystem_json(filesystem), "mount"@, json::quoted(filesystem.mount)),
        states(
            json::filesystem_json(filesystem),
            "total_bytes"@,
            text::decimal(filesystem.total_bytes as nat),
        ),
        states(
            json::filesystem_json(filesystem),
            "available_bytes"@,
            text::decimal(filesystem.available_bytes as nat),
        ),
{
    let total = text::decimal(filesystem.total_bytes as nat);
    let available = text::decimal(filesystem.available_bytes as nat);
    let parts = seq![
        json::member_of("mount"@, json::quoted(filesystem.mount)),
        json::member_of("total_bytes"@, total),
        json::member_of("available_bytes"@, available),
    ];
    lemma_member(parts, 0, "mount"@, json::quoted(filesystem.mount));
    lemma_member(parts, 1, "total_bytes"@, total);
    lemma_member(parts, 2, "available_bytes"@, available);
}

/// The document states of WiFi what the report does, each under a key of its own.
pub proof fn json_states_wifi(wifi: WifiSummaryView)
    ensures
        states(json::wifi_json(wifi), "interface"@, json::quoted(wifi.interface)),
        states(json::wifi_json(wifi), "exists"@, truth(wifi.exists)),
        states(json::wifi_json(wifi), "mode"@, known(wifi.mode)),
        states(json::wifi_json(wifi), "ssid"@, known(wifi.ssid)),
        states(json::wifi_json(wifi), "security"@, known(wifi.security)),
        states(json::wifi_json(wifi), "address"@, known(wifi.address)),
        states(json::wifi_json(wifi), "client_conf_present"@, truth(wifi.client_conf_present)),
{
    lemma_literals();
    let parts = seq![
        json::member_of("interface"@, json::quoted(wifi.interface)),
        json::member_of("exists"@, json::boolean_of(wifi.exists)),
        json::member_of("mode"@, json::nullable(wifi.mode)),
        json::member_of("ssid"@, json::nullable(wifi.ssid)),
        json::member_of("security"@, json::nullable(wifi.security)),
        json::member_of("address"@, json::nullable(wifi.address)),
        json::member_of("client_conf_present"@, json::boolean_of(wifi.client_conf_present)),
    ];
    lemma_member(parts, 0, "interface"@, json::quoted(wifi.interface));
    lemma_member(parts, 1, "exists"@, truth(wifi.exists));
    lemma_member(parts, 2, "mode"@, known(wifi.mode));
    lemma_member(parts, 3, "ssid"@, known(wifi.ssid));
    lemma_member(parts, 4, "security"@, known(wifi.security));
    lemma_member(parts, 5, "address"@, known(wifi.address));
    lemma_member(parts, 6, "client_conf_present"@, truth(wifi.client_conf_present));
}

/// The document states of an interface what it is called and every address it has.
pub proof fn json_states_an_interface(interface: InterfaceView, k: int)
    ensures
        states(json::interface_json(interface), "name"@, json::quoted(interface.name)),
        states(
            json::interface_json(interface),
            "addresses"@,
            json::array_of(json::quoted_each(interface.addresses)),
        ),
        0 <= k < interface.addresses.len() ==> holds(
            json::array_of(json::quoted_each(interface.addresses)),
            json::quoted(interface.addresses[k]),
        ),
{
    let addresses = json::array_of(json::quoted_each(interface.addresses));
    let parts = seq![
        json::member_of("name"@, json::quoted(interface.name)),
        json::member_of("addresses"@, addresses),
    ];
    lemma_member(parts, 0, "name"@, json::quoted(interface.name));
    lemma_member(parts, 1, "addresses"@, addresses);
    if 0 <= k < interface.addresses.len() {
        every_part_is_held(json::quoted_each(interface.addresses), k);
    }
}

/// The document states of the network every interface, and the default route.
pub proof fn json_states_the_network(network: NetworkView, k: int)
    ensures
        states(
            json::network_json(network),
            "interfaces"@,
            json::array_of(network.interfaces.map_values(|i: InterfaceView| json::interface_json(i))),
        ),
        states(json::network_json(network), "default_route"@, known(network.default_route)),
        0 <= k < network.interfaces.len() ==> holds(
            json::array_of(network.interfaces.map_values(|i: InterfaceView| json::interface_json(i))),
            json::interface_json(network.interfaces[k]),
        ),
{
    lemma_literals();
    let items = network.interfaces.map_values(|i: InterfaceView| json::interface_json(i));
    let parts = seq![
        json::member_of("interfaces"@, json::array_of(items)),
        json::member_of("default_route"@, json::nullable(network.default_route)),
    ];
    lemma_member(parts, 0, "interfaces"@, json::array_of(items));
    lemma_member(parts, 1, "default_route"@, known(network.default_route));
    if 0 <= k < network.interfaces.len() {
        every_part_is_held(items, k);
    }
}

/// The document has a key for every part of the status.
pub proof fn json_states_every_part(status: StatusView)
    ensures
        states(json::document(status), "identity"@, json::identity_json(status.identity)),
        states(
            json::document(status),
            "image"@,
            json::object_of(json::pair_members(status.image)),
        ),
        states(json::document(status), "system"@, json::system_json(status.system)),
        states(json::document(status), "rauc"@, json::rauc_json(status.rauc)),
        states(
            json::document(status),
            "filesystems"@,
            json::array_of(
                status.filesystems.map_values(|f: FilesystemView| json::filesystem_json(f)),
            ),
        ),
        states(json::document(status), "wifi"@, json::wifi_json(status.wifi)),
        states(json::document(status), "network"@, json::network_json(status.network)),
        states(
            json::document(status),
            "units"@,
            json::object_of(json::unit_members(status.units)),
        ),
        states(
            json::document(status),
            "failed_units"@,
            json::array_of(json::quoted_each(status.failed_units)),
        ),
{
    let filesystems = json::array_of(
        status.filesystems.map_values(|f: FilesystemView| json::filesystem_json(f)),
    );
    let failed = json::array_of(json::quoted_each(status.failed_units));
    let image = json::object_of(json::pair_members(status.image));
    let units = json::object_of(json::unit_members(status.units));
    let parts = seq![
        json::member_of("identity"@, json::identity_json(status.identity)),
        json::member_of("image"@, image),
        json::member_of("system"@, json::system_json(status.system)),
        json::member_of("rauc"@, json::rauc_json(status.rauc)),
        json::member_of("filesystems"@, filesystems),
        json::member_of("wifi"@, json::wifi_json(status.wifi)),
        json::member_of("network"@, json::network_json(status.network)),
        json::member_of("units"@, units),
        json::member_of("failed_units"@, failed),
    ];
    lemma_member(parts, 0, "identity"@, json::identity_json(status.identity));
    lemma_member(parts, 1, "image"@, image);
    lemma_member(parts, 2, "system"@, json::system_json(status.system));
    lemma_member(parts, 3, "rauc"@, json::rauc_json(status.rauc));
    lemma_member(parts, 4, "filesystems"@, filesystems);
    lemma_member(parts, 5, "wifi"@, json::wifi_json(status.wifi));
    lemma_member(parts, 6, "network"@, json::network_json(status.network));
    lemma_member(parts, 7, "units"@, units);
    lemma_member(parts, 8, "failed_units"@, failed);
}

/// The document lists every filesystem, every watched unit with its state, and every unit that
/// failed.
pub proof fn json_lists_everything(status: StatusView, k: int)
    ensures
        0 <= k < status.filesystems.len() ==> holds(
            json::array_of(
                status.filesystems.map_values(|f: FilesystemView| json::filesystem_json(f)),
            ),
            json::filesystem_json(status.filesystems[k]),
        ),
        0 <= k < status.units.len() ==> states(
            json::object_of(json::unit_members(status.units)),
            status.units[k].name,
            json::quoted(status.units[k].state),
        ),
        0 <= k < status.failed_units.len() ==> holds(
            json::array_of(json::quoted_each(status.failed_units)),
            json::quoted(status.failed_units[k]),
        ),
{
    if 0 <= k < status.filesystems.len() {
        every_part_is_held(
            status.filesystems.map_values(|f: FilesystemView| json::filesystem_json(f)),
            k,
        );
    }
    if 0 <= k < status.units.len() {
        let unit = status.units[k];
        lemma_member(json::unit_members(status.units), k, unit.name, json::quoted(unit.state));
    }
    if 0 <= k < status.failed_units.len() {
        every_part_is_held(json::quoted_each(status.failed_units), k);
    }
}

/// The value of a hexadecimal digit.
pub open spec fn hex_value(c: char) -> int {
    if '0' <= c && c <= '9' {
        c as int - '0' as int
    } else {
        c as int - 'a' as int + 10
    }
}

/// A control character without a short escape is written by its code, in four hexadecimal digits.
pub proof fn controls_are_written_by_their_code(c: char)
    requires
        c <= '\u{1f}',
        c != '\u{8}' && c != '\t' && c != '\n' && c != '\u{c}' && c != '\r',
    ensures
        ({
            let written = json::escaped_char(c);
            &&& written.len() == 6
            &&& written[0] == '\\' && written[1] == 'u' && written[2] == '0' && written[3] == '0'
            &&& hex_value(written[4]) * 16 + hex_value(written[5]) == c as int
        }),
{
}

} // verus!
