//! What becomes of what the system says of itself, stated apart from how it is read.

use vstd::prelude::*;
use vstd::string::*;

use crate::config::PathsView;
use crate::id::RobotConfig;
use crate::status::model::{
    self, Filesystem, NetworkView, Probes, RaucProbe, StatusView, SystemView, WifiProbe,
};
use crate::status::parse::{self, InterfaceView};
use crate::status::uptime;
use crate::text;
use crate::wifi::net::{self, InterfaceMode};

verus! {

/// Whether `value` is what a one-line answer says: the text without the whitespace around it, and
/// nothing where there is no answer or it is blank.
pub open spec fn answers(value: Option<Seq<char>>, answer: Option<String>) -> bool {
    match answer {
        Some(answer) => if text::trimmed(answer@).len() > 0 {
            value == Some(text::trimmed(answer@))
        } else {
            value is None
        },
        None => value is None,
    }
}

/// The status says of the robot what `robot.conf` says, and that the hostname matches if and only
/// if it is the ID. A robot without an identity is called unknown.
pub proof fn the_status_names_the_robot(
    paths: PathsView,
    identity: Option<&RobotConfig>,
    probes: Probes,
)
    ensures
        ({
            let found = model::status_of(paths, identity, probes).identity;
            &&& identity matches Some(known) ==> found.robot_id == known.robot_id@
                && found.ros_domain_id == known.ros_domain_id@
            &&& identity is None ==> found.robot_id == "unknown"@ && found.ros_domain_id == 0
            &&& answers(found.hostname, probes.hostname)
            &&& found.hostname_matches <==> found.hostname == Some(found.robot_id)
        }),
{
}

/// The status says of the system what its own probes say: the kernel, the time, and the seconds
/// since it came up.
pub proof fn the_status_describes_the_system(
    paths: PathsView,
    identity: Option<&RobotConfig>,
    probes: Probes,
)
    ensures
        ({
            let found = model::status_of(paths, identity, probes).system;
            &&& answers(found.kernel, probes.kernel)
            &&& found.time_utc is Some <==> probes.time_utc is Some
            &&& probes.time_utc matches Some(time) ==> found.time_utc == Some(text::trimmed(time@))
            &&& probes.uptime is None ==> found.uptime_seconds is None
            &&& probes.uptime matches Some(up) ==> found.uptime_seconds == uptime::uptime_of(up@)
        }),
{
}

/// What is found out about the identity reaches the identity alone.
pub proof fn the_hostname_reaches_the_identity_alone(
    paths: PathsView,
    identity: Option<&RobotConfig>,
    probes: Probes,
    hostname: Option<String>,
)
    ensures
        ({
            let before = model::status_of(paths, identity, probes);
            let after = model::status_of(paths, identity, Probes { hostname, ..probes });
            after == StatusView { identity: after.identity, ..before } && after.identity.robot_id
                == before.identity.robot_id && after.identity.ros_domain_id
                == before.identity.ros_domain_id
        }),
{
}

/// Each probe of the system reaches its own part of the status, and no other.
pub proof fn probes_of_the_system_reach_their_part_alone(
    paths: PathsView,
    identity: Option<&RobotConfig>,
    probes: Probes,
    text: Option<String>,
)
    ensures
        ({
            let before = model::status_of(paths, identity, probes);
            let kernel = model::status_of(paths, identity, Probes { kernel: text, ..probes });
            let uptime = model::status_of(paths, identity, Probes { uptime: text, ..probes });
            let time = model::status_of(paths, identity, Probes { time_utc: text, ..probes });
            let image = model::status_of(paths, identity, Probes { image_version: text, ..probes });
            &&& kernel == StatusView {
                system: SystemView { kernel: kernel.system.kernel, ..before.system },
                ..before
            }
            &&& uptime == StatusView {
                system: SystemView { uptime_seconds: uptime.system.uptime_seconds, ..before.system },
                ..before
            }
            &&& time == StatusView {
                system: SystemView { time_utc: time.system.time_utc, ..before.system },
                ..before
            }
            &&& image == StatusView { image: image.image, ..before }
        }),
{
}

/// Each probe of the network and of systemd reaches its own part of the status, and no other.
pub proof fn probes_of_the_network_reach_their_part_alone(
    paths: PathsView,
    identity: Option<&RobotConfig>,
    probes: Probes,
    text: Option<String>,
    units: Vec<Option<String>>,
    filesystems: Vec<Filesystem>,
)
    ensures
        ({
            let before = model::status_of(paths, identity, probes);
            let addresses = model::status_of(paths, identity, Probes { addresses: text, ..probes });
            let route = model::status_of(paths, identity, Probes { route: text, ..probes });
            let failed = model::status_of(paths, identity, Probes { failed_units: text, ..probes });
            let watched = model::status_of(paths, identity, Probes { units, ..probes });
            let disks = model::status_of(paths, identity, Probes { filesystems, ..probes });
            &&& addresses == StatusView {
                network: NetworkView {
                    interfaces: addresses.network.interfaces,
                    ..before.network
                },
                ..before
            }
            &&& route == StatusView {
                network: NetworkView { default_route: route.network.default_route, ..before.network },
                ..before
            }
            &&& failed == StatusView { failed_units: failed.failed_units, ..before }
            &&& watched == StatusView { units: watched.units, ..before }
            &&& disks == StatusView { filesystems: disks.filesystems, ..before }
            &&& text is None ==> addresses.network.interfaces.len() == 0
                && route.network.default_route is None && failed.failed_units.len() == 0
        }),
{
}

/// The probes of the slots and of WiFi reach their own part of the status, and no other.
pub proof fn probes_of_slots_and_wifi_reach_their_part_alone(
    paths: PathsView,
    identity: Option<&RobotConfig>,
    probes: Probes,
    rauc: RaucProbe,
    wifi: WifiProbe,
)
    ensures
        ({
            let before = model::status_of(paths, identity, probes);
            let slots = model::status_of(paths, identity, Probes { rauc, ..probes });
            let radio = model::status_of(paths, identity, Probes { wifi, ..probes });
            &&& slots == StatusView { rauc: slots.rauc, ..before }
            &&& radio == StatusView { wifi: radio.wifi, ..before }
            &&& radio.wifi.interface == paths.wifi_interface
        }),
{
}

/// The status lists every filesystem as it was measured, in order.
pub proof fn the_status_lists_every_filesystem(
    paths: PathsView,
    identity: Option<&RobotConfig>,
    probes: Probes,
    k: int,
)
    requires
        0 <= k < probes.filesystems@.len(),
    ensures
        ({
            let found = model::status_of(paths, identity, probes).filesystems;
            let filesystem = probes.filesystems@[k];
            &&& found.len() == probes.filesystems@.len()
            &&& found[k].mount == filesystem.mount@
            &&& found[k].total_bytes == filesystem.total_bytes
            &&& found[k].available_bytes == filesystem.available_bytes
        }),
{
}

/// Every watched unit is listed, in order, with the state that was printed for it, or as unknown.
pub proof fn every_watched_unit_is_listed(probes: Seq<Option<String>>, k: int)
    requires
        0 <= k < 7,
    ensures
        ({
            let units = model::units_of(probes);
            &&& units.len() == 7
            &&& units[0].name == "robotctl-wifi.service"@
            &&& units[1].name == "robot-wifi-supervisor.service"@
            &&& units[2].name == "robot-wifi-client.service"@
            &&& units[3].name == "robot-wifi-fallback-ap.service"@
            &&& units[4].name == "docker.service"@
            &&& units[5].name == "robot-experiments.service"@
            &&& units[6].name == "robot-update-health-check.service"@
            &&& k >= probes.len() ==> units[k].state == "unknown"@
            &&& k < probes.len() ==> match probes[k] {
                Some(state) => if text::trimmed(state@).len() > 0 {
                    units[k].state == text::trimmed(state@)
                } else {
                    units[k].state == "unknown"@
                },
                None => units[k].state == "unknown"@,
            }
        }),
{
}

/// Each slot is listed with its own state, `A` before `B`, if it has one; which slot comes next is
/// another question.
pub proof fn slots_have_their_own_states(probe: RaucProbe)
    ensures
        ({
            let found = model::rauc_of(probe);
            &&& answers(found.primary_slot, probe.primary)
            &&& forall|state: Seq<char>|
                found.slot_states.contains(("A"@, state)) <==> #[trigger] answers(
                    Some(state),
                    probe.state_a,
                )
            &&& forall|state: Seq<char>|
                found.slot_states.contains(("B"@, state)) <==> #[trigger] answers(
                    Some(state),
                    probe.state_b,
                )
            &&& found.slot_states.len() <= 2
            &&& found.slot_states.len() == 2 ==> found.slot_states[0].0 == "A"@
                && found.slot_states[1].0 == "B"@
            &&& found.slot_states.len() == 1 ==> found.slot_states[0].0 == "A"@
                || found.slot_states[0].0 == "B"@
        }),
{
    reveal_strlit("A");
    reveal_strlit("B");
    assert("A"@[0] != "B"@[0]);
    let found = model::rauc_of(probe).slot_states;
    let a = parse::nonblank(text::opt_view(probe.state_a));
    let b = parse::nonblank(text::opt_view(probe.state_b));
    if let Some(state) = a {
        assert(found[0] == ("A"@, state));
    }
    if let Some(state) = b {
        assert(found.last() == ("B"@, state));
    }
    assert forall|state: Seq<char>|
        found.contains(("A"@, state)) <==> #[trigger] answers(Some(state), probe.state_a) by {
        if found.contains(("A"@, state)) {
            let i = choose|i: int| 0 <= i < found.len() && found[i] == ("A"@, state);
            assert(i == 0 || i == 1);
        }
        if answers(Some(state), probe.state_a) {
            assert(found[0] == ("A"@, state));
        }
    }
    assert forall|state: Seq<char>|
        found.contains(("B"@, state)) <==> #[trigger] answers(Some(state), probe.state_b) by {
        if found.contains(("B"@, state)) {
            let i = choose|i: int| 0 <= i < found.len() && found[i] == ("B"@, state);
            assert(i == 0 || i == 1);
        }
        if answers(Some(state), probe.state_b) {
            assert(found[found.len() - 1] == ("B"@, state));
        }
    }
}

/// The booted slot is the one that the kernel command line names first, whatever the others say.
pub proof fn the_booted_slot_is_on_the_command_line(probe: RaucProbe, k: int, slot: Seq<char>)
    requires
        probe.cmdline matches Some(cmdline) && ({
            let words = text::words_of(cmdline@);
            &&& 0 <= k < words.len()
            &&& words[k] == "rauc.slot="@ + slot
            &&& forall|j: int| 0 <= j < k ==> !text::has_prefix(#[trigger] words[j], "rauc.slot="@)
        }),
    ensures
        model::rauc_of(probe).booted_slot == if slot.len() > 0 {
            Some(slot)
        } else {
            None
        },
{
    let words = text::words_of(probe.cmdline->0@);
    lemma_word_after(words, "rauc.slot="@, k, slot);
}

/// A command line that names no slot leaves the booted one unknown.
pub proof fn no_slot_on_the_command_line_is_unknown(probe: RaucProbe)
    requires
        probe.cmdline matches Some(cmdline) ==> forall|j: int|
            0 <= j < text::words_of(cmdline@).len() ==> !text::has_prefix(
                #[trigger] text::words_of(cmdline@)[j],
                "rauc.slot="@,
            ),
    ensures
        model::rauc_of(probe).booted_slot is None,
{
    if let Some(cmdline) = probe.cmdline {
        lemma_no_word_after(text::words_of(cmdline@), "rauc.slot="@);
    }
}

proof fn lemma_word_after(words: Seq<Seq<char>>, prefix: Seq<char>, k: int, rest: Seq<char>)
    requires
        0 <= k < words.len(),
        words[k] == prefix + rest,
        forall|j: int| 0 <= j < k ==> !text::has_prefix(#[trigger] words[j], prefix),
    ensures
        parse::word_after(words, prefix) == Some(rest),
    decreases words.len(),
{
    if k == 0 {
        assert((prefix + rest).subrange(0, prefix.len() as int) =~= prefix);
        assert((prefix + rest).skip(prefix.len() as int) =~= rest);
    } else {
        let tail = words.drop_first();
        assert(!text::has_prefix(words[0], prefix));
        assert forall|j: int| 0 <= j < k - 1 implies !text::has_prefix(#[trigger] tail[j], prefix) by {
            assert(tail[j] == words[j + 1]);
        }
        lemma_word_after(tail, prefix, k - 1, rest);
    }
}

proof fn lemma_no_word_after(words: Seq<Seq<char>>, prefix: Seq<char>)
    requires
        forall|j: int| 0 <= j < words.len() ==> !text::has_prefix(#[trigger] words[j], prefix),
    ensures
        parse::word_after(words, prefix) is None,
    decreases words.len(),
{
    if words.len() > 0 {
        let tail = words.drop_first();
        assert(!text::has_prefix(words[0], prefix));
        assert forall|j: int| 0 <= j < tail.len() implies !text::has_prefix(#[trigger] tail[j], prefix) by {
            assert(tail[j] == words[j + 1]);
        }
        lemma_no_word_after(tail, prefix);
    }
}

/// In client mode the summary names the network that is joined; as an access point, the one that
/// is served and how it is secured. What is not there has no mode, no network and no address.
pub proof fn the_summary_follows_the_mode(interface: Seq<char>, probe: WifiProbe)
    ensures
        ({
            let found = model::wifi_of(interface, probe);
            let mode = match probe.info {
                Some(info) => net::iw_type_of(info@),
                None => None,
            };
            &&& found.interface == interface
            &&& found.exists == probe.exists
            &&& found.client_conf_present == probe.client_conf_present
            &&& !probe.exists ==> found.mode is None && found.ssid is None && found.security is None
                && found.address is None
            &&& probe.exists ==> match mode {
                Some(InterfaceMode::Client) => {
                    &&& found.mode == Some("client"@)
                    &&& found.ssid == match probe.link {
                        Some(link) => net::iw_link_ssid_of(link@),
                        None => None,
                    }
                    &&& found.security is None
                },
                Some(InterfaceMode::AccessPoint) => {
                    &&& found.mode == Some("fallback AP"@)
                    &&& found.ssid is Some <==> probe.ap is Some
                    &&& found.security is Some <==> probe.ap is Some
                    &&& probe.ap matches Some(ap) ==> found.ssid == Some(ap.ssid@)
                        && found.security == Some(
                        if ap.psk is Some {
                            "WPA2"@
                        } else {
                            "open (no passphrase)"@
                        },
                    )
                },
                Some(InterfaceMode::Other) => {
                    &&& found.mode == Some("other"@)
                    &&& found.ssid is None
                    &&& found.security is None
                },
                None => {
                    &&& found.mode is None
                    &&& found.ssid is None
                    &&& found.security is None
                },
            }
            &&& probe.exists ==> found.address == match probe.addresses {
                Some(text) => net::inet_address_of(text@),
                None => None,
            }
        }),
{
}

/// A line `key=value` adds that assignment to the others, whatever else it holds; a line without
/// `=` adds nothing.
pub proof fn a_line_assigns_what_it_says(
    lines: Seq<Seq<char>>,
    key: Seq<char>,
    value: Seq<char>,
    line: Seq<char>,
)
    requires
        !key.contains('='),
        !line.contains('='),
    ensures
        parse::assignments(lines.push(key + seq!['='] + value)) == parse::assignments(lines).push(
            (text::trimmed(key), text::trimmed(value)),
        ),
        parse::assignments(lines.push(line)) == parse::assignments(lines),
{
    let whole = key + seq!['='] + value;
    assert(lines.push(whole).drop_last() =~= lines);
    assert(lines.push(line).drop_last() =~= lines);
    assert forall|i: int| 0 <= i < key.len() implies whole[i] != '=' by {
        assert(whole[i] == key[i]);
    }
    assert(whole[key.len() as int] == '=');
    text::lemma_position_is(whole, '=', key.len() as int);
    assert(whole.take(key.len() as int) =~= key);
    assert(whole.skip(key.len() as int + 1) =~= value);
    text::lemma_position_is(line, '=', line.len() as int);
}

/// A line adds its first word to the units if there is a dot in it, and nothing otherwise.
pub proof fn a_line_names_a_unit(lines: Seq<Seq<char>>, line: Seq<char>)
    ensures
        ({
            let words = text::words_of(line);
            let before = parse::unit_names(lines);
            let after = parse::unit_names(lines.push(line));
            if words.len() > 0 && words[0].contains('.') {
                after == before.push(words[0])
            } else {
                after == before
            }
        }),
        parse::unit_names(Seq::empty()).len() == 0,
{
    assert(lines.push(line).drop_last() =~= lines);
}

/// The addresses that `interfaces` hold under `name`.
pub open spec fn holds_address(
    interfaces: Seq<InterfaceView>,
    name: Seq<char>,
    address: Seq<char>,
) -> bool {
    exists|i: int|
        0 <= i < interfaces.len() && (#[trigger] interfaces[i]).name == name
            && interfaces[i].addresses.contains(address)
}

/// A line adds its address to its interface, and keeps every other.
pub proof fn a_line_adds_its_address(
    lines: Seq<Seq<char>>,
    line: Seq<char>,
    name: Seq<char>,
    address: Seq<char>,
)
    ensures
        holds_address(parse::interfaces_on(lines.push(line)), name, address) <==> holds_address(
            parse::interfaces_on(lines),
            name,
            address,
        ) || parse::address_on(line) == Some((name, address)),
{
    let before = parse::interfaces_on(lines);
    let after = parse::interfaces_on(lines.push(line));
    assert(lines.push(line).drop_last() =~= lines);
    match parse::address_on(line) {
        None => {},
        Some((n, a)) => {
            assert(after == parse::with_address(before, n, a));
            if parse::has_interface(before, n) {
                let at = choose|i: int| 0 <= i < before.len() && #[trigger] before[i].name == n;
                let pushed = before[at].addresses.push(a);
                assert(after[at].addresses == pushed);
                assert(pushed[before[at].addresses.len() as int] == a);
                assert(pushed.contains(a));
                assert(holds_address(after, n, a));
            } else {
                assert(after.last().name == n);
                assert(after[before.len() as int].addresses[0] == a);
                assert(after[before.len() as int].addresses.contains(a));
                assert(holds_address(after, n, a));
            }
            if holds_address(before, name, address) {
                let i = choose|i: int|
                    0 <= i < before.len() && (#[trigger] before[i]).name == name
                        && before[i].addresses.contains(address);
                assert(after[i].name == name);
                vstd::seq_lib::lemma_seq_contains_after_push(before[i].addresses, a, address);
                assert(after[i].addresses.contains(address));
            }
            if holds_address(after, name, address) {
                let i = choose|i: int|
                    0 <= i < after.len() && (#[trigger] after[i]).name == name
                        && after[i].addresses.contains(address);
                if i < before.len() {
                    assert(before[i].name == name);
                    vstd::seq_lib::lemma_seq_contains_after_push(before[i].addresses, a, address);
                }
            }
        },
    }
}

/// A line of `ip -o -4 addr show` names the interface in its second word, and the address behind
/// the first `inet` that follows.
pub proof fn an_address_follows_inet(line: Seq<char>, k: int)
    requires
        text::words_of(line).len() >= 2,
        2 <= k < text::words_of(line).len(),
        text::words_of(line)[k] == "inet"@,
        forall|j: int| 2 <= j < k ==> #[trigger] text::words_of(line)[j] != "inet"@,
    ensures
        parse::address_on(line) == if k + 1 < text::words_of(line).len() {
            Some((text::words_of(line)[1], text::words_of(line)[k + 1]))
        } else {
            None
        },
{
    let words = text::words_of(line);
    let rest = words.skip(2);
    assert forall|j: int| 0 <= j < k - 2 implies rest[j] != "inet"@ by {
        assert(rest[j] == words[j + 2]);
    }
    parse::lemma_word_position(rest, "inet"@, k - 2);
}

/// A line without `inet` behind its second word has no address.
pub proof fn no_address_without_inet(line: Seq<char>)
    requires
        forall|j: int|
            2 <= j < text::words_of(line).len() ==> #[trigger] text::words_of(line)[j] != "inet"@,
    ensures
        parse::address_on(line) is None,
{
    let words = text::words_of(line);
    if words.len() >= 2 {
        let rest = words.skip(2);
        assert forall|j: int| 0 <= j < rest.len() implies rest[j] != "inet"@ by {
            assert(rest[j] == words[j + 2]);
        }
        parse::lemma_word_position(rest, "inet"@, rest.len() as int);
    }
}

/// The default route is the first line that starts with `default `, without the whitespace around
/// it.
pub proof fn the_first_default_route_counts(lines: Seq<Seq<char>>, k: int)
    requires
        0 <= k <= lines.len(),
        k < lines.len() ==> text::has_prefix(text::trimmed(lines[k]), "default "@),
        forall|j: int|
            0 <= j < k ==> !text::has_prefix(text::trimmed(#[trigger] lines[j]), "default "@),
    ensures
        parse::default_route_on(lines) == if k < lines.len() {
            Some(text::trimmed(lines[k]))
        } else {
            None
        },
    decreases lines.len(),
{
    if k > 0 {
        let rest = lines.drop_first();
        assert(!text::has_prefix(text::trimmed(lines[0]), "default "@));
        assert forall|j: int| 0 <= j < k - 1 implies !text::has_prefix(
            text::trimmed(#[trigger] rest[j]),
            "default "@,
        ) by {
            assert(rest[j] == lines[j + 1]);
        }
        the_first_default_route_counts(rest, k - 1);
    }
}

/// Interfaces are listed in the order in which they first come up, and their addresses in the
/// order of the lines.
pub proof fn interfaces_and_addresses_keep_their_order(
    lines: Seq<Seq<char>>,
    line: Seq<char>,
    i: int,
)
    requires
        parse::address_on(line) is Some,
        0 <= i < parse::interfaces_on(lines).len(),
    ensures
        ({
            let (name, address) = parse::address_on(line)->0;
            let before = parse::interfaces_on(lines);
            let after = parse::interfaces_on(lines.push(line));
            &&& after[i].name == before[i].name
            &&& after[i].addresses == if before[i].name == name {
                before[i].addresses.push(address)
            } else {
                before[i].addresses
            }
            &&& after.len() > before.len() ==> after.len() == before.len() + 1 && after.last().name
                == name && after.last().addresses == seq![address]
        }),
{
    assert(lines.push(line).drop_last() =~= lines);
    let before = parse::interfaces_on(lines);
    let (name, address) = parse::address_on(line)->0;
    if !parse::has_interface(before, name) {
        assert(before[i].name != name);
    }
}

/// The status holds what the image's file, the addresses, the routes and the failed units say, line
/// by line, and what the slots and the WiFi interface were found to be.
pub proof fn the_status_reads_each_probe(
    paths: PathsView,
    identity: Option<&RobotConfig>,
    probes: Probes,
)
    ensures
        ({
            let found = model::status_of(paths, identity, probes);
            &&& probes.image_version matches Some(text) ==> found.image == parse::assignments(
                text::lines_of(text@),
            )
            &&& probes.image_version is None ==> found.image.len() == 0
            &&& probes.addresses matches Some(text) ==> found.network.interfaces
                == parse::interfaces_on(text::lines_of(text@))
            &&& probes.addresses is None ==> found.network.interfaces.len() == 0
            &&& probes.route matches Some(text) ==> found.network.default_route
                == parse::default_route_on(text::lines_of(text@))
            &&& probes.route is None ==> found.network.default_route is None
            &&& probes.failed_units matches Some(text) ==> found.failed_units == parse::unit_names(
                text::lines_of(text@),
            )
            &&& probes.failed_units is None ==> found.failed_units.len() == 0
            &&& found.rauc == model::rauc_of(probes.rauc)
            &&& found.wifi == model::wifi_of(paths.wifi_interface, probes.wifi)
            &&& found.units == model::units_of(probes.units@)
        }),
{
    assert(text::lines_of(Seq::<char>::empty()).len() == 0);
}

} // verus!
