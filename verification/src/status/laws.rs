//! What the status report is for, stated apart from how it is put together.

use vstd::prelude::*;
use vstd::string::*;

use crate::status::bytes;
use crate::status::model::{
    FilesystemView, IdentityView, NetworkView, RaucSummaryView, StatusView, SystemView, UnitView,
    WifiSummaryView,
};
use crate::status::text as report;
use crate::text;
use crate::wifi::laws;

verus! {

/// What a line of the report starts with that stands under `key`.
pub open spec fn label(key: Seq<char>) -> Seq<char> {
    "  "@ + text::padded(key, 34) + " "@
}

/// Whether `lines` say `value` under `key`, and nothing else.
pub open spec fn says(lines: Seq<Seq<char>>, key: Seq<char>, value: Seq<char>) -> bool {
    laws::reads(lines, label(key), value)
}

/// Whether `lines` say nothing under `key`.
pub open spec fn says_nothing(lines: Seq<Seq<char>>, key: Seq<char>) -> bool {
    laws::silent(lines, label(key))
}

/// Whether `line` stands under another key than `key`, or under none.
pub open spec fn elsewhere(line: Seq<char>, key: Seq<char>) -> bool {
    !text::has_prefix(line, label(key))
}

proof fn lemma_other_key(key: Seq<char>, other: Seq<char>, value: Seq<char>, j: int)
    requires
        0 <= j < key.len(),
        0 <= j < other.len(),
        key[j] != other[j],
    ensures
        elsewhere(label(other) + value, key),
{
    reveal_strlit("  ");
    assert(label(key)[j + 2] == key[j]);
    assert((label(other) + value)[j + 2] == other[j]);
    laws::lemma_other_label(label(key), label(other) + value, j + 2);
}

proof fn lemma_no_field(key: Seq<char>, line: Seq<char>)
    requires
        line.len() == 0 || line[0] != ' ',
    ensures
        elsewhere(line, key),
{
    reveal_strlit("  ");
    assert(label(key)[0] == ' ');
    laws::lemma_other_label(label(key), line, 0);
}

proof fn lemma_remark(key: Seq<char>, line: Seq<char>)
    requires
        key.len() > 0,
        line.len() > 2,
        line[2] != key[0],
    ensures
        elsewhere(line, key),
{
    reveal_strlit("  ");
    assert(label(key)[2] == key[0]);
    laws::lemma_other_label(label(key), line, 2);
}

proof fn lemma_title(key: Seq<char>, title: Seq<char>)
    ensures
        elsewhere(report::title_line(title), key),
        elsewhere(""@, key),
{
    reveal_strlit("-- ");
    reveal_strlit("");
    assert(report::title_line(title)[0] == '-');
    lemma_no_field(key, report::title_line(title));
    lemma_no_field(key, ""@);
}

proof fn lemma_says(lines: Seq<Seq<char>>, key: Seq<char>, value: Seq<char>, at: int)
    requires
        0 <= at < lines.len(),
        lines[at] == label(key) + value,
        forall|i: int| 0 <= i < lines.len() && i != at ==> elsewhere(#[trigger] lines[i], key),
    ensures
        says(lines, key, value),
{
}

proof fn lemma_field(key: Seq<char>, value: Seq<char>)
    ensures
        report::field_line(key, value) == label(key) + value,
{
    assert(report::field_line(key, value) =~= label(key) + value);
}

/// Keys of the report that start alike are told apart further on.
proof fn lemma_keys()
    ensures
        "robot_id"@.len() > 2 && "robot_id"@[0] == 'r' && "robot_id"@[2] == 'b',
        "ros_domain_id"@.len() > 2 && "ros_domain_id"@[0] == 'r' && "ros_domain_id"@[2] == 's',
        "hostname"@.len() > 2 && "hostname"@[0] == 'h',
        "kernel"@.len() > 2 && "kernel"@[0] == 'k',
        "uptime"@.len() > 2 && "uptime"@[0] == 'u',
        "time_utc"@.len() > 2 && "time_utc"@[0] == 't',
        "booted"@.len() > 2 && "booted"@[0] == 'b',
        "primary"@.len() > 2 && "primary"@[0] == 'p',
        "interface"@.len() > 2 && "interface"@[0] == 'i',
        "mode"@.len() > 2 && "mode"@[0] == 'm',
        "ssid"@.len() > 2 && "ssid"@[0] == 's' && "ssid"@[1] == 's',
        "security"@.len() > 2 && "security"@[0] == 's' && "security"@[1] == 'e',
        "address"@.len() > 2 && "address"@[0] == 'a',
        "client.conf"@.len() > 2 && "client.conf"@[0] == 'c',
        "slot "@.len() == 5 && "slot "@[0] == 's',
{
    assert("robot_id"@.len() > 2 && "robot_id"@[0] == 'r' && "robot_id"@[2] == 'b') by {
        reveal_strlit("robot_id");
    }
    assert("ros_domain_id"@.len() > 2 && "ros_domain_id"@[0] == 'r' && "ros_domain_id"@[2] == 's') by {
        reveal_strlit("ros_domain_id");
    }
    assert("hostname"@.len() > 2 && "hostname"@[0] == 'h') by {
        reveal_strlit("hostname");
    }
    assert("kernel"@.len() > 2 && "kernel"@[0] == 'k') by {
        reveal_strlit("kernel");
    }
    assert("uptime"@.len() > 2 && "uptime"@[0] == 'u') by {
        reveal_strlit("uptime");
    }
    assert("time_utc"@.len() > 2 && "time_utc"@[0] == 't') by {
        reveal_strlit("time_utc");
    }
    assert("booted"@.len() > 2 && "booted"@[0] == 'b') by {
        reveal_strlit("booted");
    }
    assert("primary"@.len() > 2 && "primary"@[0] == 'p') by {
        reveal_strlit("primary");
    }
    assert("interface"@.len() > 2 && "interface"@[0] == 'i') by {
        reveal_strlit("interface");
    }
    assert("mode"@.len() > 2 && "mode"@[0] == 'm') by {
        reveal_strlit("mode");
    }
    assert("ssid"@.len() > 2 && "ssid"@[0] == 's' && "ssid"@[1] == 's') by {
        reveal_strlit("ssid");
    }
    assert("security"@.len() > 2 && "security"@[0] == 's' && "security"@[1] == 'e') by {
        reveal_strlit("security");
    }
    assert("address"@.len() > 2 && "address"@[0] == 'a') by {
        reveal_strlit("address");
    }
    assert("client.conf"@.len() > 2 && "client.conf"@[0] == 'c') by {
        reveal_strlit("client.conf");
    }
    assert("slot "@.len() == 5 && "slot "@[0] == 's') by {
        reveal_strlit("slot ");
    }
}

/// The report says which slot a plain reboot lands on, whichever is booted, and which one is
/// booted, whichever comes next.
pub proof fn the_report_names_both_slots(rauc: RaucSummaryView)
    ensures
        says(
            report::slot_lines(rauc),
            "primary"@,
            match rauc.primary_slot {
                Some(slot) => slot,
                None => "unknown"@,
            },
        ),
        says(
            report::slot_lines(rauc),
            "booted"@,
            match rauc.booted_slot {
                Some(slot) => slot,
                None => "unknown (not an A/B image?)"@,
            },
        ),
{
    let lines = report::slot_lines(rauc);
    let booted = report::or_else(rauc.booted_slot, "unknown (not an A/B image?)"@);
    let primary = report::or_else(rauc.primary_slot, "unknown"@);
    lemma_keys();
    lemma_field("booted"@, booted);
    lemma_field("primary"@, primary);
    lemma_title("booted"@, "slots"@);
    lemma_title("primary"@, "slots"@);
    lemma_other_key("booted"@, "primary"@, primary, 0);
    lemma_other_key("primary"@, "booted"@, booted, 0);
    assert forall|i: int| 4 <= i < lines.len() implies elsewhere(#[trigger] lines[i], "booted"@)
        && elsewhere(lines[i], "primary"@) by {
        let pair = rauc.slot_states[i - 4];
        let key = "slot "@ + pair.0;
        lemma_field(key, pair.1);
        assert(lines[i] == label(key) + pair.1);
        lemma_other_key("booted"@, key, pair.1, 0);
        lemma_other_key("primary"@, key, pair.1, 0);
    }
    assert forall|i: int| 0 <= i < lines.len() && i != 2 implies elsewhere(
        #[trigger] lines[i],
        "booted"@,
    ) by {
        assert(i == 0 || i == 1 || i == 3 || i >= 4);
    }
    assert forall|i: int| 0 <= i < lines.len() && i != 3 implies elsewhere(
        #[trigger] lines[i],
        "primary"@,
    ) by {
        assert(i == 0 || i == 1 || i == 2 || i >= 4);
    }
    lemma_says(lines, "booted"@, booted, 2);
    lemma_says(lines, "primary"@, primary, 3);
}

/// The reports of two robots that differ in nothing but the slot that a plain reboot lands on
/// differ in the line under `primary`, and in no other.
pub proof fn the_report_tells_primary_slots_apart(status: StatusView, a: Seq<char>, b: Seq<char>)
    requires
        a != b,
    ensures
        ({
            let one = report::report_lines(
                StatusView {
                    rauc: RaucSummaryView { primary_slot: Some(a), ..status.rauc },
                    ..status
                },
            );
            let other = report::report_lines(
                StatusView {
                    rauc: RaucSummaryView { primary_slot: Some(b), ..status.rauc },
                    ..status
                },
            );
            exists|i: int|
                #![trigger one[i]]
                {
                    &&& 0 <= i < one.len()
                    &&& one[i] == label("primary"@) + a
                    &&& other == one.update(i, label("primary"@) + b)
                    &&& other != one
                }
        }),
{
    let first = RaucSummaryView { primary_slot: Some(a), ..status.rauc };
    let second = RaucSummaryView { primary_slot: Some(b), ..status.rauc };
    let one = report::report_lines(StatusView { rauc: first, ..status });
    let other = report::report_lines(StatusView { rauc: second, ..status });
    let before = report::identity_lines(status.identity) + report::image_lines(status.image)
        + report::system_lines(status.system);
    let i = before.len() as int + 3;
    lemma_field("primary"@, a);
    lemma_field("primary"@, b);
    assert(one[i] == label("primary"@) + a);
    assert(other[i] == label("primary"@) + b);
    let slots = report::slot_lines(first);
    assert(report::slot_lines(second) =~= slots.update(3, label("primary"@) + b));
    assert(other =~= one.update(i, label("primary"@) + b));
    assert(a =~= (label("primary"@) + a).skip(label("primary"@).len() as int));
    assert(b =~= (label("primary"@) + b).skip(label("primary"@).len() as int));
    assert(one[i] != other[i]);
}

/// The report shows the state of every slot, in order, below the two.
pub proof fn the_report_shows_each_slot(rauc: RaucSummaryView, k: int)
    requires
        0 <= k < rauc.slot_states.len(),
    ensures
        report::slot_lines(rauc).len() == rauc.slot_states.len() + 4,
        report::slot_lines(rauc)[k + 4] == label("slot "@ + rauc.slot_states[k].0)
            + rauc.slot_states[k].1,
{
    lemma_field("slot "@ + rauc.slot_states[k].0, rauc.slot_states[k].1);
}

/// The report says who the robot is, and warns of a hostname that is not its ID: then and only
/// then.
pub proof fn the_report_names_the_robot(identity: IdentityView)
    ensures
        says(report::identity_lines(identity), "robot_id"@, identity.robot_id),
        says(
            report::identity_lines(identity),
            "ros_domain_id"@,
            text::decimal(identity.ros_domain_id as nat),
        ),
        says(
            report::identity_lines(identity),
            "hostname"@,
            match identity.hostname {
                Some(name) => name,
                None => "unknown"@,
            },
        ),
        report::identity_lines(identity).contains(
            "  !! hostname does not match robot_id -- run `robotctl id apply` as root"@,
        ) <==> !identity.hostname_matches,
{
    let lines = report::identity_lines(identity);
    let warning = "  !! hostname does not match robot_id -- run `robotctl id apply` as root"@;
    let ros = text::decimal(identity.ros_domain_id as nat);
    let host = report::or_else(identity.hostname, "unknown"@);
    lemma_keys();
    assert(warning.len() > 2 && warning[0] == ' ' && warning[2] == '!') by {
        reveal_strlit("  !! hostname does not match robot_id -- run `robotctl id apply` as root");
    }
    lemma_field("robot_id"@, identity.robot_id);
    lemma_field("ros_domain_id"@, ros);
    lemma_field("hostname"@, host);
    lemma_title("robot_id"@, "identity"@);
    lemma_title("ros_domain_id"@, "identity"@);
    lemma_title("hostname"@, "identity"@);
    lemma_remark("robot_id"@, warning);
    lemma_remark("ros_domain_id"@, warning);
    lemma_remark("hostname"@, warning);
    lemma_other_key("robot_id"@, "ros_domain_id"@, ros, 2);
    lemma_other_key("robot_id"@, "hostname"@, host, 0);
    lemma_other_key("ros_domain_id"@, "robot_id"@, identity.robot_id, 2);
    lemma_other_key("ros_domain_id"@, "hostname"@, host, 0);
    lemma_other_key("hostname"@, "robot_id"@, identity.robot_id, 0);
    lemma_other_key("hostname"@, "ros_domain_id"@, ros, 0);
    assert(lines.len() == 4 || lines.len() == 5);
    lemma_each(lines, "robot_id"@, identity.robot_id, 1);
    lemma_each(lines, "ros_domain_id"@, ros, 2);
    lemma_each(lines, "hostname"@, host, 3);
    if identity.hostname_matches {
        assert forall|i: int| 0 <= i < lines.len() implies lines[i] != warning by {
            reveal_strlit("-- ");
            reveal_strlit("  ");
            assert(i == 0 || i == 1 || i == 2 || i == 3);
            assert(lines[0][0] == '-');
            assert(lines[1][2] == 'r');
            assert(lines[2][2] == 'r');
            assert(lines[3][2] == 'h');
        }
    } else {
        assert(lines[4] == warning);
    }
}

/// `lemma_says` for a section of at most ten lines.
proof fn lemma_each(lines: Seq<Seq<char>>, key: Seq<char>, value: Seq<char>, at: int)
    requires
        0 <= at < lines.len() <= 10,
        lines[at] == label(key) + value,
        0 != at && 0 < lines.len() ==> elsewhere(lines[0], key),
        1 != at && 1 < lines.len() ==> elsewhere(lines[1], key),
        2 != at && 2 < lines.len() ==> elsewhere(lines[2], key),
        3 != at && 3 < lines.len() ==> elsewhere(lines[3], key),
        4 != at && 4 < lines.len() ==> elsewhere(lines[4], key),
        5 != at && 5 < lines.len() ==> elsewhere(lines[5], key),
        6 != at && 6 < lines.len() ==> elsewhere(lines[6], key),
        7 != at && 7 < lines.len() ==> elsewhere(lines[7], key),
        8 != at && 8 < lines.len() ==> elsewhere(lines[8], key),
        9 != at && 9 < lines.len() ==> elsewhere(lines[9], key),
    ensures
        says(lines, key, value),
{
    assert forall|i: int| 0 <= i < lines.len() && i != at implies elsewhere(
        #[trigger] lines[i],
        key,
    ) by {
        assert(i == 0 || i == 1 || i == 2 || i == 3 || i == 4 || i == 5 || i == 6 || i == 7 || i
            == 8 || i == 9);
    }
    lemma_says(lines, key, value, at);
}

/// The report says which kernel runs, how long the robot has been up, and what time it has.
pub proof fn the_report_describes_the_system(system: SystemView)
    ensures
        says(
            report::system_lines(system),
            "kernel"@,
            match system.kernel {
                Some(kernel) => kernel,
                None => "unknown"@,
            },
        ),
        says(
            report::system_lines(system),
            "uptime"@,
            match system.uptime_seconds {
                Some(seconds) => report::duration_text(seconds as nat),
                None => "unknown"@,
            },
        ),
        says(
            report::system_lines(system),
            "time_utc"@,
            match system.time_utc {
                Some(time) => time,
                None => "unknown"@,
            },
        ),
{
    let lines = report::system_lines(system);
    let kernel = report::or_else(system.kernel, "unknown"@);
    let time = report::or_else(system.time_utc, "unknown"@);
    let up = match system.uptime_seconds {
        Some(seconds) => report::duration_text(seconds as nat),
        None => "unknown"@,
    };
    lemma_keys();
    lemma_field("kernel"@, kernel);
    lemma_field("uptime"@, up);
    lemma_field("time_utc"@, time);
    lemma_title("kernel"@, "system"@);
    lemma_title("uptime"@, "system"@);
    lemma_title("time_utc"@, "system"@);
    lemma_other_key("kernel"@, "uptime"@, up, 0);
    lemma_other_key("kernel"@, "time_utc"@, time, 0);
    lemma_other_key("uptime"@, "kernel"@, kernel, 0);
    lemma_other_key("uptime"@, "time_utc"@, time, 0);
    lemma_other_key("time_utc"@, "kernel"@, kernel, 0);
    lemma_other_key("time_utc"@, "uptime"@, up, 0);
    lemma_each(lines, "kernel"@, kernel, 2);
    lemma_each(lines, "uptime"@, up, 3);
    lemma_each(lines, "time_utc"@, time, 4);
}

/// Whether `lines` say `value` under `key` where there is one, and nothing where there is none.
pub open spec fn says_if_known(
    lines: Seq<Seq<char>>,
    key: Seq<char>,
    value: Option<Seq<char>>,
) -> bool {
    match value {
        Some(value) => says(lines, key, value),
        None => says_nothing(lines, key),
    }
}

/// Whether `part` is all that `lines` say under `key`.
spec fn optional(part: Seq<Seq<char>>, key: Seq<char>, value: Option<Seq<char>>) -> bool {
    match value {
        Some(value) => part.len() == 1 && part[0] == label(key) + value,
        None => part.len() == 0,
    }
}

proof fn lemma_optional(key: Seq<char>, value: Option<Seq<char>>)
    ensures
        optional(report::optional_line(key, value), key, value),
{
    if let Some(value) = value {
        lemma_field(key, value);
    }
}

/// Whether no line of `part` stands under `key`.
spec fn all_elsewhere(part: Seq<Seq<char>>, key: Seq<char>) -> bool {
    forall|i: int| 0 <= i < part.len() ==> elsewhere(#[trigger] part[i], key)
}

/// The lines of a list of parts, one below the other.
spec fn chained(parts: Seq<Seq<Seq<char>>>) -> Seq<Seq<char>>
    decreases parts.len(),
{
    if parts.len() == 0 {
        Seq::empty()
    } else {
        chained(parts.drop_last()) + parts.last()
    }
}

proof fn lemma_chained_elsewhere(parts: Seq<Seq<Seq<char>>>, key: Seq<char>)
    requires
        forall|i: int| 0 <= i < parts.len() ==> all_elsewhere(#[trigger] parts[i], key),
    ensures
        all_elsewhere(chained(parts), key),
    decreases parts.len(),
{
    if parts.len() > 0 {
        let init = parts.drop_last();
        assert forall|i: int| 0 <= i < init.len() implies all_elsewhere(#[trigger] init[i], key) by {
            assert(init[i] == parts[i]);
        }
        lemma_chained_elsewhere(init, key);
        lemma_both_elsewhere(chained(init), parts.last(), key);
    }
}

proof fn lemma_both_elsewhere(a: Seq<Seq<char>>, b: Seq<Seq<char>>, key: Seq<char>)
    requires
        all_elsewhere(a, key),
        all_elsewhere(b, key),
    ensures
        all_elsewhere(a + b, key),
{
    assert forall|i: int| 0 <= i < (a + b).len() implies elsewhere(#[trigger] (a + b)[i], key) by {
        if i < a.len() {
            assert((a + b)[i] == a[i]);
        } else {
            assert((a + b)[i] == b[i - a.len()]);
        }
    }
}

proof fn lemma_part_below(
    before: Seq<Seq<char>>,
    part: Seq<Seq<char>>,
    key: Seq<char>,
    value: Option<Seq<char>>,
)
    requires
        all_elsewhere(before, key),
        optional(part, key, value),
    ensures
        says_if_known(before + part, key, value),
{
    let lines = before + part;
    match value {
        Some(value) => {
            let at = before.len() as int;
            assert(lines[at] == part[0]);
            assert forall|i: int| 0 <= i < lines.len() && i != at implies elsewhere(
                #[trigger] lines[i],
                key,
            ) by {
                assert(lines[i] == before[i]);
            }
            lemma_says(lines, key, value, at);
        },
        None => {
            assert(lines =~= before);
        },
    }
}

proof fn lemma_tail(
    lines: Seq<Seq<char>>,
    tail: Seq<Seq<char>>,
    key: Seq<char>,
    value: Option<Seq<char>>,
)
    requires
        says_if_known(lines, key, value),
        all_elsewhere(tail, key),
    ensures
        says_if_known(lines + tail, key, value),
{
    let all = lines + tail;
    assert forall|i: int| 0 <= i < all.len() implies if i < lines.len() {
        #[trigger] all[i] == lines[i]
    } else {
        elsewhere(all[i], key)
    } by {
        if i >= lines.len() {
            assert(all[i] == tail[i - lines.len()]);
        }
    }
    if let Some(value) = value {
        let at = choose|i: int| 0 <= i < lines.len() && #[trigger] lines[i] == label(key) + value;
        assert(all[at] == label(key) + value);
    }
}

proof fn lemma_chained(
    parts: Seq<Seq<Seq<char>>>,
    at: int,
    key: Seq<char>,
    value: Option<Seq<char>>,
)
    requires
        0 <= at < parts.len(),
        optional(parts[at], key, value),
        forall|i: int| 0 <= i < parts.len() && i != at ==> all_elsewhere(#[trigger] parts[i], key),
    ensures
        says_if_known(chained(parts), key, value),
    decreases parts.len(),
{
    let init = parts.drop_last();
    assert forall|i: int| 0 <= i < init.len() && i != at implies all_elsewhere(
        #[trigger] init[i],
        key,
    ) by {
        assert(init[i] == parts[i]);
    }
    if at == parts.len() - 1 {
        lemma_chained_elsewhere(init, key);
        lemma_part_below(chained(init), parts.last(), key, value);
    } else {
        assert(init[at] == parts[at]);
        lemma_chained(init, at, key, value);
        assert(all_elsewhere(parts[parts.len() - 1], key));
        lemma_tail(chained(init), parts.last(), key, value);
    }
}

proof fn lemma_optional_elsewhere(key: Seq<char>, value: Option<Seq<char>>, other: Seq<char>, j: int)
    requires
        0 <= j < key.len(),
        0 <= j < other.len(),
        key[j] != other[j],
    ensures
        all_elsewhere(report::optional_line(key, value), other),
{
    if let Some(value) = value {
        lemma_field(key, value);
        lemma_other_key(other, key, value, j);
    }
}

/// The report says of WiFi which interface is meant and whether it is there, in what mode it is,
/// which network it is on, what address it has, and whether there are credentials: each under its
/// own key.
pub proof fn the_report_describes_wifi(wifi: WifiSummaryView)
    ensures
        says(report::wifi_lines(wifi), "interface"@, wifi.interface),
        says_if_known(report::wifi_lines(wifi), "mode"@, wifi.mode),
        says_if_known(report::wifi_lines(wifi), "ssid"@, wifi.ssid),
        says_if_known(report::wifi_lines(wifi), "security"@, wifi.security),
        says(
            report::wifi_lines(wifi),
            "address"@,
            match wifi.address {
                Some(address) => address,
                None => "none"@,
            },
        ),
        says(
            report::wifi_lines(wifi),
            "client.conf"@,
            if wifi.client_conf_present {
                "present"@
            } else {
                "missing"@
            },
        ),
        report::wifi_lines(wifi).len() == 5 + (if wifi.exists {
            0nat
        } else {
            1nat
        }) + (if wifi.mode is Some {
            1nat
        } else {
            0nat
        }) + (if wifi.ssid is Some {
            1nat
        } else {
            0nat
        }) + (if wifi.security is Some {
            1nat
        } else {
            0nat
        }),
        !wifi.exists ==> report::wifi_lines(wifi)[3] == "  (interface does not exist)"@,
{
    let parts = wifi_parts(wifi);
    lemma_wifi_parts(wifi);
    lemma_wifi_key(wifi, 1, "interface"@, Some(wifi.interface));
    lemma_wifi_key(wifi, 3, "mode"@, wifi.mode);
    lemma_wifi_key(wifi, 4, "ssid"@, wifi.ssid);
    lemma_wifi_key(wifi, 5, "security"@, wifi.security);
    lemma_wifi_key(wifi, 6, "address"@, Some(report::or_else(wifi.address, "none"@)));
    lemma_wifi_key(wifi, 7, "client.conf"@, Some(presence(wifi)));
    if !wifi.exists {
        assert(report::wifi_lines(wifi)[3] == "  (interface does not exist)"@);
    }
}

spec fn presence(wifi: WifiSummaryView) -> Seq<char> {
    if wifi.client_conf_present {
        "present"@
    } else {
        "missing"@
    }
}

/// The section on WiFi, in parts.
spec fn wifi_parts(wifi: WifiSummaryView) -> Seq<Seq<Seq<char>>> {
    seq![
        seq![""@, report::title_line("wifi"@)],
        report::optional_line("interface"@, Some(wifi.interface)),
        if wifi.exists {
            Seq::empty()
        } else {
            seq!["  (interface does not exist)"@]
        },
        report::optional_line("mode"@, wifi.mode),
        report::optional_line("ssid"@, wifi.ssid),
        report::optional_line("security"@, wifi.security),
        report::optional_line("address"@, Some(report::or_else(wifi.address, "none"@))),
        report::optional_line("client.conf"@, Some(presence(wifi))),
    ]
}

proof fn lemma_wifi_parts(wifi: WifiSummaryView)
    ensures
        report::wifi_lines(wifi) == chained(wifi_parts(wifi)),
{
    let p = wifi_parts(wifi);
    reveal_with_fuel(chained, 2);
    assert(p.take(0) =~= Seq::<Seq<Seq<char>>>::empty());
    assert(p.take(1).drop_last() =~= p.take(0));
    assert(p.take(2).drop_last() =~= p.take(1));
    assert(p.take(3).drop_last() =~= p.take(2));
    assert(p.take(4).drop_last() =~= p.take(3));
    assert(p.take(5).drop_last() =~= p.take(4));
    assert(p.take(6).drop_last() =~= p.take(5));
    assert(p.take(7).drop_last() =~= p.take(6));
    assert(p.drop_last() =~= p.take(7));
    let c1 = chained(p.take(1));
    assert(c1 =~= p[0]);
    let c2 = chained(p.take(2));
    assert(c2 == c1 + p[1]);
    let c3 = chained(p.take(3));
    assert(c3 == c2 + p[2]);
    let c4 = chained(p.take(4));
    assert(c4 == c3 + p[3]);
    let c5 = chained(p.take(5));
    assert(c5 == c4 + p[4]);
    let c6 = chained(p.take(6));
    assert(c6 == c5 + p[5]);
    let c7 = chained(p.take(7));
    assert(c7 == c6 + p[6]);
    assert(chained(p) == c7 + p[7]);
    assert(report::wifi_lines(wifi) =~= chained(p));
}

/// The keys of the section on WiFi, each at the rank of its part.
spec fn wifi_key(rank: int) -> Seq<char> {
    if rank == 1 {
        "interface"@
    } else if rank == 3 {
        "mode"@
    } else if rank == 4 {
        "ssid"@
    } else if rank == 5 {
        "security"@
    } else if rank == 6 {
        "address"@
    } else {
        "client.conf"@
    }
}

proof fn lemma_wifi_key(
    wifi: WifiSummaryView,
    rank: int,
    key: Seq<char>,
    value: Option<Seq<char>>,
)
    requires
        rank == 1 || rank == 3 || rank == 4 || rank == 5 || rank == 6 || rank == 7,
        key == wifi_key(rank),
        wifi_parts(wifi)[rank] == report::optional_line(key, value),
    ensures
        says_if_known(report::wifi_lines(wifi), key, value),
{
    let parts = wifi_parts(wifi);
    lemma_keys();
    lemma_optional(key, value);
    lemma_title(key, "wifi"@);
    assert("  (interface does not exist)"@.len() > 2 && "  (interface does not exist)"@[2] == '(') by {
        reveal_strlit("  (interface does not exist)");
    }
    lemma_remark(key, "  (interface does not exist)"@);
    assert(all_elsewhere(parts[0], key));
    assert(all_elsewhere(parts[2], key));
    assert forall|i: int| 0 <= i < parts.len() && i != rank implies all_elsewhere(
        #[trigger] parts[i],
        key,
    ) by {
        assert(i == 0 || i == 1 || i == 2 || i == 3 || i == 4 || i == 5 || i == 6 || i == 7);
        let j: int = if (rank == 4 && i == 5) || (rank == 5 && i == 4) {
            1
        } else {
            0
        };
        if i == 1 {
            lemma_optional_elsewhere("interface"@, Some(wifi.interface), key, j);
        } else if i == 3 {
            lemma_optional_elsewhere("mode"@, wifi.mode, key, j);
        } else if i == 4 {
            lemma_optional_elsewhere("ssid"@, wifi.ssid, key, j);
        } else if i == 5 {
            lemma_optional_elsewhere("security"@, wifi.security, key, j);
        } else if i == 6 {
            let address = report::or_else(wifi.address, "none"@);
            lemma_optional_elsewhere("address"@, Some(address), key, j);
        } else if i == 7 {
            lemma_optional_elsewhere("client.conf"@, Some(presence(wifi)), key, j);
        }
    }
    lemma_chained(parts, rank, key, value);
    lemma_wifi_parts(wifi);
}

/// The report gives each assignment of the image's build a line of its own, in order, or says that
/// there are none.
pub proof fn the_report_lists_the_image(image: Seq<(Seq<char>, Seq<char>)>, k: int)
    ensures
        image.len() == 0 ==> report::image_lines(image) == seq![
            ""@,
            "-- "@ + "image"@ + " --"@,
            "  (no image-version file)"@,
        ],
        image.len() > 0 ==> report::image_lines(image).len() == image.len() + 2,
        0 <= k < image.len() ==> report::image_lines(image)[k + 2] == label(image[k].0) + image[k].1,
{
    if 0 <= k < image.len() {
        lemma_field(image[k].0, image[k].1);
    }
    if image.len() == 0 {
        assert(report::image_lines(image) =~= seq![
            ""@,
            "-- "@ + "image"@ + " --"@,
            "  (no image-version file)"@,
        ]);
    }
}

/// The report gives each filesystem a line: what is free, what there is, and the share that is
/// used.
pub proof fn the_report_measures_each_filesystem(filesystems: Seq<FilesystemView>, k: int)
    requires
        0 <= k < filesystems.len(),
    ensures
        report::disk_lines(filesystems).len() == filesystems.len() + 2,
        report::disk_lines(filesystems)[k + 2] == label(filesystems[k].mount)
            + bytes::bytes_text(filesystems[k].available_bytes as nat) + " free of "@
            + bytes::bytes_text(filesystems[k].total_bytes as nat) + " ("@
            + text::decimal(report::percent_used(filesystems[k])) + "% used)"@,
{
    let f = filesystems[k];
    lemma_field(f.mount, report::filesystem_text(f));
    assert(report::disk_lines(filesystems)[k + 2] =~= label(f.mount)
        + bytes::bytes_text(f.available_bytes as nat) + " free of "@
        + bytes::bytes_text(f.total_bytes as nat) + " ("@ + text::decimal(
        report::percent_used(f),
    ) + "% used)"@);
}

/// The share that is used is given in whole percent, rounded down: what is used and what is free
/// make up the whole.
pub proof fn the_used_share_is_rounded_down(filesystem: FilesystemView)
    requires
        filesystem.total_bytes > 0,
        filesystem.available_bytes <= filesystem.total_bytes,
    ensures
        ({
            let used = filesystem.total_bytes - filesystem.available_bytes;
            let percent = report::percent_used(filesystem);
            percent * filesystem.total_bytes <= used * 100 < (percent + 1) * filesystem.total_bytes
        }),
        report::percent_used(filesystem) == 0 <==> (filesystem.total_bytes
            - filesystem.available_bytes) * 100 < filesystem.total_bytes,
{
    let used = report::used_bytes(filesystem) as int;
    let total = filesystem.total_bytes as int;
    let percent = report::percent_used(filesystem) as int;
    vstd::arithmetic::div_mod::lemma_fundamental_div_mod(used * 100, total);
    assert(percent * total == total * percent) by (nonlinear_arith);
    assert((percent + 1) * total == percent * total + total) by (nonlinear_arith);
    assert(percent >= 1 ==> percent * total >= total) by (nonlinear_arith)
        requires
            total > 0,
    ;
}

/// The report gives each interface a line with its addresses, and the default route the last one.
pub proof fn the_report_describes_the_network(network: NetworkView, k: int)
    ensures
        report::network_lines(network).len() == network.interfaces.len() + 3,
        0 <= k < network.interfaces.len() ==> report::network_lines(network)[k + 2] == label(
            network.interfaces[k].name,
        ) + text::joined(network.interfaces[k].addresses, ", "@),
        report::network_lines(network).last() == label("default route"@) + match network.default_route {
            Some(route) => route,
            None => "none"@,
        },
{
    lemma_field("default route"@, report::or_else(network.default_route, "none"@));
    if 0 <= k < network.interfaces.len() {
        let interface = network.interfaces[k];
        lemma_field(interface.name, text::joined(interface.addresses, ", "@));
    }
}

/// The report gives each watched unit a line with its state.
pub proof fn the_report_shows_each_unit(units: Seq<UnitView>, k: int)
    requires
        0 <= k < units.len(),
    ensures
        report::unit_lines(units).len() == units.len() + 2,
        report::unit_lines(units)[k + 2] == label(units[k].name) + units[k].state,
{
    lemma_field(units[k].name, units[k].state);
}

/// The report lists every unit that failed, or says that none did.
pub proof fn the_report_lists_failed_units(failed: Seq<Seq<char>>, k: int)
    ensures
        failed.len() == 0 ==> report::failed_lines(failed).len() == 3 && report::failed_lines(
            failed,
        )[2] == "  none"@,
        failed.len() > 0 ==> report::failed_lines(failed).len() == failed.len() + 2,
        0 <= k < failed.len() ==> report::failed_lines(failed)[k + 2] == "  "@ + failed[k],
{
}

proof fn lemma_opens(lines: Seq<Seq<char>>, part: Seq<Seq<char>>, at: int)
    requires
        0 <= at,
        at + part.len() <= lines.len(),
        part.len() >= 2,
        lines.subrange(at, at + part.len()) == part,
    ensures
        lines[at] == part[0],
        lines[at + 1] == part[1],
{
    assert(lines.subrange(at, at + part.len())[0] == lines[at]);
    assert(lines.subrange(at, at + part.len())[1] == lines[at + 1]);
}

proof fn lemma_between(before: Seq<Seq<char>>, part: Seq<Seq<char>>, after: Seq<Seq<char>>)
    ensures
        (before + part + after).subrange(before.len() as int, (before.len() + part.len()) as int)
            == part,
{
    assert((before + part + after).subrange(
        before.len() as int,
        (before.len() + part.len()) as int,
    ) =~= part);
}

proof fn lemma_sections(
    s0: Seq<Seq<char>>,
    s1: Seq<Seq<char>>,
    s2: Seq<Seq<char>>,
    s3: Seq<Seq<char>>,
    s4: Seq<Seq<char>>,
    s5: Seq<Seq<char>>,
    s6: Seq<Seq<char>>,
    s7: Seq<Seq<char>>,
    s8: Seq<Seq<char>>,
)
    ensures
        ({
            let lines = s0 + s1 + s2 + s3 + s4 + s5 + s6 + s7 + s8;
            let a1 = s0.len() as int;
            let a2 = a1 + s1.len();
            let a3 = a2 + s2.len();
            let a4 = a3 + s3.len();
            let a5 = a4 + s4.len();
            let a6 = a5 + s5.len();
            let a7 = a6 + s6.len();
            let a8 = a7 + s7.len();
            let a9 = a8 + s8.len();
            &&& lines.len() == a9
            &&& lines.subrange(0, a1) == s0
            &&& lines.subrange(a1, a2) == s1
            &&& lines.subrange(a2, a3) == s2
            &&& lines.subrange(a3, a4) == s3
            &&& lines.subrange(a4, a5) == s4
            &&& lines.subrange(a5, a6) == s5
            &&& lines.subrange(a6, a7) == s6
            &&& lines.subrange(a7, a8) == s7
            &&& lines.subrange(a8, a9) == s8
        }),
{
    let lines = s0 + s1 + s2 + s3 + s4 + s5 + s6 + s7 + s8;
    let none = Seq::<Seq<char>>::empty();
    let t8 = s8;
    let t7 = s7 + t8;
    let t6 = s6 + t7;
    let t5 = s5 + t6;
    let t4 = s4 + t5;
    let t3 = s3 + t4;
    let t2 = s2 + t3;
    let t1 = s1 + t2;
    let b1 = s0;
    let b2 = b1 + s1;
    let b3 = b2 + s2;
    let b4 = b3 + s3;
    let b5 = b4 + s4;
    let b6 = b5 + s5;
    let b7 = b6 + s6;
    let b8 = b7 + s7;
    lemma_regroup(b7, s7, t8);
    lemma_regroup(b6, s6, t7);
    lemma_regroup(b5, s5, t6);
    lemma_regroup(b4, s4, t5);
    lemma_regroup(b3, s3, t4);
    lemma_regroup(b2, s2, t3);
    lemma_regroup(b1, s1, t2);
    lemma_regroup(none, s0, t1);
    assert(none + s0 =~= s0);
    assert(b8 + s8 + none =~= lines);
    lemma_between(none, s0, t1);
    lemma_between(b1, s1, t2);
    lemma_between(b2, s2, t3);
    lemma_between(b3, s3, t4);
    lemma_between(b4, s4, t5);
    lemma_between(b5, s5, t6);
    lemma_between(b6, s6, t7);
    lemma_between(b7, s7, t8);
    lemma_between(b8, s8, none);
}

proof fn lemma_regroup(a: Seq<Seq<char>>, b: Seq<Seq<char>>, c: Seq<Seq<char>>)
    ensures
        a + b + c == a + (b + c),
{
    assert(a + b + c =~= a + (b + c));
}

proof fn lemma_section_titles(status: StatusView)
    ensures
        ({
            let s0 = report::identity_lines(status.identity);
            s0.len() >= 2 && s0[0] == "-- "@ + "identity"@ + " --"@
        }),
        titled(report::image_lines(status.image), "image"@),
        titled(report::system_lines(status.system), "system"@),
        titled(report::slot_lines(status.rauc), "slots"@),
        titled(report::disk_lines(status.filesystems), "disk"@),
        titled(report::wifi_lines(status.wifi), "wifi"@),
        titled(report::network_lines(status.network), "network"@),
        titled(report::unit_lines(status.units), "units"@),
        titled(report::failed_lines(status.failed_units), "failed units"@),
{
}

/// Whether `part` starts with a blank line and its title.
spec fn titled(part: Seq<Seq<char>>, title: Seq<char>) -> bool {
    part.len() >= 2 && part[0] == ""@ && part[1] == "-- "@ + title + " --"@
}

/// The sections of the report stand one below the other: who the robot is, the image, the system,
/// the slots, the filesystems, WiFi, the network, the units and those that failed. Each starts
/// with its title, a blank line below the section before it.
pub proof fn the_report_holds_every_section(status: StatusView) -> (at: Seq<int>)
    ensures
        ({
            let lines = report::report_lines(status);
            &&& at.len() == 10
            &&& at[0] == 0 < at[1] < at[2] < at[3] < at[4] < at[5] < at[6] < at[7] < at[8] < at[9]
            &&& at[9] == lines.len()
            &&& lines.subrange(at[0], at[1]) == report::identity_lines(status.identity)
            &&& lines.subrange(at[1], at[2]) == report::image_lines(status.image)
            &&& lines.subrange(at[2], at[3]) == report::system_lines(status.system)
            &&& lines.subrange(at[3], at[4]) == report::slot_lines(status.rauc)
            &&& lines.subrange(at[4], at[5]) == report::disk_lines(status.filesystems)
            &&& lines.subrange(at[5], at[6]) == report::wifi_lines(status.wifi)
            &&& lines.subrange(at[6], at[7]) == report::network_lines(status.network)
            &&& lines.subrange(at[7], at[8]) == report::unit_lines(status.units)
            &&& lines.subrange(at[8], at[9]) == report::failed_lines(status.failed_units)
            &&& lines[0] == "-- "@ + "identity"@ + " --"@
            &&& lines[at[1]] == ""@ && lines[at[1] + 1] == "-- "@ + "image"@ + " --"@
            &&& lines[at[2]] == ""@ && lines[at[2] + 1] == "-- "@ + "system"@ + " --"@
            &&& lines[at[3]] == ""@ && lines[at[3] + 1] == "-- "@ + "slots"@ + " --"@
            &&& lines[at[4]] == ""@ && lines[at[4] + 1] == "-- "@ + "disk"@ + " --"@
            &&& lines[at[5]] == ""@ && lines[at[5] + 1] == "-- "@ + "wifi"@ + " --"@
            &&& lines[at[6]] == ""@ && lines[at[6] + 1] == "-- "@ + "network"@ + " --"@
            &&& lines[at[7]] == ""@ && lines[at[7] + 1] == "-- "@ + "units"@ + " --"@
            &&& lines[at[8]] == ""@ && lines[at[8] + 1] == "-- "@ + "failed units"@ + " --"@
        }),
{
    let lines = report::report_lines(status);
    let s0 = report::identity_lines(status.identity);
    let s1 = report::image_lines(status.image);
    let s2 = report::system_lines(status.system);
    let s3 = report::slot_lines(status.rauc);
    let s4 = report::disk_lines(status.filesystems);
    let s5 = report::wifi_lines(status.wifi);
    let s6 = report::network_lines(status.network);
    let s7 = report::unit_lines(status.units);
    let s8 = report::failed_lines(status.failed_units);
    let a1 = s0.len() as int;
    let a2 = a1 + s1.len();
    let a3 = a2 + s2.len();
    let a4 = a3 + s3.len();
    let a5 = a4 + s4.len();
    let a6 = a5 + s5.len();
    let a7 = a6 + s6.len();
    let a8 = a7 + s7.len();
    let a9 = a8 + s8.len();
    lemma_sections(s0, s1, s2, s3, s4, s5, s6, s7, s8);
    lemma_section_titles(status);
    lemma_opens(lines, s1, a1);
    lemma_opens(lines, s2, a2);
    lemma_opens(lines, s3, a3);
    lemma_opens(lines, s4, a4);
    lemma_opens(lines, s5, a5);
    lemma_opens(lines, s6, a6);
    lemma_opens(lines, s7, a7);
    lemma_opens(lines, s8, a8);
    assert(lines[0] == lines.subrange(0, a1)[0]);
    seq![0, a1, a2, a3, a4, a5, a6, a7, a8, a9]
}

/// A time span is shown in its two largest units, and they make it up, cut off to whole ones of
/// the smaller.
pub proof fn a_time_span_is_made_up_of_its_units(days: nat, hours: nat, minutes: nat, seconds: nat)
    requires
        hours < 24,
        minutes < 60,
        seconds < 60,
    ensures
        ({
            let shown = report::duration_text(
                (((days * 24 + hours) * 60 + minutes) * 60 + seconds) as nat,
            );
            if days > 0 {
                shown == text::decimal(days) + "d "@ + text::decimal(hours) + "h"@
            } else if hours > 0 {
                shown == text::decimal(hours) + "h "@ + text::decimal(minutes) + "m"@
            } else if minutes > 0 {
                shown == text::decimal(minutes) + "m "@ + text::decimal(seconds) + "s"@
            } else {
                shown == text::decimal(seconds) + "s"@
            }
        }),
{
    let total = (((days * 24 + hours) * 60 + minutes) * 60 + seconds) as nat;
    assert(total == days * 86_400 + hours * 3_600 + minutes * 60 + seconds);
    assert(total / 86_400 == days);
    assert(total % 86_400 / 3_600 == hours);
    assert(total % 3_600 / 60 == minutes);
    assert(total % 60 == seconds);
}

} // verus!
