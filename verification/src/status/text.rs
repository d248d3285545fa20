//! Human-readable `robotctl status` output.

pub use crate::status::bytes::format_bytes;

use vstd::prelude::*;
use vstd::string::*;

use crate::status::bytes;
use crate::status::model::{
    self, Filesystem, FilesystemView, Identity, IdentityView, Network, NetworkView, RaucSummary,
    RaucSummaryView, Status, StatusView, System, SystemView, Unit, UnitView, WifiSummary,
    WifiSummaryView,
};
use crate::status::parse::{self, Interface, InterfaceView};
use crate::text;

verus! {

/// The width of the column that holds the keys.
pub const KEY_WIDTH: usize = 34;

pub open spec fn title_line(title: Seq<char>) -> Seq<char> {
    "-- "@ + title + " --"@
}

pub open spec fn field_line(key: Seq<char>, value: Seq<char>) -> Seq<char> {
    "  "@ + text::padded(key, KEY_WIDTH as nat) + " "@ + value
}

/// Starts a section, a blank line below the one before it.
fn section(out: &mut Vec<String>, title: &str)
    ensures
        text::views(final(out)@) == (if old(out)@.len() > 0 {
            text::views(old(out)@).push(""@)
        } else {
            text::views(old(out)@)
        }).push(title_line(title@)),
{
    broadcast use text::lemma_views_push;

    if out.len() > 0 {
        out.push("".to_owned());
    }
    out.push(text::cat3("-- ", title, " --"));
}

fn field(out: &mut Vec<String>, key: &str, value: &str)
    ensures
        text::views(final(out)@) == text::views(old(out)@).push(field_line(key@, value@)),
        final(out)@.len() == old(out)@.len() + 1,
{
    broadcast use text::lemma_views_push;

    out.push(text::cat4("  ", text::pad(key, KEY_WIDTH).as_str(), " ", value));
}

fn line(out: &mut Vec<String>, text: &str)
    ensures
        text::views(final(out)@) == text::views(old(out)@).push(text@),
        final(out)@.len() == old(out)@.len() + 1,
{
    broadcast use text::lemma_views_push;

    out.push(text.to_owned());
}

/// `value`, or the words that stand in for it.
pub open spec fn or_else(value: Option<Seq<char>>, words: Seq<char>) -> Seq<char> {
    match value {
        Some(value) => value,
        None => words,
    }
}

fn or<'a>(value: &'a Option<String>, words: &'a str) -> (r: &'a str)
    ensures
        r@ == or_else(text::opt_view(*value), words@),
{
    match value {
        Some(value) => value.as_str(),
        None => words,
    }
}

/// How a time span is shown: in its largest two units.
pub open spec fn duration_text(seconds: nat) -> Seq<char> {
    let days = seconds / 86_400;
    let hours = seconds % 86_400 / 3_600;
    let minutes = seconds % 3_600 / 60;
    if days > 0 {
        text::decimal(days) + "d "@ + text::decimal(hours) + "h"@
    } else if hours > 0 {
        text::decimal(hours) + "h "@ + text::decimal(minutes) + "m"@
    } else if minutes > 0 {
        text::decimal(minutes) + "m "@ + text::decimal(seconds % 60) + "s"@
    } else {
        text::decimal(seconds) + "s"@
    }
}

/// Largest two units only: "3d 4h" rather than "3d 4h 12m 7s", because the point is a glance at
/// how long the robot has been up, not a stopwatch reading.
pub fn format_duration(seconds: u64) -> (r: String)
    ensures
        r@ == duration_text(seconds as nat),
{
    let days: u64 = seconds / 86_400;
    let hours: u64 = (seconds % 86_400) / 3_600;
    let minutes: u64 = (seconds % 3_600) / 60;
    if days > 0 {
        text::cat4(text::to_decimal(days).as_str(), "d ", text::to_decimal(hours).as_str(), "h")
    } else if hours > 0 {
        text::cat4(
            text::to_decimal(hours).as_str(),
            "h ",
            text::to_decimal(minutes).as_str(),
            "m",
        )
    } else if minutes > 0 {
        text::cat4(
            text::to_decimal(minutes).as_str(),
            "m ",
            text::to_decimal(seconds % 60).as_str(),
            "s",
        )
    } else {
        text::cat2(text::to_decimal(seconds).as_str(), "s")
    }
}

/// What is taken of a filesystem.
pub open spec fn used_bytes(filesystem: FilesystemView) -> nat {
    if filesystem.total_bytes > filesystem.available_bytes {
        (filesystem.total_bytes - filesystem.available_bytes) as nat
    } else {
        0
    }
}

/// Whether what is taken of a filesystem can be given in percent.
pub open spec fn measurable(filesystem: FilesystemView) -> bool {
    used_bytes(filesystem) * 100 <= u64::MAX
}

/// How much of a filesystem is taken, in percent: none of an empty one.
pub open spec fn percent_used(filesystem: FilesystemView) -> nat {
    if filesystem.total_bytes == 0 {
        0
    } else {
        used_bytes(filesystem) * 100 / filesystem.total_bytes as nat
    }
}

/// How a filesystem's space is shown.
pub open spec fn filesystem_text(filesystem: FilesystemView) -> Seq<char> {
    bytes::bytes_text(filesystem.available_bytes as nat) + " free of "@ + bytes::bytes_text(
        filesystem.total_bytes as nat,
    ) + " ("@ + text::decimal(percent_used(filesystem)) + "% used)"@
}

pub fn describe_filesystem(filesystem: &Filesystem) -> (r: String)
    requires
        measurable(filesystem@),
    ensures
        r@ == filesystem_text(filesystem@),
{
    let used: u64 = if filesystem.total_bytes > filesystem.available_bytes {
        filesystem.total_bytes - filesystem.available_bytes
    } else {
        0
    };
    let percent: u64 = if filesystem.total_bytes == 0 {
        0
    } else {
        (used * 100) / filesystem.total_bytes
    };
    text::cat6(
        format_bytes(filesystem.available_bytes).as_str(),
        " free of ",
        format_bytes(filesystem.total_bytes).as_str(),
        " (",
        text::to_decimal(percent).as_str(),
        "% used)",
    )
}

/// A share is never more than the whole.
pub proof fn no_more_than_all_is_used(filesystem: FilesystemView)
    ensures
        percent_used(filesystem) <= 100,
{
    let used = used_bytes(filesystem);
    let total = filesystem.total_bytes as nat;
    if total > 0 {
        assert(used * 100 / total <= 100) by (nonlinear_arith)
            requires
                used <= total,
                total > 0,
        ;
    }
}

/// The section on the robot's identity.
pub open spec fn identity_lines(identity: IdentityView) -> Seq<Seq<char>> {
    let lines = seq![
        title_line("identity"@),
        field_line("robot_id"@, identity.robot_id),
        field_line("ros_domain_id"@, text::decimal(identity.ros_domain_id as nat)),
        field_line("hostname"@, or_else(identity.hostname, "unknown"@)),
    ];
    if identity.hostname_matches {
        lines
    } else {
        lines.push(
            "  !! hostname does not match robot_id -- run `robotctl id apply` as root"@,
        )
    }
}

/// A field for each pair of a list.
pub open spec fn pair_lines(pairs: Seq<(Seq<char>, Seq<char>)>) -> Seq<Seq<char>> {
    pairs.map_values(|pair: (Seq<char>, Seq<char>)| field_line(pair.0, pair.1))
}

/// The section on the image.
pub open spec fn image_lines(image: Seq<(Seq<char>, Seq<char>)>) -> Seq<Seq<char>> {
    let lines = seq![""@, title_line("image"@)];
    if image.len() == 0 {
        lines.push("  (no image-version file)"@)
    } else {
        lines + pair_lines(image)
    }
}

/// The section on the system.
pub open spec fn system_lines(system: SystemView) -> Seq<Seq<char>> {
    seq![
        ""@,
        title_line("system"@),
        field_line("kernel"@, or_else(system.kernel, "unknown"@)),
        field_line(
            "uptime"@,
            match system.uptime_seconds {
                Some(seconds) => duration_text(seconds as nat),
                None => "unknown"@,
            },
        ),
        field_line("time_utc"@, or_else(system.time_utc, "unknown"@)),
    ]
}

/// The section on the update slots.
pub open spec fn slot_lines(rauc: RaucSummaryView) -> Seq<Seq<char>> {
    seq![
        ""@,
        title_line("slots"@),
        field_line("booted"@, or_else(rauc.booted_slot, "unknown (not an A/B image?)"@)),
        field_line("primary"@, or_else(rauc.primary_slot, "unknown"@)),
    ] + rauc.slot_states.map_values(
        |pair: (Seq<char>, Seq<char>)| field_line("slot "@ + pair.0, pair.1),
    )
}

/// The section on the filesystems.
pub open spec fn disk_lines(filesystems: Seq<FilesystemView>) -> Seq<Seq<char>> {
    seq![""@, title_line("disk"@)] + filesystems.map_values(
        |filesystem: FilesystemView|
            field_line(filesystem.mount, filesystem_text(filesystem)),
    )
}

/// A field that is there only where there is something to say.
pub open spec fn optional_line(key: Seq<char>, value: Option<Seq<char>>) -> Seq<Seq<char>> {
    match value {
        Some(value) => seq![field_line(key, value)],
        None => Seq::empty(),
    }
}

/// The section on WiFi.
pub open spec fn wifi_lines(wifi: WifiSummaryView) -> Seq<Seq<char>> {
    seq![""@, title_line("wifi"@), field_line("interface"@, wifi.interface)] + (if wifi.exists {
        Seq::empty()
    } else {
        seq!["  (interface does not exist)"@]
    }) + optional_line("mode"@, wifi.mode) + optional_line("ssid"@, wifi.ssid) + optional_line(
        "security"@,
        wifi.security,
    ) + seq![
        field_line("address"@, or_else(wifi.address, "none"@)),
        field_line(
            "client.conf"@,
            if wifi.client_conf_present {
                "present"@
            } else {
                "missing"@
            },
        ),
    ]
}

/// The section on the network.
pub open spec fn network_lines(network: NetworkView) -> Seq<Seq<char>> {
    (seq![""@, title_line("network"@)] + network.interfaces.map_values(
        |interface: InterfaceView|
            field_line(interface.name, text::joined(interface.addresses, ", "@)),
    )).push(field_line("default route"@, or_else(network.default_route, "none"@)))
}

/// The section on the watched units.
pub open spec fn unit_lines(units: Seq<UnitView>) -> Seq<Seq<char>> {
    seq![""@, title_line("units"@)] + units.map_values(
        |unit: UnitView| field_line(unit.name, unit.state),
    )
}

/// The section on the units that failed.
pub open spec fn failed_lines(failed: Seq<Seq<char>>) -> Seq<Seq<char>> {
    let lines = seq![""@, title_line("failed units"@)];
    if failed.len() == 0 {
        lines.push("  none"@)
    } else {
        lines + failed.map_values(|unit: Seq<char>| "  "@ + unit)
    }
}

/// The report, line by line.
pub open spec fn report_lines(status: StatusView) -> Seq<Seq<char>> {
    identity_lines(status.identity) + image_lines(status.image) + system_lines(status.system)
        + slot_lines(status.rauc) + disk_lines(status.filesystems) + wifi_lines(status.wifi)
        + network_lines(status.network) + unit_lines(status.units) + failed_lines(
        status.failed_units,
    )
}

fn put_identity(out: &mut Vec<String>, identity: &Identity)
    requires
        old(out)@.len() == 0,
    ensures
        text::views(final(out)@) == text::views(old(out)@) + identity_lines(identity@),
        final(out)@.len() > 0,
{
    section(out, "identity");
    field(out, "robot_id", identity.robot_id.as_str());
    field(out, "ros_domain_id", text::to_decimal(identity.ros_domain_id as u64).as_str());
    field(out, "hostname", or(&identity.hostname, "unknown"));
    if !identity.hostname_matches {
        line(out, "  !! hostname does not match robot_id -- run `robotctl id apply` as root");
    }
    assert(text::views(out@) =~= text::views(old(out)@) + identity_lines(identity@));
}

fn put_image(out: &mut Vec<String>, image: &Vec<(String, String)>)
    requires
        old(out)@.len() > 0,
    ensures
        text::views(final(out)@) == text::views(old(out)@) + image_lines(
            parse::pair_views(image@),
        ),
        final(out)@.len() > 0,
{
    let ghost pairs = parse::pair_views(image@);
    let ghost before = text::views(out@);
    section(out, "image");
    if image.len() == 0 {
        line(out, "  (no image-version file)");
        assert(text::views(out@) =~= before + image_lines(pairs));
        return;
    }
    let mut i: usize = 0;
    let ghost head = before + seq![""@, title_line("image"@)];
    assert(text::views(out@) =~= head + pair_lines(pairs).take(0));
    while i < image.len()
        invariant
            i <= image@.len(),
            pairs == parse::pair_views(image@),
            text::views(out@) == head + pair_lines(pairs).take(i as int),
            out@.len() == head.len() + i,
        decreases image@.len() - i,
    {
        assert(pairs[i as int] == (image@[i as int].0@, image@[i as int].1@));
        field(out, image[i].0.as_str(), image[i].1.as_str());
        assert(text::views(out@) =~= head + pair_lines(pairs).take(i + 1));
        i = i + 1;
    }
    assert(text::views(out@) =~= before + image_lines(pairs));
}

fn put_system(out: &mut Vec<String>, system: &System)
    requires
        old(out)@.len() > 0,
    ensures
        text::views(final(out)@) == text::views(old(out)@) + system_lines(system@),
        final(out)@.len() > 0,
{
    section(out, "system");
    field(out, "kernel", or(&system.kernel, "unknown"));
    match system.uptime_seconds {
        Some(seconds) => field(out, "uptime", format_duration(seconds).as_str()),
        None => field(out, "uptime", "unknown"),
    }
    field(out, "time_utc", or(&system.time_utc, "unknown"));
    assert(text::views(out@) =~= text::views(old(out)@) + system_lines(system@));
}

fn put_slots(out: &mut Vec<String>, rauc: &RaucSummary)
    requires
        old(out)@.len() > 0,
    ensures
        text::views(final(out)@) == text::views(old(out)@) + slot_lines(rauc@),
        final(out)@.len() > 0,
{
    let ghost pairs = rauc@.slot_states;
    let ghost lines = pairs.map_values(
        |pair: (Seq<char>, Seq<char>)| field_line("slot "@ + pair.0, pair.1),
    );
    section(out, "slots");
    field(out, "booted", or(&rauc.booted_slot, "unknown (not an A/B image?)"));
    field(out, "primary", or(&rauc.primary_slot, "unknown"));
    let ghost head = text::views(out@);
    let mut i: usize = 0;
    assert(text::views(out@) =~= head + lines.take(0));
    while i < rauc.slot_states.len()
        invariant
            i <= rauc.slot_states@.len(),
            pairs == parse::pair_views(rauc.slot_states@),
            lines == pairs.map_values(
                |pair: (Seq<char>, Seq<char>)| field_line("slot "@ + pair.0, pair.1),
            ),
            text::views(out@) == head + lines.take(i as int),
            out@.len() == head.len() + i,
        decreases rauc.slot_states@.len() - i,
    {
        assert(pairs[i as int] == (rauc.slot_states@[i as int].0@, rauc.slot_states@[i as int].1@));
        field(
            out,
            text::cat2("slot ", rauc.slot_states[i].0.as_str()).as_str(),
            rauc.slot_states[i].1.as_str(),
        );
        assert(text::views(out@) =~= head + lines.take(i + 1));
        i = i + 1;
    }
    assert(text::views(out@) =~= text::views(old(out)@) + slot_lines(rauc@));
}

fn put_disk(out: &mut Vec<String>, filesystems: &Vec<Filesystem>)
    requires
        old(out)@.len() > 0,
        forall|i: int| 0 <= i < filesystems@.len() ==> measurable(#[trigger] filesystems@[i]@),
    ensures
        text::views(final(out)@) == text::views(old(out)@) + disk_lines(
            model::filesystem_views(filesystems@),
        ),
        final(out)@.len() > 0,
{
    let ghost views = model::filesystem_views(filesystems@);
    let ghost lines = views.map_values(
        |filesystem: FilesystemView| field_line(filesystem.mount, filesystem_text(filesystem)),
    );
    section(out, "disk");
    let ghost head = text::views(out@);
    let mut i: usize = 0;
    assert(text::views(out@) =~= head + lines.take(0));
    while i < filesystems.len()
        invariant
            i <= filesystems@.len(),
            views == model::filesystem_views(filesystems@),
            lines == views.map_values(
                |filesystem: FilesystemView|
                    field_line(filesystem.mount, filesystem_text(filesystem)),
            ),
            forall|i: int| 0 <= i < filesystems@.len() ==> measurable(#[trigger] filesystems@[i]@),
            text::views(out@) == head + lines.take(i as int),
            out@.len() == head.len() + i,
            head.len() > 0,
        decreases filesystems@.len() - i,
    {
        assert(views[i as int] == filesystems@[i as int]@);
        field(out, filesystems[i].mount.as_str(), describe_filesystem(&filesystems[i]).as_str());
        assert(text::views(out@) =~= head + lines.take(i + 1));
        i = i + 1;
    }
    assert(text::views(out@) =~= text::views(old(out)@) + disk_lines(views));
}

fn put_optional(out: &mut Vec<String>, key: &str, value: &Option<String>)
    ensures
        text::views(final(out)@) == text::views(old(out)@) + optional_line(
            key@,
            text::opt_view(*value),
        ),
        final(out)@.len() >= old(out)@.len(),
{
    if let Some(value) = value {
        field(out, key, value.as_str());
    }
    assert(text::views(out@) =~= text::views(old(out)@) + optional_line(
        key@,
        text::opt_view(*value),
    ));
}

fn put_wifi(out: &mut Vec<String>, wifi: &WifiSummary)
    requires
        old(out)@.len() > 0,
    ensures
        text::views(final(out)@) == text::views(old(out)@) + wifi_lines(wifi@),
        final(out)@.len() > 0,
{
    section(out, "wifi");
    field(out, "interface", wifi.interface.as_str());
    if !wifi.exists {
        line(out, "  (interface does not exist)");
    }
    put_optional(out, "mode", &wifi.mode);
    put_optional(out, "ssid", &wifi.ssid);
    put_optional(out, "security", &wifi.security);
    field(out, "address", or(&wifi.address, "none"));
    let present: &str = if wifi.client_conf_present {
        "present"
    } else {
        "missing"
    };
    field(out, "client.conf", present);
    assert(text::views(out@) =~= text::views(old(out)@) + wifi_lines(wifi@));
}

fn put_network(out: &mut Vec<String>, network: &Network)
    requires
        old(out)@.len() > 0,
    ensures
        text::views(final(out)@) == text::views(old(out)@) + network_lines(network@),
        final(out)@.len() > 0,
{
    let ghost views = network@.interfaces;
    let ghost lines = views.map_values(
        |interface: InterfaceView|
            field_line(interface.name, text::joined(interface.addresses, ", "@)),
    );
    section(out, "network");
    let ghost head = text::views(out@);
    let mut i: usize = 0;
    assert(text::views(out@) =~= head + lines.take(0));
    while i < network.interfaces.len()
        invariant
            i <= network.interfaces@.len(),
            views == parse::interface_views(network.interfaces@),
            lines == views.map_values(
                |interface: InterfaceView|
                    field_line(interface.name, text::joined(interface.addresses, ", "@)),
            ),
            text::views(out@) == head + lines.take(i as int),
        decreases network.interfaces@.len() - i,
    {
        let interface: &Interface = &network.interfaces[i];
        assert(views[i as int] == interface@);
        field(
            out,
            interface.name.as_str(),
            text::join(&interface.addresses, ", ").as_str(),
        );
        assert(text::views(out@) =~= head + lines.take(i + 1));
        i = i + 1;
    }
    field(out, "default route", or(&network.default_route, "none"));
    assert(text::views(out@) =~= text::views(old(out)@) + network_lines(network@));
}

fn put_units(out: &mut Vec<String>, units: &Vec<Unit>)
    requires
        old(out)@.len() > 0,
    ensures
        text::views(final(out)@) == text::views(old(out)@) + unit_lines(model::unit_views(units@)),
        final(out)@.len() > 0,
{
    let ghost views = model::unit_views(units@);
    let ghost lines = views.map_values(|unit: UnitView| field_line(unit.name, unit.state));
    section(out, "units");
    let ghost head = text::views(out@);
    let mut i: usize = 0;
    assert(text::views(out@) =~= head + lines.take(0));
    while i < units.len()
        invariant
            i <= units@.len(),
            views == model::unit_views(units@),
            lines == views.map_values(|unit: UnitView| field_line(unit.name, unit.state)),
            text::views(out@) == head + lines.take(i as int),
            out@.len() == head.len() + i,
            head.len() > 0,
        decreases units@.len() - i,
    {
        assert(views[i as int] == units@[i as int]@);
        field(out, units[i].name.as_str(), units[i].state.as_str());
        assert(text::views(out@) =~= head + lines.take(i + 1));
        i = i + 1;
    }
    assert(text::views(out@) =~= text::views(old(out)@) + unit_lines(views));
}

fn put_failed(out: &mut Vec<String>, failed: &Vec<String>)
    requires
        old(out)@.len() > 0,
    ensures
        text::views(final(out)@) == text::views(old(out)@) + failed_lines(text::views(failed@)),
{
    let ghost views = text::views(failed@);
    let ghost lines = views.map_values(|unit: Seq<char>| "  "@ + unit);
    section(out, "failed units");
    if failed.len() == 0 {
        line(out, "  none");
        assert(text::views(out@) =~= text::views(old(out)@) + failed_lines(views));
        return;
    }
    let ghost head = text::views(out@);
    let mut i: usize = 0;
    assert(text::views(out@) =~= head + lines.take(0));
    while i < failed.len()
        invariant
            i <= failed@.len(),
            views == text::views(failed@),
            lines == views.map_values(|unit: Seq<char>| "  "@ + unit),
            text::views(out@) == head + lines.take(i as int),
        decreases failed@.len() - i,
    {
        assert(views[i as int] == failed@[i as int]@);
        line(out, text::cat2("  ", failed[i].as_str()).as_str());
        assert(text::views(out@) =~= head + lines.take(i + 1));
        i = i + 1;
    }
    assert(text::views(out@) =~= text::views(old(out)@) + failed_lines(views));
}

/// The whole report, for a reader.
pub fn render(status: &Status) -> (r: String)
    requires
        forall|i: int|
            0 <= i < status.filesystems@.len() ==> measurable(#[trigger] status.filesystems@[i]@),
    ensures
        r@ == text::unlines(report_lines(status@)),
{
    let mut out: Vec<String> = Vec::new();
    assert(text::views(out@) =~= Seq::<Seq<char>>::empty());
    put_identity(&mut out, &status.identity);
    put_image(&mut out, &status.image);
    put_system(&mut out, &status.system);
    put_slots(&mut out, &status.rauc);
    put_disk(&mut out, &status.filesystems);
    put_wifi(&mut out, &status.wifi);
    put_network(&mut out, &status.network);
    put_units(&mut out, &status.units);
    put_failed(&mut out, &status.failed_units);
    assert(text::views(out@) =~= report_lines(status@));
    text::join_lines(&out)
}

} // verus!
