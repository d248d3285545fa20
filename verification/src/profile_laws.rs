//! What a profile is for, stated apart from how it is read.

use vstd::prelude::*;
use vstd::string::*;

use crate::conf;
use crate::config;
use crate::id;
use crate::order;
use crate::profile::{self, Kind, LineView, ProfileView};
use crate::text;

verus! {

/// The last setting of a key counts, and settles nothing but that key.
pub proof fn the_last_setting_counts(
    settings: Seq<(Seq<char>, Seq<char>)>,
    key: Seq<char>,
    value: Seq<char>,
    other: Seq<char>,
)
    ensures
        profile::last_setting(settings.push((key, value)), key) == Some(value),
        other != key ==> profile::last_setting(settings.push((key, value)), other)
            == profile::last_setting(settings, other),
        profile::last_setting(Seq::empty(), key) is None,
{
    assert(settings.push((key, value)).drop_last() =~= settings);
}

/// A value is turned down if and only if its kind has no use for it: a text that must not be empty
/// and is, an ID that is none, a number that is none or out of range.
pub proof fn a_value_is_turned_down_for_its_kind(raw: Seq<char>, n: u32)
    ensures
        profile::fault_of(Kind::Str, raw) is None <==> raw.len() > 0,
        profile::fault_of(Kind::OptionalStr, raw) is None,
        profile::fault_of(Kind::RobotId, raw) is None <==> id::valid_robot_id(raw),
        profile::fault_of(Kind::U32, raw) is None <==> text::number_of(
            raw,
            u32::MAX as nat,
        ) is Some,
        profile::fault_of(Kind::U32, text::decimal(n as nat)) is None,
        profile::literal_of(Kind::U32, text::decimal(n as nat)) == text::decimal(n as nat),
        profile::fault_of(Kind::RosDomainId, text::decimal(n as nat)) is None <==> n <= 232,
        n <= 232 ==> profile::literal_of(Kind::RosDomainId, text::decimal(n as nat)) == text::decimal(
            n as nat,
        ),
        profile::literal_of(Kind::Str, raw) == profile::debug_text(raw),
        profile::literal_of(Kind::OptionalStr, raw) == profile::debug_text(raw),
        profile::literal_of(Kind::RobotId, raw) == profile::debug_text(raw),
{
    id::robot_id_is_valid_or_faulty(raw);
    text::lemma_decimal_reads_back(n as nat);
    text::lemma_number_round_trip(n as nat, u32::MAX as nat);
    if n <= u16::MAX {
        text::lemma_number_round_trip(n as nat, u16::MAX as nat);
    } else {
        let digits = text::decimal(n as nat);
        assert(text::is_digit(digits[0]));
        assert(text::number_of(digits, u16::MAX as nat) is None);
    }
}

/// Each constant is named after its variable.
pub proof fn a_constant_is_named_after_its_variable(i: int)
    requires
        0 <= i < profile::knob_table().len(),
    ensures
        profile::knob_table().len() == 18,
        ({
            let var = profile::knob_table()[i].var@;
            let konst = profile::knob_table()[i].konst@;
            &&& text::has_prefix(var, "ROBOTCTL_"@)
            &&& text::has_prefix(konst, "DEFAULT_"@)
            &&& var.skip(9) == konst || var.skip(9) == konst.skip(8)
        }),
{
    let table = profile::knob_table();
    reveal_strlit("ROBOTCTL_");
    reveal_strlit("DEFAULT_");
    let a = "ROBOTCTL_"@;
    let b = "DEFAULT_"@;
    if i == 0 {
        reveal_strlit("ROBOTCTL_DATA_DIR");
        reveal_strlit("DEFAULT_DATA_DIR");
        let var = "ROBOTCTL_DATA_DIR"@;
        let konst = "DEFAULT_DATA_DIR"@;
        assert(var.subrange(0, 9) =~= a);
        assert(konst.subrange(0, 8) =~= b);
        assert(var.skip(9) =~= konst.skip(8));
    }
    if i == 1 {
        reveal_strlit("ROBOTCTL_CONFIG_DIR");
        reveal_strlit("DEFAULT_CONFIG_DIR");
        let var = "ROBOTCTL_CONFIG_DIR"@;
        let konst = "DEFAULT_CONFIG_DIR"@;
        assert(var.subrange(0, 9) =~= a);
        assert(konst.subrange(0, 8) =~= b);
        assert(var.skip(9) =~= konst.skip(8));
    }
    if i == 2 {
        reveal_strlit("ROBOTCTL_HOSTNAME_PATH");
        reveal_strlit("DEFAULT_HOSTNAME_PATH");
        let var = "ROBOTCTL_HOSTNAME_PATH"@;
        let konst = "DEFAULT_HOSTNAME_PATH"@;
        assert(var.subrange(0, 9) =~= a);
        assert(konst.subrange(0, 8) =~= b);
        assert(var.skip(9) =~= konst.skip(8));
    }
    if i == 3 {
        reveal_strlit("ROBOTCTL_HOSTS_PATH");
        reveal_strlit("DEFAULT_HOSTS_PATH");
        let var = "ROBOTCTL_HOSTS_PATH"@;
        let konst = "DEFAULT_HOSTS_PATH"@;
        assert(var.subrange(0, 9) =~= a);
        assert(konst.subrange(0, 8) =~= b);
        assert(var.skip(9) =~= konst.skip(8));
    }
    if i == 4 {
        reveal_strlit("ROBOTCTL_RUN_DIR");
        reveal_strlit("DEFAULT_RUN_DIR");
        let var = "ROBOTCTL_RUN_DIR"@;
        let konst = "DEFAULT_RUN_DIR"@;
        assert(var.subrange(0, 9) =~= a);
        assert(konst.subrange(0, 8) =~= b);
        assert(var.skip(9) =~= konst.skip(8));
    }
    if i == 5 {
        reveal_strlit("ROBOTCTL_WIFI_INTERFACE");
        reveal_strlit("DEFAULT_WIFI_INTERFACE");
        let var = "ROBOTCTL_WIFI_INTERFACE"@;
        let konst = "DEFAULT_WIFI_INTERFACE"@;
        assert(var.subrange(0, 9) =~= a);
        assert(konst.subrange(0, 8) =~= b);
        assert(var.skip(9) =~= konst.skip(8));
    }
    if i == 6 {
        reveal_strlit("ROBOTCTL_WIFI_UNIT");
        reveal_strlit("DEFAULT_WIFI_UNIT");
        let var = "ROBOTCTL_WIFI_UNIT"@;
        let konst = "DEFAULT_WIFI_UNIT"@;
        assert(var.subrange(0, 9) =~= a);
        assert(konst.subrange(0, 8) =~= b);
        assert(var.skip(9) =~= konst.skip(8));
    }
    if i == 7 {
        reveal_strlit("ROBOTCTL_WIFI_STATE_HOOK");
        reveal_strlit("DEFAULT_WIFI_STATE_HOOK");
        let var = "ROBOTCTL_WIFI_STATE_HOOK"@;
        let konst = "DEFAULT_WIFI_STATE_HOOK"@;
        assert(var.subrange(0, 9) =~= a);
        assert(konst.subrange(0, 8) =~= b);
        assert(var.skip(9) =~= konst.skip(8));
    }
    if i == 8 {
        reveal_strlit("ROBOTCTL_MDNS_UNIT");
        reveal_strlit("DEFAULT_MDNS_UNIT");
        let var = "ROBOTCTL_MDNS_UNIT"@;
        let konst = "DEFAULT_MDNS_UNIT"@;
        assert(var.subrange(0, 9) =~= a);
        assert(konst.subrange(0, 8) =~= b);
        assert(var.skip(9) =~= konst.skip(8));
    }
    if i == 9 {
        reveal_strlit("ROBOTCTL_IMAGE_VERSION_PATH");
        reveal_strlit("DEFAULT_IMAGE_VERSION_PATH");
        let var = "ROBOTCTL_IMAGE_VERSION_PATH"@;
        let konst = "DEFAULT_IMAGE_VERSION_PATH"@;
        assert(var.subrange(0, 9) =~= a);
        assert(konst.subrange(0, 8) =~= b);
        assert(var.skip(9) =~= konst.skip(8));
    }
    if i == 10 {
        reveal_strlit("ROBOTCTL_TRYBOOT_BACKEND");
        reveal_strlit("DEFAULT_TRYBOOT_BACKEND");
        let var = "ROBOTCTL_TRYBOOT_BACKEND"@;
        let konst = "DEFAULT_TRYBOOT_BACKEND"@;
        assert(var.subrange(0, 9) =~= a);
        assert(konst.subrange(0, 8) =~= b);
        assert(var.skip(9) =~= konst.skip(8));
    }
    if i == 11 {
        reveal_strlit("ROBOTCTL_DEFAULT_ROBOT_ID");
        reveal_strlit("DEFAULT_ROBOT_ID");
        let var = "ROBOTCTL_DEFAULT_ROBOT_ID"@;
        let konst = "DEFAULT_ROBOT_ID"@;
        assert(var.subrange(0, 9) =~= a);
        assert(konst.subrange(0, 8) =~= b);
        assert(var.skip(9) =~= konst);
    }
    if i == 12 {
        reveal_strlit("ROBOTCTL_DEFAULT_ROS_DOMAIN_ID");
        reveal_strlit("DEFAULT_ROS_DOMAIN_ID");
        let var = "ROBOTCTL_DEFAULT_ROS_DOMAIN_ID"@;
        let konst = "DEFAULT_ROS_DOMAIN_ID"@;
        assert(var.subrange(0, 9) =~= a);
        assert(konst.subrange(0, 8) =~= b);
        assert(var.skip(9) =~= konst);
    }
    if i == 13 {
        reveal_strlit("ROBOTCTL_WIFI_CONNECT_TIMEOUT_SEC");
        reveal_strlit("DEFAULT_WIFI_CONNECT_TIMEOUT_SEC");
        let var = "ROBOTCTL_WIFI_CONNECT_TIMEOUT_SEC"@;
        let konst = "DEFAULT_WIFI_CONNECT_TIMEOUT_SEC"@;
        assert(var.subrange(0, 9) =~= a);
        assert(konst.subrange(0, 8) =~= b);
        assert(var.skip(9) =~= konst.skip(8));
    }
    if i == 14 {
        reveal_strlit("ROBOTCTL_WIFI_CLIENT_ATTEMPTS");
        reveal_strlit("DEFAULT_WIFI_CLIENT_ATTEMPTS");
        let var = "ROBOTCTL_WIFI_CLIENT_ATTEMPTS"@;
        let konst = "DEFAULT_WIFI_CLIENT_ATTEMPTS"@;
        assert(var.subrange(0, 9) =~= a);
        assert(konst.subrange(0, 8) =~= b);
        assert(var.skip(9) =~= konst.skip(8));
    }
    if i == 15 {
        reveal_strlit("ROBOTCTL_WIFI_RETRY_SEC");
        reveal_strlit("DEFAULT_WIFI_RETRY_SEC");
        let var = "ROBOTCTL_WIFI_RETRY_SEC"@;
        let konst = "DEFAULT_WIFI_RETRY_SEC"@;
        assert(var.subrange(0, 9) =~= a);
        assert(konst.subrange(0, 8) =~= b);
        assert(var.skip(9) =~= konst.skip(8));
    }
    if i == 16 {
        reveal_strlit("ROBOTCTL_WIFI_LINK_POLL_SEC");
        reveal_strlit("DEFAULT_WIFI_LINK_POLL_SEC");
        let var = "ROBOTCTL_WIFI_LINK_POLL_SEC"@;
        let konst = "DEFAULT_WIFI_LINK_POLL_SEC"@;
        assert(var.subrange(0, 9) =~= a);
        assert(konst.subrange(0, 8) =~= b);
        assert(var.skip(9) =~= konst.skip(8));
    }
    if i == 17 {
        reveal_strlit("ROBOTCTL_WIFI_AP_RETRY_SEC");
        reveal_strlit("DEFAULT_WIFI_AP_RETRY_SEC");
        let var = "ROBOTCTL_WIFI_AP_RETRY_SEC"@;
        let konst = "DEFAULT_WIFI_AP_RETRY_SEC"@;
        assert(var.subrange(0, 9) =~= a);
        assert(konst.subrange(0, 8) =~= b);
        assert(var.skip(9) =~= konst.skip(8));
    }
}

/// What is a number is told apart from what is a text, and only an ID is held to the rules of one.
pub proof fn a_knob_is_of_its_kind(i: int)
    requires
        0 <= i < profile::knob_table().len(),
    ensures
        ({
            let knob = profile::knob_table()[i];
            &&& knob.kind == Kind::RobotId <==> knob.var@ == "ROBOTCTL_DEFAULT_ROBOT_ID"@
            &&& knob.kind == Kind::RosDomainId <==> knob.var@ == "ROBOTCTL_DEFAULT_ROS_DOMAIN_ID"@
            &&& knob.kind == Kind::OptionalStr <==> knob.var@ == "ROBOTCTL_WIFI_STATE_HOOK"@
                || knob.var@ == "ROBOTCTL_MDNS_UNIT"@
            &&& knob.kind == Kind::U32 <==> i >= 13
        }),
{
    lemma_marks(i);
}

/// The variables differ: in their length, or in one of two characters.
spec fn mark(name: Seq<char>) -> (nat, char, char) {
    (name.len(), name[9], name[14])
}

proof fn lemma_marks(i: int)
    requires
        0 <= i < profile::knob_table().len(),
    ensures
        i == 0 ==> mark(profile::knob_table()[i].var@) == (17nat, 'D', 'D'),
        i == 1 ==> mark(profile::knob_table()[i].var@) == (19nat, 'C', 'G'),
        i == 2 ==> mark(profile::knob_table()[i].var@) == (22nat, 'H', 'A'),
        i == 3 ==> mark(profile::knob_table()[i].var@) == (19nat, 'H', '_'),
        i == 4 ==> mark(profile::knob_table()[i].var@) == (16nat, 'R', 'I'),
        i == 5 ==> mark(profile::knob_table()[i].var@) == (23nat, 'W', 'I'),
        i == 6 ==> mark(profile::knob_table()[i].var@) == (18nat, 'W', 'U'),
        i == 7 ==> mark(profile::knob_table()[i].var@) == (24nat, 'W', 'S'),
        i == 8 ==> mark(profile::knob_table()[i].var@) == (18nat, 'M', 'U'),
        i == 9 ==> mark(profile::knob_table()[i].var@) == (27nat, 'I', '_'),
        i == 10 ==> mark(profile::knob_table()[i].var@) == (24nat, 'T', 'O'),
        i == 11 ==> mark(profile::knob_table()[i].var@) == (25nat, 'D', 'L'),
        i == 12 ==> mark(profile::knob_table()[i].var@) == (30nat, 'D', 'L'),
        i == 13 ==> mark(profile::knob_table()[i].var@) == (33nat, 'W', 'C'),
        i == 14 ==> mark(profile::knob_table()[i].var@) == (29nat, 'W', 'C'),
        i == 15 ==> mark(profile::knob_table()[i].var@) == (23nat, 'W', 'R'),
        i == 16 ==> mark(profile::knob_table()[i].var@) == (27nat, 'W', 'L'),
        i == 17 ==> mark(profile::knob_table()[i].var@) == (26nat, 'W', 'A'),
        mark("ROBOTCTL_DEFAULT_ROBOT_ID"@) == (25nat, 'D', 'L'),
        mark("ROBOTCTL_DEFAULT_ROS_DOMAIN_ID"@) == (30nat, 'D', 'L'),
        mark("ROBOTCTL_WIFI_STATE_HOOK"@) == (24nat, 'W', 'S'),
        mark("ROBOTCTL_MDNS_UNIT"@) == (18nat, 'M', 'U'),
{
    assert(mark("ROBOTCTL_DATA_DIR"@) == (17nat, 'D', 'D')) by {
        reveal_strlit("ROBOTCTL_DATA_DIR");
    }
    assert(mark("ROBOTCTL_CONFIG_DIR"@) == (19nat, 'C', 'G')) by {
        reveal_strlit("ROBOTCTL_CONFIG_DIR");
    }
    assert(mark("ROBOTCTL_HOSTNAME_PATH"@) == (22nat, 'H', 'A')) by {
        reveal_strlit("ROBOTCTL_HOSTNAME_PATH");
    }
    assert(mark("ROBOTCTL_HOSTS_PATH"@) == (19nat, 'H', '_')) by {
        reveal_strlit("ROBOTCTL_HOSTS_PATH");
    }
    assert(mark("ROBOTCTL_RUN_DIR"@) == (16nat, 'R', 'I')) by {
        reveal_strlit("ROBOTCTL_RUN_DIR");
    }
    assert(mark("ROBOTCTL_WIFI_INTERFACE"@) == (23nat, 'W', 'I')) by {
        reveal_strlit("ROBOTCTL_WIFI_INTERFACE");
    }
    assert(mark("ROBOTCTL_WIFI_UNIT"@) == (18nat, 'W', 'U')) by {
        reveal_strlit("ROBOTCTL_WIFI_UNIT");
    }
    assert(mark("ROBOTCTL_WIFI_STATE_HOOK"@) == (24nat, 'W', 'S')) by {
        reveal_strlit("ROBOTCTL_WIFI_STATE_HOOK");
    }
    assert(mark("ROBOTCTL_MDNS_UNIT"@) == (18nat, 'M', 'U')) by {
        reveal_strlit("ROBOTCTL_MDNS_UNIT");
    }
    assert(mark("ROBOTCTL_IMAGE_VERSION_PATH"@) == (27nat, 'I', '_')) by {
        reveal_strlit("ROBOTCTL_IMAGE_VERSION_PATH");
    }
    assert(mark("ROBOTCTL_TRYBOOT_BACKEND"@) == (24nat, 'T', 'O')) by {
        reveal_strlit("ROBOTCTL_TRYBOOT_BACKEND");
    }
    assert(mark("ROBOTCTL_DEFAULT_ROBOT_ID"@) == (25nat, 'D', 'L')) by {
        reveal_strlit("ROBOTCTL_DEFAULT_ROBOT_ID");
    }
    assert(mark("ROBOTCTL_DEFAULT_ROS_DOMAIN_ID"@) == (30nat, 'D', 'L')) by {
        reveal_strlit("ROBOTCTL_DEFAULT_ROS_DOMAIN_ID");
    }
    assert(mark("ROBOTCTL_WIFI_CONNECT_TIMEOUT_SEC"@) == (33nat, 'W', 'C')) by {
        reveal_strlit("ROBOTCTL_WIFI_CONNECT_TIMEOUT_SEC");
    }
    assert(mark("ROBOTCTL_WIFI_CLIENT_ATTEMPTS"@) == (29nat, 'W', 'C')) by {
        reveal_strlit("ROBOTCTL_WIFI_CLIENT_ATTEMPTS");
    }
    assert(mark("ROBOTCTL_WIFI_RETRY_SEC"@) == (23nat, 'W', 'R')) by {
        reveal_strlit("ROBOTCTL_WIFI_RETRY_SEC");
    }
    assert(mark("ROBOTCTL_WIFI_LINK_POLL_SEC"@) == (27nat, 'W', 'L')) by {
        reveal_strlit("ROBOTCTL_WIFI_LINK_POLL_SEC");
    }
    assert(mark("ROBOTCTL_WIFI_AP_RETRY_SEC"@) == (26nat, 'W', 'A')) by {
        reveal_strlit("ROBOTCTL_WIFI_AP_RETRY_SEC");
    }
}

/// Whether `source` holds `part`.
pub open spec fn holds(source: Seq<char>, part: Seq<char>) -> bool {
    exists|at: int| stands(source, part, at)
}

/// Whether `part` stands at `at` in `source`.
pub open spec fn stands(source: Seq<char>, part: Seq<char>, at: int) -> bool {
    0 <= at && at + part.len() <= source.len() && source.subrange(at, at + part.len()) == part
}

/// What a knob is set to: what the settings say last, and its built-in default if they say
/// nothing.
pub open spec fn set_value(i: int, settings: Seq<(Seq<char>, Seq<char>)>) -> Seq<char> {
    match profile::last_setting(settings, profile::knob_table()[i].var@) {
        Some(value) => value,
        None => profile::knob_table()[i].value@,
    }
}

/// What defines the constant of a knob.
pub open spec fn constant(i: int, settings: Seq<(Seq<char>, Seq<char>)>) -> Seq<char> {
    let knob = profile::knob_table()[i];
    "pub const "@ + knob.konst@ + ": "@ + (match knob.kind {
        Kind::RosDomainId => "u8"@,
        Kind::U32 => "u32"@,
        _ => "&str"@,
    }) + " = "@ + profile::literal_of(knob.kind, set_value(i, settings)) + ";"@
}

proof fn lemma_holds_below(before: Seq<char>, part: Seq<char>, after: Seq<char>)
    ensures
        holds(before + part + after, part),
{
    let whole = before + part + after;
    let at = before.len() as int;
    assert(whole.subrange(at, at + part.len()) =~= part);
    assert(stands(whole, part, at));
}

proof fn lemma_holds_within(before: Seq<char>, whole: Seq<char>, after: Seq<char>, part: Seq<char>)
    requires
        holds(whole, part),
    ensures
        holds(before + whole + after, part),
{
    let at = choose|at: int| stands(whole, part, at);
    let all = before + whole + after;
    let there = before.len() + at;
    assert(all.subrange(there, there + part.len()) =~= whole.subrange(at, at + part.len()));
    assert(stands(all, part, there));
}

proof fn lemma_definitions(
    n: nat,
    settings: Seq<(Seq<char>, Seq<char>)>,
    path: Option<Seq<char>>,
    name: Seq<char>,
    i: int,
)
    requires
        0 <= i < n <= profile::knob_table().len(),
        profile::definitions(n, settings, path, name) is Ok,
    ensures
        holds(profile::definitions(n, settings, path, name)->Ok_0, constant(i, settings)),
        profile::fault_of(profile::knob_table()[i].kind, set_value(i, settings)) is None,
    decreases n,
{
    let none = Seq::<char>::empty();
    let all = profile::definitions(n, settings, path, name)->Ok_0;
    let before = profile::definitions((n - 1) as nat, settings, path, name)->Ok_0;
    let knob = profile::knob_table()[n - 1];
    let raw = profile::raw_of(knob, settings);
    let set = profile::last_setting(settings, knob.var@) is Some;
    let last = profile::definition(knob, profile::literal_of(knob.kind, raw), set, name);
    assert(all == before + last);
    if i == n - 1 {
        lemma_definition(knob, profile::literal_of(knob.kind, raw), set, name, i, settings);
        lemma_holds_within(before, last, none, constant(i, settings));
        assert(before + last + none =~= all);
    } else {
        lemma_definitions((n - 1) as nat, settings, path, name, i);
        lemma_holds_within(none, before, last, constant(i, settings));
        assert(none + before + last =~= all);
    }
}

proof fn lemma_definition(
    knob: profile::Knob,
    literal: Seq<char>,
    set: bool,
    name: Seq<char>,
    i: int,
    settings: Seq<(Seq<char>, Seq<char>)>,
)
    requires
        knob == profile::knob_table()[i],
        literal == profile::literal_of(knob.kind, set_value(i, settings)),
    ensures
        holds(profile::definition(knob, literal, set, name), constant(i, settings)),
{
    reveal_strlit("\npub const ");
    reveal_strlit("pub const ");
    reveal_strlit(";\n\n");
    reveal_strlit(";");
    let setter = if set {
        "Set by the `"@ + name + "` profile."@
    } else {
        "Built-in default."@
    };
    let ty = profile::type_of(knob.kind);
    let start = "/// "@ + knob.doc@ + "\n///\n/// Overridable at runtime with `"@ + knob.var@ + "`. "@
        + setter;
    let after = seq!['\n', '\n'];
    assert("\npub const "@ =~= seq!['\n'] + "pub const "@);
    assert(";\n\n"@ =~= ";"@ + after);
    lemma_constant_line(start, seq!['\n'], "pub const "@, knob.konst@ , ": "@, ty, " = "@, literal, ";"@, after);
    assert(profile::definition(knob, literal, set, name) == start + (seq!['\n'] + "pub const "@)
        + knob.konst@ + ": "@ + ty + " = "@ + literal + (";"@ + after));
    assert(constant(i, settings) == "pub const "@ + knob.konst@ + ": "@ + ty + " = "@ + literal
        + ";"@);
}

proof fn lemma_constant_line(
    start: Seq<char>,
    feed: Seq<char>,
    word: Seq<char>,
    konst: Seq<char>,
    colon: Seq<char>,
    ty: Seq<char>,
    equals: Seq<char>,
    literal: Seq<char>,
    end: Seq<char>,
    after: Seq<char>,
)
    ensures
        holds(
            start + (feed + word) + konst + colon + ty + equals + literal + (end + after),
            word + konst + colon + ty + equals + literal + end,
        ),
{
    let part = word + konst + colon + ty + equals + literal + end;
    lemma_holds_below(start + feed, part, after);
    assert(start + (feed + word) + konst + colon + ty + equals + literal + (end + after) =~= (start
        + feed) + part + after);
}

/// The source defines every constant as what its knob is set to: by the profile where it sets it,
/// and by default where it does not.
pub proof fn every_knob_is_defined_as_it_is_set(
    version: Seq<char>,
    chosen: Option<ProfileView>,
    settings: Seq<(Seq<char>, Seq<char>)>,
    i: int,
)
    requires
        profile::source_of(version, chosen, settings) is Ok,
        0 <= i < profile::knob_table().len(),
    ensures
        holds(profile::source_of(version, chosen, settings)->Ok_0, constant(i, settings)),
{
    let path = match chosen {
        Some(chosen) => Some(chosen.path),
        None => None,
    };
    let name = profile::profile_name(chosen);
    let all = profile::definitions(profile::knob_table().len(), settings, path, name)->Ok_0;
    let none = Seq::<char>::empty();
    lemma_definitions(profile::knob_table().len(), settings, path, name, i);
    lemma_holds_within(profile::opening(version, chosen), all, none, constant(i, settings));
    assert(profile::opening(version, chosen) + all + none =~= profile::source_of(
        version,
        chosen,
        settings,
    )->Ok_0);
}

/// The source names the version and the profile that it was made for, and the file that the
/// profile came from.
pub proof fn the_source_names_its_profile(
    version: Seq<char>,
    chosen: Option<ProfileView>,
    settings: Seq<(Seq<char>, Seq<char>)>,
)
    requires
        profile::source_of(version, chosen, settings) is Ok,
    ensures
        ({
            let source = profile::source_of(version, chosen, settings)->Ok_0;
            let name = match chosen {
                Some(chosen) => chosen.name,
                None => "built-in"@,
            };
            &&& holds(
                source,
                "pub const LONG_VERSION: &str = "@ + profile::debug_text(
                    version + " (profile: "@ + name + ")"@,
                ) + ";"@,
            )
            &&& holds(source, "// Profile: "@ + name)
            &&& chosen matches Some(chosen) ==> holds(source, chosen.path + " (via "@ + chosen.origin)
        }),
{
    let source = profile::source_of(version, chosen, settings)->Ok_0;
    let name = profile::profile_name(chosen);
    let origin = match chosen {
        Some(chosen) => chosen.path + " (via "@ + chosen.origin + ")"@,
        None => "no profile selected"@,
    };
    let path = match chosen {
        Some(chosen) => Some(chosen.path),
        None => None,
    };
    let all = profile::definitions(profile::knob_table().len(), settings, path, name)->Ok_0;
    let a = "// @generated by build.rs -- do not edit.\n// Profile: "@;
    let b = "\n// Source:  "@;
    let c = "\n\n/// Version string for `--version`, naming the profile this binary was built with, because\n/// \"which defaults does the flashed image have\" is otherwise unanswerable from the robot.\npub const LONG_VERSION: &str = "@;
    let d = ";\n\n"@;
    let version_text = profile::debug_text(version + " (profile: "@ + name + ")"@);
    let head = profile::opening(version, chosen);
    assert(head == a + name + b + origin + c + version_text + d);
    assert(source == head + all);
    lemma_version_line(c, d);
    let c1 = "pub const LONG_VERSION: &str = "@;
    let c0 = c.take(c.len() - c1.len());
    lemma_opening_line(a + name + b + origin, c0, c1, version_text, ";"@, d.skip(1), all);
    lemma_first_heading(a);
    lemma_heading(a.take(42), "// Profile: "@, name, b, origin, c, version_text, d, all);
    if let Some(chosen) = chosen {
        lemma_origin(a + name + b, chosen.path, " (via "@, chosen.origin, ")"@, c, version_text, d, all);
    }
}

proof fn lemma_first_heading(a: Seq<char>)
    requires
        a == "// @generated by build.rs -- do not edit.\n// Profile: "@,
    ensures
        a == a.take(42) + "// Profile: "@,
{
    reveal_strlit("// @generated by build.rs -- do not edit.\n// Profile: ");
    reveal_strlit("// Profile: ");
    assert(a.skip(42) =~= "// Profile: "@);
    assert(a =~= a.take(42) + a.skip(42));
}

proof fn lemma_opening_line(
    before: Seq<char>,
    c0: Seq<char>,
    c1: Seq<char>,
    version: Seq<char>,
    d0: Seq<char>,
    d1: Seq<char>,
    all: Seq<char>,
)
    ensures
        holds(before + (c0 + c1) + version + (d0 + d1) + all, c1 + version + d0),
{
    lemma_holds_below(before + c0, c1 + version + d0, d1 + all);
    assert(before + (c0 + c1) + version + (d0 + d1) + all =~= (before + c0) + (c1 + version + d0) + (
    d1 + all));
}

proof fn lemma_heading(
    a0: Seq<char>,
    a1: Seq<char>,
    name: Seq<char>,
    b: Seq<char>,
    origin: Seq<char>,
    c: Seq<char>,
    version: Seq<char>,
    d: Seq<char>,
    all: Seq<char>,
)
    ensures
        holds((a0 + a1) + name + b + origin + c + version + d + all, a1 + name),
{
    let rest = b + origin + c + version + d + all;
    lemma_holds_below(a0, a1 + name, rest);
    assert((a0 + a1) + name + b + origin + c + version + d + all =~= a0 + (a1 + name) + rest);
}

proof fn lemma_origin(
    before: Seq<char>,
    path: Seq<char>,
    via: Seq<char>,
    origin: Seq<char>,
    close: Seq<char>,
    c: Seq<char>,
    version: Seq<char>,
    d: Seq<char>,
    all: Seq<char>,
)
    ensures
        holds(before + (path + via + origin + close) + c + version + d + all, path + via + origin),
{
    let rest = close + c + version + d + all;
    lemma_holds_below(before, path + via + origin, rest);
    assert(before + (path + via + origin + close) + c + version + d + all =~= before + (path + via
        + origin) + rest);
}

proof fn lemma_version_line(c: Seq<char>, d: Seq<char>)
    requires
        c == "\n\n/// Version string for `--version`, naming the profile this binary was built with, because\n/// \"which defaults does the flashed image have\" is otherwise unanswerable from the robot.\npub const LONG_VERSION: &str = "@,
        d == ";\n\n"@,
    ensures
        c.len() >= "pub const LONG_VERSION: &str = "@.len(),
        c == c.take(c.len() - "pub const LONG_VERSION: &str = "@.len())
            + "pub const LONG_VERSION: &str = "@,
        d == ";"@ + d.skip(1),
{
    reveal_strlit("\n\n/// Version string for `--version`, naming the profile this binary was built with, because\n/// \"which defaults does the flashed image have\" is otherwise unanswerable from the robot.\npub const LONG_VERSION: &str = ");
    reveal_strlit("pub const LONG_VERSION: &str = ");
    reveal_strlit(";\n\n");
    reveal_strlit(";");
    let end = "pub const LONG_VERSION: &str = "@;
    assert(c.skip(c.len() - end.len()) =~= end);
    assert(c =~= c.take(c.len() - end.len()) + c.skip(c.len() - end.len()));
    assert(d =~= ";"@ + d.skip(1));
}

/// The first knob that is set to what it cannot be is the one that is turned down: the message
/// names it, and what it was set to. Nothing is turned down if none is.
pub proof fn the_first_wrong_knob_is_turned_down(
    version: Seq<char>,
    chosen: Option<ProfileView>,
    settings: Seq<(Seq<char>, Seq<char>)>,
    i: int,
)
    requires
        0 <= i <= profile::knob_table().len(),
        forall|j: int|
            0 <= j < i ==> profile::fault_of(
                (#[trigger] profile::knob_table()[j]).kind,
                set_value(j, settings),
            ) is None,
        i < profile::knob_table().len() ==> profile::fault_of(
            profile::knob_table()[i].kind,
            set_value(i, settings),
        ) is Some,
    ensures
        profile::source_of(version, chosen, settings) is Ok <==> i == profile::knob_table().len(),
        i < profile::knob_table().len() ==> holds(
            profile::source_of(version, chosen, settings)->Err_0,
            profile::knob_table()[i].var@ + "='"@ + set_value(i, settings) + "' "@,
        ),
        i < profile::knob_table().len() ==> (chosen matches Some(chosen) ==> text::has_prefix(
            profile::source_of(version, Some(chosen), settings)->Err_0,
            chosen.path,
        )),
{
    let path = match chosen {
        Some(chosen) => Some(chosen.path),
        None => None,
    };
    let name = profile::profile_name(chosen);
    let n = profile::knob_table().len();
    lemma_fine_so_far(i as nat, settings, path, name);
    if i < n {
        let knob = profile::knob_table()[i];
        let raw = set_value(i, settings);
        let reason = profile::fault_of(knob.kind, raw)->0;
        assert(profile::definitions((i + 1) as nat, settings, path, name) is Err);
        lemma_stays_wrong((i + 1) as nat, n, settings, path, name);
        let message = profile::source_of(version, chosen, settings)->Err_0;
        assert(message == profile::rejection(path, knob.var@, raw, reason));
        let part = knob.var@ + "='"@ + raw + "' "@;
        match chosen {
            Some(chosen) => {
                lemma_holds_below(chosen.path + ": "@, part, reason);
                assert(message =~= (chosen.path + ": "@) + part + reason);
                assert(message.subrange(0, chosen.path.len() as int) =~= chosen.path);
            },
            None => {
                lemma_holds_below("built-in default for "@, part, reason);
                assert(message =~= "built-in default for "@ + part + reason);
            },
        }
    }
}

proof fn lemma_fine_so_far(
    n: nat,
    settings: Seq<(Seq<char>, Seq<char>)>,
    path: Option<Seq<char>>,
    name: Seq<char>,
)
    requires
        n <= profile::knob_table().len(),
        forall|j: int|
            0 <= j < n ==> profile::fault_of(
                (#[trigger] profile::knob_table()[j]).kind,
                set_value(j, settings),
            ) is None,
    ensures
        profile::definitions(n, settings, path, name) is Ok,
    decreases n,
{
    if n > 0 {
        lemma_fine_so_far((n - 1) as nat, settings, path, name);
        let j = n - 1;
        assert(profile::fault_of(profile::knob_table()[j].kind, set_value(j, settings)) is None);
    }
}

proof fn lemma_stays_wrong(
    a: nat,
    b: nat,
    settings: Seq<(Seq<char>, Seq<char>)>,
    path: Option<Seq<char>>,
    name: Seq<char>,
)
    requires
        a <= b,
        profile::definitions(a, settings, path, name) is Err,
    ensures
        profile::definitions(b, settings, path, name) == profile::definitions(
            a,
            settings,
            path,
            name,
        ),
    decreases b,
{
    if a < b {
        lemma_stays_wrong(a, (b - 1) as nat, settings, path, name);
    }
}

/// A profile is chosen by its name or by its file, not by both, and not by a name that is a path.
/// A name is looked for among the profiles; blanks around either do not count.
pub proof fn a_profile_is_chosen_one_way(name: Seq<char>, file: Seq<char>, root: Seq<char>)
    requires
        text::trimmed(name).len() > 0,
        text::trimmed(file).len() > 0,
    ensures
        profile::selected_by(Some(name), Some(file), root) is Err,
        profile::selected_by(None, None, root) == Ok::<Option<ProfileView>, Seq<char>>(None),
        profile::selected_by(Some(name), None, root) is Ok <==> !text::trimmed(name).contains('/')
            && !text::trimmed(name).contains('\\') && text::trimmed(name)[0] != '.',
        profile::selected_by(Some(name), None, root) matches Ok(Some(found)) ==> found.name
            == text::trimmed(name) && found.path == config::path_below(
            config::path_below(root, "profiles"@),
            text::trimmed(name) + ".conf"@,
        ) && found.origin == "ROBOTCTL_PROFILE"@,
        profile::selected_by(Some(name), None, root) is Ok ==> profile::selected_by(
            Some(name),
            None,
            root,
        )->Ok_0 is Some,
        profile::selected_by(None, Some(file), root) matches Ok(Some(found)) && found.path
            == config::path_below(root, text::trimmed(file)) && found.origin
            == "ROBOTCTL_PROFILE_FILE"@ && found.name == profile::profile_name_at(found.path),
{
}

/// A variable that holds nothing but blanks chooses nothing.
pub proof fn a_blank_variable_chooses_nothing(blank: Seq<char>, other: Option<Seq<char>>, root: Seq<char>)
    requires
        text::trimmed(blank).len() == 0,
    ensures
        profile::selected_by(Some(blank), other, root) == profile::selected_by(None, other, root),
        profile::selected_by(other, Some(blank), root) == profile::selected_by(other, None, root),
{
}

proof fn lemma_last_dot(stem: Seq<char>, extension: Seq<char>)
    requires
        !extension.contains('.'),
    ensures
        profile::last_position(stem + seq!['.'] + extension, '.') == stem.len(),
    decreases extension.len(),
{
    let name = stem + seq!['.'] + extension;
    if extension.len() == 0 {
        assert(name.last() == '.');
    } else {
        let init = extension.drop_last();
        assert(name.last() == extension.last());
        assert(extension.last() != '.') by {
            assert(extension[extension.len() - 1] == extension.last());
        }
        assert(!init.contains('.')) by {
            if init.contains('.') {
                let i = choose|i: int| 0 <= i < init.len() && init[i] == '.';
                assert(extension[i] == '.');
            }
        }
        lemma_last_dot(stem, init);
        assert(name.drop_last() =~= stem + seq!['.'] + init);
    }
}

/// A profile is called as its file is, wherever that stands, without its extension.
pub proof fn a_profile_is_called_as_its_file(
    dirs: Seq<Seq<char>>,
    stem: Seq<char>,
    extension: Seq<char>,
)
    requires
        forall|i: int| 0 <= i < dirs.len() ==> !(#[trigger] dirs[i]).contains('/'),
        stem.len() > 0,
        !stem.contains('/'),
        !extension.contains('/'),
        !extension.contains('.'),
        stem + seq!['.'] + extension != seq!['.', '.'],
    ensures
        profile::profile_name_at(
            text::joined(dirs.push(stem + seq!['.'] + extension), seq!['/']),
        ) == stem,
        profile::extension_of(stem + seq!['.'] + extension) == Some(extension),
        profile::stem_of(stem + seq!['.'] + extension) == stem,
{
    let name = stem + seq!['.'] + extension;
    let parts = dirs.push(name);
    assert(!name.contains('/')) by {
        if name.contains('/') {
            let i = choose|i: int| 0 <= i < name.len() && name[i] == '/';
            if i < stem.len() {
                assert(stem[i] == '/');
            } else if i > stem.len() {
                assert(extension[i - stem.len() - 1] == '/');
            }
        }
    }
    assert forall|i: int| 0 <= i < parts.len() implies !(#[trigger] parts[i]).contains('/') by {
        if i < dirs.len() {
            assert(parts[i] == dirs[i]);
        }
    }
    text::splitting_undoes_joining(parts, seq!['/'], '/');
    lemma_last_dot(stem, extension);
    assert(name.take(stem.len() as int) =~= stem);
    assert(name.skip(stem.len() as int + 1) =~= extension);
    assert(parts.last() == name);
    assert(name.len() >= 2);
    assert(name != seq!['.']);
}

/// A file is a profile if and only if it ends in `.conf`; it is then listed without that.
pub proof fn profiles_end_in_conf(files: Seq<Seq<char>>, stem: Seq<char>, other: Seq<char>)
    requires
        stem.len() > 0,
        profile::extension_of(other) != Some("conf"@),
    ensures
        profile::profiles_among(files.push(stem + ".conf"@)) == profile::profiles_among(files).push(
            stem,
        ),
        profile::profiles_among(files.push(other)) == profile::profiles_among(files),
        profile::profiles_among(Seq::empty()).len() == 0,
{
    reveal_strlit(".conf");
    reveal_strlit("conf");
    assert(".conf"@ =~= seq!['.'] + "conf"@);
    assert(files.push(stem + ".conf"@).drop_last() =~= files);
    assert(files.push(other).drop_last() =~= files);
    assert(stem + ".conf"@ =~= stem + seq!['.'] + "conf"@);
    lemma_last_dot(stem, "conf"@);
    let name = stem + seq!['.'] + "conf"@;
    assert(name.take(stem.len() as int) =~= stem);
    assert(name.skip(stem.len() as int + 1) =~= "conf"@);
}

/// The profiles to choose from are listed in order, or it is said that there are none.
pub proof fn available_profiles_are_in_order(files: Seq<Seq<char>>)
    ensures
        profile::profiles_among(files).len() == 0 ==> profile::available_of(files) == "none"@,
        profile::profiles_among(files).len() > 0 ==> exists|names: Seq<Seq<char>>|
            {
                &&& profile::available_of(files) == #[trigger] text::joined(names, ", "@)
                &&& order::sorted(names)
                &&& names.to_multiset() == profile::profiles_among(files).to_multiset()
            },
{
    let found = profile::profiles_among(files);
    let names = order::arranged(found);
    order::arranged_is_a_sorting(found);
    if found.len() > 0 {
        assert(profile::available_of(files) == text::joined(names, ", "@));
        assert(order::sorted(names));
    }
}

/// A line of a profile sets a knob that there is; a blank line or a comment says nothing, and
/// anything else is wrong.
pub proof fn a_line_sets_a_knob_or_is_wrong(line: Seq<char>, key: Seq<char>, value: Seq<char>)
    requires
        key.len() > 0,
        !key.contains('='),
        key[0] != '#',
        text::trimmed(key) == key,
        text::trimmed(key + seq!['='] + value) == key + seq!['='] + value,
    ensures
        profile::line_of(key + seq!['='] + value) matches LineView::Setting { key: k, value: v }
            <==> profile::is_known(key),
        profile::line_of(key + seq!['='] + value) is Wrong <==> !profile::is_known(key),
        profile::is_known(key) ==> profile::line_of(key + seq!['='] + value) == (LineView::Setting {
            key,
            value: conf::unquoted(text::trimmed(value)),
        }),
        profile::line_of(line) is Nothing <==> text::trimmed(line).len() == 0 || text::trimmed(
            line,
        )[0] == '#',
        text::trimmed(line).len() > 0 && text::trimmed(line)[0] != '#' && !text::trimmed(
            line,
        ).contains('=') ==> profile::line_of(line) is Wrong,
{
    let whole = key + seq!['='] + value;
    assert(whole[0] == key[0]);
    assert forall|i: int| 0 <= i < key.len() implies whole[i] != '=' by {
        assert(whole[i] == key[i]);
    }
    assert(whole[key.len() as int] == '=');
    text::lemma_position_is(whole, '=', key.len() as int);
    assert(whole.take(key.len() as int) =~= key);
    assert(whole.skip(key.len() as int + 1) =~= value);
    let words = text::trimmed(line);
    if !words.contains('=') {
        text::lemma_position_is(words, '=', words.len() as int);
    }
}

/// Each line of a profile adds what it sets to what the lines before it set; a wrong line is
/// turned down by its number, and so is all that follows.
pub proof fn every_line_of_a_profile_counts(
    lines: Seq<Seq<char>>,
    line: Seq<char>,
    path: Seq<char>,
)
    ensures
        profile::settings_on(lines, path) is Err ==> profile::settings_on(lines.push(line), path)
            == profile::settings_on(lines, path),
        profile::settings_on(lines, path) matches Ok(before) ==> match profile::line_of(line) {
            LineView::Nothing => profile::settings_on(lines.push(line), path) == Ok::<
                Seq<(Seq<char>, Seq<char>)>,
                Seq<char>,
            >(before),
            LineView::Setting { key, value } => profile::settings_on(lines.push(line), path) == Ok::<
                Seq<(Seq<char>, Seq<char>)>,
                Seq<char>,
            >(before.push((key, value))),
            LineView::Wrong { reason } => (profile::settings_on(lines.push(line), path) matches Err(
                message,
            ) && message == path + ":"@ + text::decimal(lines.len() + 1) + ": "@ + reason),
        },
{
    assert(lines.push(line).drop_last() =~= lines);
}

/// What is said of a profile that is not there names what was asked for and where it was looked
/// for.
pub proof fn a_missing_profile_is_named(
    name: Seq<char>,
    file: Seq<char>,
    path: Seq<char>,
    available: Seq<char>,
)
    requires
        text::trimmed(name).len() > 0,
        text::trimmed(file).len() > 0,
    ensures
        holds(profile::missing_profile(Some(name), None, path, available), text::trimmed(name)),
        holds(profile::missing_profile(Some(name), None, path, available), path),
        holds(profile::missing_profile(Some(name), None, path, available), available),
        holds(profile::missing_profile(None, Some(file), path, available), text::trimmed(file)),
        holds(profile::missing_profile(None, Some(file), path, available), path),
{
    let n = text::trimmed(name);
    let f = text::trimmed(file);
    let a = "ROBOTCTL_PROFILE"@ + "='"@;
    let b = "' but "@;
    let c = " does not exist. Available profiles: "@;
    let one = profile::missing_profile(Some(name), None, path, available);
    lemma_holds_below(a, n, b + path + c + available + "."@);
    assert(one =~= a + n + (b + path + c + available + "."@));
    lemma_holds_below(a + n + b, path, c + available + "."@);
    assert(one =~= (a + n + b) + path + (c + available + "."@));
    lemma_holds_below(a + n + b + path + c, available, "."@);
    let other = profile::missing_profile(None, Some(file), path, available);
    let d = "ROBOTCTL_PROFILE_FILE"@ + "='"@;
    let e = "' does not exist (looked at "@;
    lemma_holds_below(d, f, e + path + ")."@);
    assert(other =~= d + f + (e + path + ")."@));
    lemma_holds_below(d + f + e, path, ")."@);
    assert(other =~= (d + f + e) + path + ")."@);
}

/// What is wrong with a fallback robot ID is told with the character and where it stands, or with
/// the length that was found.
pub proof fn a_fallback_id_is_turned_down_with_details(fault: id::RobotIdValidationError)
    ensures
        fault matches id::RobotIdValidationError::Lowercase { char, pos } ==> holds(
            profile::robot_id_reason(fault),
            seq![char] + "' at position "@ + text::decimal(pos as nat),
        ),
        fault matches id::RobotIdValidationError::InvalidChar { char, pos } ==> holds(
            profile::robot_id_reason(fault),
            seq![char] + "' at position "@ + text::decimal(pos as nat),
        ),
        fault matches id::RobotIdValidationError::InvalidLength { length } ==> holds(
            profile::robot_id_reason(fault),
            text::decimal(length as nat),
        ),
{
    match fault {
        id::RobotIdValidationError::Lowercase { char, pos } => {
            let a = "must be lowercase; found '"@;
            let part = seq![char] + "' at position "@ + text::decimal(pos as nat);
            lemma_holds_below(a, part, "."@);
            assert(a + part + "."@ =~= profile::robot_id_reason(fault));
        },
        id::RobotIdValidationError::InvalidChar { char, pos } => {
            let a = "may only contain letters, digits and hyphens; found '"@;
            let part = seq![char] + "' at position "@ + text::decimal(pos as nat);
            lemma_holds_below(a, part, "."@);
            assert(a + part + "."@ =~= profile::robot_id_reason(fault));
        },
        id::RobotIdValidationError::InvalidLength { length } => lemma_holds_below(
            "must be between 1 and 63 characters long; it is "@,
            text::decimal(length as nat),
            "."@,
        ),
        _ => {},
    }
}

/// The keys that a profile may set are the knobs' variables: whoever gets one wrong is shown each.
pub proof fn the_known_keys_are_the_variables(i: int)
    requires
        0 <= i < profile::knob_table().len(),
    ensures
        profile::known_keys().len() == profile::knob_table().len(),
        profile::known_keys()[i] == profile::knob_table()[i].var@,
        profile::is_known(profile::known_keys()[i]),
{
    assert(profile::knob_table()[i].var@ == profile::known_keys()[i]);
}

/// What is said above a constant names its variable, describes it, and says whether the profile
/// set it.
pub proof fn a_constant_says_where_it_comes_from(
    knob: profile::Knob,
    literal: Seq<char>,
    set: bool,
    name: Seq<char>,
)
    ensures
        ({
            let source = profile::definition(knob, literal, set, name);
            &&& text::has_prefix(source, "/// "@ + knob.doc@)
            &&& holds(
                source,
                knob.var@ + "`. "@ + if set {
                    "Set by the `"@ + name + "` profile."@
                } else {
                    "Built-in default."@
                },
            )
        }),
{
    let setter = if set {
        "Set by the `"@ + name + "` profile."@
    } else {
        "Built-in default."@
    };
    let start = "/// "@ + knob.doc@;
    let middle = "\n///\n/// Overridable at runtime with `"@;
    let part = knob.var@ + "`. "@ + setter;
    let rest = "\npub const "@ + knob.konst@ + ": "@ + profile::type_of(knob.kind) + " = "@ + literal
        + ";\n\n"@;
    let source = profile::definition(knob, literal, set, name);
    lemma_holds_below(start + middle, part, rest);
    assert(source =~= (start + middle) + part + rest);
    assert(source.subrange(0, start.len() as int) =~= start);
}

} // verus!
