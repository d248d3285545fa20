//! What the user is told of what is wrong, stated apart from how it is worded.

use vstd::prelude::*;
use vstd::string::*;

use crate::conf;
use crate::config::{self, PathsView};
use crate::experiments::enabled;
use crate::experiments::names::{ExperimentNameError, ProfileNameError};
use crate::experiments::target::TargetErrorView;
use crate::id::{self, RobotIdValidationError};
use crate::text;
use crate::wifi::config_gen::{ApErrorView, ApLoadErrorView};

verus! {

/// Whether `part` stands in `message`.
pub open spec fn mentions(message: Seq<char>, part: Seq<char>) -> bool {
    exists|at: int| stands(message, part, at)
}

/// Whether `part` stands at `at` in `message`.
pub open spec fn stands(message: Seq<char>, part: Seq<char>, at: int) -> bool {
    0 <= at && at + part.len() <= message.len() && message.subrange(at, at + part.len()) == part
}

proof fn lemma_mentions(before: Seq<char>, part: Seq<char>, after: Seq<char>)
    ensures
        mentions(before + part + after, part),
{
    let message = before + part + after;
    let at = before.len() as int;
    assert(message.subrange(at, at + part.len()) =~= part);
    assert(stands(message, part, at));
}

/// Two values in one message.
proof fn lemma_mentions_both(
    a: Seq<char>,
    first: Seq<char>,
    b: Seq<char>,
    second: Seq<char>,
    c: Seq<char>,
)
    ensures
        mentions(a + first + b + second + c, first),
        mentions(a + first + b + second + c, second),
{
    let message = a + first + b + second + c;
    lemma_mentions(a, first, b + second + c);
    assert(a + first + (b + second + c) =~= message);
    lemma_mentions(a + first + b, second, c);
}

/// What is wrong with a robot ID is told with the character and where it stands, or with the
/// length that was found.
pub proof fn a_robot_id_fault_gives_its_details(fault: RobotIdValidationError)
    ensures
        fault matches RobotIdValidationError::Lowercase { char, pos } ==> mentions(
            fault.message(),
            seq![char],
        ) && mentions(fault.message(), text::decimal(pos as nat)),
        fault matches RobotIdValidationError::InvalidChar { char, pos } ==> mentions(
            fault.message(),
            seq![char],
        ) && mentions(fault.message(), text::decimal(pos as nat)),
        fault matches RobotIdValidationError::InvalidLength { length } ==> mentions(
            fault.message(),
            text::decimal(length as nat),
        ),
{
    match fault {
        RobotIdValidationError::Lowercase { char, pos } => lemma_mentions_both(
            "Robot ID must be lowercase. Found character '"@,
            seq![char],
            "' at position "@,
            text::decimal(pos as nat),
            "."@,
        ),
        RobotIdValidationError::InvalidChar { char, pos } => lemma_mentions_both(
            "Robot ID may only contain letters, digits, and hyphens. Found character '"@,
            seq![char],
            "' at position "@,
            text::decimal(pos as nat),
            "."@,
        ),
        RobotIdValidationError::InvalidLength { length } => lemma_mentions(
            "Robot ID must be between 1 and 63 characters long. Supplied string has length "@,
            text::decimal(length as nat),
            "."@,
        ),
        _ => {},
    }
}

/// What is wrong with a ROS domain ID is told with the bound, and with the number or the text that
/// was found.
pub proof fn a_ros_domain_fault_gives_its_details(n: u32, value: Seq<char>)
    ensures
        mentions(id::out_of_range_message(n), text::decimal(n as nat)),
        mentions(id::out_of_range_message(n), text::decimal(232)),
        mentions(id::not_an_integer_message(value), value),
        mentions(id::not_an_integer_message(value), text::decimal(232)),
        id::ros_domain_fault_message(value) == match text::number_of(
            text::trimmed(value),
            u32::MAX as nat,
        ) {
            Some(found) => id::out_of_range_message(found as u32),
            None => id::not_an_integer_message(value),
        },
{
    lemma_mentions_both(
        "ROS domain ID must be between 0 and "@,
        text::decimal(232),
        " inclusive. Found "@,
        text::decimal(n as nat),
        "."@,
    );
    lemma_mentions_both(
        "ROS domain ID must be an integer between 0 and "@,
        text::decimal(232),
        ". Found '"@,
        value,
        "'."@,
    );
}

/// What is reported of a value in `robot.conf` that is passed over names the file, the value, and
/// what is used in its place.
pub proof fn a_value_that_is_passed_over_is_quoted(
    path: Seq<char>,
    raw: Seq<char>,
    default: Seq<char>,
    default_ros: u8,
)
    ensures
        !id::valid_robot_id(raw) ==> ({
            let lines = id::robot_id_report(path, Some(raw), default);
            lines.len() == 1 && mentions(lines[0], path) && mentions(lines[0], raw) && mentions(
                lines[0],
                default,
            )
        }),
        id::ros_domain_of(raw) is None ==> ({
            let lines = id::ros_domain_id_report(path, Some(raw), default_ros);
            lines.len() == 1 && mentions(lines[0], path) && mentions(lines[0], raw) && mentions(
                lines[0],
                text::decimal(default_ros as nat),
            )
        }),
{
    if !id::valid_robot_id(raw) {
        let reason = id::robot_id_fault(raw)->0.message();
        lemma_report(path, ": invalid ROBOT_ID='"@, raw, "'. "@, reason, " Using '"@, default, "'."@);
    }
    if id::ros_domain_of(raw) is None {
        let reason = id::ros_domain_fault_message(raw);
        let used = text::decimal(default_ros as nat);
        lemma_report(path, ": invalid ROS_DOMAIN_ID='"@, raw, "'. "@, reason, " Using "@, used, "."@);
    }
}

proof fn lemma_report(
    path: Seq<char>,
    a: Seq<char>,
    raw: Seq<char>,
    b: Seq<char>,
    reason: Seq<char>,
    c: Seq<char>,
    used: Seq<char>,
    d: Seq<char>,
)
    ensures
        ({
            let line = "[WARN] "@ + (path + a + raw + b + reason + c + used + d);
            mentions(line, path) && mentions(line, raw) && mentions(line, used)
        }),
{
    let level = "[WARN] "@;
    let line = level + (path + a + raw + b + reason + c + used + d);
    lemma_mentions(level, path, a + raw + b + reason + c + used + d);
    assert(level + path + (a + raw + b + reason + c + used + d) =~= line);
    lemma_mentions(level + path + a, raw, b + reason + c + used + d);
    assert(level + path + a + raw + (b + reason + c + used + d) =~= line);
    lemma_mentions(level + path + a + raw + b + reason + c, used, d);
    assert(level + path + a + raw + b + reason + c + used + d =~= line);
}

/// What is wrong with the access point's configuration is told with the key, and with the value
/// that was found.
pub proof fn an_ap_fault_gives_its_details(fault: ApErrorView)
    ensures
        fault matches ApErrorView::SsidTooLong { ssid, len } ==> mentions(fault.message(), ssid)
            && mentions(fault.message(), text::decimal(len)),
        fault matches ApErrorView::PskLength { len } ==> mentions(
            fault.message(),
            text::decimal(len),
        ),
        fault matches ApErrorView::ControlCharacter { field } ==> mentions(fault.message(), field),
        fault matches ApErrorView::NotAnIpv4Address { field, value } ==> mentions(
            fault.message(),
            field,
        ) && mentions(fault.message(), value),
        fault matches ApErrorView::NotANumber { field, value } ==> mentions(fault.message(), field)
            && mentions(fault.message(), value),
        fault matches ApErrorView::ChannelOutOfRange { channel } ==> mentions(
            fault.message(),
            text::decimal(channel as nat),
        ),
        fault matches ApErrorView::CidrOutOfRange { cidr } ==> mentions(
            fault.message(),
            text::decimal(cidr as nat),
        ),
        fault matches ApErrorView::Empty { field } ==> mentions(fault.message(), field),
{
    let none = Seq::<char>::empty();
    let message = fault.message();
    match fault {
        ApErrorView::SsidTooLong { ssid, len } => lemma_mentions_both(
            "AP_SSID must be 32 bytes or fewer. '"@,
            ssid,
            "' is "@,
            text::decimal(len),
            "."@,
        ),
        ApErrorView::PskLength { len } => lemma_mentions(
            "AP_PSK must be between 8 and 63 characters, or empty for an open network. Supplied passphrase is "@,
            text::decimal(len),
            "."@,
        ),
        ApErrorView::ControlCharacter { field } => {
            lemma_mentions(none, field, " must not contain control characters."@);
            assert(none + field + " must not contain control characters."@ =~= message);
        },
        ApErrorView::NotAnIpv4Address { field, value } => {
            lemma_mentions_both(none, field, "='"@, value, "' is not a valid IPv4 address."@);
            assert(none + field + "='"@ + value + "' is not a valid IPv4 address."@ =~= message);
        },
        ApErrorView::NotANumber { field, value } => {
            lemma_mentions_both(none, field, "='"@, value, "' is not a valid number."@);
            assert(none + field + "='"@ + value + "' is not a valid number."@ =~= message);
        },
        ApErrorView::ChannelOutOfRange { channel } => lemma_mentions(
            "AP_CHANNEL must be between 1 and 14 (the generated config is hw_mode=g, i.e. 2.4 GHz). Found "@,
            text::decimal(channel as nat),
            "."@,
        ),
        ApErrorView::CidrOutOfRange { cidr } => lemma_mentions(
            "AP_NETMASK_CIDR must be between 1 and 32. Found "@,
            text::decimal(cidr as nat),
            "."@,
        ),
        ApErrorView::Empty { field } => {
            lemma_mentions(none, field, " must not be empty."@);
            assert(none + field + " must not be empty."@ =~= message);
        },
        _ => {},
    }
}

/// An error says what was being done, where that is not plain, and what went wrong.
pub proof fn a_load_error_gives_its_context(err: ApLoadErrorView)
    ensures
        mentions(err.message(), err.source.message()),
        err.context matches Some(context) ==> mentions(err.message(), context),
{
    let none = Seq::<char>::empty();
    let source = err.source.message();
    match err.context {
        Some(context) => {
            lemma_mentions_both(none, context, ": "@, source, none);
            assert(none + context + ": "@ + source + none =~= err.message());
        },
        None => {
            lemma_mentions(none, source, none);
            assert(none + source + none =~= err.message());
        },
    }
}

/// What is wrong with a target is told with the name or the profile, and with the reason; a
/// character that may not stand there is shown.
pub proof fn a_target_fault_gives_its_details(fault: TargetErrorView, found: char)
    ensures
        fault matches TargetErrorView::Name { name, source } ==> mentions(fault.message(), name)
            && mentions(fault.message(), source.message()),
        fault matches TargetErrorView::Profile { profile, source } ==> mentions(
            fault.message(),
            profile,
        ) && mentions(fault.message(), source.message()),
        mentions(ExperimentNameError::InvalidCharacter { found }.message(), seq![found]),
        mentions(ProfileNameError::InvalidCharacter { found }.message(), seq![found]),
        mentions(ProfileNameError::InvalidStart { found }.message(), seq![found]),
{
    let none = Seq::<char>::empty();
    match fault {
        TargetErrorView::Name { name, source } => {
            let reason = source.message();
            lemma_mentions_both("'"@, name, "' is not a valid experiment name: "@, reason, none);
            assert("'"@ + name + "' is not a valid experiment name: "@ + reason + none
                =~= fault.message());
        },
        TargetErrorView::Profile { profile, source } => {
            let reason = source.message();
            lemma_mentions_both("'"@, profile, "' is not a valid compose profile: "@, reason, none);
            assert("'"@ + profile + "' is not a valid compose profile: "@ + reason + none
                =~= fault.message());
        },
        _ => {},
    }
    lemma_mentions(
        "may only contain letters, digits, '.', '_' and '-' (found '"@,
        seq![found],
        "')"@,
    );
    lemma_mentions("must start with a letter or a digit (found '"@, seq![found], "')"@);
}

/// What is reported of a variable that is passed over names it, quotes it, and says what is used
/// in its place.
pub proof fn a_variable_that_is_passed_over_is_quoted(
    env: Seq<(Seq<char>, Seq<char>)>,
    name: Seq<char>,
    default: u32,
    raw: Seq<char>,
)
    requires
        config::var_of(env, name) == Some(raw),
        text::number_of(text::trimmed(raw), u32::MAX as nat) is None,
    ensures
        ({
            let lines = config::u32_report(env, name, default);
            lines.len() == 1 && mentions(lines[0], name) && mentions(lines[0], raw) && mentions(
                lines[0],
                text::decimal(default as nat),
            )
        }),
{
    let none = Seq::<char>::empty();
    let used = text::decimal(default as nat);
    let c = "' is not a non-negative integer. Falling back to "@;
    lemma_report(name, "='"@, raw, none, none, c, used, "."@);
    let line = config::u32_report(env, name, default)[0];
    assert(name + "='"@ + raw + none + none + c + used + "."@ =~= name + "='"@ + raw + c + used
        + "."@);
}

/// A robot without `robot.conf` is reported as unprovisioned, with the path of the file.
pub proof fn a_missing_identity_is_reported(paths: PathsView)
    ensures
        ({
            let lines = id::load_report(paths, None);
            lines.len() == 1 && mentions(
                lines[0],
                config::path_below(paths.config_dir, "robot.conf"@),
            )
        }),
{
    let path = config::path_below(paths.config_dir, "robot.conf"@);
    let rest = " does not exist; using defaults (robot is unprovisioned)"@;
    lemma_mentions("[INFO] "@, path, rest);
    assert("[INFO] "@ + path + rest =~= "[INFO] "@ + (path + rest));
}

/// What is reported of a setting that is no boolean names the file and quotes the setting; what is
/// reported of a fallback in the environment quotes it.
pub proof fn other_values_that_are_passed_over_are_quoted(
    text: Seq<char>,
    path: Seq<char>,
    raw: Seq<char>,
)
    ensures
        conf::value_of(text, "IGNORE_PULL_FAILURES"@) == Some(raw) && enabled::bool_of(
            raw,
        ) is None ==> ({
            let lines = enabled::ignore_report(Some(text), path);
            mentions(lines[0], path) && mentions(lines[0], raw) && mentions(
                lines[0],
                "IGNORE_PULL_FAILURES"@,
            )
        }),
        !id::valid_robot_id(raw) ==> ({
            let lines = config::default_robot_id_report(Some(raw));
            mentions(lines[0], raw) && mentions(lines[0], "unprovisioned"@)
        }),
        id::ros_domain_of(raw) is None ==> ({
            let lines = config::default_ros_domain_id_report(Some(raw));
            mentions(lines[0], raw) && mentions(lines[0], text::decimal(0))
        }),
{
    let none = Seq::<char>::empty();
    if conf::value_of(text, "IGNORE_PULL_FAILURES"@) == Some(raw) && enabled::bool_of(
        raw,
    ) is None {
        let key = "IGNORE_PULL_FAILURES"@;
        let rest = "' is not a boolean; treating a failed pull as fatal"@;
        lemma_report(path, ": "@, key, "='"@, none, none, raw, rest);
        assert(path + ": "@ + key + "='"@ + none + none + raw + rest =~= path + ": "@ + key + "='"@
            + raw + rest);
    }
    if !id::valid_robot_id(raw) {
        let reason = id::robot_id_fault(raw)->0.message();
        let name = "ROBOTCTL_DEFAULT_ROBOT_ID='"@;
        lemma_report(name, none, raw, "': "@, reason, " Falling back to '"@, "unprovisioned"@, "'."@);
        assert(name + none + raw + "': "@ + reason + " Falling back to '"@ + "unprovisioned"@ + "'."@
            =~= name + raw + "': "@ + reason + " Falling back to '"@ + "unprovisioned"@ + "'."@);
    }
    if id::ros_domain_of(raw) is None {
        let reason = id::ros_domain_fault_message(raw);
        let name = "ROBOTCTL_DEFAULT_ROS_DOMAIN_ID='"@;
        lemma_report(name, none, raw, "': "@, reason, " Falling back to "@, text::decimal(0), "."@);
        assert(name + none + raw + "': "@ + reason + " Falling back to "@ + text::decimal(0) + "."@
            =~= name + raw + "': "@ + reason + " Falling back to "@ + text::decimal(0) + "."@);
    }
}

} // verus!
