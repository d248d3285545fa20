//! What each variable of the environment is for, stated apart from how it is read.

use vstd::prelude::*;
use vstd::string::*;

use crate::config::{self, PathsView, SuperviseTuning};
use crate::id;
use crate::text;

verus! {

/// The environment `env`, with the variable `name` set to `value`.
pub open spec fn with_var(
    env: Seq<(Seq<char>, Seq<char>)>,
    name: Seq<char>,
    value: Seq<char>,
) -> Seq<(Seq<char>, Seq<char>)> {
    seq![(name, value)] + env
}

/// Whether the variable `name` is set in `env`.
pub open spec fn is_set(env: Seq<(Seq<char>, Seq<char>)>, name: Seq<char>) -> bool {
    exists|i: int| 0 <= i < env.len() && (#[trigger] env[i]).0 == name
}

/// A variable that is set reads as what it is set to, and leaves every other as it was; one that is
/// not set has no value.
pub proof fn a_set_variable_reads_back(
    env: Seq<(Seq<char>, Seq<char>)>,
    name: Seq<char>,
    value: Seq<char>,
    other: Seq<char>,
)
    ensures
        config::var_of(with_var(env, name, value), name) == Some(value),
        other != name ==> config::var_of(with_var(env, name, value), other) == config::var_of(
            env,
            other,
        ),
        config::var_of(env, name) is Some <==> is_set(env, name),
{
    assert(with_var(env, name, value).drop_first() =~= env);
    lemma_is_set(env, name);
}

proof fn lemma_is_set(env: Seq<(Seq<char>, Seq<char>)>, name: Seq<char>)
    ensures
        config::var_of(env, name) is Some <==> is_set(env, name),
    decreases env.len(),
{
    if env.len() > 0 {
        let rest = env.drop_first();
        lemma_is_set(rest, name);
        if is_set(rest, name) {
            let i = choose|i: int| 0 <= i < rest.len() && (#[trigger] rest[i]).0 == name;
            assert(env[i + 1].0 == name);
        }
        if is_set(env, name) && env[0].0 != name {
            let i = choose|i: int| 0 <= i < env.len() && (#[trigger] env[i]).0 == name;
            assert(rest[i - 1].0 == name);
        }
    }
}

/// The names of the variables differ: in their length, or in one of two characters.
spec fn mark(name: Seq<char>) -> (nat, char, char) {
    (name.len(), name[9], name[14])
}

proof fn lemma_names()
    ensures
        mark("ROBOTCTL_DATA_DIR"@) == (17nat, 'D', 'D'),
        mark("ROBOTCTL_CONFIG_DIR"@) == (19nat, 'C', 'G'),
        mark("ROBOTCTL_HOSTNAME_PATH"@) == (22nat, 'H', 'A'),
        mark("ROBOTCTL_HOSTS_PATH"@) == (19nat, 'H', '_'),
        mark("ROBOTCTL_RUN_DIR"@) == (16nat, 'R', 'I'),
        mark("ROBOTCTL_WIFI_INTERFACE"@) == (23nat, 'W', 'I'),
        mark("ROBOTCTL_WIFI_UNIT"@) == (18nat, 'W', 'U'),
        mark("ROBOTCTL_IMAGE_VERSION_PATH"@) == (27nat, 'I', '_'),
        mark("ROBOTCTL_TRYBOOT_BACKEND"@) == (24nat, 'T', 'O'),
        mark("ROBOTCTL_DEFAULT_ROBOT_ID"@) == (25nat, 'D', 'L'),
        mark("ROBOTCTL_DEFAULT_ROS_DOMAIN_ID"@) == (30nat, 'D', 'L'),
        mark("ROBOTCTL_WIFI_CONNECT_TIMEOUT_SEC"@) == (33nat, 'W', 'C'),
        mark("ROBOTCTL_WIFI_CLIENT_ATTEMPTS"@) == (29nat, 'W', 'C'),
        mark("ROBOTCTL_WIFI_RETRY_SEC"@) == (23nat, 'W', 'R'),
        mark("ROBOTCTL_WIFI_LINK_POLL_SEC"@) == (27nat, 'W', 'L'),
        mark("ROBOTCTL_WIFI_AP_RETRY_SEC"@) == (26nat, 'W', 'A'),
{
    assert(mark("ROBOTCTL_DATA_DIR"@) == (17nat, 'D', 'D')) by {
        reveal_strlit("ROBOTCTL_DATA_DIR");
    }
    assert(mark("ROBOTCTL_CONFIG_DIR"@) == (19nat, 'C', 'G')) by {
        reveal_strlit("ROBOTCTL_CONFIG_DIR");
    }
    assert(mark("ROBOTCTL_HOSTNAME_PATH"@) == (22nat, 'H', 'A')) by {
        reveal_strlit("ROBOTCTL_HOSTNAME_PATH");
    }
    assert(mark("ROBOTCTL_HOSTS_PATH"@) == (19nat, 'H', '_')) by {
        reveal_strlit("ROBOTCTL_HOSTS_PATH");
    }
    assert(mark("ROBOTCTL_RUN_DIR"@) == (16nat, 'R', 'I')) by {
        reveal_strlit("ROBOTCTL_RUN_DIR");
    }
    assert(mark("ROBOTCTL_WIFI_INTERFACE"@) == (23nat, 'W', 'I')) by {
        reveal_strlit("ROBOTCTL_WIFI_INTERFACE");
    }
    assert(mark("ROBOTCTL_WIFI_UNIT"@) == (18nat, 'W', 'U')) by {
        reveal_strlit("ROBOTCTL_WIFI_UNIT");
    }
    assert(mark("ROBOTCTL_IMAGE_VERSION_PATH"@) == (27nat, 'I', '_')) by {
        reveal_strlit("ROBOTCTL_IMAGE_VERSION_PATH");
    }
    assert(mark("ROBOTCTL_TRYBOOT_BACKEND"@) == (24nat, 'T', 'O')) by {
        reveal_strlit("ROBOTCTL_TRYBOOT_BACKEND");
    }
    assert(mark("ROBOTCTL_DEFAULT_ROBOT_ID"@) == (25nat, 'D', 'L')) by {
        reveal_strlit("ROBOTCTL_DEFAULT_ROBOT_ID");
    }
    assert(mark("ROBOTCTL_DEFAULT_ROS_DOMAIN_ID"@) == (30nat, 'D', 'L')) by {
        reveal_strlit("ROBOTCTL_DEFAULT_ROS_DOMAIN_ID");
    }
    assert(mark("ROBOTCTL_WIFI_CONNECT_TIMEOUT_SEC"@) == (33nat, 'W', 'C')) by {
        reveal_strlit("ROBOTCTL_WIFI_CONNECT_TIMEOUT_SEC");
    }
    assert(mark("ROBOTCTL_WIFI_CLIENT_ATTEMPTS"@) == (29nat, 'W', 'C')) by {
        reveal_strlit("ROBOTCTL_WIFI_CLIENT_ATTEMPTS");
    }
    assert(mark("ROBOTCTL_WIFI_RETRY_SEC"@) == (23nat, 'W', 'R')) by {
        reveal_strlit("ROBOTCTL_WIFI_RETRY_SEC");
    }
    assert(mark("ROBOTCTL_WIFI_LINK_POLL_SEC"@) == (27nat, 'W', 'L')) by {
        reveal_strlit("ROBOTCTL_WIFI_LINK_POLL_SEC");
    }
    assert(mark("ROBOTCTL_WIFI_AP_RETRY_SEC"@) == (26nat, 'W', 'A')) by {
        reveal_strlit("ROBOTCTL_WIFI_AP_RETRY_SEC");
    }
}

proof fn lemma_set(env: Seq<(Seq<char>, Seq<char>)>, name: Seq<char>, value: Seq<char>)
    ensures
        config::var_of(with_var(env, name, value), name) == Some(value),
        forall|other: Seq<char>|
            mark(other) != mark(name) ==> #[trigger] config::var_of(
                with_var(env, name, value),
                other,
            ) == config::var_of(env, other),
{
    assert forall|other: Seq<char>| mark(other) != mark(name) implies #[trigger] config::var_of(
        with_var(env, name, value),
        other,
    ) == config::var_of(env, other) by {
        a_set_variable_reads_back(env, name, value, other);
    }
    a_set_variable_reads_back(env, name, value, name);
}

/// The data directory is set by its variable, and nothing else is.
pub proof fn the_data_dir_is_set_by_its_variable(
    env: Seq<(Seq<char>, Seq<char>)>,
    value: Seq<char>,
)
    requires
        text::trimmed(value).len() > 0,
    ensures
        config::paths_of(with_var(env, "ROBOTCTL_DATA_DIR"@, value)) == (PathsView {
            data_dir: value,
            ..config::paths_of(env)
        }),
{
    lemma_names();
    lemma_set(env, "ROBOTCTL_DATA_DIR"@, value);
}

/// The configuration directory is set by its variable, and nothing else is.
pub proof fn the_config_dir_is_set_by_its_variable(
    env: Seq<(Seq<char>, Seq<char>)>,
    value: Seq<char>,
)
    requires
        text::trimmed(value).len() > 0,
    ensures
        config::paths_of(with_var(env, "ROBOTCTL_CONFIG_DIR"@, value)) == (PathsView {
            config_dir: value,
            ..config::paths_of(env)
        }),
{
    lemma_names();
    lemma_set(env, "ROBOTCTL_CONFIG_DIR"@, value);
}

/// The hostname file is set by its variable, and nothing else is.
pub proof fn the_hostname_path_is_set_by_its_variable(
    env: Seq<(Seq<char>, Seq<char>)>,
    value: Seq<char>,
)
    requires
        text::trimmed(value).len() > 0,
    ensures
        config::paths_of(with_var(env, "ROBOTCTL_HOSTNAME_PATH"@, value)) == (PathsView {
            hostname_path: value,
            ..config::paths_of(env)
        }),
{
    lemma_names();
    lemma_set(env, "ROBOTCTL_HOSTNAME_PATH"@, value);
}

/// The hosts file is set by its variable, and nothing else is.
pub proof fn the_hosts_path_is_set_by_its_variable(
    env: Seq<(Seq<char>, Seq<char>)>,
    value: Seq<char>,
)
    requires
        text::trimmed(value).len() > 0,
    ensures
        config::paths_of(with_var(env, "ROBOTCTL_HOSTS_PATH"@, value)) == (PathsView {
            hosts_path: value,
            ..config::paths_of(env)
        }),
{
    lemma_names();
    lemma_set(env, "ROBOTCTL_HOSTS_PATH"@, value);
}

/// The run directory is set by its variable, and nothing else is.
pub proof fn the_wifi_run_dir_is_set_by_its_variable(
    env: Seq<(Seq<char>, Seq<char>)>,
    value: Seq<char>,
)
    requires
        text::trimmed(value).len() > 0,
    ensures
        config::paths_of(with_var(env, "ROBOTCTL_RUN_DIR"@, value)) == (PathsView {
            wifi_run_dir: value,
            ..config::paths_of(env)
        }),
{
    lemma_names();
    lemma_set(env, "ROBOTCTL_RUN_DIR"@, value);
}

/// The WiFi interface is set by its variable, without the whitespace around it, and nothing else is.
pub proof fn the_wifi_interface_is_set_by_its_variable(
    env: Seq<(Seq<char>, Seq<char>)>,
    value: Seq<char>,
)
    requires
        text::trimmed(value).len() > 0,
    ensures
        config::paths_of(with_var(env, "ROBOTCTL_WIFI_INTERFACE"@, value)) == (PathsView {
            wifi_interface: text::trimmed(value),
            ..config::paths_of(env)
        }),
{
    lemma_names();
    lemma_set(env, "ROBOTCTL_WIFI_INTERFACE"@, value);
}

/// The WiFi unit is set by its variable, without the whitespace around it, and nothing else is.
pub proof fn the_wifi_unit_is_set_by_its_variable(
    env: Seq<(Seq<char>, Seq<char>)>,
    value: Seq<char>,
)
    requires
        text::trimmed(value).len() > 0,
    ensures
        config::paths_of(with_var(env, "ROBOTCTL_WIFI_UNIT"@, value)) == (PathsView {
            wifi_unit: text::trimmed(value),
            ..config::paths_of(env)
        }),
{
    lemma_names();
    lemma_set(env, "ROBOTCTL_WIFI_UNIT"@, value);
}

/// The image version file is set by its variable, and nothing else is.
pub proof fn the_image_version_path_is_set_by_its_variable(
    env: Seq<(Seq<char>, Seq<char>)>,
    value: Seq<char>,
)
    requires
        text::trimmed(value).len() > 0,
    ensures
        config::paths_of(with_var(env, "ROBOTCTL_IMAGE_VERSION_PATH"@, value)) == (PathsView {
            image_version_path: value,
            ..config::paths_of(env)
        }),
{
    lemma_names();
    lemma_set(env, "ROBOTCTL_IMAGE_VERSION_PATH"@, value);
}

/// The tryboot backend is set by its variable, and nothing else is.
pub proof fn the_tryboot_backend_is_set_by_its_variable(
    env: Seq<(Seq<char>, Seq<char>)>,
    value: Seq<char>,
)
    requires
        text::trimmed(value).len() > 0,
    ensures
        config::paths_of(with_var(env, "ROBOTCTL_TRYBOOT_BACKEND"@, value)) == (PathsView {
            tryboot_backend: value,
            ..config::paths_of(env)
        }),
{
    lemma_names();
    lemma_set(env, "ROBOTCTL_TRYBOOT_BACKEND"@, value);
}

/// The fallback robot ID is set by its variable if that is a valid one, and nothing else is.
pub proof fn the_default_robot_id_is_set_by_its_variable(
    env: Seq<(Seq<char>, Seq<char>)>,
    value: Seq<char>,
)
    ensures
        config::paths_of(with_var(env, "ROBOTCTL_DEFAULT_ROBOT_ID"@, value)) == (PathsView {
            default_robot_id: if id::valid_robot_id(value) {
                value
            } else {
                "unprovisioned"@
            },
            ..config::paths_of(env)
        }),
{
    lemma_names();
    lemma_set(env, "ROBOTCTL_DEFAULT_ROBOT_ID"@, value);
}

/// The fallback ROS domain ID is set by its variable, and nothing else is; what is out of range sets it to nothing
/// but the built-in one.
pub proof fn the_default_ros_domain_id_is_set_by_its_variable(env: Seq<(Seq<char>, Seq<char>)>, n: u32)
    ensures
        config::paths_of(with_var(env, "ROBOTCTL_DEFAULT_ROS_DOMAIN_ID"@, text::decimal(n as nat))) == (PathsView {
            default_ros_domain_id: if n <= 232 {
                n as u8
            } else {
                0
            },
            ..config::paths_of(env)
        }),
{
    lemma_names();
    let digits = text::decimal(n as nat);
    lemma_set(env, "ROBOTCTL_DEFAULT_ROS_DOMAIN_ID"@, digits);
    lemma_digits(n);
}

/// What is not set is the documented default, and so is what is set to nothing but blanks.
pub proof fn what_is_not_set_is_the_default(env: Seq<(Seq<char>, Seq<char>)>, blank: Seq<char>)
    requires
        text::trimmed(blank).len() == 0,
    ensures
        !is_set(env, "ROBOTCTL_DATA_DIR"@) ==> config::paths_of(env).data_dir == "/data"@,
        config::paths_of(with_var(env, "ROBOTCTL_DATA_DIR"@, blank)).data_dir == "/data"@,
        !is_set(env, "ROBOTCTL_CONFIG_DIR"@) ==> config::paths_of(env).config_dir == "/data/robot"@,
        config::paths_of(with_var(env, "ROBOTCTL_CONFIG_DIR"@, blank)).config_dir == "/data/robot"@,
        !is_set(env, "ROBOTCTL_HOSTNAME_PATH"@) ==> config::paths_of(env).hostname_path == "/etc/hostname"@,
        config::paths_of(with_var(env, "ROBOTCTL_HOSTNAME_PATH"@, blank)).hostname_path == "/etc/hostname"@,
        !is_set(env, "ROBOTCTL_HOSTS_PATH"@) ==> config::paths_of(env).hosts_path == "/etc/hosts"@,
        config::paths_of(with_var(env, "ROBOTCTL_HOSTS_PATH"@, blank)).hosts_path == "/etc/hosts"@,
        !is_set(env, "ROBOTCTL_RUN_DIR"@) ==> config::paths_of(env).wifi_run_dir == "/run/robot-wifi"@,
        config::paths_of(with_var(env, "ROBOTCTL_RUN_DIR"@, blank)).wifi_run_dir == "/run/robot-wifi"@,
        !is_set(env, "ROBOTCTL_WIFI_INTERFACE"@) ==> config::paths_of(env).wifi_interface == "wlan-ctrl"@,
        config::paths_of(with_var(env, "ROBOTCTL_WIFI_INTERFACE"@, blank)).wifi_interface == "wlan-ctrl"@,
        !is_set(env, "ROBOTCTL_WIFI_UNIT"@) ==> config::paths_of(env).wifi_unit == "robotctl-wifi.service"@,
        config::paths_of(with_var(env, "ROBOTCTL_WIFI_UNIT"@, blank)).wifi_unit == "robotctl-wifi.service"@,
        !is_set(env, "ROBOTCTL_IMAGE_VERSION_PATH"@) ==> config::paths_of(env).image_version_path == "/etc/robot/image-version"@,
        config::paths_of(with_var(env, "ROBOTCTL_IMAGE_VERSION_PATH"@, blank)).image_version_path == "/etc/robot/image-version"@,
        !is_set(env, "ROBOTCTL_TRYBOOT_BACKEND"@) ==> config::paths_of(env).tryboot_backend == "/usr/libexec/rauc/tryboot-backend"@,
        config::paths_of(with_var(env, "ROBOTCTL_TRYBOOT_BACKEND"@, blank)).tryboot_backend == "/usr/libexec/rauc/tryboot-backend"@,
        !is_set(env, "ROBOTCTL_DEFAULT_ROBOT_ID"@) ==> config::paths_of(env).default_robot_id == "unprovisioned"@,
        !is_set(env, "ROBOTCTL_DEFAULT_ROS_DOMAIN_ID"@) ==> config::paths_of(env).default_ros_domain_id == 0,
{
    a_set_variable_reads_back(env, "ROBOTCTL_DATA_DIR"@, blank, "ROBOTCTL_DATA_DIR"@);
    a_set_variable_reads_back(env, "ROBOTCTL_CONFIG_DIR"@, blank, "ROBOTCTL_CONFIG_DIR"@);
    a_set_variable_reads_back(env, "ROBOTCTL_HOSTNAME_PATH"@, blank, "ROBOTCTL_HOSTNAME_PATH"@);
    a_set_variable_reads_back(env, "ROBOTCTL_HOSTS_PATH"@, blank, "ROBOTCTL_HOSTS_PATH"@);
    a_set_variable_reads_back(env, "ROBOTCTL_RUN_DIR"@, blank, "ROBOTCTL_RUN_DIR"@);
    a_set_variable_reads_back(env, "ROBOTCTL_WIFI_INTERFACE"@, blank, "ROBOTCTL_WIFI_INTERFACE"@);
    a_set_variable_reads_back(env, "ROBOTCTL_WIFI_UNIT"@, blank, "ROBOTCTL_WIFI_UNIT"@);
    a_set_variable_reads_back(env, "ROBOTCTL_IMAGE_VERSION_PATH"@, blank, "ROBOTCTL_IMAGE_VERSION_PATH"@);
    a_set_variable_reads_back(env, "ROBOTCTL_TRYBOOT_BACKEND"@, blank, "ROBOTCTL_TRYBOOT_BACKEND"@);
    a_set_variable_reads_back(env, "ROBOTCTL_DEFAULT_ROBOT_ID"@, blank, "ROBOTCTL_DEFAULT_ROBOT_ID"@);
    a_set_variable_reads_back(env, "ROBOTCTL_DEFAULT_ROS_DOMAIN_ID"@, blank, "ROBOTCTL_DEFAULT_ROS_DOMAIN_ID"@);
}

proof fn lemma_digits(n: u32)
    ensures
        text::trimmed(text::decimal(n as nat)) == text::decimal(n as nat),
        text::number_of(text::decimal(n as nat), u32::MAX as nat) == Some(n as nat),
{
    let digits = text::decimal(n as nat);
    text::lemma_decimal_reads_back(n as nat);
    text::lemma_number_round_trip(n as nat, u32::MAX as nat);
    assert(text::is_digit(digits[0]));
    assert(text::is_digit(digits[digits.len() - 1]));
    assert(text::trim_start_of(digits) == digits);
    assert(text::trim_end_of(digits) == digits);
}

/// The time that a connection may take is set by its variable, and nothing else is.
pub proof fn the_connect_timeout_sec_is_set_by_its_variable(env: Seq<(Seq<char>, Seq<char>)>, n: u32)
    ensures
        config::tuning_of(with_var(env, "ROBOTCTL_WIFI_CONNECT_TIMEOUT_SEC"@, text::decimal(n as nat))) == (SuperviseTuning {
            connect_timeout_sec: n,
            ..config::tuning_of(env)
        }),
{
    lemma_names();
    lemma_set(env, "ROBOTCTL_WIFI_CONNECT_TIMEOUT_SEC"@, text::decimal(n as nat));
    lemma_digits(n);
}

/// The number of attempts is set by its variable, and is never less than one, and nothing else is.
pub proof fn the_client_attempts_is_set_by_its_variable(env: Seq<(Seq<char>, Seq<char>)>, n: u32)
    ensures
        config::tuning_of(with_var(env, "ROBOTCTL_WIFI_CLIENT_ATTEMPTS"@, text::decimal(n as nat))) == (SuperviseTuning {
            client_attempts: if n == 0 {
                1
            } else {
                n
            },
            ..config::tuning_of(env)
        }),
{
    lemma_names();
    lemma_set(env, "ROBOTCTL_WIFI_CLIENT_ATTEMPTS"@, text::decimal(n as nat));
    lemma_digits(n);
}

/// The pause between attempts is set by its variable, and nothing else is.
pub proof fn the_retry_sec_is_set_by_its_variable(env: Seq<(Seq<char>, Seq<char>)>, n: u32)
    ensures
        config::tuning_of(with_var(env, "ROBOTCTL_WIFI_RETRY_SEC"@, text::decimal(n as nat))) == (SuperviseTuning {
            retry_sec: n,
            ..config::tuning_of(env)
        }),
{
    lemma_names();
    lemma_set(env, "ROBOTCTL_WIFI_RETRY_SEC"@, text::decimal(n as nat));
    lemma_digits(n);
}

/// The interval at which the link is polled is set by its variable, and is never less than one, and nothing else is.
pub proof fn the_link_poll_sec_is_set_by_its_variable(env: Seq<(Seq<char>, Seq<char>)>, n: u32)
    ensures
        config::tuning_of(with_var(env, "ROBOTCTL_WIFI_LINK_POLL_SEC"@, text::decimal(n as nat))) == (SuperviseTuning {
            link_poll_sec: if n == 0 {
                1
            } else {
                n
            },
            ..config::tuning_of(env)
        }),
{
    lemma_names();
    lemma_set(env, "ROBOTCTL_WIFI_LINK_POLL_SEC"@, text::decimal(n as nat));
    lemma_digits(n);
}

/// The time after which the client is tried again is set by its variable, and is never less than one, and nothing else is.
pub proof fn the_ap_retry_sec_is_set_by_its_variable(env: Seq<(Seq<char>, Seq<char>)>, n: u32)
    ensures
        config::tuning_of(with_var(env, "ROBOTCTL_WIFI_AP_RETRY_SEC"@, text::decimal(n as nat))) == (SuperviseTuning {
            ap_retry_sec: if n == 0 {
                1
            } else {
                n
            },
            ..config::tuning_of(env)
        }),
{
    lemma_names();
    lemma_set(env, "ROBOTCTL_WIFI_AP_RETRY_SEC"@, text::decimal(n as nat));
    lemma_digits(n);
}

/// A knob that is not set, or set to what is no number, takes its documented default; the number of
/// attempts and the two intervals that are polled at are never zero.
pub proof fn a_knob_that_is_not_set_is_the_default(
    env: Seq<(Seq<char>, Seq<char>)>,
    malformed: Seq<char>,
)
    requires
        text::number_of(text::trimmed(malformed), u32::MAX as nat) is None,
    ensures
        !is_set(env, "ROBOTCTL_WIFI_CONNECT_TIMEOUT_SEC"@) ==> config::tuning_of(env).connect_timeout_sec == 45,
        config::tuning_of(with_var(env, "ROBOTCTL_WIFI_CONNECT_TIMEOUT_SEC"@, malformed)).connect_timeout_sec == 45,
        !is_set(env, "ROBOTCTL_WIFI_CLIENT_ATTEMPTS"@) ==> config::tuning_of(env).client_attempts == 3,
        config::tuning_of(with_var(env, "ROBOTCTL_WIFI_CLIENT_ATTEMPTS"@, malformed)).client_attempts == 3,
        !is_set(env, "ROBOTCTL_WIFI_RETRY_SEC"@) ==> config::tuning_of(env).retry_sec == 5,
        config::tuning_of(with_var(env, "ROBOTCTL_WIFI_RETRY_SEC"@, malformed)).retry_sec == 5,
        !is_set(env, "ROBOTCTL_WIFI_LINK_POLL_SEC"@) ==> config::tuning_of(env).link_poll_sec == 10,
        config::tuning_of(with_var(env, "ROBOTCTL_WIFI_LINK_POLL_SEC"@, malformed)).link_poll_sec == 10,
        !is_set(env, "ROBOTCTL_WIFI_AP_RETRY_SEC"@) ==> config::tuning_of(env).ap_retry_sec == 300,
        config::tuning_of(with_var(env, "ROBOTCTL_WIFI_AP_RETRY_SEC"@, malformed)).ap_retry_sec == 300,
        config::tuning_of(env).client_attempts >= 1,
        config::tuning_of(env).link_poll_sec >= 1,
        config::tuning_of(env).ap_retry_sec >= 1,
{
    a_set_variable_reads_back(env, "ROBOTCTL_WIFI_CONNECT_TIMEOUT_SEC"@, malformed, "ROBOTCTL_WIFI_CONNECT_TIMEOUT_SEC"@);
    a_set_variable_reads_back(env, "ROBOTCTL_WIFI_CLIENT_ATTEMPTS"@, malformed, "ROBOTCTL_WIFI_CLIENT_ATTEMPTS"@);
    a_set_variable_reads_back(env, "ROBOTCTL_WIFI_RETRY_SEC"@, malformed, "ROBOTCTL_WIFI_RETRY_SEC"@);
    a_set_variable_reads_back(env, "ROBOTCTL_WIFI_LINK_POLL_SEC"@, malformed, "ROBOTCTL_WIFI_LINK_POLL_SEC"@);
    a_set_variable_reads_back(env, "ROBOTCTL_WIFI_AP_RETRY_SEC"@, malformed, "ROBOTCTL_WIFI_AP_RETRY_SEC"@);
}

/// A value that is passed over is reported, once; what is taken is not.
pub proof fn what_is_passed_over_is_reported(
    env: Seq<(Seq<char>, Seq<char>)>,
    name: Seq<char>,
    default: u32,
    value: Seq<char>,
)
    ensures
        !is_set(env, name) ==> config::u32_report(env, name, default).len() == 0,
        config::u32_report(with_var(env, name, value), name, default).len() == if text::number_of(
            text::trimmed(value),
            u32::MAX as nat,
        ) is Some {
            0nat
        } else {
            1nat
        },
        config::default_robot_id_report(Some(value)).len() == if id::valid_robot_id(value) {
            0nat
        } else {
            1nat
        },
        config::default_ros_domain_id_report(Some(value)).len() == if id::ros_domain_of(
            value,
        ) is Some {
            0nat
        } else {
            1nat
        },
        config::default_robot_id_report(None).len() == 0,
        config::default_ros_domain_id_report(None).len() == 0,
{
    a_set_variable_reads_back(env, name, value, name);
}

/// A name below a directory starts with the directory and ends in the name, with one slash
/// between them, whether or not the directory is written with one; an absolute name stands alone.
pub proof fn a_path_joins_a_directory_and_a_name(dir: Seq<char>, name: Seq<char>)
    requires
        dir.len() > 0,
        dir.last() != '/',
    ensures
        name.len() > 0 && name[0] == '/' ==> config::path_below(dir, name) == name,
        name.len() > 0 && name[0] != '/' ==> config::path_below(dir, name) == dir + seq!['/'] + name,
        config::path_below(dir.push('/'), name) == config::path_below(dir, name),
{
    assert(dir.push('/') =~= dir + seq!['/']);
    assert(dir.push('/').last() == '/');
}

/// The socket of the service manager is the one that is named, unless it is abstract or empty.
pub proof fn the_notify_socket_is_a_path(socket: Seq<char>)
    ensures
        config::notify_socket_of(Some(socket)) == if socket.len() > 0 && socket[0] != '@' {
            Some(socket)
        } else {
            None
        },
        config::notify_socket_of(None) is None,
{
}

/// A hook or a unit that may be left out is what it is set to, without the whitespace around it,
/// even if that is nothing.
pub proof fn what_may_be_left_out_can_be(value: Seq<char>, default: Seq<char>)
    ensures
        config::optional_setting(Some(value), default) == text::trimmed(value),
        config::optional_setting(None, default) == default,
{
}

} // verus!
