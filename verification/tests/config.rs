use robotctl::config::{
    builtin_default_robot_id, builtin_default_ros_domain_id, env_warnings, mdns_unit,
    systemd_notify_socket, tuning_warnings, wifi_state_hook, Paths, SuperviseTuning,
};

fn env(vars: &[(&str, &str)]) -> Vec<(String, String)> {
    vars.iter()
        .map(|(name, value)| (name.to_string(), value.to_string()))
        .collect()
}

#[test]
fn compiled_in_defaults_are_valid() {
    assert_eq!(builtin_default_robot_id().as_str(), "unprovisioned");
    assert_eq!(builtin_default_ros_domain_id().value(), 0);
}

#[test]
fn test_paths_stay_inside_the_given_root() {
    let paths = Paths::for_test("/tmp/robotctl-example");

    assert!(paths.robot_conf().starts_with("/tmp/robotctl-example"));
    assert!(paths.hostname_path().starts_with("/tmp/robotctl-example"));
    assert!(paths.hosts_path().starts_with("/tmp/robotctl-example"));
}

#[test]
fn robot_conf_hangs_off_the_config_dir() {
    let paths = Paths::for_test("/tmp/robotctl-example");

    assert_eq!(
        paths.robot_conf(),
        "/tmp/robotctl-example/data/robot/robot.conf"
    );
}

#[test]
fn an_empty_environment_gives_the_defaults() {
    let paths = Paths::from_env(&Vec::new());

    assert_eq!(paths.robot_conf(), "/data/robot/robot.conf");
    assert_eq!(paths.hostname_path(), "/etc/hostname");
    assert_eq!(paths.hosts_path(), "/etc/hosts");
    assert_eq!(paths.wifi_client_conf(), "/data/robot/wifi/client.conf");
    assert_eq!(paths.wifi_ap_conf(), "/data/robot/wifi/fallback-ap.conf");
    assert_eq!(paths.experiments_dir(), "/data/experiments");
    assert_eq!(paths.wifi_run_dir(), "/run/robot-wifi");
    assert_eq!(paths.wifi_interface(), "wlan-ctrl");
    assert_eq!(paths.wifi_unit(), "robotctl-wifi.service");
    assert_eq!(paths.image_version(), "/etc/robot/image-version");
    assert_eq!(paths.tryboot_backend(), "/usr/libexec/rauc/tryboot-backend");
    assert_eq!(paths.default_robot_id().as_str(), "unprovisioned");
    assert_eq!(paths.default_ros_domain_id().value(), 0);

    let tuning = SuperviseTuning::from_env(&Vec::new());
    assert_eq!(
        tuning,
        SuperviseTuning {
            connect_timeout_sec: 45,
            client_attempts: 3,
            retry_sec: 5,
            link_poll_sec: 10,
            ap_retry_sec: 300,
        }
    );
    assert!(env_warnings(&Vec::new()).is_empty());
    assert!(tuning_warnings(&Vec::new()).is_empty());
}

#[test]
fn the_environment_overrides_the_defaults() {
    let env = env(&[
        ("ROBOTCTL_DATA_DIR", "/mnt"),
        ("ROBOTCTL_CONFIG_DIR", "/cfg/"),
        ("ROBOTCTL_WIFI_INTERFACE", "wlan7"),
        ("ROBOTCTL_DEFAULT_ROBOT_ID", "r2d2"),
        ("ROBOTCTL_DEFAULT_ROS_DOMAIN_ID", "17"),
        ("ROBOTCTL_WIFI_CLIENT_ATTEMPTS", "0"),
        ("ROBOTCTL_WIFI_RETRY_SEC", "0"),
        ("NOTIFY_SOCKET", "/run/notify"),
    ]);
    let paths = Paths::from_env(&env);

    assert_eq!(paths.experiments_dir(), "/mnt/experiments");
    assert_eq!(paths.robot_conf(), "/cfg/robot.conf");
    assert_eq!(paths.wifi_interface(), "wlan7");
    assert_eq!(paths.default_robot_id().as_str(), "r2d2");
    assert_eq!(paths.default_ros_domain_id().value(), 17);

    let tuning = SuperviseTuning::from_env(&env);
    assert_eq!(tuning.client_attempts, 1);
    assert_eq!(tuning.retry_sec, 0);
    assert_eq!(systemd_notify_socket(&env).as_deref(), Some("/run/notify"));
}

#[test]
fn malformed_values_warn_and_take_the_default() {
    let env = env(&[
        ("ROBOTCTL_DEFAULT_ROBOT_ID", "Not Valid"),
        ("ROBOTCTL_DEFAULT_ROS_DOMAIN_ID", "999"),
        ("ROBOTCTL_WIFI_RETRY_SEC", "soon"),
        ("ROBOTCTL_WIFI_UNIT", ""),
    ]);
    let paths = Paths::from_env(&env);

    assert_eq!(paths.default_robot_id().as_str(), "unprovisioned");
    assert_eq!(paths.default_ros_domain_id().value(), 0);
    assert_eq!(paths.wifi_unit(), "robotctl-wifi.service");
    assert_eq!(SuperviseTuning::from_env(&env).retry_sec, 5);
    assert_eq!(
        env_warnings(&env),
        [
            "[WARN] ROBOTCTL_DEFAULT_ROBOT_ID='Not Valid': Robot ID must be lowercase. Found \
             character 'N' at position 0. Falling back to 'unprovisioned'.",
            "[WARN] ROBOTCTL_DEFAULT_ROS_DOMAIN_ID='999': ROS domain ID must be between 0 and \
             232 inclusive. Found 999. Falling back to 0.",
        ]
    );
    assert_eq!(
        tuning_warnings(&env),
        ["[WARN] ROBOTCTL_WIFI_RETRY_SEC='soon' is not a non-negative integer. Falling back to 5."]
    );
}

#[test]
fn an_abstract_or_empty_notify_socket_is_none() {
    assert_eq!(systemd_notify_socket(&Vec::new()), None);
    assert_eq!(systemd_notify_socket(&env(&[("NOTIFY_SOCKET", "")])), None);
    assert_eq!(
        systemd_notify_socket(&env(&[("NOTIFY_SOCKET", "@abstract")])),
        None
    );
}

#[test]
fn the_hook_and_the_mdns_unit_may_be_empty() {
    assert_eq!(wifi_state_hook(&Vec::new()), "");
    assert_eq!(mdns_unit(&Vec::new()), "avahi-daemon.service");

    let env = env(&[
        ("ROBOTCTL_WIFI_STATE_HOOK", " /usr/bin/leds "),
        ("ROBOTCTL_MDNS_UNIT", ""),
    ]);
    assert_eq!(wifi_state_hook(&env), "/usr/bin/leds");
    assert_eq!(mdns_unit(&env), "");
}
