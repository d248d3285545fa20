use robotctl::cli::{parse_robot_id, parse_ros_domain_id};
use robotctl::config::Paths;
use robotctl::id::{
    apply, apply_runtime_hostname, change_robot_id, change_ros_domain_id, hostname_attempts, load, load_notices, mdns_nudge, render_hosts_file,
    ros_domain_id, set_key, set_robot_id, set_ros_domain_id, AttemptOutcome, HostnameStep,
    RobotConfig, RobotId, RobotIdValidationError, RosDomainId, RosDomainIdValidationError,
    ROBOT_ID_KEY,
};

fn robot_id(id: &str) -> RobotId {
    RobotId::new(id).expect("test fixture must be a valid robot ID")
}

#[test]
fn accepts_valid_robot_ids() {
    for id in ["gopigo-01", "a", "unprovisioned", "r2d2", &"a".repeat(63)] {
        assert!(RobotId::new(id).is_ok(), "expected {id:?} to be accepted");
    }
}

#[test]
fn rejects_invalid_robot_ids() {
    // Each case asserts *which* error a bad ID produces, not merely that it was rejected: the
    // error text is user-facing, so "rejected for the wrong reason" is a real bug.
    let cases: [(&str, fn(&RobotIdValidationError) -> bool); 7] = [
        ("", |err| {
            matches!(err, RobotIdValidationError::InvalidLength { length: 0 })
        }),
        ("-gopigo", |err| {
            matches!(err, RobotIdValidationError::StartsWithHyphen)
        }),
        ("gopigo-", |err| {
            matches!(err, RobotIdValidationError::EndsWithHyphen)
        }),
        ("GoPiGo", |err| {
            matches!(
                err,
                RobotIdValidationError::Lowercase { char: 'G', pos: 0 }
            )
        }),
        ("gopigo.01", |err| {
            matches!(
                err,
                RobotIdValidationError::InvalidChar { char: '.', pos: 6 }
            )
        }),
        ("gopigo_01", |err| {
            matches!(
                err,
                RobotIdValidationError::InvalidChar { char: '_', pos: 6 }
            )
        }),
        ("gopigo 01", |err| {
            matches!(
                err,
                RobotIdValidationError::InvalidChar { char: ' ', pos: 6 }
            )
        }),
    ];

    for (input, expected_error) in cases {
        let err = RobotId::new(input).expect_err(&format!("expected {input:?} to be rejected"));
        assert!(
            expected_error(&err),
            "unexpected error for {input:?}: {}",
            err.to_string()
        );
    }
}

#[test]
fn rejects_robot_ids_longer_than_63_characters() {
    let too_long = "a".repeat(64);
    assert!(matches!(
        RobotId::new(&too_long),
        Err(RobotIdValidationError::InvalidLength { length: 64 })
    ));
}

#[test]
fn ros_domain_id_range() {
    assert_eq!(RosDomainId::new(0).unwrap().value(), 0);
    assert_eq!(RosDomainId::new(232).unwrap().value(), 232);
    assert!(RosDomainId::new(233).is_err());
}

#[test]
fn ros_domain_id_parses_from_text() {
    assert_eq!("0".parse::<RosDomainId>().unwrap().value(), 0);
    assert_eq!("232".parse::<RosDomainId>().unwrap().value(), 232);
    assert_eq!(" 7 ".parse::<RosDomainId>().unwrap().value(), 7);

    // The whole reason parsing goes through u32: every oversized value must still report
    // the real rule, not an integer-width error, and must stay distinguishable from text.
    assert!(matches!(
        "233".parse::<RosDomainId>(),
        Err(RosDomainIdValidationError::OutOfRange { value: 233 })
    ));
    assert!(matches!(
        "300".parse::<RosDomainId>(),
        Err(RosDomainIdValidationError::OutOfRange { value: 300 })
    ));
    assert!(matches!(
        "abc".parse::<RosDomainId>(),
        Err(RosDomainIdValidationError::NotAnInteger { .. })
    ));
    assert!(matches!(
        "-1".parse::<RosDomainId>(),
        Err(RosDomainIdValidationError::NotAnInteger { .. })
    ));
    assert!(matches!(
        "".parse::<RosDomainId>(),
        Err(RosDomainIdValidationError::NotAnInteger { .. })
    ));
}

#[test]
fn hosts_rewrite_touches_only_the_127_0_1_1_line() {
    // The IPv6 block below is exactly what the built gopigo-image ships.
    let existing = "127.0.0.1\tlocalhost\n\
                    ::1     localhost ip6-localhost ip6-loopback\n\
                    ff02::1 ip6-allnodes\n\
                    127.0.1.1 gopigo3-rpi5\n";

    let rendered = render_hosts_file(Some(existing), &robot_id("gopigo-07"));

    assert_eq!(
        rendered,
        "127.0.0.1\tlocalhost\n\
         ::1     localhost ip6-localhost ip6-loopback\n\
         ff02::1 ip6-allnodes\n\
         127.0.1.1\tgopigo-07\n"
    );
}

#[test]
fn hosts_rewrite_appends_when_there_is_no_entry() {
    let rendered = render_hosts_file(Some("127.0.0.1\tlocalhost\n"), &robot_id("gopigo-07"));

    assert_eq!(rendered, "127.0.0.1\tlocalhost\n127.0.1.1\tgopigo-07\n");
}

#[test]
fn hosts_rewrite_leaves_similar_addresses_alone() {
    let existing = "127.0.1.10\tsomething-else\n";

    let rendered = render_hosts_file(Some(existing), &robot_id("gopigo-07"));

    assert_eq!(
        rendered,
        "127.0.1.10\tsomething-else\n127.0.1.1\tgopigo-07\n"
    );
}

#[test]
fn hosts_rewrite_materialises_a_missing_file() {
    let rendered = render_hosts_file(None, &robot_id("gopigo-07"));

    assert_eq!(rendered, "127.0.0.1\tlocalhost\n127.0.1.1\tgopigo-07\n");
}

#[test]
fn load_falls_back_to_defaults_when_robot_conf_is_missing() {
    let paths = Paths::for_test("/tmp/robotctl-example");

    let config = load(&paths, None);

    assert_eq!(config.robot_id.as_str(), "unprovisioned");
    assert_eq!(config.ros_domain_id.value(), 0);
}

#[test]
fn load_falls_back_per_key_on_invalid_values() {
    let paths = Paths::for_test("/tmp/robotctl-example");
    let text = "ROBOT_ID=Not Valid\nROS_DOMAIN_ID=9\n";

    let config = load(&paths, Some(text));

    // The bad key falls back; the good one is still honoured.
    assert_eq!(config.robot_id.as_str(), "unprovisioned");
    assert_eq!(config.ros_domain_id.value(), 9);
    assert_eq!(load_notices(&paths, Some(text)).len(), 1);
}

#[test]
fn set_robot_id_writes_config_and_derives_hostname_files() {
    let paths = Paths::for_test("/tmp/robotctl-example");

    let written = set_key(None, ROBOT_ID_KEY, "gopigo-07");
    assert_eq!(written, "ROBOT_ID=gopigo-07\n");

    let config = load(&paths, Some(&written));
    let application = apply(&paths, &config, None, None);

    assert_eq!(application.changes.len(), 2);
    assert_eq!(
        application.changes[0].path,
        "/tmp/robotctl-example/etc/hostname"
    );
    assert_eq!(application.changes[0].contents, "gopigo-07\n");
    assert_eq!(
        application.changes[1].path,
        "/tmp/robotctl-example/etc/hosts"
    );
    assert_eq!(
        application.changes[1].contents,
        "127.0.0.1\tlocalhost\n127.0.1.1\tgopigo-07\n"
    );
}

#[test]
fn apply_is_idempotent_and_does_not_rewrite_unchanged_files() {
    let paths = Paths::for_test("/tmp/robotctl-example");
    let config = RobotConfig {
        robot_id: robot_id("gopigo-07"),
        ros_domain_id: RosDomainId::new(0).unwrap(),
    };

    let first = apply(&paths, &config, None, None);
    let second = apply(
        &paths,
        &config,
        Some(&first.changes[0].contents),
        Some(&first.changes[1].contents),
    );

    assert!(
        second.changes.is_empty(),
        "second apply rewrote an unchanged file"
    );
    assert_eq!(second.attempts, hostname_attempts(&config.robot_id));
}

#[test]
fn apply_after_a_rename_replaces_the_old_entry_rather_than_adding_one() {
    let paths = Paths::for_test("/tmp/robotctl-example");

    let conf = set_robot_id(None, &robot_id("gopigo-07"));
    let first = apply(&paths, &load(&paths, Some(&conf)), None, None);

    let conf = set_robot_id(Some(&conf), &robot_id("gopigo-08"));
    let second = apply(
        &paths,
        &load(&paths, Some(&conf)),
        Some(&first.changes[0].contents),
        Some(&first.changes[1].contents),
    );

    assert_eq!(
        second.changes[1].contents,
        "127.0.0.1\tlocalhost\n127.0.1.1\tgopigo-08\n"
    );
    assert_eq!(second.changes[0].contents, "gopigo-08\n");
}

#[test]
fn setting_one_value_keeps_the_other() {
    let paths = Paths::for_test("/r");
    let conf = set_ros_domain_id(None, RosDomainId::new(42).unwrap());
    let conf = set_robot_id(Some(&conf), &robot_id("gopigo-07"));

    assert_eq!(conf, "ROS_DOMAIN_ID=42\nROBOT_ID=gopigo-07\n");
    assert_eq!(ros_domain_id(&paths, Some(&conf)).value(), 42);
    assert_eq!(
        robotctl::id::robot_id(&paths, Some(&conf)).as_str(),
        "gopigo-07"
    );
}

#[test]
fn hostname_attempts_go_on_until_one_succeeds() {
    let id = robot_id("gopigo-07");

    let progress = apply_runtime_hostname(&id, &Vec::new());
    let HostnameStep::Run(command) = progress.step else {
        panic!("nothing to run");
    };
    assert_eq!(command.program, "hostnamectl");
    assert_eq!(command.args, ["--transient", "set-hostname", "gopigo-07"]);

    let outcomes = vec![AttemptOutcome::Exited {
        success: false,
        status: "exit status: 1".to_string(),
    }];
    let progress = apply_runtime_hostname(&id, &outcomes);
    assert_eq!(
        progress.notices,
        ["[WARN] hostnamectl exited with exit status: 1; trying next fallback"]
    );
    let HostnameStep::Run(command) = progress.step else {
        panic!("nothing to run");
    };
    assert_eq!(command.program, "hostname");
    assert_eq!(command.args, ["gopigo-07"]);

    let outcomes = vec![
        AttemptOutcome::NotFound,
        AttemptOutcome::Failed {
            err: "denied".to_string(),
        },
    ];
    let progress = apply_runtime_hostname(&id, &outcomes);
    assert_eq!(progress.step, HostnameStep::Done);
    assert_eq!(
        progress.notices,
        [
            "[WARN] could not run hostname: denied",
            "[WARN] Could not update the running hostname. Persistent hostname files were \
             still updated.",
        ]
    );

    let outcomes = vec![AttemptOutcome::Exited {
        success: true,
        status: "exit status: 0".to_string(),
    }];
    let progress = apply_runtime_hostname(&id, &outcomes);
    assert_eq!(progress.step, HostnameStep::Done);
    assert!(progress.notices.is_empty());
}

#[test]
fn bad_arguments_are_named() {
    assert_eq!(parse_robot_id("r2").unwrap().as_str(), "r2");
    let err = parse_robot_id("R2").unwrap_err();
    assert!(err.starts_with("invalid robot ID 'R2': "), "{err}");

    assert_eq!(parse_ros_domain_id(" 7").unwrap().value(), 7);
    assert_eq!(
        parse_ros_domain_id("240").unwrap_err(),
        "invalid ROS domain ID '240': ROS domain ID must be between 0 and 232 inclusive. Found \
         240."
    );
    assert_eq!(
        parse_ros_domain_id("x").unwrap_err(),
        "invalid ROS domain ID 'x': ROS domain ID must be an integer between 0 and 232. Found \
         'x'."
    );
}

#[test]
fn loading_reports_what_it_falls_back_on() {
    let paths = Paths::for_test("/r");

    assert_eq!(
        load_notices(&paths, None),
        ["[INFO] /r/data/robot/robot.conf does not exist; using defaults (robot is \
          unprovisioned)"]
    );
    assert_eq!(
        load_notices(&paths, Some("ROBOT_ID=Not Valid\nROS_DOMAIN_ID=x\n")),
        [
            "[WARN] /r/data/robot/robot.conf: invalid ROBOT_ID='Not Valid'. Robot ID must be \
             lowercase. Found character 'N' at position 0. Using 'unprovisioned'.",
            "[WARN] /r/data/robot/robot.conf: invalid ROS_DOMAIN_ID='x'. ROS domain ID must be \
             an integer between 0 and 232. Found 'x'. Using 0.",
        ]
    );
    assert!(load_notices(&paths, Some("ROBOT_ID=r2\n")).is_empty());
}

#[test]
fn applying_reports_what_it_changes() {
    let paths = Paths::for_test("/r");
    let config = RobotConfig {
        robot_id: robot_id("r2"),
        ros_domain_id: RosDomainId::new(0).unwrap(),
    };
    let application = apply(&paths, &config, Some("r1\n"), Some("127.0.1.1 r1\n"));

    assert_eq!(
        application.changes[0].notice,
        "[INFO] /r/etc/hostname now reads 'r2'"
    );
    assert_eq!(
        application.changes[1].notice,
        "[INFO] /r/etc/hosts now maps 127.0.1.1 to 'r2'"
    );
}

#[test]
fn every_robot_id_error_tells_its_rule() {
    for (id, message) in [
        (
            "aB",
            "Robot ID must be lowercase. Found character 'B' at position 1.",
        ),
        (
            "a b",
            "Robot ID may only contain letters, digits, and hyphens. Found character ' ' at \
             position 1.",
        ),
        (
            "",
            "Robot ID must be between 1 and 63 characters long. Supplied string has length 0.",
        ),
        ("-a", "Robot ID must not start with a hyphen."),
        ("a-", "Robot ID must not end in a hyphen."),
    ] {
        assert_eq!(RobotId::new(id).unwrap_err().to_string(), message);
    }
}

#[test]
fn setting_replaces_indented_assignments_too() {
    let paths = Paths::for_test("/r");
    let existing = "# robot\nROBOT_ID=a\n  ROBOT_ID=b\nROS_DOMAIN_ID=3\n\tROS_DOMAIN_ID = 4\n";

    let update = change_robot_id(&paths, Some(existing), None, Some(""), &robot_id("c"));
    assert_eq!(
        update.contents,
        "# robot\nROBOT_ID=c\nROBOT_ID=c\nROS_DOMAIN_ID=3\n\tROS_DOMAIN_ID = 4\n"
    );
    assert_eq!(load(&paths, Some(&update.contents)).robot_id.as_str(), "c");
    assert_eq!(update.application.changes[0].contents, "c\n");
    assert_eq!(update.application.changes[1].contents, "127.0.1.1\tc\n");

    let only_indented = set_key(Some(" ROBOT_ID='b' \n"), ROBOT_ID_KEY, "c");
    assert_eq!(only_indented, "ROBOT_ID=c\n");
    assert_eq!(set_key(Some(&only_indented), ROBOT_ID_KEY, "c"), only_indented);
}

#[test]
fn setting_the_ros_domain_id_re_derives_the_files_of_the_same_robot() {
    let paths = Paths::for_test("/r");
    let id = RosDomainId::new(9).unwrap();

    let update = change_ros_domain_id(
        &paths,
        Some("ROBOT_ID=r2\n ROS_DOMAIN_ID=3\n"),
        Some("r1\n"),
        Some("127.0.1.1\tr2\n"),
        id,
    );

    assert_eq!(update.contents, "ROBOT_ID=r2\nROS_DOMAIN_ID=9\n");
    assert_eq!(update.application.changes.len(), 1);
    assert_eq!(update.application.changes[0].contents, "r2\n");
    assert_eq!(
        update.application.attempts,
        hostname_attempts(&robot_id("r2"))
    );
}

#[test]
fn a_rename_nudges_the_mdns_responder() {
    let unit = "avahi-daemon.service";

    for before in [None, Some("r1\n")] {
        let command = mdns_nudge(before, &robot_id("r2"), unit).unwrap();
        assert_eq!(command.program, "systemctl");
        assert_eq!(command.args, ["--no-block", "try-restart", unit]);
    }
    assert_eq!(mdns_nudge(Some("r2\n"), &robot_id("r2"), unit), None);
    assert_eq!(mdns_nudge(Some("r1\n"), &robot_id("r2"), ""), None);
}
