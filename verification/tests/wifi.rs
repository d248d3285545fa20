use robotctl::command::Exit;
use robotctl::config::{Paths, SuperviseTuning};
use robotctl::id::RobotId;
use robotctl::systemd;
use robotctl::wifi::ap::{self, dnsmasq_args, ApSession};
use robotctl::wifi::client::{self, dhcp_attempts, ClientFailure};
use robotctl::wifi::config_gen::{
    load_ap_config, load_ap_notices, render_dnsmasq_conf, render_hostapd_conf, ApConfig,
    ApConfigError, ApLoadError, ApSecurity, Psk, Ssid,
};
use robotctl::wifi::daemon::{Daemon, Poll, Shutdown};
use robotctl::wifi::hook::{self, conclude, on_change, must_kill, not_run, notify, wait_until, Wait};
use robotctl::wifi::ipv4::Ipv4Addr;
use robotctl::wifi::net::{
    add_address, associated_ssid, flush_addresses, interface_exists, interface_mode,
    interface_query, ipv4_address, ipv4_query, link_down, link_up, mode_query, output,
    parse_inet_address, parse_iw_link_ssid, parse_iw_type, require_interface, run,
    run_best_effort, ssid_query, Captured, InterfaceMode,
};
use robotctl::wifi::script::{Reply, Script, Task};
use robotctl::wifi::supervise::{
    self, next_state, notify_notice, notify_ready, Answer, Effect, Event, Question, State,
};
use robotctl::wifi::{
    print_status, start, status_heading, stop, stop_interface, ApReport, WifiReport,
};

fn robot_id(id: &str) -> RobotId {
    RobotId::new(id).expect("test fixture must be a valid robot ID")
}

/// Loads `fallback-ap.conf` with these contents.
fn load_from(contents: &str) -> Result<ApConfig, ApLoadError> {
    let paths = Paths::for_test("/tmp/robotctl-example");
    load_ap_config(&paths, Some(contents), &robot_id("gopigo-07"))
}

fn example_config() -> ApConfig {
    let paths = Paths::for_test("/tmp/robotctl-example");
    load_ap_config(&paths, None, &robot_id("gopigo-07")).unwrap()
}

#[test]
fn ssid_validation() {
    assert!(Ssid::new("gopigo-07-setup").is_ok());
    assert!(Ssid::new(&"a".repeat(32)).is_ok());

    assert!(matches!(Ssid::new(""), Err(ApConfigError::EmptySsid)));
    assert!(matches!(
        Ssid::new(&"a".repeat(33)),
        Err(ApConfigError::SsidTooLong { len: 33, .. })
    ));
    // Eight two-byte characters are 16 octets, so this is about the byte limit, not chars.
    assert!(matches!(
        Ssid::new(&"é".repeat(17)),
        Err(ApConfigError::SsidTooLong { len: 34, .. })
    ));
    assert!(matches!(
        Ssid::new("evil\nwpa=0"),
        Err(ApConfigError::ControlCharacter { field: "AP_SSID" })
    ));
}

#[test]
fn psk_validation() {
    // Empty is valid and means "open network", the shipped default.
    assert_eq!(Psk::parse_optional("").unwrap(), None);

    assert!(Psk::parse_optional("hunter22").unwrap().is_some());
    assert!(Psk::parse_optional(&"a".repeat(63)).unwrap().is_some());

    assert!(matches!(
        Psk::parse_optional("short"),
        Err(ApConfigError::PskLength { len: 5 })
    ));
    assert!(matches!(
        Psk::parse_optional(&"a".repeat(64)),
        Err(ApConfigError::PskLength { len: 64 })
    ));
    assert!(matches!(
        Psk::parse_optional("pass\nwpa=0"),
        Err(ApConfigError::ControlCharacter { field: "AP_PSK" })
    ));
}

#[test]
fn missing_config_file_yields_defaults_and_a_derived_ssid() {
    let config = example_config();

    assert_eq!(config.ssid.as_str(), "gopigo-07-setup");
    assert_eq!(config.psk, None);
    assert_eq!(config.security(), ApSecurity::Open);
    assert_eq!(config.address, Ipv4Addr::new(192, 168, 50, 1));
    assert_eq!(config.netmask_cidr, 24);
    assert_eq!(config.channel, 6);
    assert_eq!(config.country, "US");
    assert_eq!(config.dhcp_lease_time, "12h");
}

#[test]
fn shipped_fallback_ap_conf_loads() {
    // What meta-gopigo ships as fallback-ap.conf. If this stops loading, the shipped file broke.
    let loaded = load_from(
        "AP_SSID=\"\"\n\
         AP_SSID_SUFFIX=\"-setup\"\n\
         AP_PSK=\"\"\n\
         AP_ADDRESS=\"192.168.50.1\"\n\
         AP_NETMASK=\"255.255.255.0\"\n\
         AP_NETMASK_CIDR=\"24\"\n\
         AP_DHCP_RANGE_START=\"192.168.50.10\"\n\
         AP_DHCP_RANGE_END=\"192.168.50.50\"\n\
         AP_DHCP_LEASE_TIME=\"12h\"\n\
         AP_CHANNEL=\"6\"\n\
         AP_COUNTRY=\"US\"\n",
    );

    let config = loaded.unwrap();
    assert_eq!(config.ssid.as_str(), "gopigo-07-setup");
    assert_eq!(config.security(), ApSecurity::Open);
}

#[test]
fn explicit_ssid_overrides_the_derived_one() {
    let loaded = load_from("AP_SSID=\"lab-recovery\"\n");

    assert_eq!(loaded.unwrap().ssid.as_str(), "lab-recovery");
}

#[test]
fn a_passphrase_switches_security_to_wpa2() {
    let config = load_from("AP_PSK=\"hunter2hunter2\"\n").unwrap();

    assert_eq!(config.security(), ApSecurity::Wpa2);
    assert_eq!(config.psk.unwrap().as_str(), "hunter2hunter2");
}

#[test]
fn invalid_values_are_rejected_rather_than_silently_defaulted() {
    for bad in [
        "AP_ADDRESS=\"not-an-ip\"\n",
        "AP_CHANNEL=\"0\"\n",
        "AP_CHANNEL=\"36\"\n",
        "AP_CHANNEL=\"abc\"\n",
        "AP_NETMASK_CIDR=\"33\"\n",
        "AP_PSK=\"short\"\n",
    ] {
        let loaded = load_from(bad);
        assert!(loaded.is_err(), "expected {bad:?} to be rejected");
    }
}

#[test]
fn a_robot_id_too_long_for_an_ssid_is_reported_not_truncated() {
    let paths = Paths::for_test("/tmp/robotctl-example");

    // 63 characters is a valid robot ID, but 63 + "-setup" is well over the 32-byte SSID
    // limit. Truncating would give two robots the same recovery AP name.
    let long = robot_id(&"a".repeat(63));
    let err = load_ap_config(&paths, None, &long).unwrap_err();

    assert!(
        err.to_string().contains("AP_SSID"),
        "unexpected error: {}",
        err.to_string()
    );
}

#[test]
fn hostapd_conf_open_network() {
    let config = example_config();

    assert_eq!(
        render_hostapd_conf(&config),
        "interface=wlan-ctrl\n\
         driver=nl80211\n\
         ssid=gopigo-07-setup\n\
         hw_mode=g\n\
         channel=6\n\
         country_code=US\n\
         ieee80211n=1\n\
         wmm_enabled=1\n\
         \n\
         auth_algs=1\n"
    );
}

#[test]
fn hostapd_conf_wpa2() {
    let mut config = example_config();
    config.psk = Some(Psk::parse_optional("hunter2hunter2").unwrap().unwrap());

    assert_eq!(
        render_hostapd_conf(&config),
        "interface=wlan-ctrl\n\
         driver=nl80211\n\
         ssid=gopigo-07-setup\n\
         hw_mode=g\n\
         channel=6\n\
         country_code=US\n\
         ieee80211n=1\n\
         wmm_enabled=1\n\
         \n\
         auth_algs=1\n\
         wpa=2\n\
         wpa_key_mgmt=WPA-PSK\n\
         wpa_passphrase=hunter2hunter2\n\
         rsn_pairwise=CCMP\n"
    );
}

#[test]
fn dnsmasq_conf() {
    let config = example_config();

    assert_eq!(
        render_dnsmasq_conf(&config),
        "interface=wlan-ctrl\n\
         bind-interfaces\n\
         dhcp-range=192.168.50.10,192.168.50.50,255.255.255.0,12h\n\
         dhcp-option=3,192.168.50.1\n\
         dhcp-option=6,192.168.50.1\n\
         domain-needed\n\
         bogus-priv\n"
    );
}

#[test]
fn every_ap_error_tells_its_rule() {
    for (text, message) in [
        (
            "AP_SSID=\u{1}x\n",
            "AP_SSID must not contain control characters.",
        ),
        (
            "AP_SSID=aaaaaaaaaaaaaaaaaaaaaaaaaaaaaaaaa\n",
            "AP_SSID must be 32 bytes or fewer. 'aaaaaaaaaaaaaaaaaaaaaaaaaaaaaaaaa' is 33.",
        ),
        (
            "AP_PSK=short\n",
            "AP_PSK must be between 8 and 63 characters, or empty for an open network. Supplied \
             passphrase is 5.",
        ),
        (
            "AP_NETMASK=255.255.255\n",
            "AP_NETMASK='255.255.255' is not a valid IPv4 address.",
        ),
        (
            "AP_CHANNEL=x\n",
            "AP_CHANNEL='x' is not a valid number.",
        ),
        (
            "AP_CHANNEL=15\n",
            "AP_CHANNEL must be between 1 and 14 (the generated config is hw_mode=g, i.e. 2.4 \
             GHz). Found 15.",
        ),
        (
            "AP_NETMASK_CIDR=0\n",
            "AP_NETMASK_CIDR must be between 1 and 32. Found 0.",
        ),
        (
            "AP_COUNTRY=U\u{7f}S\n",
            "AP_COUNTRY must not contain control characters.",
        ),
    ] {
        assert_eq!(load_from(text).unwrap_err().to_string(), message);
    }

    assert_eq!(
        ApConfigError::EmptySsid.to_string(),
        "AP_SSID must not be empty."
    );
    assert_eq!(
        ApConfigError::Empty {
            field: "AP_COUNTRY"
        }
        .to_string(),
        "AP_COUNTRY must not be empty."
    );
    assert_eq!(
        load_ap_config(
            &Paths::for_test("/r"),
            Some("AP_SSID_SUFFIX=\u{2}\n"),
            &robot_id("r2")
        )
        .unwrap_err()
        .to_string(),
        "deriving the fallback AP SSID from ROBOT_ID='r2' and AP_SSID_SUFFIX='\u{2}': AP_SSID \
         must not contain control characters."
    );
    // The first of several faults is the one that is reported.
    assert!(matches!(
        load_from("AP_COUNTRY=\u{1}\nAP_PSK=short\n"),
        Err(ApLoadError {
            source: ApConfigError::PskLength { len: 5 },
            ..
        })
    ));
}

#[test]
fn a_missing_fallback_ap_conf_is_noted() {
    let paths = Paths::for_test("/r");

    assert_eq!(
        load_ap_notices(&paths, None),
        [
            "[INFO] /r/data/robot/wifi/fallback-ap.conf does not exist; using built-in fallback \
             AP defaults"
        ]
    );
    assert!(load_ap_notices(&paths, Some("")).is_empty());
}

#[test]
fn addresses_read_as_std_reads_them() {
    for text in [
        "0.0.0.0",
        "255.255.255.255",
        "192.168.50.1",
        "1.2.3",
        "1.2.3.4.5",
        "01.2.3.4",
        "1.2.3.00",
        "256.1.1.1",
        "+1.2.3.4",
        "1.2.3.4 ",
        "",
        "1..2.3",
        "1.2.3.",
        "a.b.c.d",
        "1.2.3.1000",
    ] {
        let std = text.parse::<core::net::Ipv4Addr>().ok();
        let ours = Ipv4Addr::parse(text);
        assert_eq!(
            ours.map(|addr| addr.to_string()),
            std.map(|addr| addr.to_string()),
            "{text:?}"
        );
    }
    assert_eq!(
        Ipv4Addr::parse("10.0.200.3"),
        Some(Ipv4Addr::new(10, 0, 200, 3))
    );
}

#[test]
fn the_conf_file_is_passed_with_an_equals_sign() {
    let args = dnsmasq_args("/run/robot-wifi/dnsmasq.conf");

    assert_eq!(
        args,
        [
            "--keep-in-foreground",
            "--conf-file=/run/robot-wifi/dnsmasq.conf"
        ]
    );

    // A bare `--conf-file` would take no path.
    assert!(
        !args.iter().any(|arg| arg == "--conf-file"),
        "the path must be attached with '=', not passed as a separate argument"
    );
}

#[test]
fn an_ap_is_healthy_while_both_daemons_run() {
    for (hostapd_running, dnsmasq_running, healthy) in [
        (true, true, true),
        (false, true, false),
        (true, false, false),
    ] {
        let session = ApSession {
            hostapd_running,
            dnsmasq_running,
        };
        assert_eq!(session.is_healthy(), healthy);
    }
}

fn ok(stdout: &str) -> Captured {
    Captured::Exited {
        success: true,
        status: "exit status: 0".to_string(),
        stdout: stdout.to_string(),
        stderr: String::new(),
    }
}

fn failed(stderr: &str) -> Captured {
    Captured::Exited {
        success: false,
        status: "exit status: 1".to_string(),
        stdout: String::new(),
        stderr: stderr.to_string(),
    }
}

fn not_run_captured() -> Captured {
    Captured::NotRun {
        err: "not found".to_string(),
    }
}

#[test]
fn parses_an_inet_address() {
    let text = "3: wlan-ctrl: <BROADCAST,MULTICAST,UP,LOWER_UP> mtu 1500 qdisc noqueue state UP\n   \
                \x20inet 192.168.1.50/24 brd 192.168.1.255 scope global dynamic wlan-ctrl\n       \
                valid_lft 84456sec preferred_lft 84456sec\n";

    assert_eq!(parse_inet_address(text).as_deref(), Some("192.168.1.50/24"));
}

#[test]
fn reports_no_address_when_the_interface_has_none() {
    // `ip -4 addr show` still prints the link line for an interface with no address, so
    // "command succeeded" is not the same as "has an address".
    let text =
        "3: wlan-ctrl: <BROADCAST,MULTICAST> mtu 1500 qdisc noop state DOWN group default\n";

    assert_eq!(parse_inet_address(text), None);
}

#[test]
fn parses_the_ap_address_form() {
    let text = "3: wlan-ctrl: <BROADCAST,MULTICAST,UP> mtu 1500\n    \
                inet 192.168.50.1/24 scope global wlan-ctrl\n";

    assert_eq!(parse_inet_address(text).as_deref(), Some("192.168.50.1/24"));
}

#[test]
fn parses_iw_interface_types() {
    let managed = "Interface wlan-ctrl\n\tifindex 3\n\twdev 0x1\n\taddr aa:bb:cc:dd:ee:ff\n\t\
                   ssid REACTDREAM\n\ttype managed\n\twiphy 0\n";
    let ap = "Interface wlan-ctrl\n\tifindex 3\n\taddr aa:bb:cc:dd:ee:ff\n\tssid gopigo-07-setup\n\t\
              type AP\n\twiphy 0\n";
    let monitor = "Interface wlan-ctrl\n\tifindex 3\n\ttype monitor\n";

    assert_eq!(parse_iw_type(managed), Some(InterfaceMode::Client));
    assert_eq!(parse_iw_type(ap), Some(InterfaceMode::AccessPoint));
    assert_eq!(parse_iw_type(monitor), Some(InterfaceMode::Other));
    assert_eq!(parse_iw_type("Interface wlan-ctrl\n"), None);
}

#[test]
fn parses_the_associated_ssid() {
    let connected = "Connected to aa:bb:cc:dd:ee:ff (on wlan-ctrl)\n\tSSID: REACTDREAM\n\t\
                     freq: 2437\n\tsignal: -50 dBm\n\ttx bitrate: 72.2 MBit/s\n";

    assert_eq!(parse_iw_link_ssid(connected).as_deref(), Some("REACTDREAM"));
    assert_eq!(parse_iw_link_ssid("Not connected.\n"), None);
}

#[test]
fn a_failed_command_is_described() {
    let command = link_up("wlan0");

    assert_eq!(output(&command, &ok("text")), Ok("text".to_string()));
    assert_eq!(
        run(&command, &failed(" no such device \n")),
        Err("`ip link set wlan0 up` failed (exit status: 1): no such device".to_string())
    );
    assert_eq!(
        run(&command, &not_run_captured()),
        Err("could not run `ip` (is it installed?): not found".to_string())
    );
    assert_eq!(run_best_effort(&command, &ok("")), None);
    assert_eq!(
        run_best_effort(&command, &failed("gone")).as_deref(),
        Some("[WARN] `ip link set wlan0 up` failed (exit status: 1): gone")
    );
}

#[test]
fn queries_of_the_interface() {
    assert_eq!(interface_query("w").args, ["link", "show", "w"]);
    assert_eq!(flush_addresses("w").args, ["addr", "flush", "dev", "w"]);
    assert_eq!(link_down("w").args, ["link", "set", "w", "down"]);
    assert_eq!(
        add_address("w", "1.2.3.4/8").args,
        ["addr", "add", "1.2.3.4/8", "dev", "w"]
    );
    assert_eq!(ipv4_query("w").args, ["-4", "addr", "show", "dev", "w"]);
    assert_eq!(mode_query("w").args, ["dev", "w", "info"]);
    assert_eq!(ssid_query("w").args, ["dev", "w", "link"]);

    assert!(interface_exists(&ok("")));
    assert!(!interface_exists(&failed("")));
    assert_eq!(
        require_interface("w", &not_run_captured()),
        Err(
            "WiFi interface 'w' does not exist. Set ROBOTCTL_WIFI_INTERFACE to the correct NIC."
                .to_string()
        )
    );
    assert_eq!(
        ipv4_address(&ok(" inet 10.0.0.5/24\n")).as_deref(),
        Some("10.0.0.5/24")
    );
    assert_eq!(ipv4_address(&failed("")), None);
    assert_eq!(
        interface_mode(&ok("type station\n")),
        Some(InterfaceMode::Client)
    );
    assert_eq!(interface_mode(&not_run_captured()), None);
    assert_eq!(associated_ssid(&ok("SSID: x \n")).as_deref(), Some("x"));
    assert_eq!(associated_ssid(&ok("SSID: \n")), None);
}

#[test]
fn the_tasks_of_a_client_attempt() {
    let paths = Paths::for_test("/r");
    let tuning = SuperviseTuning::from_env(&Vec::new());

    match client::connect(&paths, &tuning, false) {
        Err(ClientFailure::NoConfig { path }) => {
            assert_eq!(path, "/r/data/robot/wifi/client.conf")
        }
        _ => panic!("there are no credentials"),
    }

    let mut script = client::connect(&paths, &tuning, true).unwrap();
    assert_eq!(
        script.task(),
        Some(&Task::Require {
            interface: "wlan-ctrl".to_string()
        })
    );
    assert!(script.record(&Reply::Ran { captured: ok("") }).is_empty());
    assert!(script.record(&Reply::Ran { captured: ok("") }).is_empty());
    // A reply that does not fit is passed over.
    assert!(script.record(&Reply::Written).is_empty());
    assert_eq!(
        script.task(),
        Some(&Task::Run {
            command: link_up("wlan-ctrl")
        })
    );
    assert!(script.record(&Reply::Ran { captured: ok("") }).is_empty());
    let Some(Task::Spawn { command, .. }) = script.task() else {
        panic!("no supplicant");
    };
    assert_eq!(
        command.args,
        ["-i", "wlan-ctrl", "-c", "/r/data/robot/wifi/client.conf"]
    );
    assert_eq!(
        script.record(&Reply::Spawned { pid: 7 }),
        ["[INFO] started wpa_supplicant (pid 7)"]
    );
    let Some(Task::Try { command, .. }) = script.task() else {
        panic!("no DHCP");
    };
    assert_eq!(
        command.args,
        ["-i", "wlan-ctrl", "-n", "-q", "-T", "5", "-t", "9"]
    );
    assert_eq!(script.outcome(), None);
    assert_eq!(
        script.record(&Reply::Ran {
            captured: failed("no lease")
        }),
        [
            "[WARN] DHCP did not obtain a lease on wlan-ctrl: `udhcpc -i wlan-ctrl -n -q -T 5 -t \
             9` failed (exit status: 1): no lease"
        ]
    );
    assert_eq!(script.task(), None);
    assert_eq!(script.outcome(), Some(Ok(())));

    assert_eq!(
        client::connected(&paths, Some("10.0.0.5/24".to_string()))
            .unwrap()
            .address,
        "10.0.0.5/24"
    );
    assert_eq!(
        client::connected(&paths, None),
        Err(ClientFailure::Failed(
            "associated but got no IPv4 address on wlan-ctrl".to_string()
        ))
    );
    assert_eq!(
        client::teardown("w").args,
        ["addr", "flush", "dev", "w"]
    );
}

#[test]
fn dhcp_attempts_fill_the_timeout() {
    for (timeout, attempts) in [
        (0, 1),
        (1, 1),
        (5, 1),
        (6, 2),
        (45, 9),
        (u32::MAX, 858_993_459),
    ] {
        assert_eq!(dhcp_attempts(timeout), attempts);
    }
}

#[test]
fn a_script_stops_at_its_first_failure() {
    let mut script = ap::start("/run/robot-wifi", &example_config());

    assert!(script.record(&Reply::Ran { captured: ok("") }).is_empty());
    assert!(script
        .record(&Reply::NotWritten {
            err: "disk full".to_string()
        })
        .is_empty());
    assert_eq!(script.task(), None);
    assert_eq!(
        script.outcome(),
        Some(Err(
            "writing /run/robot-wifi/hostapd.conf: disk full".to_string()
        ))
    );
    assert!(script.record(&Reply::Written).is_empty());
    assert_eq!(script.task(), None);

    let mut spawn = Script::new(vec![Task::Spawn {
        name: "dnsmasq".to_string(),
        command: link_up("w"),
    }]);
    spawn.record(&Reply::NotSpawned {
        err: "not found".to_string(),
    });
    assert_eq!(
        spawn.outcome(),
        Some(Err(
            "could not start dnsmasq (is `ip` installed?): not found".to_string()
        ))
    );
}

#[test]
fn the_tasks_of_the_fallback_ap() {
    let config = example_config();
    let mut script = ap::start("/run/robot-wifi", &config);
    let mut seen = Vec::new();

    while let Some(task) = script.task() {
        seen.push(task.clone());
        let reply = match task {
            Task::Require { .. } | Task::Run { .. } | Task::Try { .. } => {
                Reply::Ran { captured: ok("") }
            }
            Task::Write { .. } => Reply::Written,
            Task::Spawn { .. } => Reply::Spawned { pid: 1 },
            Task::Log { .. } => Reply::Logged,
        };
        script.record(&reply);
    }

    assert_eq!(script.outcome(), Some(Ok(())));
    assert_eq!(seen.len(), 9);
    assert_eq!(
        seen[1],
        Task::Write {
            path: "/run/robot-wifi/hostapd.conf".to_string(),
            contents: render_hostapd_conf(&config),
        }
    );
    assert_eq!(
        seen[4],
        Task::Run {
            command: add_address("wlan-ctrl", "192.168.50.1/24")
        }
    );
    assert_eq!(
        seen[6],
        Task::Log {
            lines: vec![
                "[INFO] starting fallback AP:".to_string(),
                "[INFO]   interface: wlan-ctrl".to_string(),
                "[INFO]   ssid:      gopigo-07-setup".to_string(),
                "[INFO]   security:  open (no passphrase)".to_string(),
                "[INFO]   address:   192.168.50.1/24".to_string(),
                "[INFO]   dhcp:      192.168.50.10 - 192.168.50.50".to_string(),
            ]
        }
    );
    assert!(matches!(&seen[8], Task::Spawn { name, .. } if name == "hostapd"));
    assert_eq!(ap::teardown("w").args, ["addr", "flush", "dev", "w"]);
}

#[test]
fn a_daemon_is_terminated_and_then_killed() {
    let daemon = Daemon {
        name: "hostapd".to_string(),
    };
    let exited = Poll::Exited {
        success: false,
        status: "exit status: 1".to_string(),
    };
    let unknown = Poll::Unknown {
        err: "gone".to_string(),
    };

    assert_eq!(daemon.is_running(&Poll::Running), (true, None));
    assert_eq!(
        daemon.is_running(&exited),
        (
            false,
            Some("[WARN] hostapd exited on its own (exit status: 1)".to_string())
        )
    );
    assert_eq!(
        daemon.is_running(&unknown),
        (
            false,
            Some("[WARN] could not check on hostapd: gone".to_string())
        )
    );

    assert_eq!(daemon.stop(&exited), Shutdown::Gone { notice: None });
    assert_eq!(daemon.stop(&Poll::Running), Shutdown::Terminate);
    assert_eq!(
        daemon.keep_stopping(4999, &Poll::Running),
        Shutdown::Wait { millis: 100 }
    );
    assert_eq!(
        daemon.keep_stopping(4999, &exited),
        Shutdown::Gone {
            notice: Some("[INFO] stopped hostapd".to_string())
        }
    );
    assert_eq!(
        daemon.keep_stopping(5000, &exited),
        Shutdown::Kill {
            notice: "[WARN] hostapd did not exit within 5s of SIGTERM; killing it".to_string()
        }
    );
}

#[test]
fn an_unset_hook_runs_nothing() {
    assert_eq!(notify("", "client-up"), None);
}

#[test]
fn a_missing_hook_is_not_fatal() {
    let hook = "/nonexistent/robotctl-state-hook";

    assert!(notify(hook, "fallback-ap").is_some());
    assert_eq!(
        not_run(hook, "fallback-ap", "No such file or directory"),
        "[WARN] could not run state hook `/nonexistent/robotctl-state-hook fallback-ap`: No \
         such file or directory"
    );
}

#[test]
fn the_hook_receives_the_state_as_its_only_argument() {
    let command = notify("/hook", State::ClientUp.hook_name()).unwrap();
    assert_eq!(command.program, "/hook");
    assert_eq!(command.args, ["client-up"]);

    assert_eq!(notify("/hook", hook::OFF).unwrap().args, ["off"]);
    assert_eq!(State::TryClient.hook_name(), "try-client");
    assert_eq!(State::FallbackAp.hook_name(), "fallback-ap");
}

#[test]
fn a_failing_hook_is_not_fatal() {
    let wait = wait_until(
        Poll::Exited {
            success: false,
            status: "exit status: 3".to_string(),
        },
        0,
        hook::RUN_LIMIT_MS,
    )
    .unwrap();

    assert_eq!(
        conclude("/hook", "try-client", hook::RUN_LIMIT_MS, &wait),
        (
            Some("[WARN] state hook `/hook try-client` exited with exit status: 3".to_string()),
            false
        )
    );
}

#[test]
fn a_hook_that_finishes_inside_its_limit_is_left_alone() {
    assert_eq!(wait_until(Poll::Running, 50, 5000), None);
    let wait = wait_until(
        Poll::Exited {
            success: true,
            status: "exit status: 0".to_string(),
        },
        60,
        5000,
    )
    .unwrap();

    assert_eq!(conclude("/hook", "client-up", 5000, &wait), (None, false));
}

#[test]
fn a_wedged_hook_is_killed_rather_than_waited_on() {
    let wait = wait_until(Poll::Running, 150, 150).unwrap();

    assert_eq!(
        conclude("/hook", "fallback-ap", 150, &wait),
        (
            Some(
                "[WARN] state hook `/hook fallback-ap` is still running after 150ms; \
                 terminating it"
                    .to_string()
            ),
            true
        )
    );
    assert!(must_kill(&wait_until(Poll::Running, 100, 100).unwrap()));
    assert!(!must_kill(&Wait::Unwaitable { err: String::new() }));
}

#[test]
fn limits_are_shown_as_durations_are() {
    for millis in [0u64, 1, 10, 150, 999, 1000, 1001, 1010, 1100, 1500, 2000, 61_250] {
        let (line, _) = conclude("h", "s", millis, &Wait::Running);
        let shown = std::time::Duration::from_millis(millis);
        assert_eq!(
            line.unwrap(),
            format!("[WARN] state hook `h s` is still running after {shown:?}; terminating it")
        );
    }
    assert_eq!(
        conclude(
            "h",
            "s",
            1,
            &Wait::Unwaitable {
                err: "x".to_string()
            }
        ),
        (
            Some("[WARN] could not wait for state hook `h s`: x".to_string()),
            false
        )
    );
}

#[test]
fn a_successful_connection_always_wins() {
    for state in [State::TryClient, State::ClientUp, State::FallbackAp] {
        assert_eq!(
            next_state(state, Event::ClientConnected),
            State::ClientUp,
            "from {state:?}"
        );
    }
}

#[test]
fn client_failure_raises_the_fallback_ap() {
    assert_eq!(
        next_state(State::TryClient, Event::ClientFailed),
        State::FallbackAp
    );
    assert_eq!(
        next_state(State::TryClient, Event::ClientConfigMissing),
        State::FallbackAp
    );
}

#[test]
fn a_dropped_connection_retries_the_client_rather_than_falling_back() {
    assert_eq!(
        next_state(State::ClientUp, Event::LinkLost),
        State::TryClient
    );
}

#[test]
fn the_fallback_ap_periodically_re_tries_the_client() {
    assert_eq!(
        next_state(State::FallbackAp, Event::ApRetryDue),
        State::TryClient
    );
}

#[test]
fn a_dead_ap_is_restarted() {
    assert_eq!(
        next_state(State::FallbackAp, Event::ApDied),
        State::FallbackAp
    );
}

#[test]
fn every_state_event_pair_has_a_transition() {
    let states = [State::TryClient, State::ClientUp, State::FallbackAp];
    let events = [
        Event::ClientConnected,
        Event::ClientFailed,
        Event::ClientConfigMissing,
        Event::LinkLost,
        Event::ApRetryDue,
        Event::ApDied,
        Event::ApHeld,
    ];

    for state in states {
        for event in events {
            let next = next_state(state, event);
            assert!(states.contains(&next), "{state:?} + {event:?} -> {next:?}");
            assert_eq!(event.name(), format!("{event:?}"));
            assert_eq!(state.name(), format!("{state:?}"));
        }
    }
}

#[test]
fn a_failing_client_cycles_between_retrying_and_the_ap_forever() {
    // Walk the machine the way a robot with an unreachable network would: it must keep
    // alternating rather than settling into either state permanently.
    let mut state = State::TryClient;
    let mut seen_ap = 0;
    let mut seen_try = 0;

    for round in 0..10 {
        state = next_state(state, Event::ClientFailed);
        assert_eq!(state, State::FallbackAp, "round {round}");
        seen_ap += 1;

        state = next_state(state, Event::ApRetryDue);
        assert_eq!(state, State::TryClient, "round {round}");
        seen_try += 1;
    }

    assert_eq!((seen_ap, seen_try), (10, 10));
}

fn log(line: &str) -> Effect {
    Effect::Log {
        line: line.to_string(),
    }
}

fn moved(from: State, to: State) -> Effect {
    Effect::Moved { from, to }
}

fn ask(question: Question) -> Effect {
    Effect::Ask { question }
}

#[test]
fn the_supervisor_walks_from_client_to_ap_and_back() {
    let paths = Paths::for_test("/r");
    let tuning = SuperviseTuning {
        connect_timeout_sec: 45,
        client_attempts: 2,
        retry_sec: 5,
        link_poll_sec: 10,
        ap_retry_sec: 300,
    };
    let (mut supervisor, effects) = supervise::run(&paths, &tuning);
    assert_eq!(
        effects,
        [
            log(
                "[INFO] WiFi supervisor starting on wlan-ctrl (connect timeout 45s, 2 attempts, \
                 AP retry every 300s)"
            ),
            ask(Question::Interface),
        ]
    );

    assert_eq!(
        supervisor.step(&Answer::Interface { exists: true }),
        [ask(Question::Connect)]
    );
    // An answer to another question is passed over.
    assert!(supervisor.step(&Answer::ApStarted).is_empty());

    let not_connected = Answer::NotConnected {
        err: "no lease".to_string(),
    };
    assert_eq!(
        supervisor.step(&not_connected),
        [
            log("[WARN] client attempt 1/2 failed: no lease"),
            Effect::Sleep { secs: 5 },
            ask(Question::Connect),
        ]
    );
    assert_eq!(
        supervisor.step(&not_connected),
        [
            log("[WARN] client attempt 2/2 failed: no lease"),
            log("[INFO] TryClient -> FallbackAp (ClientFailed)"),
            moved(State::TryClient, State::FallbackAp),
            Effect::Ready {
                state: State::FallbackAp
            },
            ask(Question::StartAp),
        ]
    );
    assert_eq!(
        supervisor.step(&Answer::ApStarted),
        [
            Effect::StartTimer,
            Effect::Sleep { secs: 10 },
            ask(Question::PollAp),
        ]
    );

    let poll = |healthy: bool, served_secs: u64, has_client_config: bool| Answer::Ap {
        healthy,
        served_secs,
        has_client_config,
    };
    assert_eq!(
        supervisor.step(&poll(true, 299, true)),
        [Effect::Sleep { secs: 10 }, ask(Question::PollAp)]
    );
    assert_eq!(
        supervisor.step(&poll(true, 300, false)),
        [
            Effect::StartTimer,
            Effect::Sleep { secs: 10 },
            ask(Question::PollAp),
        ]
    );
    assert_eq!(
        supervisor.step(&poll(false, 20, true)),
        [
            log("[WARN] fallback AP daemons are no longer running; restarting them"),
            Effect::StopAp,
            ask(Question::StartAp),
        ]
    );
    assert_eq!(supervisor.step(&Answer::ApStarted).len(), 3);
    assert_eq!(
        supervisor.step(&poll(true, 300, true)),
        [
            log("[INFO] taking the fallback AP down to re-try the client network"),
            log("[INFO] FallbackAp -> TryClient (ApRetryDue)"),
            moved(State::FallbackAp, State::TryClient),
            Effect::StopAp,
            ask(Question::Connect),
        ]
    );
    assert_eq!(
        supervisor.step(&Answer::Connected {
            address: "10.0.0.5/24".to_string()
        }),
        [
            log("[INFO] connected on wlan-ctrl with address 10.0.0.5/24"),
            log("[INFO] TryClient -> ClientUp (ClientConnected)"),
            moved(State::TryClient, State::ClientUp),
            Effect::Sleep { secs: 10 },
            ask(Question::Address),
        ]
    );
    assert_eq!(
        supervisor.step(&Answer::Address { held: true }),
        [Effect::Sleep { secs: 10 }, ask(Question::Address)]
    );
    assert_eq!(
        supervisor.step(&Answer::Address { held: false }),
        [
            log("[WARN] wlan-ctrl lost its IPv4 address"),
            Effect::StopClient,
            log("[INFO] ClientUp -> TryClient (LinkLost)"),
            moved(State::ClientUp, State::TryClient),
            ask(Question::Connect),
        ]
    );
    assert_eq!(
        supervisor.step(&Answer::NoClientConfig {
            path: "/c".to_string()
        }),
        [
            log(
                "[INFO] /c does not exist; no client network to join. Raising the fallback AP so \
                 the robot stays reachable."
            ),
            log("[INFO] TryClient -> FallbackAp (ClientConfigMissing)"),
            moved(State::TryClient, State::FallbackAp),
            ask(Question::StartAp),
        ]
    );
    assert_eq!(
        supervisor.step(&Answer::ApNotStarted {
            err: "no hostapd".to_string()
        }),
        [Effect::Fail {
            err: "no hostapd".to_string()
        }]
    );
    assert_eq!(supervisor.question(), Question::Nothing);
}

#[test]
fn the_supervisor_needs_its_interface() {
    let env = vec![(
        "ROBOTCTL_WIFI_CLIENT_ATTEMPTS".to_string(),
        "7".to_string(),
    )];
    let (mut supervisor, effects) = start(&Paths::for_test("/r"), &env);

    assert!(matches!(&effects[0], Effect::Log { line } if line.contains("7 attempts")));
    assert_eq!(
        supervisor.step(&Answer::Interface { exists: false }),
        [Effect::Fail {
            err: "WiFi interface 'wlan-ctrl' does not exist. Set ROBOTCTL_WIFI_INTERFACE to the \
                  correct NIC."
                .to_string()
        }]
    );
}

#[test]
fn no_attempts_go_straight_to_the_ap() {
    let mut tuning = SuperviseTuning::from_env(&Vec::new());
    tuning.client_attempts = 0;
    let (mut supervisor, _) = supervise::run(&Paths::for_test("/r"), &tuning);

    assert_eq!(
        supervisor.step(&Answer::Interface { exists: true }),
        [
            log("[INFO] TryClient -> FallbackAp (ClientFailed)"),
            moved(State::TryClient, State::FallbackAp),
            Effect::Ready {
                state: State::FallbackAp
            },
            ask(Question::StartAp),
        ]
    );
}

#[test]
fn systemd_is_told_where_the_supervisor_settled() {
    assert_eq!(
        notify_ready(State::ClientUp),
        "READY=1\nSTATUS=WiFi settled: ClientUp\n"
    );
    assert_eq!(
        notify_notice(State::ClientUp, "/s", None),
        "[INFO] notified systemd ready (ClientUp)"
    );
    assert_eq!(
        notify_notice(State::ClientUp, "/s", Some("refused")),
        "[WARN] could not notify systemd readiness on /s: refused"
    );
}

#[test]
fn stopping_reaches_a_running_unit_only() {
    let paths = Paths::for_test("/r");

    for state in ["active", "activating"] {
        let (notice, command) = stop(&paths, state);
        assert_eq!(notice, "[INFO] stopping robotctl-wifi.service");
        assert_eq!(command.unwrap().args, ["stop", "robotctl-wifi.service"]);
    }
    let (notice, command) = stop(&paths, "inactive");
    assert_eq!(command, None);
    assert_eq!(
        notice,
        "[INFO] robotctl-wifi.service is inactive; if `robotctl wifi start` is running by hand, \
         stop it there"
    );

    let mut down = stop_interface(&paths, true);
    down.record(&Reply::Ran { captured: ok("") });
    down.record(&Reply::Ran { captured: ok("") });
    assert_eq!(
        down.task(),
        Some(&Task::Log {
            lines: vec!["[INFO] wlan-ctrl is down".to_string()]
        })
    );
    assert_eq!(
        stop_interface(&paths, false).task(),
        Some(&Task::Log {
            lines: vec!["[INFO] wlan-ctrl does not exist; nothing to tear down".to_string()]
        })
    );
}

#[test]
fn the_wifi_report_follows_the_mode() {
    let paths = Paths::for_test("/r");
    let mut report = WifiReport {
        mode: Some(InterfaceMode::Client),
        ssid: None,
        ap: None,
        address: Some("10.0.0.5/24".to_string()),
        has_client_conf: true,
    };

    assert_eq!(
        print_status(&paths, Some(&report)),
        "interface:     wlan-ctrl\n\
         mode:          client\n\
         ssid:          not associated\n\
         address:       10.0.0.5/24\n\
         client.conf:   /r/data/robot/wifi/client.conf\n"
    );

    report.mode = Some(InterfaceMode::AccessPoint);
    report.ap = Some(ApReport::Readable {
        ssid: "r2-setup".to_string(),
        security: ApSecurity::Wpa2,
    });
    report.address = None;
    report.has_client_conf = false;
    assert_eq!(
        print_status(&paths, Some(&report)),
        "interface:     wlan-ctrl\n\
         mode:          fallback AP\n\
         ssid:          r2-setup\n\
         security:      WPA2\n\
         address:       none\n\
         client.conf:   /r/data/robot/wifi/client.conf (missing)\n"
    );

    report.ap = Some(ApReport::Unreadable {
        err: "bad".to_string(),
    });
    assert!(print_status(&paths, Some(&report)).contains("ap config:     unreadable (bad)\n"));

    assert_eq!(
        print_status(&paths, None),
        "interface:     wlan-ctrl\n\
         state:         interface does not exist\n               \
         (set ROBOTCTL_WIFI_INTERFACE to the correct NIC)\n"
    );
    assert_eq!(
        status_heading(&paths, true, None),
        "interface:     wlan-ctrl\nmode:          unknown (is `iw` installed?)\n"
    );
}

#[test]
fn units_are_asked_for_and_restarted() {
    assert_eq!(systemd::is_active_query("u").args, ["is-active", "u"]);
    assert_eq!(systemd::is_active(Some(" active\n")), "active");
    assert_eq!(systemd::is_active(Some("\n")), "unknown");
    assert_eq!(systemd::is_active(None), "unknown");
    assert_eq!(systemd::try_restart_async(""), None);
    assert_eq!(
        systemd::try_restart_async("u").unwrap().args,
        ["--no-block", "try-restart", "u"]
    );
    assert_eq!(
        systemd::restart_notice("u", &Exit::Success),
        "[INFO] asked u to restart"
    );
    let failure = Exit::Failure {
        status: "exit status: 5".to_string(),
    };
    assert_eq!(
        systemd::restart_notice("u", &failure),
        "[INFO] could not restart u"
    );
    assert_eq!(systemd::stopped("u", &Exit::Success), Ok(()));
    assert_eq!(
        systemd::stopped("u", &failure),
        Err("`systemctl stop u` exited with exit status: 5".to_string())
    );
    assert_eq!(
        systemd::stopped(
            "u",
            &Exit::NotRun {
                err: "x".to_string()
            }
        ),
        Err("could not run `systemctl` (is this a systemd system?): x".to_string())
    );
}

#[test]
fn derived_names_tell_robots_apart() {
    let paths = Paths::for_test("/r");
    let name = |id: &str| {
        load_ap_config(&paths, Some("AP_SSID_SUFFIX=x\n"), &robot_id(id))
            .unwrap()
            .ssid
            .as_str()
            .to_string()
    };

    assert_eq!(name("r2"), "r2x");
    assert_eq!(name("r2x"), "r2xx");
}

#[test]
fn the_hook_runs_on_every_state_change() {
    let command = on_change(State::TryClient, State::FallbackAp, "/hook").unwrap();
    assert_eq!(command.program, "/hook");
    assert_eq!(command.args, ["fallback-ap"]);

    assert_eq!(on_change(State::ClientUp, State::ClientUp, "/hook"), None);
    assert_eq!(on_change(State::TryClient, State::ClientUp, ""), None);
}
