use robotctl::config::Paths;
use robotctl::id::load;
use robotctl::status::bytes::format_bytes;
use robotctl::status::model::{
    addresses_query, failed_units_query, filesystem, primary_query, rauc, route_query,
    state_query, time_query, watched_mounts, watched_units, wifi,
};
use robotctl::status::parse::{
    image_version, parse_default_route, parse_failed_units, parse_ip_addresses, parse_rauc_slot,
    read_trimmed,
};
use robotctl::status::uptime::parse_uptime;
use robotctl::status::text::{describe_filesystem, format_duration};
use robotctl::status::{
    gather, json, text, Filesystem, Identity, Interface, Network, Probes, RaucProbe, RaucSummary,
    Status, System, Unit, WifiProbe, WifiSummary,
};
use robotctl::wifi::config_gen::load_ap_config;

/// A fully-populated `Status` describing a healthy robot.
fn example_status() -> Status {
    Status {
        identity: Identity {
            robot_id: "gopigo-07".to_string(),
            ros_domain_id: 7,
            hostname: Some("gopigo-07".to_string()),
            hostname_matches: true,
        },
        image: vec![
            ("image_basename".to_string(), "gopigo-image".to_string()),
            ("distro_version".to_string(), "0.1-dev".to_string()),
        ],
        system: System {
            kernel: Some("6.12.0-rpi".to_string()),
            uptime_seconds: Some(90_000),
            time_utc: Some("2026-08-10T12:00:00Z".to_string()),
        },
        rauc: RaucSummary {
            booted_slot: Some("A".to_string()),
            primary_slot: Some("A".to_string()),
            slot_states: vec![
                ("A".to_string(), "good".to_string()),
                ("B".to_string(), "good".to_string()),
            ],
        },
        filesystems: vec![Filesystem {
            mount: "/data".to_string(),
            total_bytes: 4 * (1 << 30),
            available_bytes: 1 << 30,
        }],
        wifi: WifiSummary {
            interface: "wlan-ctrl".to_string(),
            exists: true,
            mode: Some("client".to_string()),
            ssid: Some("REACTDREAM".to_string()),
            security: None,
            address: Some("192.168.1.50/24".to_string()),
            client_conf_present: true,
        },
        network: Network {
            interfaces: vec![Interface {
                name: "wlan-ctrl".to_string(),
                addresses: vec!["192.168.1.50/24".to_string()],
            }],
            default_route: Some("default via 192.168.1.1 dev wlan-ctrl".to_string()),
        },
        units: vec![Unit {
            name: "robotctl-wifi.service".to_string(),
            state: "active".to_string(),
        }],
        failed_units: vec!["broken.service".to_string()],
    }
}

fn contains_all(rendered: &str, fragments: &[&str]) {
    for fragment in fragments {
        assert!(
            rendered.contains(fragment),
            "expected {fragment} in {rendered}"
        );
    }
}

#[test]
fn renders_the_documented_schema() {
    let rendered = json::render(&example_status()).unwrap();

    assert!(rendered.starts_with('{') && rendered.ends_with('}'));

    // Spot-check the shape rather than the whole string, which would fail on every field
    // addition without catching anything. The grouping is the part worth pinning: it is what
    // consumers index into.
    contains_all(
        &rendered,
        &[
            r#""identity":{"robot_id":"gopigo-07""#,
            r#""ros_domain_id":7"#,
            r#""rauc":{"booted_slot":"A""#,
            r#""slot_states":{"A":"good","B":"good"}"#,
            r#""uptime_seconds":90000"#,
            r#""total_bytes":4294967296"#,
            r#""addresses":["192.168.1.50/24"]"#,
            r#""units":{"robotctl-wifi.service":"active"}"#,
            r#""failed_units":["broken.service"]"#,
        ],
    );
}

#[test]
fn ordered_pairs_serialize_as_objects_in_order() {
    // `image` is a Vec of pairs so the build's key order survives; it still has to come out
    // as a JSON object, and in that order.
    let rendered = json::render(&example_status()).unwrap();

    contains_all(
        &rendered,
        &[r#""image":{"image_basename":"gopigo-image","distro_version":"0.1-dev"}"#],
    );
}

#[test]
fn absent_probes_render_as_null_not_missing_keys() {
    // Consumers should be able to rely on every documented key existing, so that "we did not
    // look" and "there is nothing there" are not the same as "the key is gone".
    let mut status = example_status();
    status.system.kernel = None;
    status.system.uptime_seconds = None;
    status.rauc.booted_slot = None;

    let rendered = json::render(&status).unwrap();

    contains_all(
        &rendered,
        &[
            r#""kernel":null"#,
            r#""uptime_seconds":null"#,
            r#""booted_slot":null"#,
        ],
    );
}

#[test]
fn escaping_is_serdes_problem_now() {
    let mut status = example_status();
    status.identity.robot_id = "quote\"newline\nbell\u{7}".to_string();

    let rendered = json::render(&status).unwrap();

    contains_all(&rendered, &[r#""robot_id":"quote\"newline\nbell\u0007""#]);
}

#[test]
fn the_whole_document_reads_as_expected() {
    assert_eq!(
        json::render(&example_status()).unwrap(),
        concat_all(&[
            r#"{"identity":{"robot_id":"gopigo-07","ros_domain_id":7,"hostname":"gopigo-07","#,
            r#""hostname_matches":true},"image":{"image_basename":"gopigo-image","#,
            r#""distro_version":"0.1-dev"},"system":{"kernel":"6.12.0-rpi","#,
            r#""uptime_seconds":90000,"time_utc":"2026-08-10T12:00:00Z"},"#,
            r#""rauc":{"booted_slot":"A","primary_slot":"A","#,
            r#""slot_states":{"A":"good","B":"good"}},"#,
            r#""filesystems":[{"mount":"/data","total_bytes":4294967296,"#,
            r#""available_bytes":1073741824}],"#,
            r#""wifi":{"interface":"wlan-ctrl","exists":true,"mode":"client","#,
            r#""ssid":"REACTDREAM","security":null,"address":"192.168.1.50/24","#,
            r#""client_conf_present":true},"#,
            r#""network":{"interfaces":[{"name":"wlan-ctrl","addresses":["192.168.1.50/24"]}],"#,
            r#""default_route":"default via 192.168.1.1 dev wlan-ctrl"},"#,
            r#""units":{"robotctl-wifi.service":"active"},"#,
            r#""failed_units":["broken.service"]}"#,
        ])
    );
}

fn concat_all(parts: &[&str]) -> String {
    parts.concat()
}

#[test]
fn the_document_parses_and_gives_every_character_back() {
    let mut name = String::new();
    for code in 0..0x2_000u32 {
        if let Some(c) = char::from_u32(code) {
            name.push(c);
        }
    }
    name.push('\u{1f600}');

    let mut status = example_status();
    status.identity.robot_id = name.clone();
    status.wifi.exists = false;
    status.image.clear();
    status.failed_units.clear();

    let rendered = json::render(&status).unwrap();
    let value: serde_json::Value = serde_json::from_str(&rendered).unwrap();

    assert!(!rendered.contains('\n'));
    assert_eq!(value["identity"]["robot_id"], name.as_str());
    assert_eq!(value["wifi"]["exists"], false);
    assert_eq!(value["image"].as_object().unwrap().len(), 0);
    assert_eq!(value["failed_units"].as_array().unwrap().len(), 0);
    assert_eq!(value["filesystems"][0]["total_bytes"], 4_294_967_296u64);
    assert_eq!(
        rendered.matches(&serde_json::to_string(&name).unwrap()).count(),
        1
    );
}

#[test]
fn parses_the_booted_slot_from_the_kernel_command_line() {
    let cmdline = "console=serial0,115200 root=/dev/mmcblk0p2 rauc.slot=A rootwait\n";
    assert_eq!(parse_rauc_slot(cmdline).as_deref(), Some("A"));

    let slot_b = "root=/dev/mmcblk0p3 rauc.slot=B quiet\n";
    assert_eq!(parse_rauc_slot(slot_b).as_deref(), Some("B"));
}

#[test]
fn reports_no_slot_when_the_command_line_has_none() {
    // A non-A/B build (qemuarm64) has no rauc.slot at all, and must not be reported as if
    // it were running slot "".
    assert_eq!(parse_rauc_slot("console=ttyAMA0 root=/dev/sda2\n"), None);
    assert_eq!(parse_rauc_slot("rauc.slot= quiet\n"), None);
}

#[test]
fn parses_ip_addresses_grouping_by_interface() {
    let text = "1: lo    inet 127.0.0.1/8 scope host lo\\       valid_lft forever\n\
                3: wlan-ctrl    inet 192.168.1.50/24 brd 192.168.1.255 scope global dynamic wlan-ctrl\\  valid_lft 8000sec\n\
                3: wlan-ctrl    inet 10.0.0.5/24 scope global secondary wlan-ctrl\\       valid_lft forever\n";

    let interfaces = parse_ip_addresses(text);

    assert_eq!(interfaces.len(), 2);
    assert_eq!(interfaces[0].name, "lo");
    assert_eq!(interfaces[0].addresses, ["127.0.0.1/8"]);
    assert_eq!(interfaces[1].name, "wlan-ctrl");
    assert_eq!(interfaces[1].addresses, ["192.168.1.50/24", "10.0.0.5/24"]);
}

#[test]
fn lines_without_an_address_are_passed_over() {
    assert!(parse_ip_addresses("").is_empty());
    assert!(parse_ip_addresses("3:\n3: wlan0\n3: wlan0 inet\n3: wlan0 inet6 ::1\n").is_empty());
}

#[test]
fn parses_the_default_route() {
    let text = "default via 192.168.1.1 dev wlan-ctrl proto dhcp metric 600\n";

    assert_eq!(
        parse_default_route(text).as_deref(),
        Some("default via 192.168.1.1 dev wlan-ctrl proto dhcp metric 600")
    );
    assert_eq!(parse_default_route(""), None);
}

#[test]
fn parses_failed_units() {
    let text = "  robot-update-health-check.service loaded failed failed GoPiGo health gate\n  \
                docker.service loaded failed failed Docker\n";

    assert_eq!(
        parse_failed_units(text),
        ["robot-update-health-check.service", "docker.service"]
    );
    assert_eq!(parse_failed_units(""), Vec::<String>::new());
}

#[test]
fn formats_byte_counts_like_df() {
    assert_eq!(format_bytes(0), "0B");
    assert_eq!(format_bytes(999), "999B");
    assert_eq!(format_bytes(1 << 10), "1.0K");
    assert_eq!(format_bytes(1536), "1.5K");
    assert_eq!(format_bytes(4 * (1 << 30)), "4.0G");
    assert_eq!(format_bytes(3 * (1 << 40)), "3.0T");
}

fn shown_as_double(bytes: u64) -> String {
    for (suffix, scale) in [
        ("T", 1u64 << 40),
        ("G", 1 << 30),
        ("M", 1 << 20),
        ("K", 1 << 10),
    ] {
        if bytes >= scale {
            return format!("{:.1}{suffix}", bytes as f64 / scale as f64);
        }
    }
    format!("{bytes}B")
}

#[test]
fn byte_counts_are_rounded_as_doubles_are() {
    let mut bytes: Vec<u64> = (0..70_000).collect();
    for shift in 10..64 {
        let base = 1u64 << shift;
        for tenth in 0..64u64 {
            let step = base / 64;
            for off in 0..3u64 {
                bytes.push(base.wrapping_add(step * tenth).wrapping_add(off).wrapping_sub(1));
            }
        }
    }
    let mut seed = 0x9e37_79b9_7f4a_7c15u64;
    for _ in 0..50_000 {
        seed ^= seed << 13;
        seed ^= seed >> 7;
        seed ^= seed << 17;
        bytes.push(seed);
        bytes.push(seed >> (seed % 50));
    }
    bytes.push(u64::MAX);

    for count in bytes {
        assert_eq!(format_bytes(count), shown_as_double(count), "{count}");
    }
}

#[test]
fn formats_durations_to_two_units() {
    assert_eq!(format_duration(0), "0s");
    assert_eq!(format_duration(45), "45s");
    assert_eq!(format_duration(90), "1m 30s");
    assert_eq!(format_duration(3_600), "1h 0m");
    assert_eq!(format_duration(90_000), "1d 1h");
}

#[test]
fn describes_usage_as_free_of_total() {
    let filesystem = Filesystem {
        mount: "/data".to_string(),
        total_bytes: 4 * (1 << 30),
        available_bytes: 1 << 30,
    };

    assert_eq!(
        describe_filesystem(&filesystem),
        "1.0G free of 4.0G (75% used)"
    );
}

#[test]
fn a_zero_sized_filesystem_does_not_divide_by_zero() {
    let filesystem = Filesystem {
        mount: "/proc".to_string(),
        total_bytes: 0,
        available_bytes: 0,
    };

    assert_eq!(describe_filesystem(&filesystem), "0B free of 0B (0% used)");
}

#[test]
fn more_free_than_there_is_counts_as_nothing_used() {
    let odd = filesystem("/odd", 512, 2, 4);

    assert_eq!(odd.total_bytes, 1024);
    assert_eq!(odd.available_bytes, 2048);
    assert_eq!(describe_filesystem(&odd), "2.0K free of 1.0K (0% used)");
}

#[test]
fn renders_a_full_report_without_a_robot() {
    let status = example_status();
    let rendered = text::render(&status);

    assert!(rendered.contains("robot_id                           gopigo-07"));
    assert!(rendered.contains("booted                             A"));
    assert!(rendered.contains("mode                               client"));
    assert!(rendered.contains("wlan-ctrl                          192.168.1.50/24"));
    assert!(rendered.contains("uptime                             1d 1h"));
}

#[test]
fn the_whole_report_reads_as_expected() {
    assert_eq!(
        text::render(&example_status()),
        "-- identity --\n  \
         robot_id                           gopigo-07\n  \
         ros_domain_id                      7\n  \
         hostname                           gopigo-07\n\
         \n\
         -- image --\n  \
         image_basename                     gopigo-image\n  \
         distro_version                     0.1-dev\n\
         \n\
         -- system --\n  \
         kernel                             6.12.0-rpi\n  \
         uptime                             1d 1h\n  \
         time_utc                           2026-08-10T12:00:00Z\n\
         \n\
         -- slots --\n  \
         booted                             A\n  \
         primary                            A\n  \
         slot A                             good\n  \
         slot B                             good\n\
         \n\
         -- disk --\n  \
         /data                              1.0G free of 4.0G (75% used)\n\
         \n\
         -- wifi --\n  \
         interface                          wlan-ctrl\n  \
         mode                               client\n  \
         ssid                               REACTDREAM\n  \
         address                            192.168.1.50/24\n  \
         client.conf                        present\n\
         \n\
         -- network --\n  \
         wlan-ctrl                          192.168.1.50/24\n  \
         default route                      default via 192.168.1.1 dev wlan-ctrl\n\
         \n\
         -- units --\n  \
         robotctl-wifi.service              active\n\
         \n\
         -- failed units --\n  \
         broken.service\n"
    );
}

#[test]
fn warns_when_the_hostname_has_not_been_applied() {
    let mut status = example_status();
    status.identity.hostname = Some("gopigo3-rpi5".to_string());
    status.identity.hostname_matches = false;

    assert!(text::render(&status).contains("run `robotctl id apply` as root"));
}

#[test]
fn reports_absence_rather_than_omitting_sections() {
    let mut status = example_status();
    status.image.clear();
    status.failed_units.clear();

    let rendered = text::render(&status);

    assert!(rendered.contains("(no image-version file)"));
    assert!(rendered.contains("none"));
}

fn nothing_known() -> Probes {
    Probes {
        hostname: None,
        image_version: None,
        kernel: None,
        uptime: None,
        time_utc: None,
        rauc: RaucProbe {
            cmdline: None,
            primary: None,
            state_a: None,
            state_b: None,
        },
        filesystems: Vec::new(),
        wifi: WifiProbe {
            exists: false,
            info: None,
            link: None,
            addresses: None,
            ap: None,
            client_conf_present: false,
        },
        addresses: None,
        route: None,
        units: Vec::new(),
        failed_units: None,
    }
}

#[test]
fn nothing_known_still_makes_a_report() {
    let paths = Paths::for_test("/r");
    let status = gather(&paths, None, &nothing_known());

    assert_eq!(status.identity.robot_id, "unknown");
    assert!(!status.identity.hostname_matches);
    assert_eq!(status.units.len(), watched_units().len());
    assert!(status.units.iter().all(|unit| unit.state == "unknown"));

    let rendered = text::render(&status);
    assert!(rendered.contains("unknown (not an A/B image?)"));
    assert!(rendered.contains("  (interface does not exist)\n"));
    assert!(rendered.contains("-- failed units --\n  none\n"));
}

#[test]
fn probes_are_put_together() {
    let paths = Paths::for_test("/r");
    let identity = load(&paths, Some("ROBOT_ID=gopigo-07\nROS_DOMAIN_ID=7\n"));
    let mut probes = nothing_known();
    probes.hostname = Some("gopigo-07\n".to_string());
    probes.image_version = Some("a = 1\njunk\nb=x=y\n".to_string());
    probes.kernel = Some(" \n".to_string());
    probes.uptime = Some("12345.67 98765.43\n".to_string());
    probes.time_utc = Some("2026-08-10T12:00:00Z\n".to_string());
    probes.rauc.cmdline = Some("quiet rauc.slot=B\n".to_string());
    probes.rauc.primary = Some("A\n".to_string());
    probes.rauc.state_a = Some("\n".to_string());
    probes.rauc.state_b = Some("bad\n".to_string());
    probes.filesystems = vec![filesystem("/", 4096, 10, 5)];
    probes.addresses = Some("1: lo    inet 127.0.0.1/8 scope host lo\n".to_string());
    probes.route = Some("default via 10.0.0.1 \n".to_string());
    probes.units = vec![Some("active\n".to_string()), Some(String::new())];
    probes.failed_units = Some("x.service loaded failed\nLEGEND\n".to_string());

    let status = gather(&paths, Some(&identity), &probes);

    assert_eq!(status.identity.robot_id, "gopigo-07");
    assert_eq!(status.identity.ros_domain_id, 7);
    assert!(status.identity.hostname_matches);
    assert_eq!(
        status.image,
        [
            ("a".to_string(), "1".to_string()),
            ("b".to_string(), "x=y".to_string())
        ]
    );
    assert_eq!(status.system.kernel, None);
    assert_eq!(status.system.uptime_seconds, Some(12345));
    assert_eq!(
        status.system.time_utc.as_deref(),
        Some("2026-08-10T12:00:00Z")
    );
    assert_eq!(status.rauc.booted_slot.as_deref(), Some("B"));
    assert_eq!(status.rauc.primary_slot.as_deref(), Some("A"));
    assert_eq!(
        status.rauc.slot_states,
        [("B".to_string(), "bad".to_string())]
    );
    assert_eq!(status.filesystems[0].total_bytes, 40960);
    assert_eq!(status.network.interfaces[0].name, "lo");
    assert_eq!(
        status.network.default_route.as_deref(),
        Some("default via 10.0.0.1")
    );
    assert_eq!(status.units[0].state, "active");
    assert_eq!(status.units[1].state, "unknown");
    assert_eq!(status.failed_units, ["x.service"]);
}

#[test]
fn the_wifi_summary_follows_the_mode() {
    let paths = Paths::for_test("/r");
    let robot = load(&paths, None).robot_id;
    let mut probe = WifiProbe {
        exists: true,
        info: Some("\ttype managed\n".to_string()),
        link: Some("\tSSID: LAB\n".to_string()),
        addresses: Some("    inet 10.0.0.5/24 scope global\n".to_string()),
        ap: Some(load_ap_config(&paths, Some("AP_PSK=hunter22\n"), &robot).unwrap()),
        client_conf_present: true,
    };

    let client = wifi(&paths, &probe);
    assert_eq!(client.interface, "wlan-ctrl");
    assert_eq!(client.mode.as_deref(), Some("client"));
    assert_eq!(client.ssid.as_deref(), Some("LAB"));
    assert_eq!(client.security, None);
    assert_eq!(client.address.as_deref(), Some("10.0.0.5/24"));

    probe.info = Some("\ttype AP\n".to_string());
    let ap = wifi(&paths, &probe);
    assert_eq!(ap.mode.as_deref(), Some("fallback AP"));
    assert_eq!(ap.ssid.as_deref(), Some("unprovisioned-setup"));
    assert_eq!(ap.security.as_deref(), Some("WPA2"));

    probe.info = Some("\ttype monitor\n".to_string());
    assert_eq!(wifi(&paths, &probe).mode.as_deref(), Some("other"));

    probe.exists = false;
    let gone = wifi(&paths, &probe);
    assert_eq!(gone.mode, None);
    assert_eq!(gone.address, None);
}

#[test]
fn queries_name_their_programs() {
    let paths = Paths::for_test("/r");

    assert_eq!(time_query().program, "date");
    assert_eq!(addresses_query().args, ["-o", "-4", "addr", "show"]);
    assert_eq!(route_query().args, ["route", "show", "default"]);
    assert_eq!(failed_units_query().program, "systemctl");
    assert_eq!(primary_query(&paths).args, ["get-primary"]);
    assert_eq!(state_query(&paths, "B").args, ["get-state", "B"]);
    assert_eq!(watched_mounts(), ["/", "/data", "/boot"]);
    assert_eq!(read_trimmed(Some(" x\n")).as_deref(), Some("x"));
    assert!(image_version(None).is_empty());
    assert_eq!(
        rauc(&nothing_known().rauc),
        RaucSummary {
            booted_slot: None,
            primary_slot: None,
            slot_states: Vec::new(),
        }
    );
}

#[test]
fn parses_uptime() {
    assert_eq!(parse_uptime("12345.67 98765.43\n"), Some(12345));
    assert_eq!(parse_uptime("0.42 0.11\n"), Some(0));
    assert_eq!(parse_uptime("garbage\n"), None);
}

fn read_as_double(text: &str) -> Option<u64> {
    text.split_whitespace()
        .next()?
        .parse::<f64>()
        .ok()
        .map(|s| s as u64)
}

#[test]
fn uptimes_are_read_as_doubles_are() {
    let mut texts: Vec<String> = [
        "", " ", "1", "1.", ".5", ".", "1e", "1e+", "1e3", "1E3", "1e-3", "12e-1", "1.5e1",
        "+7.9", "-7.9", "-", "+", "--1", "inf", "INF", "-inf", "+Infinity", "infinit", "nan",
        "-NaN", "nano", "1_000", "0x10", "1,5", "1e1e1", "1.2.3", "e5", ".e5", "0.", "00012.5",
        "1e19", "1e20", "1e400", "1e-400", "0e999999999999999999999999999999999999999999",
        "1e999999999999999999999999999999999999999999",
        "1e-999999999999999999999999999999999999999999",
        "18446744073709551615", "18446744073709551616", "18446744073709550591",
        "18446744073709550592", "18446744073709550593", "18446744073709549568.5",
        "9007199254740991.5", "9007199254740990.5", "9007199254740991.49999999999999999",
        "9007199254740992.9999", "9007199254740993", "9007199254740993.0000000000000001",
        "4503599627370495.5", "4503599627370495.75", "4503599627370495.749999999999999999999",
        "4503599627370496.5", "4503599627370497.5", "0.99999999999999994", "0.9999999999999999",
        "0.99999999999999999", "0.999999999999999944488848768742172978818416595458984375",
        "0.9999999999999999444888487687421729788184165954589843749", "1.9999999999999998",
        "1.9999999999999999", "123456789.99999999", "123456789.99999999999", "0.5", "0.4999",
        "99999999999999999999999999999.9e-10", "0.000000000000000000000000123456e30",
        "123456789012345678901234567890e-20", "\u{661}", "1\u{661}",
    ]
    .iter()
    .map(|text| text.to_string())
    .collect();

    let mut seed = 0x1234_5678_9abc_def1u64;
    for _ in 0..20_000 {
        seed ^= seed << 13;
        seed ^= seed >> 7;
        seed ^= seed << 17;
        let whole = seed >> (seed % 64);
        let nines = "9".repeat((seed >> 32) as usize % 24);
        texts.push(format!("{whole}.{:02}", seed % 100));
        texts.push(format!("{whole}.{nines}{}", seed % 1000));
        texts.push(format!("{whole}.{:09}e{}", seed % 1_000_000_000, seed % 12));
        texts.push(format!("{whole}.{nines}5e-{}", seed % 25));
    }

    for text in texts {
        assert_eq!(parse_uptime(&text), read_as_double(&text), "{text:?}");
    }
}
