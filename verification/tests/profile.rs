use robotctl::config::{mdns_unit, wifi_state_hook, Paths, SuperviseTuning};
use robotctl::profile::{
    available_profiles, define, describe_missing, generate, knobs, long_version, profile_name_from_path,
    read_profile, select_profile, validate, Kind, Knob, Profile,
};

fn pair(key: &str, value: &str) -> (String, String) {
    (key.to_string(), value.to_string())
}

#[test]
fn the_knobs_agree_with_the_configuration() {
    let defaults: Vec<(String, String)> = knobs()
        .iter()
        .map(|knob| pair(knob.var, knob.value))
        .collect();
    let none = Vec::new();

    assert_eq!(defaults.len(), 18);
    assert_eq!(
        Paths::from_env(&defaults).robot_conf(),
        Paths::from_env(&none).robot_conf()
    );
    assert_eq!(
        Paths::from_env(&defaults).tryboot_backend(),
        Paths::from_env(&none).tryboot_backend()
    );
    assert_eq!(
        Paths::from_env(&defaults).default_robot_id().as_str(),
        Paths::from_env(&none).default_robot_id().as_str()
    );
    assert_eq!(
        SuperviseTuning::from_env(&defaults),
        SuperviseTuning::from_env(&none)
    );
    assert_eq!(wifi_state_hook(&defaults), wifi_state_hook(&none));
    assert_eq!(mdns_unit(&defaults), mdns_unit(&none));
}

#[test]
fn a_profile_is_read_line_by_line() {
    let text = "# a robot\n\n ROBOTCTL_WIFI_INTERFACE = 'wlan7' \nROBOTCTL_DATA_DIR=\"/mnt\"\n";

    assert_eq!(
        read_profile("p.conf", text),
        Ok(vec![
            pair("ROBOTCTL_WIFI_INTERFACE", "wlan7"),
            pair("ROBOTCTL_DATA_DIR", "/mnt"),
        ])
    );
    assert_eq!(
        read_profile("p.conf", "# x\njunk\n"),
        Err("p.conf:2: 'junk' is not a KEY=value assignment, a comment, or blank.".to_string())
    );

    let err = read_profile("p.conf", "ROBOTCTL_TYPO=1\njunk\n").unwrap_err();
    assert!(
        err.starts_with(
            "p.conf:1: 'ROBOTCTL_TYPO' is not a robotctl setting. Known keys: \
             ROBOTCTL_DATA_DIR, ROBOTCTL_CONFIG_DIR, "
        ),
        "{err}"
    );
    assert!(err.ends_with(", ROBOTCTL_WIFI_AP_RETRY_SEC."), "{err}");
}

#[test]
fn a_profile_is_selected_by_name_or_by_path() {
    assert_eq!(select_profile(None, Some(" "), "/src"), Ok(None));
    assert_eq!(
        select_profile(Some(" gopigo "), None, "/src"),
        Ok(Some(Profile {
            name: "gopigo".to_string(),
            path: "/src/profiles/gopigo.conf".to_string(),
            origin: "ROBOTCTL_PROFILE".to_string(),
        }))
    );
    assert_eq!(
        select_profile(None, Some("../meta-x/robotctl.conf"), "/src"),
        Ok(Some(Profile {
            name: "robotctl".to_string(),
            path: "/src/../meta-x/robotctl.conf".to_string(),
            origin: "ROBOTCTL_PROFILE_FILE".to_string(),
        }))
    );
    for name in ["a/b", "a\\b", ".hidden"] {
        assert_eq!(
            select_profile(Some(name), None, "/src"),
            Err(format!(
                "ROBOTCTL_PROFILE='{name}' is a path, not a profile name. Use \
                 ROBOTCTL_PROFILE=<name> for profiles/<name>.conf, or ROBOTCTL_PROFILE_FILE for \
                 a profile outside this repo."
            ))
        );
    }
    assert_eq!(
        select_profile(Some("a"), Some("b"), "/src"),
        Err(
            "ROBOTCTL_PROFILE='a' and ROBOTCTL_PROFILE_FILE='b' are both set. Pick one -- there \
             is no sensible precedence between \"the profile named X\" and \"the profile at path \
             Y\"."
                .to_string()
        )
    );
}

#[test]
fn a_missing_profile_is_reported_with_what_there_is() {
    let profile = select_profile(Some("x"), None, "/src").unwrap().unwrap();
    let files: Vec<String> = ["locobot.conf", "README", ".conf", "gopigo.conf", "a.b.conf"]
        .iter()
        .map(|name| name.to_string())
        .collect();

    assert_eq!(available_profiles(&Vec::new()), "none");
    assert_eq!(available_profiles(&files), "a.b, gopigo, locobot");
    assert_eq!(
        describe_missing(Some("x"), None, &profile, &available_profiles(&files)),
        "ROBOTCTL_PROFILE='x' but /src/profiles/x.conf does not exist. Available profiles: a.b, \
         gopigo, locobot."
    );
    assert_eq!(
        describe_missing(None, Some("y"), &profile, "none"),
        "ROBOTCTL_PROFILE_FILE='y' does not exist (looked at /src/profiles/x.conf)."
    );
    assert_eq!(profile_name_from_path("gopigo.conf"), "gopigo");
    assert_eq!(profile_name_from_path("/a.b/c"), "c");
    assert_eq!(profile_name_from_path("/a/.hidden"), ".hidden");
    for path in ["", "/", ".", "..", "a/..", "./", "./..", "b/", "b/.", "b.conf/./", "x//y.z", "..."] {
        let stem = std::path::Path::new(path).file_stem();
        assert_eq!(
            profile_name_from_path(path),
            stem.map_or("custom", |stem| stem.to_str().unwrap()),
            "{path:?}"
        );
    }
    assert_eq!(long_version("1.2.3", Some(&profile)), "1.2.3 (profile: x)");
    assert_eq!(long_version("1.2.3", None), "1.2.3 (profile: built-in)");
}

#[test]
fn values_are_validated_by_kind() {
    assert_eq!(validate(Kind::Str, "a\"b\n"), Ok("\"a\\\"b\\n\"".to_string()));
    assert_eq!(
        validate(Kind::Str, ""),
        Err("must not be empty.".to_string())
    );
    assert_eq!(validate(Kind::OptionalStr, ""), Ok("\"\"".to_string()));
    assert_eq!(validate(Kind::RobotId, "r2"), Ok("\"r2\"".to_string()));
    for (raw, reason) in [
        ("aB", "must be lowercase; found 'B' at position 1."),
        (
            "a_",
            "may only contain letters, digits and hyphens; found '_' at position 1.",
        ),
        (
            "",
            "must be between 1 and 63 characters long; it is 0.",
        ),
        ("-a", "must not start or end with a hyphen."),
        ("a-", "must not start or end with a hyphen."),
    ] {
        assert_eq!(validate(Kind::RobotId, raw), Err(reason.to_string()));
    }
    assert_eq!(validate(Kind::RosDomainId, "+007"), Ok("7".to_string()));
    assert_eq!(
        validate(Kind::RosDomainId, "233"),
        Err("must be between 0 and 232 inclusive.".to_string())
    );
    assert_eq!(
        validate(Kind::RosDomainId, "70000"),
        Err("is not an integer.".to_string())
    );
    assert_eq!(validate(Kind::U32, "70000"), Ok("70000".to_string()));
    assert_eq!(
        validate(Kind::U32, "-1"),
        Err("is not a non-negative integer.".to_string())
    );
}

#[test]
fn a_definition_says_where_it_comes_from() {
    let knob = Knob {
        var: "V",
        konst: "K",
        kind: Kind::U32,
        value: "1",
        doc: "Docs.",
    };

    assert_eq!(
        define(&knob, "7", true, "gopigo"),
        "/// Docs.\n///\n/// Overridable at runtime with `V`. Set by the `gopigo` profile.\npub \
         const K: u32 = 7;\n\n"
    );
    assert_eq!(
        define(&knob, "7", false, "gopigo"),
        "/// Docs.\n///\n/// Overridable at runtime with `V`. Built-in default.\npub const K: u32 \
         = 7;\n\n"
    );
}

#[test]
fn the_last_setting_of_a_profile_wins() {
    let profile = select_profile(Some("gopigo"), None, "/src").unwrap();
    let settings = vec![
        pair("ROBOTCTL_WIFI_RETRY_SEC", "x"),
        pair("ROBOTCTL_WIFI_RETRY_SEC", "9"),
    ];

    let source = generate("1.2.3", profile.as_ref(), &settings).unwrap();

    assert!(source.starts_with(
        "// @generated by build.rs -- do not edit.\n// Profile: gopigo\n// Source:  \
         /src/profiles/gopigo.conf (via ROBOTCTL_PROFILE)\n\n"
    ));
    assert!(source.contains("pub const LONG_VERSION: &str = \"1.2.3 (profile: gopigo)\";\n\n"));
    assert!(source.contains("Set by the `gopigo` profile.\npub const DEFAULT_WIFI_RETRY_SEC: u32 = 9;\n\n"));
    assert!(source.contains("Built-in default.\npub const DEFAULT_DATA_DIR: &str = \"/data\";\n\n"));

    let builtin = generate("1.2.3", None, &Vec::new()).unwrap();
    assert!(builtin.contains("// Profile: built-in\n// Source:  no profile selected\n"));

    let bad = vec![pair("ROBOTCTL_WIFI_RETRY_SEC", "soon")];
    assert_eq!(
        generate("1.2.3", profile.as_ref(), &bad),
        Err(
            "/src/profiles/gopigo.conf: ROBOTCTL_WIFI_RETRY_SEC='soon' is not a non-negative \
             integer."
                .to_string()
        )
    );
    assert_eq!(
        generate("1.2.3", None, &bad),
        Err(
            "built-in default for ROBOTCTL_WIFI_RETRY_SEC='soon' is not a non-negative integer."
                .to_string()
        )
    );
}
