use robotctl::command::{Command, Exit};
use robotctl::config::Paths;
use robotctl::experiments::enabled::{
    ignore_pull_failures, ignore_pull_failures_notices, parse_bool, ENABLED_CONF_TEMPLATE,
    SETTINGS_TEMPLATE,
};
use robotctl::experiments::list::{
    declared_profiles, declared_profiles_command, list_names, print_table, Declared, Listing, Row,
};
use robotctl::experiments::run::{
    compose, compose_args, docker_version, ensure_file, report, require_docker, settings_path,
};
use robotctl::experiments::select::{compose_file, merge_duplicates, on_disk, select};
use robotctl::experiments::{
    list, parse_enabled, start, status, stop, Disk, EnabledList, ExperimentName,
    ExperimentNameError, Fallback, ProfileName, ProfileNameError, Profiles, Selection,
    StartOptions, Target, TargetError,
};

fn names(list: &EnabledList) -> Vec<&str> {
    list.targets
        .iter()
        .map(|target| target.name.as_str())
        .collect()
}

fn target(spec: &str) -> Target {
    Target::parse(spec).expect("valid target")
}

fn profiles(specs: &[&str]) -> Profiles {
    Profiles::Named(
        specs
            .iter()
            .map(|spec| ProfileName::new(spec).expect("valid profile"))
            .collect(),
    )
}

const DIR: &str = "/data/experiments";

/// An experiments directory with a compose file for each of `names`.
fn experiments_dir(names: &[&str], enabled_conf: Option<&str>) -> Disk {
    let mut entries: Vec<String> = names.iter().map(|name| name.to_string()).collect();
    if enabled_conf.is_some() {
        entries.push("enabled.conf".to_string());
    }

    Disk {
        entries,
        enabled_conf: enabled_conf.map(str::to_string),
        compose_files: names
            .iter()
            .map(|name| format!("{DIR}/{name}/docker-compose.yml"))
            .collect(),
    }
}

#[test]
fn accepts_ordinary_names() {
    for name in ["obstacle-avoidance", "slam2", "a", "line_follow", "v1.2"] {
        assert!(ExperimentName::new(name).is_ok(), "rejected {name:?}");
    }
}

#[test]
fn rejects_names_that_would_escape_the_experiments_directory() {
    // The whole reason this validation exists: enabled.conf is hand-edited on /data and its
    // contents are joined onto a path.
    assert_eq!(
        ExperimentName::new(".."),
        Err(ExperimentNameError::RelativeComponent)
    );
    assert_eq!(
        ExperimentName::new("../../etc"),
        Err(ExperimentNameError::PathSeparator)
    );
    assert_eq!(
        ExperimentName::new("/etc/passwd"),
        Err(ExperimentNameError::PathSeparator)
    );
    assert_eq!(
        ExperimentName::new("a/b"),
        Err(ExperimentNameError::PathSeparator)
    );
    assert_eq!(
        ExperimentName::new(".hidden"),
        Err(ExperimentNameError::HiddenName)
    );
    assert_eq!(ExperimentName::new(""), Err(ExperimentNameError::Empty));
}

#[test]
fn rejects_shell_and_whitespace_characters() {
    assert_eq!(
        ExperimentName::new("two words"),
        Err(ExperimentNameError::InvalidCharacter { found: ' ' })
    );
    assert_eq!(
        ExperimentName::new("rm;reboot"),
        Err(ExperimentNameError::InvalidCharacter { found: ';' })
    );
    assert_eq!(
        ExperimentName::new("sub$(cmd)"),
        Err(ExperimentNameError::InvalidCharacter { found: '$' })
    );
}

#[test]
fn a_bare_name_activates_no_profiles() {
    assert_eq!(
        target("slam"),
        Target::new(ExperimentName::new("slam").unwrap(), Profiles::NoProfiles)
    );
}

#[test]
fn a_trailing_colon_is_an_explicit_way_to_say_no_profiles() {
    // Same meaning as the bare name, spelled deliberately: "I know enabled.conf configures
    // profiles for this one, and I want none of them."
    assert_eq!(target("slam:"), target("slam"));
}

#[test]
fn parses_a_profile_list() {
    assert_eq!(target("slam:gpu").profiles, profiles(&["gpu"]));
    assert_eq!(
        target("slam:gpu,debug").profiles,
        profiles(&["gpu", "debug"])
    );
    assert_eq!(
        target(" slam : gpu , debug ").profiles,
        profiles(&["gpu", "debug"])
    );
}

#[test]
fn a_profile_repeated_in_one_list_is_listed_once() {
    assert_eq!(target("slam:gpu,gpu").profiles, profiles(&["gpu"]));
}

#[test]
fn the_wildcard_means_every_profile_and_stands_alone() {
    assert_eq!(target("slam:*").profiles, Profiles::All);

    assert_eq!(
        Target::parse("slam:*,gpu"),
        Err(TargetError::WildcardWithOthers)
    );
    assert_eq!(
        Target::parse("slam:gpu,*"),
        Err(TargetError::WildcardWithOthers)
    );
}

#[test]
fn rejects_bad_names_and_bad_profiles_with_the_offending_part_named() {
    let err = Target::parse("../escape:gpu").unwrap_err();
    assert!(err.to_string().contains("../escape"));

    let err = Target::parse("slam:gpu,").unwrap_err();
    assert!(err.to_string().contains("compose profile"));

    let err = Target::parse("slam:has space").unwrap_err();
    assert!(err.to_string().contains("has space"));

    // An extra colon lands in the profile list, where it is invalid.
    assert!(Target::parse("slam:gpu:debug").is_err());
}

#[test]
fn profile_names_follow_composes_own_rules() {
    assert!(ProfileName::new("gpu-2.0_x").is_ok());
    assert_eq!(ProfileName::new(""), Err(ProfileNameError::Empty));
    assert_eq!(
        ProfileName::new("-gpu"),
        Err(ProfileNameError::InvalidStart { found: '-' })
    );
    assert_eq!(
        ProfileName::new("gpu!"),
        Err(ProfileNameError::InvalidCharacter { found: '!' })
    );
}

#[test]
fn ignores_comments_and_blank_lines() {
    let text = "# a comment\n\n  \nobstacle-avoidance\n\t\n# another\nslam\n";

    let list = parse_enabled(text);

    assert_eq!(names(&list), ["obstacle-avoidance", "slam"]);
    assert!(list.warnings.is_empty());
}

#[test]
fn trims_surrounding_whitespace_from_names() {
    let list = parse_enabled("  obstacle-avoidance  \n");

    assert_eq!(names(&list), ["obstacle-avoidance"]);
    assert!(list.warnings.is_empty());
}

#[test]
fn enabled_conf_carries_per_experiment_profiles() {
    // The only way a per-robot profile choice can exist: the boot unit's ExecStart is baked
    // into the image, so it cannot carry one.
    let list = parse_enabled("slam:gpu\nnav\nteleop:debug,sim\nviz:*\n");

    assert_eq!(names(&list), ["slam", "nav", "teleop", "viz"]);
    assert_eq!(list.targets[0].profiles, profiles(&["gpu"]));
    assert_eq!(list.targets[1].profiles, Profiles::NoProfiles);
    assert_eq!(list.targets[2].profiles, profiles(&["debug", "sim"]));
    assert_eq!(list.targets[3].profiles, Profiles::All);
    assert!(list.warnings.is_empty());
}

#[test]
fn drops_duplicates_and_says_so() {
    // Unlike the command line, where a repeated name merges: a file listing one twice is a
    // mistake to point at, not something to reconcile.
    let list = parse_enabled("slam\nobstacle\nslam:gpu\n");

    assert_eq!(names(&list), ["slam", "obstacle"]);
    assert_eq!(list.warnings.len(), 1);
    assert!(list.warnings[0].contains("line 3"));
    assert!(list.warnings[0].contains("more than once"));
    assert_eq!(list.warnings[0], "line 3: 'slam' is listed more than once");
}

#[test]
fn one_bad_line_does_not_discard_the_good_ones() {
    let list = parse_enabled("good-one\n../escape\nanother-good\nbad:pro file\n");

    assert_eq!(names(&list), ["good-one", "another-good"]);
    assert_eq!(list.warnings.len(), 2);
    assert!(list.warnings[0].contains("line 2"));
    assert!(list.warnings[1].contains("line 4"));
}

#[test]
fn an_empty_file_enables_nothing_without_complaining() {
    assert_eq!(parse_enabled(""), EnabledList::default());
    assert_eq!(parse_enabled("# only comments\n"), EnabledList::default());
}

#[test]
fn the_shipped_template_parses_to_nothing_enabled() {
    // The auto-created file must not accidentally enable its own example.
    assert_eq!(parse_enabled(ENABLED_CONF_TEMPLATE), EnabledList::default());
}

#[test]
fn creates_enabled_conf_when_it_is_missing() {
    let change = ensure_file(false, "experiments/enabled.conf", ENABLED_CONF_TEMPLATE).unwrap();

    assert_eq!(change.path, "experiments/enabled.conf");
    assert_eq!(change.contents, ENABLED_CONF_TEMPLATE);
    assert_eq!(change.notice, "[INFO] created experiments/enabled.conf");
    assert_eq!(parse_enabled(&change.contents), EnabledList::default());
}

#[test]
fn does_not_overwrite_an_existing_enabled_conf() {
    assert_eq!(
        ensure_file(true, "experiments/enabled.conf", ENABLED_CONF_TEMPLATE),
        None
    );
}

#[test]
fn parses_the_booleans_people_actually_write() {
    for yes in ["true", "TRUE", "yes", "on", "1", " true "] {
        assert_eq!(parse_bool(yes), Some(true), "{yes:?}");
    }
    for no in ["false", "FALSE", "no", "off", "0"] {
        assert_eq!(parse_bool(no), Some(false), "{no:?}");
    }
    for bad in ["", "maybe", "2"] {
        assert_eq!(parse_bool(bad), None, "{bad:?}");
    }
}

#[test]
fn a_failed_pull_is_fatal_when_there_is_no_settings_file() {
    assert!(!ignore_pull_failures(None));
}

#[test]
fn the_settings_file_can_turn_pull_failures_non_fatal() {
    assert!(ignore_pull_failures(Some("IGNORE_PULL_FAILURES=true\n")));
    assert!(!ignore_pull_failures(Some("IGNORE_PULL_FAILURES=false\n")));
}

#[test]
fn an_unparseable_setting_falls_back_to_fatal() {
    // Failing safe matters here: the fallback must be the strict behaviour, so a typo
    // cannot quietly re-enable "run whatever image is lying around".
    let text = "IGNORE_PULL_FAILURES=maybe\n";

    assert!(!ignore_pull_failures(Some(text)));
    assert_eq!(
        ignore_pull_failures_notices(Some(text), "/x/experiments.conf"),
        ["[WARN] /x/experiments.conf: IGNORE_PULL_FAILURES='maybe' is not a boolean; \
          treating a failed pull as fatal"]
    );
    assert!(ignore_pull_failures_notices(Some("IGNORE_PULL_FAILURES=on\n"), "x").is_empty());
}

#[test]
fn the_shipped_settings_template_is_the_strict_default() {
    assert!(!ignore_pull_failures(Some(SETTINGS_TEMPLATE)));
    assert!(ignore_pull_failures_notices(Some(SETTINGS_TEMPLATE), "x").is_empty());
}

#[test]
fn compose_file_path_is_built_from_the_validated_name() {
    let name = ExperimentName::new("slam").unwrap();

    assert_eq!(
        compose_file("/data/experiments", &name),
        "/data/experiments/slam/docker-compose.yml"
    );
}

#[test]
fn profile_flags_precede_the_verb() {
    // `--profile` is a compose-level flag; after the verb it is a different flag or an error.
    let name = ExperimentName::new("slam").unwrap();

    assert_eq!(
        compose_args(DIR, &name, &profiles(&["gpu", "debug"]), &["up", "-d"]),
        [
            "compose",
            "-f",
            "/data/experiments/slam/docker-compose.yml",
            "--project-directory",
            "/data/experiments/slam",
            "--profile",
            "gpu",
            "--profile",
            "debug",
            "up",
            "-d",
        ]
    );
}

#[test]
fn no_profiles_means_no_profile_flags_at_all() {
    let name = ExperimentName::new("slam").unwrap();

    let args = compose_args(DIR, &name, &Profiles::NoProfiles, &["ps"]);

    assert!(!args.contains(&"--profile".to_string()));
    assert_eq!(args.last().unwrap(), "ps");
}

#[test]
fn the_wildcard_becomes_composes_own_star() {
    assert_eq!(Profiles::All.args(), ["--profile", "*"]);
}

#[test]
fn naming_an_experiment_twice_merges_its_profiles() {
    let merged = merge_duplicates(vec![
        target("slam:gpu"),
        target("nav"),
        target("slam:debug"),
    ]);

    assert_eq!(merged.len(), 2);
    assert_eq!(merged[0].name.as_str(), "slam");
    assert_eq!(merged[0].profiles, profiles(&["gpu", "debug"]));
    assert_eq!(merged[1].name.as_str(), "nav");
}

#[test]
fn merging_the_wildcard_swallows_the_rest() {
    let merged = merge_duplicates(vec![target("slam:gpu"), target("slam:*")]);

    assert_eq!(merged[0].profiles, Profiles::All);
}

#[test]
fn a_named_experiment_that_does_not_exist_stops_everything() {
    // A typo must not half-execute the command: nothing is started, and the message names
    // every missing one rather than just the first.
    let disk = experiments_dir(&["slam"], None);

    let err = select(
        DIR,
        vec![target("slam"), target("slma"), target("navv:gpu")],
        Fallback::Enabled,
        &disk,
    )
    .unwrap_err();

    assert!(err.contains("slma"), "{err}");
    assert!(err.contains("navv"), "{err}");
    assert!(!err.contains("'slam'"), "{err}");
    assert!(err.contains("nothing was done"), "{err}");
    assert_eq!(
        err,
        "no compose file for 2 of the named experiments (nothing was done):\n  \
         slma: /data/experiments/slma/docker-compose.yml does not exist\n  \
         navv: /data/experiments/navv/docker-compose.yml does not exist"
    );
}

#[test]
fn a_named_experiment_need_not_be_enabled() {
    let disk = experiments_dir(&["slam"], Some("# nothing enabled\n"));

    let selection = select(DIR, vec![target("slam:gpu")], Fallback::Enabled, &disk).unwrap();

    assert_eq!(selection.targets, [target("slam:gpu")]);
}

#[test]
fn naming_nothing_falls_back_to_enabled_conf_with_its_profiles() {
    let disk = experiments_dir(&["slam", "nav", "teleop"], Some("slam:gpu\nnav\nghost\n"));

    let selection = select(DIR, Vec::new(), Fallback::Enabled, &disk).unwrap();

    // `ghost` is enabled but has no compose file: a warning and a skip, not a failure.
    assert_eq!(selection.targets, [target("slam:gpu"), target("nav")]);
}

#[test]
fn entries_of_enabled_conf_that_are_dropped_are_warned_of() {
    let disk = experiments_dir(&["slam"], Some("slam\nghost\n../x\n"));

    let selection = select(DIR, Vec::new(), Fallback::Enabled, &disk).unwrap();

    assert_eq!(selection.targets, [target("slam")]);
    assert_eq!(
        selection.notices,
        [
            "[WARN] /data/experiments/enabled.conf: line 3: '../x': '../x' is not a valid \
             experiment name: must not contain a path separator",
            "[WARN] skipping 'ghost': no compose file at \
             /data/experiments/ghost/docker-compose.yml",
        ]
    );
}

#[test]
fn stopping_nothing_in_particular_sweeps_every_stack_on_disk() {
    // The point of the sweep: `zeta` was dropped from enabled.conf but is still running, and
    // nothing else would ever bring it down.
    let disk = experiments_dir(&["nav", "zeta", "alpha"], Some("nav\n"));

    let selection = select(DIR, Vec::new(), Fallback::EverythingOnDisk, &disk).unwrap();

    assert_eq!(
        selection.targets,
        [target("alpha"), target("nav"), target("zeta")],
        "swept in name order"
    );
}

#[test]
fn the_disk_sweep_ignores_directories_without_a_compose_file() {
    let mut disk = experiments_dir(&["slam"], Some("slam\n"));
    disk.entries.push("not-an-experiment".to_string());
    disk.entries.push(".hidden".to_string());
    disk.compose_files
        .push(format!("{DIR}/.hidden/docker-compose.yml"));

    assert_eq!(
        on_disk(DIR, &disk),
        [ExperimentName::new("slam").unwrap()]
    );
}

#[test]
fn an_absent_experiments_directory_sweeps_to_nothing() {
    let disk = experiments_dir(&[], None);

    let selection = select(DIR, Vec::new(), Fallback::EverythingOnDisk, &disk).unwrap();

    assert!(selection.targets.is_empty());
    assert_eq!(
        selection.notices,
        ["[INFO] no experiment stacks in /data/experiments"]
    );
}

#[test]
fn an_empty_enabled_conf_is_noted() {
    let disk = experiments_dir(&["slam"], None);

    let selection = select(DIR, Vec::new(), Fallback::Enabled, &disk).unwrap();

    assert!(selection.targets.is_empty());
    assert_eq!(
        selection.notices,
        ["[INFO] no experiments enabled in /data/experiments/enabled.conf"]
    );
}

#[test]
fn every_name_error_tells_its_rule() {
    for (name, message) in [
        ("", "must not be empty"),
        ("a\\b", "must not contain a path separator"),
        (
            ".",
            "must not be a relative path component ('.' or '..')",
        ),
        (".x", "must not start with '.'"),
        (
            "a b",
            "may only contain letters, digits, '.', '_' and '-' (found ' ')",
        ),
    ] {
        assert_eq!(ExperimentName::new(name).unwrap_err().to_string(), message);
    }

    for (name, message) in [
        ("", "must not be empty"),
        (
            ".x",
            "must start with a letter or a digit (found '.')",
        ),
        (
            "a/b",
            "may only contain letters, digits, '.', '_' and '-' (found '/')",
        ),
    ] {
        assert_eq!(ProfileName::new(name).unwrap_err().to_string(), message);
    }

    assert_eq!(
        Target::parse("slam:*,gpu").unwrap_err().to_string(),
        "'*' already means every profile, so it cannot be combined with others"
    );
    assert_eq!(
        Target::parse("slam:gpu,").unwrap_err().to_string(),
        "'' is not a valid compose profile: must not be empty"
    );
    assert_eq!(
        Target::parse("a b").unwrap_err().to_string(),
        "'a b' is not a valid experiment name: may only contain letters, digits, '.', '_' and \
         '-' (found ' ')"
    );
}

#[test]
fn targets_are_shown_with_their_profiles() {
    assert_eq!(target("slam").to_string(), "slam");
    assert_eq!(target("slam:*").to_string(), "slam (profiles: *)");
    assert_eq!(
        target("slam:gpu,debug").to_string(),
        "slam (profiles: gpu, debug)"
    );
    assert_eq!(Profiles::NoProfiles.to_string(), "");
    assert_eq!(Profiles::default(), Profiles::NoProfiles);
}

#[test]
fn merging_profiles_is_their_union() {
    assert_eq!(
        profiles(&["a", "b"]).merged(profiles(&["b", "c"])),
        profiles(&["a", "b", "c"])
    );
    assert_eq!(
        Profiles::NoProfiles.merged(profiles(&["a"])),
        profiles(&["a"])
    );
    assert_eq!(
        profiles(&["a"]).merged(Profiles::NoProfiles),
        profiles(&["a"])
    );
    assert_eq!(Profiles::All.merged(profiles(&["a"])), Profiles::All);
}

#[test]
fn the_command_line_decides_how_failed_pulls_are_treated() {
    let paths = Paths::for_test("/r");
    assert_eq!(
        settings_path(&paths),
        "/r/data/experiments/experiments.conf"
    );

    let asked = StartOptions {
        ignore_pull_failures: Some(true),
    };
    let (ignored, notices) = asked.resolve(Some("IGNORE_PULL_FAILURES=false\n"), "x");
    assert!(ignored);
    assert_eq!(
        notices,
        ["[INFO] IGNORE_PULL_FAILURES=true for this run (command line)"]
    );

    let (ignored, notices) =
        StartOptions::default().resolve(Some("IGNORE_PULL_FAILURES=yes\n"), "x");
    assert!(ignored);
    assert!(notices.is_empty());
}

fn selection(specs: &[&str]) -> Selection {
    Selection {
        dir: DIR.to_string(),
        targets: specs.iter().map(|spec| target(spec)).collect(),
        notices: Vec::new(),
    }
}

fn verb(command: &Command) -> Vec<&str> {
    assert_eq!(command.program, "docker");
    let at = 5 + 2 * command.args.iter().filter(|arg| *arg == "--profile").count();
    command.args[at..].iter().map(String::as_str).collect()
}

fn failure() -> Exit {
    Exit::Failure {
        status: "exit status: 1".to_string(),
    }
}

#[test]
fn a_failed_pull_keeps_only_its_own_experiment_from_starting() {
    let paths = Paths::for_test("/r");
    let (mut run, notices) = start(
        &paths,
        selection(&["slam:gpu", "nav"]),
        StartOptions::default(),
        None,
    );
    assert!(notices.is_empty());

    let step = run.step().unwrap();
    assert_eq!(
        step.heading,
        "[INFO] pulling images for experiment 'slam (profiles: gpu)'"
    );
    assert_eq!(verb(&step.command), ["pull", "--quiet"]);
    assert_eq!(
        run.record(&failure()),
        [
            "[ERROR] pull failed for 'slam': `docker compose pull --quiet` exited with exit \
             status: 1. Not starting it — the local image may be out of date. Set \
             IGNORE_PULL_FAILURES=true in /r/data/experiments/experiments.conf to start it \
             anyway on this robot, or pass --ignore-pull-failures for one run."
        ]
    );

    let step = run.step().unwrap();
    assert_eq!(
        step.heading,
        "[INFO] pulling images for experiment 'nav'"
    );
    assert!(run.record(&Exit::Success).is_empty());

    let step = run.step().unwrap();
    assert_eq!(step.heading, "[INFO] starting experiment 'nav'");
    assert_eq!(verb(&step.command), ["up", "-d", "--remove-orphans"]);
    assert!(run.record(&Exit::Success).is_empty());

    assert_eq!(run.step(), None);
    assert!(run.record(&failure()).is_empty());
    assert_eq!(
        run.finish(),
        Err("failed to start 1 of 2 experiments: slam".to_string())
    );
}

#[test]
fn an_ignored_pull_failure_starts_the_local_image() {
    let paths = Paths::for_test("/r");
    let (mut run, _) = start(
        &paths,
        selection(&["slam"]),
        StartOptions {
            ignore_pull_failures: Some(true),
        },
        None,
    );

    assert_eq!(
        run.record(&Exit::NotRun {
            err: "no docker".to_string()
        }),
        [
            "[WARN] pull failed for 'slam' (running `docker compose pull --quiet`: no docker); \
             starting with the local image (IGNORE_PULL_FAILURES=true)"
        ]
    );
    assert_eq!(
        verb(&run.step().unwrap().command),
        ["up", "-d", "--remove-orphans"]
    );
    assert_eq!(
        run.record(&failure()),
        [
            "[ERROR] failed to start experiment 'slam': `docker compose up -d --remove-orphans` \
             exited with exit status: 1"
        ]
    );
    assert!(run.finish().is_err());
}

#[test]
fn stopping_tears_down_every_profile_unless_narrowed() {
    let mut run = stop(selection(&["slam", "nav:gpu", "viz:*"]));

    let step = run.step().unwrap();
    assert_eq!(step.heading, "[INFO] stopping experiment 'slam'");
    assert_eq!(
        step.command.args[5..],
        ["--profile", "*", "down", "--remove-orphans"]
    );
    assert!(run.record(&Exit::Success).is_empty());

    let step = run.step().unwrap();
    assert_eq!(step.command.args[5..], ["--profile", "gpu", "down"]);
    assert_eq!(
        run.record(&failure()),
        ["[ERROR] failed to stop experiment 'nav': `docker compose down` exited with exit \
          status: 1"]
    );

    let step = run.step().unwrap();
    assert_eq!(
        step.command.args[5..],
        ["--profile", "*", "down", "--remove-orphans"]
    );
    assert!(run.record(&Exit::Success).is_empty());

    assert_eq!(run.step(), None);
    assert_eq!(
        run.finish(),
        Err("failed to stop 1 of 3 experiments: nav".to_string())
    );
}

#[test]
fn a_failed_query_is_a_warning() {
    let mut run = status(selection(&["slam", "nav:gpu"]));

    let step = run.step().unwrap();
    assert_eq!(step.heading, "== slam ==");
    assert_eq!(step.command.args[5..], ["ps"]);
    assert_eq!(
        run.record(&failure()),
        ["[WARN] could not query experiment 'slam': `docker compose ps` exited with exit \
          status: 1"]
    );
    assert_eq!(
        run.step().unwrap().heading,
        "== nav (profiles: gpu) =="
    );
    assert!(run.record(&Exit::Success).is_empty());
    assert_eq!(run.step(), None);
}

#[test]
fn docker_must_be_there_but_need_not_succeed() {
    assert_eq!(docker_version().program, "docker");
    assert_eq!(docker_version().args, ["--version"]);
    assert_eq!(require_docker(&failure()), Ok(()));
    assert_eq!(
        require_docker(&Exit::NotRun {
            err: "not found".to_string()
        }),
        Err("required command not found: docker: not found".to_string())
    );
    assert_eq!(compose("ps", &Exit::Success), Ok(()));
    assert_eq!(report(&Vec::new(), 3, "start"), Ok(()));
}

#[test]
fn the_list_covers_stacks_on_disk_and_enabled_names() {
    let disk = experiments_dir(&["zeta", "slam"], Some("slam:gpu\nghost\n"));

    let names: Vec<String> = list_names(DIR, &disk)
        .iter()
        .map(|name| name.as_str().to_string())
        .collect();
    assert_eq!(names, ["ghost", "slam", "zeta"]);

    let answers = vec![
        Declared {
            name: "slam".to_string(),
            stdout: Some("sim\n  gpu \n\n".to_string()),
        },
        Declared {
            name: "zeta".to_string(),
            stdout: None,
        },
    ];

    assert_eq!(
        list(DIR, &disk, &answers),
        Listing::Table {
            text: "NAME   ENABLED  CONFIGURED  AVAILABLE PROFILES\n\
                   ghost  yes      -           (no compose file)\n\
                   slam   yes      gpu         gpu, sim\n\
                   zeta   no       -           ?\n"
                .to_string()
        }
    );

    let nothing = experiments_dir(&[], None);
    assert_eq!(
        list(DIR, &nothing, &Vec::new()),
        Listing::Nothing {
            notice: "[INFO] no experiments in /data/experiments".to_string()
        }
    );
}

#[test]
fn a_stack_without_profiles_shows_a_dash() {
    let disk = experiments_dir(&["slam"], None);
    let answers = vec![Declared {
        name: "slam".to_string(),
        stdout: Some("\n".to_string()),
    }];

    assert_eq!(
        list(DIR, &disk, &answers),
        Listing::Table {
            text: "NAME  ENABLED  CONFIGURED  AVAILABLE PROFILES\n\
                   slam  no       -           -\n"
                .to_string()
        }
    );
    assert_eq!(declared_profiles(" b\na\n"), ["a", "b"]);

    let query = declared_profiles_command(DIR, &ExperimentName::new("slam").unwrap());
    assert_eq!(query.args[5..], ["config", "--profiles"]);
}

#[test]
fn the_table_grows_with_its_cells_and_ends_without_blanks() {
    let rows = vec![Row {
        name: "a-rather-long-name".to_string(),
        enabled: "yes".to_string(),
        configured: "é".to_string(),
        available: "".to_string(),
    }];

    assert_eq!(
        print_table(&rows),
        "NAME                ENABLED  CONFIGURED  AVAILABLE PROFILES\n\
         a-rather-long-name  yes      é\n"
    );
}
