use robotctl::conf::{
    annotate_permission, parse_value, strip_quotes, upsert_key, write_if_changed,
};

#[test]
fn parses_the_last_assignment_and_strips_quotes() {
    let text = "# a comment\nROBOT_ID=first\nOTHER=x\nROBOT_ID=\"second\"\n";

    assert_eq!(parse_value(text, "ROBOT_ID").as_deref(), Some("second"));
    assert_eq!(parse_value(text, "OTHER").as_deref(), Some("x"));
    assert_eq!(parse_value(text, "MISSING"), None);
}

#[test]
fn parses_single_quoted_and_indented_values() {
    let text = "  AP_PSK='hunter2hunter2'\n";

    assert_eq!(
        parse_value(text, "AP_PSK").as_deref(),
        Some("hunter2hunter2")
    );
}

#[test]
fn parses_an_empty_value_as_empty_not_missing() {
    // Load-bearing for the fallback AP: AP_PSK="" means "open network", which must be
    // distinguishable from AP_PSK being absent entirely.
    assert_eq!(parse_value("AP_PSK=\"\"\n", "AP_PSK").as_deref(), Some(""));
    assert_eq!(parse_value("AP_PSK=\n", "AP_PSK").as_deref(), Some(""));
}

#[test]
fn upsert_preserves_comments_and_unrelated_keys() {
    let existing = "# identity\nROBOT_ID=old\nROS_DOMAIN_ID=7\n";

    assert_eq!(
        upsert_key(Some(existing), "ROBOT_ID", "new"),
        "# identity\nROBOT_ID=new\nROS_DOMAIN_ID=7\n"
    );
}

#[test]
fn upsert_appends_a_missing_key_and_creates_a_missing_file() {
    assert_eq!(
        upsert_key(Some("ROBOT_ID=x\n"), "ROS_DOMAIN_ID", "3"),
        "ROBOT_ID=x\nROS_DOMAIN_ID=3\n"
    );
    assert_eq!(upsert_key(None, "ROBOT_ID", "x"), "ROBOT_ID=x\n");
}

#[test]
fn what_is_set_reads_back_and_the_rest_stays() {
    let before = "# robot\nA=1\nB='x'\n";
    let after = upsert_key(Some(before), "A", "2");

    assert_eq!(after, "# robot\nA=2\nB='x'\n");
    assert_eq!(parse_value(&after, "A").as_deref(), Some("2"));
    assert_eq!(parse_value(&after, "B"), parse_value(before, "B"));
    assert_eq!(upsert_key(Some(&after), "A", "2"), after);
}

#[test]
fn a_lone_quote_is_kept() {
    assert_eq!(strip_quotes("\""), "\"");
    assert_eq!(strip_quotes("\"\""), "");
    assert_eq!(strip_quotes("'a\""), "'a\"");
    assert_eq!(strip_quotes("'\"a\"'"), "\"a\"");
}

#[test]
fn only_a_change_is_written() {
    assert!(write_if_changed(None, ""));
    assert!(!write_if_changed(Some("a\n"), "a\n"));
    assert!(write_if_changed(Some("a"), "a\n"));
    assert_eq!(
        annotate_permission(true, "/etc/x", "EACCES"),
        "permission denied writing /etc/x - this command must be run as root"
    );
    assert_eq!(annotate_permission(false, "/etc/x", "full"), "full");
}
