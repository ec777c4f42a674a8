use deskutils::notifi::{
    command_failed, emit_json, get_status, help_lines, history_count, is_paused,
    is_wayland_session, parse_output_mode, paused_from_output, status_report,
    waiting_from_output, ModeRequest, NotifiError, OutputMode, StatusTracker,
};

#[test]
fn json_status_for_waybar() {
    assert_eq!(
        get_status(Some(true), None, Some(3), Some(5), OutputMode::Json, false),
        "{\"alt\":null,\"class\":\"paused\",\"text\":\"\u{f1f7} 3\",\"tooltip\":\"5 notifications in history\"}"
    );
    assert_eq!(
        get_status(None, Some(1), None, None, OutputMode::Auto, true),
        "{\"alt\":null,\"class\":\"paused\",\"text\":\"\u{f1f7}\",\"tooltip\":\"0 notifications in history\"}"
    );
    assert_eq!(
        get_status(Some(false), Some(4), Some(9), Some(12), OutputMode::Json, false),
        "{\"alt\":\"active\",\"class\":\"active\",\"text\":\"\u{f0a2}\",\"tooltip\":\"12 notifications in history\"}"
    );
}

#[test]
fn plain_status_for_polybar() {
    assert_eq!(get_status(Some(true), None, Some(3), Some(5), OutputMode::Plain, true), "%{F#821717}\u{f0f3} %{F-}");
    assert_eq!(get_status(None, None, Some(3), Some(5), OutputMode::Auto, false), "\u{f0f3}");
}

#[test]
fn output_mode_and_pause_rules() {
    assert!(emit_json(OutputMode::Json, false));
    assert!(!emit_json(OutputMode::Plain, true));
    assert!(emit_json(OutputMode::Auto, true));
    assert!(!emit_json(OutputMode::Auto, false));
    assert!(is_paused(Some(true), None));
    assert!(!is_paused(Some(false), Some(3)));
    assert!(is_paused(None, Some(2)));
    assert!(!is_paused(None, Some(0)));
    assert!(!is_paused(None, None));
    assert!(is_wayland_session(Some("wayland")));
    assert!(!is_wayland_session(Some("x11")));
    assert!(!is_wayland_session(None));
}

#[test]
fn repeated_status_is_printed_once() {
    let (mut t, first) = StatusTracker::new("a".to_string());
    assert_eq!(first, "a");
    assert_eq!(t.observe("a".to_string()), None);
    assert_eq!(t.observe("b".to_string()), Some("b".to_string()));
    assert_eq!(t.observe("b".to_string()), None);
    assert_eq!(t.observe("a".to_string()), Some("a".to_string()));
}

#[test]
fn dunstctl_report() {
    assert_eq!(
        status_report(true, 2, 7, OutputMode::Json, false),
        "{\"class\":\"paused\",\"text\":\"\u{f1f7} 2\",\"tooltip\":\"7\"}"
    );
    assert_eq!(
        status_report(false, 0, 0, OutputMode::Json, false),
        "{\"alt\":\"active\",\"text\":\"\u{f0a2}\",\"tooltip\":\"0\"}"
    );
    assert_eq!(status_report(false, 0, 0, OutputMode::Plain, false), "\u{f0f3}");
    assert!(paused_from_output("true\n"));
    assert!(!paused_from_output("false\n"));
    assert_eq!(waiting_from_output(" 4\n"), 4);
    assert_eq!(waiting_from_output("n/a"), 0);
}

#[test]
fn dunstctl_arguments() {
    let args = |v: &[&str]| v.iter().map(|s| s.to_string()).collect::<Vec<_>>();
    assert_eq!(parse_output_mode(&args(&[])).unwrap(), ModeRequest::Mode(OutputMode::Auto));
    assert_eq!(
        parse_output_mode(&args(&["--json", "--json"])).unwrap(),
        ModeRequest::Mode(OutputMode::Json)
    );
    assert_eq!(parse_output_mode(&args(&["--plain"])).unwrap(), ModeRequest::Mode(OutputMode::Plain));
    assert_eq!(parse_output_mode(&args(&["--plain", "-h"])).unwrap(), ModeRequest::Help);
    let e = parse_output_mode(&args(&["--json", "--plain"])).unwrap_err();
    assert_eq!(e.message(), "cannot combine --json and --plain");
    let e = parse_output_mode(&args(&["--yaml"])).unwrap_err();
    assert_eq!(e.message(), "unknown argument: --yaml");
    assert!(matches!(
        parse_output_mode(&args(&["--help", "--yaml"])),
        Ok(ModeRequest::Help)
    ));
    let e = command_failed(&args(&["count", "waiting"]));
    assert_eq!(e.message(), "dunstctl command failed: count waiting");
    assert_eq!(NotifiError::Unavailable.message(), "dunstctl not available");
    assert_eq!(help_lines()[0], "Usage: notifi [--json|--plain]");
    assert_eq!(help_lines()[1], "");
    assert_eq!(help_lines().len(), 4);
}

#[test]
fn history_is_counted_from_json() {
    let raw = r#"{"type":"aa{aa{sv}}","data":[[{"id":{"data":1}},{"id":{"data":2}}]]}"#;
    assert_eq!(history_count(raw).unwrap(), 2);
    assert_eq!(history_count(r#"{"data":[]}"#).unwrap(), 0);
    assert_eq!(history_count(r#"{"data":[5]}"#).unwrap(), 0);
    assert_eq!(history_count(r#"[1,2]"#).unwrap(), 0);
    assert!(matches!(history_count("not json"), Err(NotifiError::BadHistory { .. })));
}
