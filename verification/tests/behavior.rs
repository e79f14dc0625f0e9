use jsonc::ChangeKind;
use jsonc::EditError;
use jsonc::classify_initial;
use jsonc::debounce_allows;
use jsonc::default_template;
use jsonc::get_jsonc_path;
use jsonc::is_meaningful_change;
use jsonc::retry_read_allows;
use jsonc::should_abandon;
use jsonc::strip_comments;
use jsonc::sync_text;

#[test]
fn test_scenario_line_comment_parses() {
    let input = "{\n// c\n\"k\": \"v\"\n}";
    let stripped = strip_comments(input);
    let parsed: serde_json::Value = serde_json::from_str(&stripped).unwrap();
    let expected: serde_json::Value = serde_json::from_str("{\"k\":\"v\"}").unwrap();
    assert_eq!(parsed, expected);
}

#[test]
fn test_scenario_no_markers_identical() {
    let input = "{\"path\": \"/dev/null\", \"url\": \"https://example.com\"}";
    assert_eq!(strip_comments(input), input);
}

#[test]
fn test_scenario_trailing_comment_parses() {
    let input = "{\"k\": \"v\" // trailing\n}";
    let stripped = strip_comments(input);
    let parsed: serde_json::Value = serde_json::from_str(&stripped).unwrap();
    assert_eq!(parsed["k"], "v");
}

#[test]
fn test_line_comment_cut_exact() {
    assert_eq!(strip_comments("\"a\": 1, // note"), "\"a\": 1, ");
    assert_eq!(strip_comments("x // a\ny // b"), "x \ny ");
}

#[test]
fn test_escaped_quote_does_not_toggle() {
    // the \" stays inside the string, so the // after it is still inside
    let input = "{\"k\": \"a\\\"b // not a comment\"}";
    assert_eq!(strip_comments(input), input);
}

#[test]
fn test_block_comment_cut_exact() {
    assert_eq!(strip_comments("a/*x*/b"), "ab");
    assert_eq!(strip_comments("l1\n/* c\nc */\nl2"), "l1\n\nl2");
}

#[test]
fn test_unclosed_block_comment_kept() {
    let input = "{\"a\": 1} /* tail";
    assert_eq!(strip_comments(input), input);
}

#[test]
fn test_crlf_normalized() {
    assert_eq!(strip_comments("a\r\nb"), "a\nb");
    assert_eq!(strip_comments(""), "");
}

#[test]
fn test_round_trip() {
    let input = "{\n// top\n\"a\": [1, 2, 3], /* mid */ \"b\": {\"c\": null}\n}";
    let stripped = strip_comments(input);
    let parsed: serde_json::Value = serde_json::from_str(&stripped).unwrap();
    let pretty = sync_text(input).unwrap();
    let reparsed: serde_json::Value = serde_json::from_str(&pretty).unwrap();
    assert_eq!(parsed, reparsed);
}

#[test]
fn test_sync_text_pretty_exact() {
    let out = sync_text("{\"k\": \"v\" // c\n}").unwrap();
    assert_eq!(out, "{\n  \"k\": \"v\"\n}");
}

#[test]
fn test_sync_text_invalid_json() {
    let r = sync_text("{\"k\": ");
    assert!(matches!(r, Err(EditError::InvalidJson(_))));
}

#[test]
fn test_sync_twice_identical() {
    let raw = "{\n\"n\": 1 // keep\n}";
    let first_run = sync_text(raw).unwrap();
    let second_run = sync_text(raw).unwrap();
    assert_eq!(first_run, second_run);
}

#[test]
fn test_get_jsonc_path() {
    assert_eq!(get_jsonc_path("config.json"), "config.jsonc");
    assert_eq!(get_jsonc_path("conf/app.json"), "conf/app.jsonc");
    assert_eq!(get_jsonc_path("a.json.json"), "a.json.jsonc");
    assert_eq!(get_jsonc_path("notes.txt"), "notes.txt.jsonc");
    assert_eq!(get_jsonc_path("x"), "x.jsonc");
    assert_eq!(get_jsonc_path(""), ".jsonc");
}

#[test]
fn test_classify_initial() {
    let both = classify_initial(true, true).unwrap();
    assert_eq!(both.source, jsonc::ContentSource::Commented);
    assert!(!both.is_new_file);

    let only_canonical = classify_initial(true, false).unwrap();
    assert_eq!(only_canonical.source, jsonc::ContentSource::Canonical);
    assert!(!only_canonical.is_new_file);

    let neither = classify_initial(false, false).unwrap();
    assert_eq!(neither.source, jsonc::ContentSource::Template);
    assert!(neither.is_new_file);
}

#[test]
fn test_scenario_collision() {
    // canonical absent, commented present: refuse before touching anything
    let r = classify_initial(false, true);
    assert_eq!(r, Err(EditError::AmbiguousCollision));
}

#[test]
fn test_scenario_unsaved_new_file_abandoned() {
    assert!(should_abandon(true, Some(7), Some(7)));
    assert!(!should_abandon(true, Some(7), Some(8)));
    assert!(!should_abandon(false, Some(7), Some(7)));
    assert!(!should_abandon(true, None, None));
    assert!(!should_abandon(true, Some(7), None));
}

#[test]
fn test_default_template_is_valid() {
    let template = default_template();
    let stripped = strip_comments(&template);
    let parsed: serde_json::Value = serde_json::from_str(&stripped).unwrap();
    assert_eq!(parsed["example"], "value");
}

#[test]
fn test_debounce_and_retry_thresholds() {
    assert!(!debounce_allows(99));
    assert!(debounce_allows(100));
    assert!(retry_read_allows(500));
    assert!(!retry_read_allows(501));
}

#[test]
fn test_meaningful_change_kinds() {
    assert!(is_meaningful_change(ChangeKind::Modified));
    assert!(is_meaningful_change(ChangeKind::Created));
    assert!(is_meaningful_change(ChangeKind::CloseWrite));
    assert!(!is_meaningful_change(ChangeKind::Other));
}
