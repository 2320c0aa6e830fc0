use llamaloganalyzer_mlx::parsers::{self, parse_entry, parse_lines, LineFormat};

#[test]
fn test_valid_log_line() {
    let line = "2023-12-01 08:00:01 [INFO] System startup completed";
    let entry = parsers::standard::parse_line(line);
    assert!(entry.is_some());
    let entry = entry.unwrap();
    assert_eq!(entry.level, "INFO");
    assert_eq!(entry.message, "System startup completed");
}

#[test]
fn test_invalid_log_line() {
    let line = "This is not a valid log entry";
    let entry = parsers::standard::parse_line(line);
    assert!(entry.is_none());
}

#[test]
fn test_standard_log_parser() {
    let line = "2023-12-01 08:00:01 [INFO] System startup completed";
    let entry = parsers::standard::parse_line(line);
    assert!(entry.is_some());
    let entry = entry.unwrap();
    assert_eq!(entry.level, "INFO");
    assert_eq!(entry.message, "System startup completed");
    assert!(entry.timestamp.is_some());
}

#[test]
fn test_json_log_parser() {
    let line = r#"{"timestamp": "2023-12-01 08:00:01", "level": "INFO", "message": "System startup"}"#;
    let entry = parsers::json::parse_json_line(line);
    assert!(entry.is_some());
    let entry = entry.unwrap();
    assert_eq!(entry.level, "INFO");
    assert_eq!(entry.message, "System startup");
    assert!(entry.timestamp.is_some());
}

#[test]
fn test_invalid_log_format() {
    let line = "This is not a valid log entry";
    let entry = parsers::standard::parse_line(line);
    assert!(entry.is_none());
    let entry = parsers::json::parse_json_line(line);
    assert!(entry.is_none());
}

#[test]
fn standard_timestamp_is_read_as_utc() {
    let entry = parsers::standard::parse_line("2023-12-01 08:00:01 [INFO] x").unwrap();
    assert_eq!(entry.timestamp.unwrap().seconds, 1_701_417_601);
    assert!(entry.source.is_none());
}

#[test]
fn bad_timestamp_keeps_the_line() {
    let entry = parsers::standard::parse_line("yesterday noon [WARN] disk low").unwrap();
    assert!(entry.timestamp.is_none());
    assert_eq!(entry.level, "WARN");
    assert_eq!(entry.message, "disk low");
}

#[test]
fn level_at_end_of_line_has_empty_message() {
    let entry = parsers::standard::parse_line("2023-12-01 08:00:01 [DEBUG]").unwrap();
    assert_eq!(entry.level, "DEBUG");
    assert_eq!(entry.message, "");
    let entry = parsers::standard::parse_line("2023-12-01 08:00:01 [DEBUG]x").unwrap();
    assert_eq!(entry.message, "");
}

#[test]
fn closing_bracket_must_follow_opening_one() {
    assert!(parsers::standard::parse_line("2023-12-01 08:00:01 ]x[ message").is_none());
    let entry = parsers::standard::parse_line("2023-12-01 08:00:01 ]x[LVL] tail").unwrap();
    assert_eq!(entry.level, "LVL");
    assert_eq!(entry.message, "tail");
}

#[test]
fn missing_bracket_rejects_line() {
    assert!(parsers::standard::parse_line("2023-12-01 08:00:01 [INFO message").is_none());
    assert!(parsers::standard::parse_line("2023-12-01 08:00:01 INFO] message").is_none());
    assert!(parsers::standard::parse_line("2023-12-01 [INFO] message").is_none());
}

#[test]
fn level_and_message_are_kept_byte_for_byte() {
    let entry = parsers::standard::parse_line("2023-12-01 08:00:01 [ wärn ] ünïcode  spaced ").unwrap();
    assert_eq!(entry.level, " wärn ");
    assert_eq!(entry.message, "ünïcode  spaced ");
}

#[test]
fn json_defaults_and_source() {
    let entry = parsers::json::parse_json_line(r#"{"level": 5, "source": "db"}"#).unwrap();
    assert_eq!(entry.level, "UNKNOWN");
    assert_eq!(entry.message, "");
    assert_eq!(entry.source.as_deref(), Some("db"));
    assert!(entry.timestamp.is_none());
    let entry = parsers::json::parse_json_line("42").unwrap();
    assert_eq!(entry.level, "UNKNOWN");
}

#[test]
fn json_timestamp_matches_standard_one() {
    let a = parsers::json::parse_json_line(r#"{"timestamp": "2023-12-01 08:00:01"}"#).unwrap();
    assert_eq!(a.timestamp.unwrap().seconds, 1_701_417_601);
    let b = parsers::json::parse_json_line(r#"{"timestamp": "2023-12-01T08:00:01Z"}"#).unwrap();
    assert!(b.timestamp.is_none());
}

#[test]
fn dispatcher_prefers_standard_then_json() {
    let e = parse_entry(r#"{"level": "ERROR", "message": "boom"}"#).unwrap();
    assert_eq!(e.level, "ERROR");
    let e = parse_entry("2023-12-01 08:00:01 [INFO] {\"level\": \"x\"}").unwrap();
    assert_eq!(e.level, "INFO");
    assert!(parse_entry("This is not a valid log entry").is_none());
    assert!(LineFormat::Json.parse("2023-12-01 08:00:01 [INFO] x").is_none());
    assert!(LineFormat::Standard.parse("2023-12-01 08:00:01 [INFO] x").is_some());
}

#[test]
fn unparsed_lines_are_counted_and_dropped() {
    let lines = vec![
        "2023-12-01 08:00:01 [INFO] one".to_string(),
        "This is not a valid log entry".to_string(),
        r#"{"message": "two"}"#.to_string(),
        "".to_string(),
    ];
    let parsed = parse_lines(&lines);
    assert_eq!(parsed.entries.len(), 2);
    assert_eq!(parsed.skipped, 2);
    assert_eq!(parsed.entries[1].message, "two");
}
