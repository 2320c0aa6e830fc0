use chrono::{TimeZone, Utc};
use llamaloganalyzer_mlx::analyzer::statistics::compute_statistics;
use llamaloganalyzer_mlx::parsers::{parse_lines, LogEntry};
use llamaloganalyzer_mlx::utils::time::Timestamp;

fn at(y: i32, mo: u32, d: u32, h: u32, mi: u32, s: u32) -> Option<Timestamp> {
    Some(Timestamp { seconds: Utc.with_ymd_and_hms(y, mo, d, h, mi, s).unwrap().timestamp() })
}

fn entry(timestamp: Option<Timestamp>, level: &str, message: &str) -> LogEntry {
    LogEntry { timestamp, level: level.to_string(), message: message.to_string(), source: None }
}

#[test]
fn test_compute_statistics() {
    let entries = vec![
        entry(at(2023, 12, 1, 10, 0, 0), "INFO", "Test 1"),
        entry(at(2023, 12, 1, 10, 1, 0), "ERROR", "Test 2"),
        entry(at(2023, 12, 1, 10, 2, 30), "INFO", "Test 3"),
    ];
    let stats = compute_statistics(&entries);
    assert_eq!(stats.total_entries, 3);
    assert_eq!(stats.count_for("INFO").unwrap(), 2);
    assert_eq!(stats.count_for("ERROR").unwrap(), 1);
    let time_span = stats.time_span.unwrap();
    assert_eq!(time_span.duration_seconds, 150);
    assert!(stats.average_time_diff.is_some());
    let mean = stats.average_time_diff.unwrap();
    assert_eq!(mean.total_seconds as f64 / mean.intervals as f64, 75.0);
}

#[test]
fn test_end_to_end_log_stats() {
    let log_entries = vec![
        entry(at(2023, 12, 1, 8, 0, 0), "INFO", "Test message 1"),
        entry(at(2023, 12, 1, 8, 0, 30), "ERROR", "Test error"),
        entry(at(2023, 12, 1, 8, 1, 0), "INFO", "Test message 2"),
    ];
    let stats = compute_statistics(&log_entries);
    assert_eq!(stats.total_entries, 3);
    assert_eq!(stats.count_for("INFO"), Some(2));
    assert_eq!(stats.count_for("ERROR"), Some(1));
    let time_span = stats.time_span.unwrap();
    assert_eq!(time_span.duration_seconds, 60);
    assert!(stats.average_time_diff.is_some());
    let mean = stats.average_time_diff.unwrap();
    assert_eq!(mean.total_seconds as f64 / mean.intervals as f64, 30.0);
}

#[test]
fn statistics_of_three_parsed_lines() {
    let lines = vec![
        "2023-12-01 10:00:00 [INFO] Test 1".to_string(),
        "2023-12-01 10:01:00 [ERROR] Test 2".to_string(),
        "2023-12-01 10:02:30 [INFO] Test 3".to_string(),
    ];
    let parsed = parse_lines(&lines);
    assert_eq!(parsed.skipped, 0);
    let stats = compute_statistics(&parsed.entries);
    assert_eq!(stats.total_entries, 3);
    assert_eq!(stats.level_counts, vec![("INFO".to_string(), 2), ("ERROR".to_string(), 1)]);
    assert_eq!(stats.time_span.unwrap().duration_seconds, 150);
    let mean = stats.average_time_diff.unwrap();
    assert_eq!((mean.total_seconds, mean.intervals), (150, 2));
    assert_eq!(mean.total_seconds as f64 / mean.intervals as f64, 75.0);
}

#[test]
fn level_counts_add_up_to_total() {
    let entries = vec![
        entry(None, "INFO", "a"),
        entry(None, "WARN", "b"),
        entry(None, "info", "c"),
        entry(None, "INFO", "d"),
        entry(None, "", "e"),
    ];
    let stats = compute_statistics(&entries);
    let sum: usize = stats.level_counts.iter().map(|(_, c)| *c).sum();
    assert_eq!(sum, stats.total_entries);
    assert_eq!(stats.count_for("info"), Some(1));
    assert_eq!(stats.count_for("DEBUG"), None);
    assert!(stats.time_span.is_none());
    assert!(stats.average_time_diff.is_none());
}

#[test]
fn even_spacing_gives_the_spacing_as_mean() {
    let entries: Vec<LogEntry> = (0..5)
        .map(|i| entry(Some(Timestamp { seconds: 1_000 + 40 * i }), "INFO", "tick"))
        .collect();
    let stats = compute_statistics(&entries);
    let mean = stats.average_time_diff.unwrap();
    assert_eq!(mean.total_seconds as f64 / mean.intervals as f64, 40.0);
    assert_eq!(stats.time_span.unwrap().duration_seconds, 160);
}

#[test]
fn out_of_order_timestamps_use_earliest_and_latest() {
    let entries = vec![
        entry(Some(Timestamp { seconds: 500 }), "INFO", "late"),
        entry(None, "INFO", "none"),
        entry(Some(Timestamp { seconds: 100 }), "INFO", "early"),
        entry(Some(Timestamp { seconds: 300 }), "INFO", "middle"),
    ];
    let stats = compute_statistics(&entries);
    let span = stats.time_span.unwrap();
    assert_eq!(span.first_entry.seconds, 100);
    assert_eq!(span.last_entry.seconds, 500);
    assert_eq!(span.duration_seconds, 400);
    let mean = stats.average_time_diff.unwrap();
    assert_eq!((mean.total_seconds, mean.intervals), (400, 2));
}

#[test]
fn single_timestamp_has_span_but_no_mean() {
    let entries = vec![entry(Some(Timestamp { seconds: 7 }), "INFO", "x"), entry(None, "INFO", "y")];
    let stats = compute_statistics(&entries);
    assert_eq!(stats.time_span.unwrap().duration_seconds, 0);
    assert!(stats.average_time_diff.is_none());
}

#[test]
fn identical_timestamps_give_zero_mean() {
    let entries = vec![
        entry(Some(Timestamp { seconds: 9 }), "INFO", "x"),
        entry(Some(Timestamp { seconds: 9 }), "INFO", "y"),
    ];
    let stats = compute_statistics(&entries);
    let mean = stats.average_time_diff.unwrap();
    assert_eq!((mean.total_seconds, mean.intervals), (0, 1));
}

#[test]
fn empty_input_has_no_figures() {
    let stats = compute_statistics(&[]);
    assert_eq!(stats.total_entries, 0);
    assert!(stats.level_counts.is_empty());
    assert!(stats.time_span.is_none());
}

#[test]
fn widest_span_does_not_overflow() {
    let entries = vec![
        entry(Some(Timestamp { seconds: i64::MIN }), "INFO", "x"),
        entry(Some(Timestamp { seconds: i64::MAX }), "INFO", "y"),
    ];
    let stats = compute_statistics(&entries);
    assert_eq!(stats.time_span.unwrap().duration_seconds, u64::MAX);
}
